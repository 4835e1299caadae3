use limetrace_backend::db::{Database, SegmentInsert};
use limetrace_backend::monitor::{ActiveWindow, ActivityKind, ActivitySample};
use limetrace_backend::recorder::Recorder;

fn active_sample(ts: i64, pid: u32, pid_create_time: Option<u64>, title: &str) -> ActivitySample {
    ActivitySample {
        ts,
        kind: ActivityKind::Active(ActiveWindow {
            pid,
            pid_create_time,
            exe_name: String::from("app.exe"),
            process_path: String::from("C:/apps/app.exe"),
            window_title: String::from(title),
        }),
    }
}

fn idle_sample(ts: i64, idle_ms: u32) -> ActivitySample {
    ActivitySample { ts, kind: ActivityKind::Idle { idle_ms } }
}

fn recorder(rotate_every_secs: i64) -> Recorder {
    Recorder::new(Database::open_in_memory().unwrap(), rotate_every_secs)
}

fn rows(rec: &Recorder) -> Vec<SegmentInsert> {
    rec.database().segments_snapshot().unwrap()
}

#[test]
fn nothing_is_flushed_while_one_run_is_open() {
    let mut rec = recorder(0);
    rec.ingest(active_sample(100, 1, Some(7), "T")).unwrap();
    rec.ingest(active_sample(150, 1, Some(7), "T")).unwrap();
    assert_eq!(rows(&rec).len(), 0);
}

#[test]
fn flush_and_close_writes_the_open_segment() {
    let mut rec = recorder(0);
    rec.ingest(active_sample(100, 1, Some(7), "T")).unwrap();
    rec.ingest(active_sample(150, 1, Some(7), "T")).unwrap();
    rec.flush_and_close(160).unwrap();
    let rows = rows(&rec);
    assert_eq!(rows.len(), 1);
    assert_eq!((rows[0].start_ts, rows[0].end_ts), (100, 160));
    assert!(!rows[0].is_idle);
}

#[test]
fn flush_and_close_twice_is_a_no_op_the_second_time() {
    let mut rec = recorder(0);
    rec.ingest(active_sample(100, 1, Some(7), "T")).unwrap();
    rec.flush_and_close(200).unwrap();
    let after_first = rows(&rec);
    rec.flush_and_close(300).unwrap();
    let after_second = rows(&rec);
    assert_eq!(after_first.len(), after_second.len());
    assert_eq!(after_first.len(), 1);
    assert_eq!(after_second[0].end_ts, 200);
}

#[test]
fn flush_and_close_never_shortens() {
    let mut rec = recorder(0);
    rec.ingest(active_sample(100, 1, Some(7), "T")).unwrap();
    rec.ingest(active_sample(150, 1, Some(7), "T")).unwrap();
    rec.flush_and_close(120).unwrap();
    let rows = rows(&rec);
    assert_eq!((rows[0].start_ts, rows[0].end_ts), (100, 150));
}

#[test]
fn key_change_closes_the_previous_segment() {
    let mut rec = recorder(0);
    rec.ingest(active_sample(100, 1, Some(7), "One")).unwrap();
    rec.ingest(active_sample(130, 1, Some(7), "One")).unwrap();
    rec.ingest(active_sample(150, 1, Some(7), "Two")).unwrap();
    let rows = rows(&rec);
    assert_eq!(rows.len(), 1);
    assert_eq!((rows[0].start_ts, rows[0].end_ts), (100, 130));
}

#[test]
fn idle_backdating_trims_the_open_segment_in_memory() {
    // An active run [100,150] is still open when idleness that began at 150
    // is recognized at 170: the flushed active row ends at the cutoff and the
    // idle segment opens exactly there.
    let mut rec = recorder(0);
    rec.ingest(active_sample(100, 1, Some(7), "T")).unwrap();
    rec.ingest(active_sample(150, 1, Some(7), "T")).unwrap();
    rec.ingest(idle_sample(170, 20_000)).unwrap();
    rec.flush_and_close(170).unwrap();
    let rows = rows(&rec);
    assert_eq!(rows.len(), 2);
    assert!(!rows[0].is_idle);
    assert_eq!((rows[0].start_ts, rows[0].end_ts), (100, 150));
    assert!(rows[1].is_idle);
    assert_eq!((rows[1].start_ts, rows[1].end_ts), (150, 170));
}

#[test]
fn idle_backdating_trims_a_persisted_row() {
    // The active row [100,160) is already persisted (by rotation) when an
    // idle sample at 170 back-dates idleness to 150: the row is trimmed to
    // end at 150, not deleted, since it started before the cutoff.
    let mut rec = recorder(60);
    rec.ingest(active_sample(100, 1, Some(7), "T")).unwrap();
    rec.ingest(active_sample(160, 1, Some(7), "T")).unwrap();
    assert_eq!(rows(&rec).len(), 1);
    rec.ingest(idle_sample(170, 20_000)).unwrap();
    rec.flush_and_close(175).unwrap();
    let rows = rows(&rec);
    assert_eq!(rows.len(), 2);
    assert!(!rows[0].is_idle);
    assert_eq!((rows[0].start_ts, rows[0].end_ts), (100, 150));
    assert!(rows[1].is_idle);
    assert_eq!((rows[1].start_ts, rows[1].end_ts), (150, 175));
}

#[test]
fn idle_backdating_deletes_a_fully_covered_row() {
    // The active row [160,170) is persisted when an idle sample at 175
    // back-dates idleness to 155: the row started at or after the cutoff,
    // so it is deleted entirely.
    let mut rec = recorder(10);
    rec.ingest(active_sample(160, 1, Some(7), "T")).unwrap();
    rec.ingest(active_sample(170, 1, Some(7), "T")).unwrap();
    assert_eq!(rows(&rec).len(), 1);
    rec.ingest(idle_sample(175, 20_000)).unwrap();
    rec.flush_and_close(175).unwrap();
    let rows = rows(&rec);
    assert_eq!(rows.len(), 1);
    assert!(rows[0].is_idle);
    assert_eq!((rows[0].start_ts, rows[0].end_ts), (155, 175));
}

#[test]
fn rotation_bounds_row_duration_and_leaves_no_gaps() {
    // A constant key sampled every second for 25 seconds with a 10-second
    // rotation interval: at least two rows, none longer than the interval,
    // and together they cover the whole span without gaps or overlaps.
    let mut rec = recorder(10);
    let t0: i64 = 1000;
    for i in 0..=25 {
        rec.ingest(active_sample(t0 + i, 1, Some(7), "T")).unwrap();
    }
    rec.flush_and_close(t0 + 25).unwrap();
    let rows = rows(&rec);
    assert!(rows.len() >= 2);
    assert_eq!(rows.len(), 3);
    for r in &rows {
        assert!(r.end_ts - r.start_ts <= 10);
        assert!(!r.is_idle);
    }
    assert_eq!(rows[0].start_ts, t0);
    for w in rows.windows(2) {
        assert_eq!(w[0].end_ts, w[1].start_ts);
    }
    assert_eq!(rows[rows.len() - 1].end_ts, t0 + 25);
}

#[test]
fn recycled_pid_is_never_merged() {
    // Identical pid, different creation time: two distinct segments.
    let mut rec = recorder(0);
    rec.ingest(active_sample(100, 42, Some(1), "T")).unwrap();
    rec.ingest(active_sample(101, 42, Some(1), "T")).unwrap();
    rec.ingest(active_sample(102, 42, Some(2), "T")).unwrap();
    rec.ingest(active_sample(103, 42, Some(2), "T")).unwrap();
    rec.flush_and_close(103).unwrap();
    let rows = rows(&rec);
    assert_eq!(rows.len(), 2);
    assert_eq!((rows[0].start_ts, rows[0].end_ts), (100, 101));
    assert_eq!(rows[0].pid_create_time, Some(1));
    assert_eq!((rows[1].start_ts, rows[1].end_ts), (102, 103));
    assert_eq!(rows[1].pid_create_time, Some(2));
}

#[test]
fn consecutive_idle_samples_extend_one_segment() {
    let mut rec = recorder(0);
    rec.ingest(idle_sample(100, 5_000)).unwrap();
    rec.ingest(idle_sample(110, 15_000)).unwrap();
    rec.flush_and_close(110).unwrap();
    let rows = rows(&rec);
    assert_eq!(rows.len(), 1);
    assert!(rows[0].is_idle);
    assert_eq!((rows[0].start_ts, rows[0].end_ts), (95, 110));
}

#[test]
fn idle_to_active_transition_closes_the_idle_segment() {
    let mut rec = recorder(0);
    rec.ingest(idle_sample(100, 10_000)).unwrap();
    rec.ingest(active_sample(120, 1, Some(7), "T")).unwrap();
    rec.flush_and_close(130).unwrap();
    let rows = rows(&rec);
    assert_eq!(rows.len(), 2);
    assert!(rows[0].is_idle);
    assert_eq!((rows[0].start_ts, rows[0].end_ts), (90, 100));
    assert!(!rows[1].is_idle);
    assert_eq!((rows[1].start_ts, rows[1].end_ts), (120, 130));
}

#[test]
fn open_and_flushed_rows_never_overlap() {
    // A longer mixed stream; after the final flush all rows are pairwise
    // non-overlapping.
    let mut rec = recorder(5);
    rec.ingest(active_sample(100, 1, Some(1), "A")).unwrap();
    rec.ingest(active_sample(103, 1, Some(1), "A")).unwrap();
    rec.ingest(active_sample(106, 1, Some(1), "A")).unwrap();
    rec.ingest(active_sample(109, 1, Some(1), "B")).unwrap();
    rec.ingest(idle_sample(120, 9_000)).unwrap();
    rec.ingest(idle_sample(126, 15_000)).unwrap();
    rec.ingest(active_sample(130, 2, Some(9), "C")).unwrap();
    rec.flush_and_close(131).unwrap();
    let rows = rows(&rec);
    assert!(rows.len() >= 3);
    for i in 0..rows.len() {
        for j in (i + 1)..rows.len() {
            let a = &rows[i];
            let b = &rows[j];
            assert!(a.end_ts <= b.start_ts || b.end_ts <= a.start_ts);
        }
    }
}

#[test]
fn empty_window_title_resolves_no_title_id() {
    let mut rec = recorder(0);
    rec.ingest(active_sample(100, 1, Some(7), "")).unwrap();
    rec.ingest(active_sample(110, 1, Some(7), "")).unwrap();
    rec.flush_and_close(110).unwrap();
    let rows = rows(&rec);
    assert_eq!(rows.len(), 1);
    assert_eq!(rows[0].title_id, None);
    assert!(rows[0].app_id.is_some());
}

#[test]
fn zero_duration_runs_are_not_persisted() {
    let mut rec = recorder(0);
    rec.ingest(active_sample(100, 1, Some(7), "One")).unwrap();
    rec.ingest(active_sample(100, 1, Some(7), "Two")).unwrap();
    rec.flush_and_close(100).unwrap();
    let rows = rows(&rec);
    // Both runs had zero duration; neither becomes a row.
    assert_eq!(rows.len(), 0);
}
