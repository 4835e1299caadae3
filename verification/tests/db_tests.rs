use limetrace_backend::db::{bool_to_i64, Database, DbError, SegmentInsert};

fn row(start_ts: i64, end_ts: i64, is_idle: bool) -> SegmentInsert {
    SegmentInsert {
        start_ts,
        end_ts,
        app_id: None,
        title_id: None,
        is_idle,
        pid: None,
        pid_create_time: None,
    }
}

#[test]
fn bool_to_i64_encodes_idle_flag() {
    assert_eq!(bool_to_i64(true), 1);
    assert_eq!(bool_to_i64(false), 0);
}

#[test]
fn open_fails_on_unreachable_path() {
    let r = Database::open("/this-directory-does-not-exist-xyzzy/tracker.db");
    assert_eq!(r.err().unwrap(), DbError::OpenDatabase);
}

#[test]
fn open_database_describe_names_the_operation() {
    assert_eq!(DbError::OpenDatabase.describe(), "failed to open database");
    assert_eq!(DbError::InsertSegment.describe(), "failed to insert segment");
}

#[test]
fn upsert_app_round_trip_same_id_one_row() {
    let mut db = Database::open_in_memory().unwrap();
    let id1 = db.upsert_app("firefox.exe", "C:/Program Files/firefox.exe").unwrap();
    let id2 = db.upsert_app("firefox.exe", "C:/Program Files/firefox.exe").unwrap();
    assert_eq!(id1, id2);
    assert_eq!(db.app_count().unwrap(), 1);
}

#[test]
fn upsert_app_distinguishes_paths() {
    let mut db = Database::open_in_memory().unwrap();
    let _ = db.upsert_app("app.exe", "C:/one/app.exe").unwrap();
    let _ = db.upsert_app("app.exe", "C:/two/app.exe").unwrap();
    assert_eq!(db.app_count().unwrap(), 2);
}

#[test]
fn upsert_title_round_trip_same_id() {
    let mut db = Database::open_in_memory().unwrap();
    let id1 = db.upsert_title("Inbox").unwrap();
    let id2 = db.upsert_title("Inbox").unwrap();
    assert_eq!(id1, id2);
    let other = db.upsert_title("Settings").unwrap();
    assert_ne!(id1, other);
}

#[test]
fn insert_segment_appends_a_positive_duration_row() {
    let mut db = Database::open_in_memory().unwrap();
    db.insert_segment(&row(100, 150, false)).unwrap();
    let rows = db.segments_snapshot().unwrap();
    assert_eq!(rows.len(), 1);
    assert_eq!(rows[0].start_ts, 100);
    assert_eq!(rows[0].end_ts, 150);
    assert!(!rows[0].is_idle);
}

#[test]
fn insert_segment_drops_zero_duration_row() {
    let mut db = Database::open_in_memory().unwrap();
    db.insert_segment(&row(100, 150, false)).unwrap();
    db.insert_segment(&row(200, 200, false)).unwrap();
    assert_eq!(db.segments_snapshot().unwrap().len(), 1);
}

#[test]
fn insert_segment_drops_negative_duration_row() {
    let mut db = Database::open_in_memory().unwrap();
    db.insert_segment(&row(200, 150, true)).unwrap();
    assert_eq!(db.segments_snapshot().unwrap().len(), 0);
}

#[test]
fn truncate_deletes_active_rows_from_cutoff() {
    let mut db = Database::open_in_memory().unwrap();
    db.insert_segment(&row(160, 170, false)).unwrap();
    db.truncate_active_segments_from(155).unwrap();
    assert_eq!(db.segments_snapshot().unwrap().len(), 0);
}

#[test]
fn truncate_trims_straddling_active_rows() {
    let mut db = Database::open_in_memory().unwrap();
    db.insert_segment(&row(100, 160, false)).unwrap();
    db.truncate_active_segments_from(150).unwrap();
    let rows = db.segments_snapshot().unwrap();
    assert_eq!(rows.len(), 1);
    assert_eq!(rows[0].start_ts, 100);
    assert_eq!(rows[0].end_ts, 150);
}

#[test]
fn truncate_leaves_idle_rows_alone() {
    let mut db = Database::open_in_memory().unwrap();
    db.insert_segment(&row(100, 160, true)).unwrap();
    db.insert_segment(&row(160, 170, true)).unwrap();
    db.truncate_active_segments_from(150).unwrap();
    let rows = db.segments_snapshot().unwrap();
    assert_eq!(rows.len(), 2);
    assert_eq!(rows[0].end_ts, 160);
    assert_eq!(rows[1].end_ts, 170);
}

#[test]
fn truncate_leaves_older_active_rows_alone() {
    let mut db = Database::open_in_memory().unwrap();
    db.insert_segment(&row(10, 20, false)).unwrap();
    db.truncate_active_segments_from(150).unwrap();
    let rows = db.segments_snapshot().unwrap();
    assert_eq!(rows.len(), 1);
    assert_eq!(rows[0].end_ts, 20);
}

#[test]
fn segments_snapshot_keeps_insertion_order() {
    let mut db = Database::open_in_memory().unwrap();
    db.insert_segment(&row(1, 2, false)).unwrap();
    db.insert_segment(&row(5, 9, true)).unwrap();
    db.insert_segment(&row(9, 12, false)).unwrap();
    let rows = db.segments_snapshot().unwrap();
    let starts: Vec<i64> = rows.iter().map(|r| r.start_ts).collect();
    assert_eq!(starts, vec![1, 5, 9]);
}

#[test]
fn segment_row_fields_survive_the_round_trip() {
    let mut db = Database::open_in_memory().unwrap();
    let app_id = db.upsert_app("a.exe", "C:/a.exe").unwrap();
    let title_id = db.upsert_title("Window").unwrap();
    db.insert_segment(&SegmentInsert {
        start_ts: 7,
        end_ts: 11,
        app_id: Some(app_id),
        title_id: Some(title_id),
        is_idle: false,
        pid: Some(4242),
        pid_create_time: Some(987654321),
    })
    .unwrap();
    let rows = db.segments_snapshot().unwrap();
    assert_eq!(rows.len(), 1);
    assert_eq!(rows[0].app_id, Some(app_id));
    assert_eq!(rows[0].title_id, Some(title_id));
    assert_eq!(rows[0].pid, Some(4242));
    assert_eq!(rows[0].pid_create_time, Some(987654321));
}
