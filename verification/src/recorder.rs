//! The segment state machine: consumes activity samples, owns at most one
//! open segment, and decides when to extend, rotate, trim or close it,
//! delegating every durable write to the storage layer.
//!
//! The transition taken by one sample is written down once, as the spec
//! function `rec_step` over the open segment and the ghost view of the
//! segments table; `ingest` is proved to realize it. On top of that model
//! the no-overlap guarantee is stated and proved: a well-formed recorder's
//! open segment always lies strictly after every persisted row, so the two
//! can never overlap.

use vstd::prelude::*;

use crate::db::{flush_model, truncate_model, upsert_post, Database, DbError, SegmentInsert};
use crate::monitor::{ActiveWindow, ActivityKind, ActivitySample};

verus! {

/// The grouping key of a run of samples: two consecutive samples continue
/// the same segment iff their keys are equal. The optional process creation
/// time keeps a recycled pid from merging with an earlier run.
#[derive(Debug, Clone, Copy)]
pub struct SegmentKey {
    pub app_id: Option<i64>,
    pub title_id: Option<i64>,
    pub is_idle: bool,
    pub pid: Option<u32>,
    pub pid_create_time: Option<u64>,
}

/// The single in-memory segment still accumulating time.
#[derive(Debug, Clone, Copy)]
pub struct OpenSegment {
    pub start_ts: i64,
    pub end_ts: i64,
    pub key: SegmentKey,
}

/// Equality of optional row ids.
fn opt_i64_eq(a: &Option<i64>, b: &Option<i64>) -> (r: bool)
    ensures
        r == (*a == *b),
{
    match (a, b) {
        (Some(x), Some(y)) => *x == *y,
        (None, None) => true,
        _ => false,
    }
}

/// Equality of optional pids.
fn opt_u32_eq(a: &Option<u32>, b: &Option<u32>) -> (r: bool)
    ensures
        r == (*a == *b),
{
    match (a, b) {
        (Some(x), Some(y)) => *x == *y,
        (None, None) => true,
        _ => false,
    }
}

/// Equality of optional creation times.
fn opt_u64_eq(a: &Option<u64>, b: &Option<u64>) -> (r: bool)
    ensures
        r == (*a == *b),
{
    match (a, b) {
        (Some(x), Some(y)) => *x == *y,
        (None, None) => true,
        _ => false,
    }
}

impl SegmentKey {
    /// Structural equality of keys.
    pub fn key_eq(&self, other: &SegmentKey) -> (r: bool)
        ensures
            r == (*self == *other),
    {
        opt_i64_eq(&self.app_id, &other.app_id) && opt_i64_eq(&self.title_id, &other.title_id)
            && self.is_idle == other.is_idle && opt_u32_eq(&self.pid, &other.pid) && opt_u64_eq(
            &self.pid_create_time,
            &other.pid_create_time,
        )
    }
}

/// The key under which idle time is recorded: no app, no title, no process.
pub open spec fn spec_idle_key() -> SegmentKey {
    SegmentKey { app_id: None, title_id: None, is_idle: true, pid: None, pid_create_time: None }
}

/// When idleness actually began: the sample's timestamp backed off by the
/// whole seconds of measured idle time, saturating at the smallest
/// timestamp.
pub open spec fn idle_start_of(ts: i64, idle_ms: u32) -> i64 {
    let secs = idle_ms / 1000;
    if ts - secs < i64::MIN {
        i64::MIN
    } else {
        (ts - secs) as i64
    }
}

/// The fact row an open segment flushes to.
pub open spec fn row_of(seg: OpenSegment) -> SegmentInsert {
    SegmentInsert {
        start_ts: seg.start_ts,
        end_ts: seg.end_ts,
        app_id: seg.key.app_id,
        title_id: seg.key.title_id,
        is_idle: seg.key.is_idle,
        pid: seg.key.pid,
        pid_create_time: seg.key.pid_create_time,
    }
}

/// On an active-to-idle transition the previous open segment is clamped to
/// end where idleness began, so the reclaimed tail is not double-counted.
pub open spec fn clamp_for_idle(
    prev: OpenSegment,
    new_key: SegmentKey,
    start_candidate: i64,
) -> OpenSegment {
    if new_key.is_idle && !prev.key.is_idle && start_candidate < prev.end_ts {
        OpenSegment { end_ts: start_candidate, ..prev }
    } else {
        prev
    }
}

/// An open segment has run long enough to be rotated out.
pub open spec fn rotation_due(seg: OpenSegment, rotate_every_secs: i64) -> bool {
    rotate_every_secs > 0 && seg.end_ts - seg.start_ts >= rotate_every_secs
}

/// One step of the segment state machine, after the sample has been
/// classified into its key, its segment start candidate and its timestamp:
/// a key-equal sample extends the open segment (rotating it out if it has
/// grown past the rotation interval); any other sample closes the previous
/// segment (clamped on an active-to-idle transition) and opens a fresh one.
pub open spec fn rec_step(
    cur: Option<OpenSegment>,
    segs: Seq<SegmentInsert>,
    key: SegmentKey,
    start_candidate: i64,
    ts: i64,
    rotate_every_secs: i64,
) -> (Option<OpenSegment>, Seq<SegmentInsert>) {
    match cur {
        Some(prev) => {
            if prev.key == key {
                let extended = OpenSegment { end_ts: ts, ..prev };
                if rotation_due(extended, rotate_every_secs) {
                    (
                        Some(OpenSegment { start_ts: ts, end_ts: ts, key }),
                        flush_model(segs, row_of(extended)),
                    )
                } else {
                    (Some(extended), segs)
                }
            } else {
                (
                    Some(OpenSegment { start_ts: start_candidate, end_ts: ts, key }),
                    flush_model(segs, row_of(clamp_for_idle(prev, key, start_candidate))),
                )
            }
        },
        None => (Some(OpenSegment { start_ts: start_candidate, end_ts: ts, key }), segs),
    }
}

/// The segments table after the final flush at shutdown: the open segment,
/// if any, is extended to the closing timestamp and flushed.
pub open spec fn close_model(
    cur: Option<OpenSegment>,
    segs: Seq<SegmentInsert>,
    now_ts: i64,
) -> Seq<SegmentInsert> {
    match cur {
        None => segs,
        Some(c) => flush_model(
            segs,
            row_of(
                OpenSegment {
                    end_ts: if now_ts > c.end_ts {
                        now_ts
                    } else {
                        c.end_ts
                    },
                    ..c
                },
            ),
        ),
    }
}

/// The key an active sample resolves to, given the dimension tables after
/// its upserts.
pub open spec fn active_key(
    w: ActiveWindow,
    apps: Map<(Seq<char>, Seq<char>), i64>,
    titles: Map<Seq<char>, i64>,
) -> SegmentKey {
    SegmentKey {
        app_id: Some(apps[(w.exe_name@, w.process_path@)]),
        title_id: if w.window_title@.len() == 0 {
            None
        } else {
            Some(titles[w.window_title@])
        },
        is_idle: false,
        pid: Some(w.pid),
        pid_create_time: w.pid_create_time,
    }
}

/// How an active sample's upserts change the dimension tables: each gains at
/// most the row for the sample's own key.
pub open spec fn dims_upserted(
    pre_apps: Map<(Seq<char>, Seq<char>), i64>,
    post_apps: Map<(Seq<char>, Seq<char>), i64>,
    pre_titles: Map<Seq<char>, i64>,
    post_titles: Map<Seq<char>, i64>,
    w: ActiveWindow,
) -> bool {
    let k = (w.exe_name@, w.process_path@);
    &&& post_apps == upsert_post(pre_apps, k, post_apps[k])
    &&& post_apps.contains_key(k)
    &&& if w.window_title@.len() == 0 {
        post_titles == pre_titles
    } else {
        post_titles == upsert_post(pre_titles, w.window_title@, post_titles[w.window_title@])
            && post_titles.contains_key(w.window_title@)
    }
}

/// What a successful `ingest` did, related to the state before the call.
pub open spec fn ingest_ok_post(pre: Recorder, post: Recorder, sample: ActivitySample) -> bool {
    match sample.kind {
        ActivityKind::Idle { idle_ms } => {
            let cutoff = idle_start_of(sample.ts, idle_ms);
            &&& post.apps() == pre.apps()
            &&& post.titles() == pre.titles()
            &&& (post.current(), post.segments()) == rec_step(
                pre.current(),
                truncate_model(pre.segments(), cutoff),
                spec_idle_key(),
                cutoff,
                sample.ts,
                pre.rotate(),
            )
        },
        ActivityKind::Active(w) => {
            &&& dims_upserted(pre.apps(), post.apps(), pre.titles(), post.titles(), w)
            &&& (post.current(), post.segments()) == rec_step(
                pre.current(),
                pre.segments(),
                active_key(w, post.apps(), post.titles()),
                sample.ts,
                sample.ts,
                pre.rotate(),
            )
        },
    }
}

/// What holds after a failed `ingest`: the open segment is either untouched
/// or already handed to the (failed) flush and cleared, and the table has
/// seen at most the idle truncation. No row is ever added on failure.
pub open spec fn ingest_err_post(pre: Recorder, post: Recorder, sample: ActivitySample) -> bool {
    &&& post.current() == pre.current() || post.current() is None
    &&& (post.segments() == pre.segments() || (sample.kind matches ActivityKind::Idle { idle_ms }
        && post.segments() == truncate_model(pre.segments(), idle_start_of(sample.ts, idle_ms))))
}

/// Two half-open time intervals share an instant.
pub open spec fn intervals_overlap(s1: i64, e1: i64, s2: i64, e2: i64) -> bool {
    s1 < e2 && s2 < e1
}

/// Well-formedness of the recorder's segment state: the open segment, if
/// any, is a proper interval that starts no earlier than the end of every
/// persisted row, and idle time is only ever held under the one canonical
/// idle key.
pub open spec fn rec_wf(cur: Option<OpenSegment>, segs: Seq<SegmentInsert>) -> bool {
    match cur {
        Some(c) => {
            &&& c.start_ts <= c.end_ts
            &&& (c.key.is_idle ==> c.key == spec_idle_key())
            &&& forall|i: int| 0 <= i < segs.len() ==> (#[trigger] segs[i]).end_ts <= c.start_ts
        },
        None => true,
    }
}

/// The conditions under which one sample preserves well-formedness: time
/// does not run backwards (the sample is not older than the open segment's
/// end), and an idle sample's back-dated start does not reach back before
/// the end of an already persisted idle row. Active rows need no such
/// condition: the retroactive truncation corrects them.
pub open spec fn ingest_safe(
    cur: Option<OpenSegment>,
    segs: Seq<SegmentInsert>,
    sample: ActivitySample,
) -> bool {
    &&& (cur matches Some(c) ==> sample.ts >= c.end_ts)
    &&& match sample.kind {
        ActivityKind::Idle { idle_ms } => forall|i: int|
            0 <= i < segs.len() && (#[trigger] segs[i]).is_idle ==> segs[i].end_ts
                <= idle_start_of(sample.ts, idle_ms),
        ActivityKind::Active(_) => cur is None ==> forall|i: int|
            0 <= i < segs.len() ==> (#[trigger] segs[i]).end_ts <= sample.ts,
    }
}

/// The segment state machine. It owns the single open segment and the
/// database handle, and is driven by one `ingest` call per sample.
pub struct Recorder {
    db: Database,
    current: Option<OpenSegment>,
    rotate_every_secs: i64,
}

impl Recorder {
    /// The persisted segment rows.
    pub closed spec fn segments(&self) -> Seq<SegmentInsert> {
        self.db.segments()
    }

    /// The persisted apps dimension.
    pub closed spec fn apps(&self) -> Map<(Seq<char>, Seq<char>), i64> {
        self.db.apps()
    }

    /// The persisted titles dimension.
    pub closed spec fn titles(&self) -> Map<Seq<char>, i64> {
        self.db.titles()
    }

    /// The open segment, if any.
    pub closed spec fn current(&self) -> Option<OpenSegment> {
        self.current
    }

    /// The configured rotation interval in seconds; zero or negative
    /// disables rotation.
    pub closed spec fn rotate(&self) -> i64 {
        self.rotate_every_secs
    }

    /// Well-formedness of the underlying storage handle.
    pub closed spec fn inv(&self) -> bool {
        self.db.inv()
    }

    /// A recorder with no open segment, recording into `db` and rotating
    /// open segments after `rotate_every_secs` seconds.
    pub fn new(db: Database, rotate_every_secs: i64) -> (rec: Recorder)
        ensures
            rec.current() is None,
            rec.rotate() == rotate_every_secs,
            rec.segments() == db.segments(),
            rec.apps() == db.apps(),
            rec.titles() == db.titles(),
            db.inv() ==> rec.inv(),
    {
        Recorder { db, current: None, rotate_every_secs }
    }

    /// Read access to the storage handle, for inspection.
    pub fn database(&self) -> (d: &Database)
        ensures
            d.segments() == self.segments(),
            d.apps() == self.apps(),
            d.titles() == self.titles(),
            self.inv() ==> d.inv(),
    {
        &self.db
    }

    /// The key under which idle time is recorded.
    fn idle_key() -> (k: SegmentKey)
        ensures
            k == spec_idle_key(),
    {
        SegmentKey {
            app_id: None,
            title_id: None,
            is_idle: true,
            pid: None,
            pid_create_time: None,
        }
    }

    /// Writes one closed segment to storage as a fact row.
    fn flush_segment(&mut self, segment: &OpenSegment) -> (r: Result<(), DbError>)
        requires
            old(self).inv(),
        ensures
            final(self).inv(),
            final(self).rotate() == old(self).rotate(),
            final(self).current() == old(self).current(),
            final(self).apps() == old(self).apps(),
            final(self).titles() == old(self).titles(),
            r is Ok ==> final(self).segments() == flush_model(old(self).segments(), row_of(*segment)),
            r is Err ==> final(self).segments() == old(self).segments(),
    {
        let row = SegmentInsert {
            start_ts: segment.start_ts,
            end_ts: segment.end_ts,
            app_id: segment.key.app_id,
            title_id: segment.key.title_id,
            is_idle: segment.key.is_idle,
            pid: segment.key.pid,
            pid_create_time: segment.key.pid_create_time,
        };
        self.db.insert_segment(&row)
    }

    /// Whether an open segment spanning `start_ts..end_ts` has reached the
    /// rotation interval.
    fn duration_reaches(start_ts: i64, end_ts: i64, rotate_every_secs: i64) -> (r: bool)
        ensures
            r == (end_ts - start_ts >= rotate_every_secs),
    {
        (end_ts as i128) - (start_ts as i128) >= (rotate_every_secs as i128)
    }

    /// Resolves the sample to its segment key; an active sample first
    /// resolves its dimension ids through the get-or-create upserts.
    fn build_key(&mut self, sample: &ActivitySample) -> (r: Result<SegmentKey, DbError>)
        requires
            old(self).inv(),
        ensures
            final(self).inv(),
            final(self).rotate() == old(self).rotate(),
            final(self).current() == old(self).current(),
            final(self).segments() == old(self).segments(),
            r is Ok ==> match sample.kind {
                ActivityKind::Idle { .. } => final(self).apps() == old(self).apps()
                    && final(self).titles() == old(self).titles() && r->Ok_0 == spec_idle_key(),
                ActivityKind::Active(w) => dims_upserted(
                    old(self).apps(),
                    final(self).apps(),
                    old(self).titles(),
                    final(self).titles(),
                    w,
                ) && r->Ok_0 == active_key(w, final(self).apps(), final(self).titles()),
            },
    {
        match &sample.kind {
            ActivityKind::Idle { .. } => Ok(Self::idle_key()),
            ActivityKind::Active(active) => {
                let app_id = match self.db.upsert_app(
                    active.exe_name.as_str(),
                    active.process_path.as_str(),
                ) {
                    Ok(id) => id,
                    Err(e) => {
                        return Err(e);
                    },
                };
                let title_id = if active.window_title.as_str().is_empty() {
                    None
                } else {
                    match self.db.upsert_title(active.window_title.as_str()) {
                        Ok(id) => Some(id),
                        Err(e) => {
                            return Err(e);
                        },
                    }
                };
                Ok(
                    SegmentKey {
                        app_id: Some(app_id),
                        title_id,
                        is_idle: false,
                        pid: Some(active.pid),
                        pid_create_time: active.pid_create_time,
                    },
                )
            },
        }
    }

    /// Closes the previous open segment, if any (clamping it on an
    /// active-to-idle transition so the reclaimed tail is not
    /// double-counted), and opens a fresh one.
    fn reopen(
        &mut self,
        prev: Option<OpenSegment>,
        key: SegmentKey,
        segment_start_ts: i64,
        sample_ts: i64,
    ) -> (r: Result<(), DbError>)
        requires
            old(self).inv(),
            old(self).current() is None,
        ensures
            final(self).inv(),
            final(self).rotate() == old(self).rotate(),
            final(self).apps() == old(self).apps(),
            final(self).titles() == old(self).titles(),
            r is Ok ==> final(self).current() == Some(
                OpenSegment { start_ts: segment_start_ts, end_ts: sample_ts, key },
            ) && final(self).segments() == (match prev {
                Some(p) => flush_model(
                    old(self).segments(),
                    row_of(clamp_for_idle(p, key, segment_start_ts)),
                ),
                None => old(self).segments(),
            }),
            r is Err ==> final(self).current() is None && final(self).segments() == old(
                self,
            ).segments(),
    {
        if let Some(previous) = prev {
            let mut previous = previous;
            if key.is_idle && !previous.key.is_idle && segment_start_ts < previous.end_ts {
                previous.end_ts = segment_start_ts;
            }
            match self.flush_segment(&previous) {
                Ok(()) => (),
                Err(e) => {
                    return Err(e);
                },
            }
        }
        self.current = Some(OpenSegment { start_ts: segment_start_ts, end_ts: sample_ts, key });
        Ok(())
    }

    /// Consumes one activity sample: classifies it, applies the retroactive
    /// idle truncation before any bookkeeping, and then takes one step of the
    /// segment state machine (`rec_step`). On failure the sample is lost but
    /// nothing is corrupted: no row is added, and the open segment is either
    /// untouched or already cleared; well-formedness is preserved either way.
    pub fn ingest(&mut self, sample: ActivitySample) -> (r: Result<(), DbError>)
        requires
            old(self).inv(),
        ensures
            final(self).inv(),
            final(self).rotate() == old(self).rotate(),
            r is Ok ==> ingest_ok_post(*old(self), *final(self), sample),
            r is Err ==> ingest_err_post(*old(self), *final(self), sample),
            rec_wf(old(self).current(), old(self).segments()) && ingest_safe(
                old(self).current(),
                old(self).segments(),
                sample,
            ) ==> rec_wf(final(self).current(), final(self).segments()),
    {
        let sample_ts = sample.ts;
        let (key, segment_start_ts, trim_after): (SegmentKey, i64, Option<i64>) = match &sample.kind {
            ActivityKind::Idle { idle_ms } => {
                let idle_secs: i64 = (*idle_ms / 1000) as i64;
                let idle_start_ts: i64 = if sample_ts >= i64::MIN + idle_secs {
                    sample_ts - idle_secs
                } else {
                    i64::MIN
                };
                proof {
                    assert(idle_start_ts == idle_start_of(sample_ts, *idle_ms));
                }
                (Self::idle_key(), idle_start_ts, Some(idle_start_ts))
            },
            ActivityKind::Active(_) => {
                let k = match self.build_key(&sample) {
                    Ok(k) => k,
                    Err(e) => {
                        return Err(e);
                    },
                };
                (k, sample_ts, None)
            },
        };
        if let Some(cutoff_ts) = trim_after {
            match self.db.truncate_active_segments_from(cutoff_ts) {
                Ok(()) => (),
                Err(e) => {
                    return Err(e);
                },
            }
        }

        proof {
            if rec_wf(old(self).current(), old(self).segments()) && ingest_safe(
                old(self).current(),
                old(self).segments(),
                sample,
            ) {
                match sample.kind {
                    ActivityKind::Idle { idle_ms } => {
                        lemma_ingest_wf_idle(
                            old(self).current(),
                            old(self).segments(),
                            sample_ts,
                            idle_ms,
                            old(self).rotate(),
                        );
                    },
                    ActivityKind::Active(_) => {
                        lemma_ingest_wf_active(
                            old(self).current(),
                            old(self).segments(),
                            key,
                            sample_ts,
                            old(self).rotate(),
                        );
                    },
                }
            }
        }

        let taken = self.current.take();
        match taken {
            Some(cur0) => {
                if cur0.key.key_eq(&key) {
                    let mut cur = cur0;
                    cur.end_ts = sample_ts;
                    let due = self.rotate_every_secs > 0 && Self::duration_reaches(
                        cur.start_ts,
                        cur.end_ts,
                        self.rotate_every_secs,
                    );
                    if due {
                        match self.flush_segment(&cur) {
                            Ok(()) => (),
                            Err(e) => {
                                return Err(e);
                            },
                        }
                        self.current = Some(
                            OpenSegment { start_ts: sample_ts, end_ts: sample_ts, key },
                        );
                    } else {
                        self.current = Some(cur);
                    }
                    Ok(())
                } else {
                    self.reopen(Some(cur0), key, segment_start_ts, sample_ts)
                }
            },
            None => self.reopen(None, key, segment_start_ts, sample_ts),
        }
    }

    /// The final write at shutdown: the open segment, if any, is extended to
    /// `now_ts` (never shortened), flushed, and cleared. Calling this again
    /// with no open segment changes nothing and succeeds, so a second call
    /// in a row is a no-op.
    pub fn flush_and_close(&mut self, now_ts: i64) -> (r: Result<(), DbError>)
        requires
            old(self).inv(),
        ensures
            final(self).inv(),
            final(self).rotate() == old(self).rotate(),
            final(self).apps() == old(self).apps(),
            final(self).titles() == old(self).titles(),
            final(self).current() is None,
            r is Ok ==> final(self).segments() == close_model(
                old(self).current(),
                old(self).segments(),
                now_ts,
            ),
            r is Err ==> final(self).segments() == old(self).segments(),
            old(self).current() is None ==> r is Ok && *final(self) == *old(self),
    {
        match self.current.take() {
            Some(current) => {
                let mut current = current;
                if now_ts > current.end_ts {
                    current.end_ts = now_ts;
                }
                self.flush_segment(&current)
            },
            None => Ok(()),
        }
    }
}

/// After truncation at `cutoff` every remaining row ends at or before the
/// cutoff, provided the idle rows already did: deleted active rows are gone,
/// straddling active rows are shortened to it, and idle rows are untouched.
proof fn lemma_truncate_end_bound(s: Seq<SegmentInsert>, cutoff: i64)
    requires
        forall|i: int| 0 <= i < s.len() && (#[trigger] s[i]).is_idle ==> s[i].end_ts <= cutoff,
    ensures
        forall|i: int|
            0 <= i < truncate_model(s, cutoff).len() ==> (#[trigger] truncate_model(s, cutoff)[i]).end_ts
                <= cutoff,
    decreases s.len(),
{
    if s.len() > 0 {
        let rest = s.drop_last();
        assert forall|i: int| 0 <= i < rest.len() && (#[trigger] rest[i]).is_idle implies rest[i].end_ts
            <= cutoff by {
            assert(rest[i] == s[i]);
        }
        lemma_truncate_end_bound(rest, cutoff);
        let last = s.last();
        if last.is_idle {
            assert(s[s.len() - 1].is_idle);
        }
        let t = truncate_model(s, cutoff);
        let tr = truncate_model(rest, cutoff);
        assert forall|i: int| 0 <= i < t.len() implies (#[trigger] t[i]).end_ts <= cutoff by {
            if i < tr.len() {
                assert(t[i] == tr[i]);
            }
        }
    }
}

/// Truncation never raises an end timestamp: a bound on every row's end
/// still holds afterwards.
proof fn lemma_truncate_keeps_bound(s: Seq<SegmentInsert>, cutoff: i64, bound: i64)
    requires
        forall|i: int| 0 <= i < s.len() ==> (#[trigger] s[i]).end_ts <= bound,
    ensures
        forall|i: int|
            0 <= i < truncate_model(s, cutoff).len() ==> (#[trigger] truncate_model(s, cutoff)[i]).end_ts
                <= bound,
    decreases s.len(),
{
    if s.len() > 0 {
        let rest = s.drop_last();
        assert forall|i: int| 0 <= i < rest.len() implies (#[trigger] rest[i]).end_ts <= bound by {
            assert(rest[i] == s[i]);
        }
        lemma_truncate_keeps_bound(rest, cutoff, bound);
        assert(s[s.len() - 1].end_ts <= bound);
        let t = truncate_model(s, cutoff);
        let tr = truncate_model(rest, cutoff);
        assert forall|i: int| 0 <= i < t.len() implies (#[trigger] t[i]).end_ts <= bound by {
            if i < tr.len() {
                assert(t[i] == tr[i]);
            }
        }
    }
}

/// An active sample preserves well-formedness, provided time has not run
/// backwards: the sample is not older than the open segment's end, and with
/// no open segment not older than any persisted row.
pub proof fn lemma_ingest_wf_active(
    cur: Option<OpenSegment>,
    segs: Seq<SegmentInsert>,
    key: SegmentKey,
    ts: i64,
    rotate_every_secs: i64,
)
    requires
        rec_wf(cur, segs),
        !key.is_idle,
        cur matches Some(c) ==> ts >= c.end_ts,
        cur is None ==> forall|i: int| 0 <= i < segs.len() ==> (#[trigger] segs[i]).end_ts <= ts,
    ensures
        ({
            let (c2, s2) = rec_step(cur, segs, key, ts, ts, rotate_every_secs);
            rec_wf(c2, s2)
        }),
{
    match cur {
        None => {},
        Some(prev) => {
            if prev.key == key {
                let extended = OpenSegment { end_ts: ts, ..prev };
                if rotation_due(extended, rotate_every_secs) {
                    let s2 = flush_model(segs, row_of(extended));
                    assert forall|i: int| 0 <= i < s2.len() implies (#[trigger] s2[i]).end_ts <= ts by {
                        if i < segs.len() {
                            assert(segs[i].end_ts <= prev.start_ts);
                        }
                    }
                }
            } else {
                let flushed = row_of(clamp_for_idle(prev, key, ts));
                let s2 = flush_model(segs, flushed);
                assert(flushed.end_ts <= ts);
                assert forall|i: int| 0 <= i < s2.len() implies (#[trigger] s2[i]).end_ts <= ts by {
                    if i < segs.len() {
                        assert(segs[i].end_ts <= prev.start_ts);
                    }
                }
            }
        },
    }
}

/// An idle sample preserves well-formedness, provided time has not run
/// backwards and the back-dated idle start does not reach back before the
/// end of any persisted idle row; persisted active rows need no condition,
/// because the truncation that precedes the step corrects them.
pub proof fn lemma_ingest_wf_idle(
    cur: Option<OpenSegment>,
    segs: Seq<SegmentInsert>,
    ts: i64,
    idle_ms: u32,
    rotate_every_secs: i64,
)
    requires
        rec_wf(cur, segs),
        cur matches Some(c) ==> ts >= c.end_ts,
        forall|i: int|
            0 <= i < segs.len() && (#[trigger] segs[i]).is_idle ==> segs[i].end_ts <= idle_start_of(
                ts,
                idle_ms,
            ),
    ensures
        ({
            let cutoff = idle_start_of(ts, idle_ms);
            let (c2, s2) = rec_step(
                cur,
                truncate_model(segs, cutoff),
                spec_idle_key(),
                cutoff,
                ts,
                rotate_every_secs,
            );
            rec_wf(c2, s2)
        }),
{
    let cutoff = idle_start_of(ts, idle_ms);
    let tsegs = truncate_model(segs, cutoff);
    lemma_truncate_end_bound(segs, cutoff);
    assert(cutoff <= ts);
    match cur {
        None => {},
        Some(prev) => {
            lemma_truncate_keeps_bound(segs, cutoff, prev.start_ts);
            if prev.key == spec_idle_key() {
                let extended = OpenSegment { end_ts: ts, ..prev };
                if rotation_due(extended, rotate_every_secs) {
                    let s2 = flush_model(tsegs, row_of(extended));
                    assert forall|i: int| 0 <= i < s2.len() implies (#[trigger] s2[i]).end_ts <= ts by {
                        if i < tsegs.len() {
                            assert(tsegs[i].end_ts <= prev.start_ts);
                        }
                    }
                }
            } else {
                let flushed = row_of(clamp_for_idle(prev, spec_idle_key(), cutoff));
                let s2 = flush_model(tsegs, flushed);
                assert(flushed.end_ts <= cutoff);
                assert forall|i: int| 0 <= i < s2.len() implies (#[trigger] s2[i]).end_ts <= cutoff by {
                    if i < tsegs.len() {
                        assert(tsegs[i].end_ts <= cutoff);
                    }
                }
            }
        },
    }
}

/// The no-overlap guarantee: a well-formed recorder's open segment shares no
/// instant with any persisted row — every persisted row ends at or before
/// the open segment's start.
pub proof fn lemma_wf_open_segment_disjoint(
    cur: Option<OpenSegment>,
    segs: Seq<SegmentInsert>,
    i: int,
)
    requires
        rec_wf(cur, segs),
        cur is Some,
        0 <= i < segs.len(),
    ensures
        !intervals_overlap(segs[i].start_ts, segs[i].end_ts, cur->0.start_ts, cur->0.end_ts),
{
}

/// A sample whose key differs from the open segment's — in particular one
/// whose pid was recycled, carrying the same pid but a different creation
/// time — never extends that segment: the step closes the previous segment
/// and opens a fresh one at the sample's own start candidate.
pub proof fn lemma_changed_key_never_merges(
    prev: OpenSegment,
    segs: Seq<SegmentInsert>,
    key: SegmentKey,
    start_candidate: i64,
    ts: i64,
    rotate_every_secs: i64,
)
    requires
        prev.key != key,
    ensures
        ({
            let (c2, s2) = rec_step(Some(prev), segs, key, start_candidate, ts, rotate_every_secs);
            &&& c2 == Some(OpenSegment { start_ts: start_candidate, end_ts: ts, key })
            &&& s2 == flush_model(segs, row_of(clamp_for_idle(prev, key, start_candidate)))
        }),
{
}

/// Pid recycling: a sample whose key carries the same pid as the open
/// segment's but a different process creation time belongs to a different
/// process lifetime, so the two are never merged into one run: the step
/// closes the open segment and opens a fresh one.
pub proof fn lemma_pid_recycling_never_merges(
    prev: OpenSegment,
    segs: Seq<SegmentInsert>,
    key: SegmentKey,
    start_candidate: i64,
    ts: i64,
    rotate_every_secs: i64,
)
    requires
        prev.key.pid == key.pid,
        prev.key.pid_create_time != key.pid_create_time,
    ensures
        ({
            let (c2, s2) = rec_step(Some(prev), segs, key, start_candidate, ts, rotate_every_secs);
            &&& c2 == Some(OpenSegment { start_ts: start_candidate, end_ts: ts, key })
            &&& s2 == flush_model(segs, row_of(clamp_for_idle(prev, key, start_candidate)))
        }),
{
    lemma_changed_key_never_merges(prev, segs, key, start_candidate, ts, rotate_every_secs);
}

/// Rotation never leaves a gap: when a key-equal sample rotates the open
/// segment out, the flushed row ends exactly where the reopened segment
/// starts, at the sample's timestamp.
pub proof fn lemma_rotation_continuity(
    prev: OpenSegment,
    segs: Seq<SegmentInsert>,
    key: SegmentKey,
    start_candidate: i64,
    ts: i64,
    rotate_every_secs: i64,
)
    requires
        prev.key == key,
        rotation_due(OpenSegment { end_ts: ts, ..prev }, rotate_every_secs),
    ensures
        ({
            let (c2, s2) = rec_step(Some(prev), segs, key, start_candidate, ts, rotate_every_secs);
            &&& c2 == Some(OpenSegment { start_ts: ts, end_ts: ts, key })
            &&& s2 == flush_model(segs, row_of(OpenSegment { end_ts: ts, ..prev }))
            &&& row_of(OpenSegment { end_ts: ts, ..prev }).end_ts == c2->0.start_ts
        }),
{
}

} // verus!
