//! Activity samples and the monitor's in-process bookkeeping.
//!
//! The raw OS introspection (foreground window, idle tick count, process
//! metadata) lives outside this library; what is verified here is the shape
//! of the samples, the idle-threshold decision, and the process-identity
//! cache keyed by `(pid, creation_time)` so that a recycled pid belonging to
//! a different process lifetime never reuses a stale identity.

use vstd::prelude::*;

verus! {

/// Identity of the foreground process and window at capture time.
#[derive(Debug, Clone)]
pub struct ActiveWindow {
    pub pid: u32,
    pub pid_create_time: Option<u64>,
    pub exe_name: String,
    pub process_path: String,
    pub window_title: String,
}

/// What the user was doing at capture time.
#[derive(Debug, Clone)]
pub enum ActivityKind {
    Idle { idle_ms: u32 },
    Active(ActiveWindow),
}

/// One sample of the activity stream: a Unix timestamp in seconds plus the
/// observed activity.
#[derive(Debug, Clone)]
pub struct ActivitySample {
    pub ts: i64,
    pub kind: ActivityKind,
}

/// One memoized process identity.
struct ProcessCacheEntry {
    pid: u32,
    creation_time: u64,
    exe_name: String,
    process_path: String,
}

/// The process cache is cleared rather than grown past this many entries.
pub const PROCESS_CACHE_LIMIT: usize = 4096;

/// The monitor's verified state: the idle threshold against which samples
/// are classified, and the process-identity cache.
pub struct WindowsMonitor {
    idle_threshold_ms: u32,
    process_cache: Vec<ProcessCacheEntry>,
}

impl WindowsMonitor {
    /// The idle threshold in milliseconds.
    pub closed spec fn threshold_ms(&self) -> u32 {
        self.idle_threshold_ms
    }

    /// The cache contents, as `(pid, creation_time, exe_name, process_path)`.
    pub closed spec fn cache(&self) -> Seq<(u32, u64, Seq<char>, Seq<char>)> {
        self.process_cache@.map_values(
            |e: ProcessCacheEntry| (e.pid, e.creation_time, e.exe_name@, e.process_path@),
        )
    }

    /// A monitor with the given idle threshold (saturated to fit a tick
    /// count) and an empty cache.
    pub fn new(idle_threshold_ms: u64) -> (m: WindowsMonitor)
        ensures
            m.threshold_ms() == (if idle_threshold_ms > u32::MAX {
                u32::MAX as u64
            } else {
                idle_threshold_ms
            }),
            m.cache() == Seq::<(u32, u64, Seq<char>, Seq<char>)>::empty(),
    {
        let capped: u32 = if idle_threshold_ms >= u32::MAX as u64 {
            u32::MAX
        } else {
            idle_threshold_ms as u32
        };
        let m = WindowsMonitor { idle_threshold_ms: capped, process_cache: Vec::new() };
        proof {
            assert(m.cache() =~= Seq::<(u32, u64, Seq<char>, Seq<char>)>::empty());
        }
        m
    }

    /// Whether a measured idle time reaches the configured threshold, so
    /// that the sample is classified as idle rather than active.
    pub fn idle_reached(&self, idle_ms: u32) -> (r: bool)
        ensures
            r == (idle_ms >= self.threshold_ms()),
    {
        idle_ms >= self.idle_threshold_ms
    }

    /// The memoized identity for `(pid, pid_create_time)`, if one is cached;
    /// without a creation time no identity is trusted, since the pid alone
    /// may have been recycled.
    pub fn cached_process(&self, pid: u32, pid_create_time: Option<u64>) -> (r: Option<
        (String, String),
    >)
        ensures
            pid_create_time is None ==> r is None,
            r is Some ==> pid_create_time is Some && ({
                let (exe, path) = r->0;
                exists|i: int|
                    0 <= i < self.cache().len() && (#[trigger] self.cache()[i]).0 == pid
                        && self.cache()[i].1 == pid_create_time->0 && self.cache()[i].2 == exe@
                        && self.cache()[i].3 == path@
            }),
            r is None && pid_create_time is Some ==> forall|i: int|
                0 <= i < self.cache().len() ==> !((#[trigger] self.cache()[i]).0 == pid
                    && self.cache()[i].1 == pid_create_time->0),
    {
        let creation_time = match pid_create_time {
            Some(t) => t,
            None => {
                return None;
            },
        };
        let n = self.process_cache.len();
        let mut i: usize = 0;
        while i < n
            invariant
                0 <= i <= n,
                n == self.process_cache@.len(),
                self.cache().len() == n,
                pid_create_time == Some(creation_time),
                forall|j: int|
                    0 <= j < i ==> !((#[trigger] self.cache()[j]).0 == pid && self.cache()[j].1
                        == creation_time),
            decreases n - i,
        {
            let entry = &self.process_cache[i];
            if entry.pid == pid && entry.creation_time == creation_time {
                proof {
                    assert(self.cache()[i as int] == (
                        entry.pid,
                        entry.creation_time,
                        entry.exe_name@,
                        entry.process_path@,
                    ));
                }
                return Some((entry.exe_name.clone(), entry.process_path.clone()));
            }
            i = i + 1;
        }
        None
    }

    /// Memoizes a freshly resolved process identity. Identities without a
    /// creation time are not cached. When the cache has reached its limit it
    /// is cleared first, which keeps it bounded.
    pub fn record_process(
        &mut self,
        pid: u32,
        pid_create_time: Option<u64>,
        exe_name: &str,
        process_path: &str,
    )
        ensures
            final(self).threshold_ms() == old(self).threshold_ms(),
            pid_create_time is None ==> final(self).cache() == old(self).cache(),
            pid_create_time matches Some(t) ==> final(self).cache() == (if old(self).cache().len()
                >= PROCESS_CACHE_LIMIT {
                Seq::<(u32, u64, Seq<char>, Seq<char>)>::empty()
            } else {
                old(self).cache()
            }).push((pid, t, exe_name@, process_path@)),
    {
        let creation_time = match pid_create_time {
            Some(t) => t,
            None => {
                return;
            },
        };
        if self.process_cache.len() >= PROCESS_CACHE_LIMIT {
            self.process_cache.clear();
        }
        self.process_cache.push(
            ProcessCacheEntry {
                pid,
                creation_time,
                exe_name: exe_name.to_owned(),
                process_path: process_path.to_owned(),
            },
        );
        proof {
            assert(self.cache() =~= (if old(self).cache().len() >= PROCESS_CACHE_LIMIT {
                Seq::<(u32, u64, Seq<char>, Seq<char>)>::empty()
            } else {
                old(self).cache()
            }).push((pid, creation_time, exe_name@, process_path@)));
        }
    }
}

} // verus!
