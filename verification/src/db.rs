//! Storage layer: owns the persistent schema (apps, titles, segments), the
//! in-process dimension caches, and the transactional retroactive truncation
//! of active segments.
//!
//! The persistent store is modelled by three ghost views of the underlying
//! SQLite connection: the `segments` table as a sequence of rows in insertion
//! order, and the two dimension tables as maps from their natural (unique)
//! keys to the surrogate row ids.

use vstd::prelude::*;

verus! {

/// One fact row of the `segments` table.
#[derive(Debug, Clone, Copy)]
pub struct SegmentInsert {
    pub start_ts: i64,
    pub end_ts: i64,
    pub app_id: Option<i64>,
    pub title_id: Option<i64>,
    pub is_idle: bool,
    pub pid: Option<u32>,
    pub pid_create_time: Option<u64>,
}

/// A storage operation that failed; each variant names the operation, as the
/// diagnostic context strings of the callers do. Storage errors are
/// recoverable per sample: the caller logs them and goes on.
#[derive(Debug, Clone, Copy, PartialEq, Eq, Structural)]
pub enum DbError {
    OpenDatabase,
    SetBusyTimeout,
    InitializeSchema,
    UpsertAppRow,
    ReadAppId,
    UpsertTitleRow,
    ReadTitleId,
    InsertSegment,
    TruncateSegments,
    ReadSegments,
    CountRows,
}

impl DbError {
    /// A short description of the failed operation, for logging.
    pub fn describe(&self) -> &'static str {
        match self {
            DbError::OpenDatabase => "failed to open database",
            DbError::SetBusyTimeout => "failed to set busy timeout",
            DbError::InitializeSchema => "failed to initialize schema",
            DbError::UpsertAppRow => "failed to upsert apps row",
            DbError::ReadAppId => "failed to read apps.id after upsert",
            DbError::UpsertTitleRow => "failed to upsert titles row",
            DbError::ReadTitleId => "failed to read titles.id after upsert",
            DbError::InsertSegment => "failed to insert segment",
            DbError::TruncateSegments => "failed to truncate active segments",
            DbError::ReadSegments => "failed to read segments back",
            DbError::CountRows => "failed to count rows",
        }
    }
}

#[verifier::external_type_specification]
#[verifier::external_body]
pub struct ExConnection(rusqlite::Connection);

/// The rows of the `segments` table, in rowid order.
pub uninterp spec fn segments_of(conn: rusqlite::Connection) -> Seq<SegmentInsert>;

/// The rows of the `apps` table, as a map from the unique natural key
/// `(exe_name, process_path)` to the surrogate id.
pub uninterp spec fn apps_of(conn: rusqlite::Connection) -> Map<(Seq<char>, Seq<char>), i64>;

/// The rows of the `titles` table, as a map from the unique `title` to the
/// surrogate id.
pub uninterp spec fn titles_of(conn: rusqlite::Connection) -> Map<Seq<char>, i64>;

/// The dimension tables hold finitely many rows.
pub open spec fn tables_finite(conn: rusqlite::Connection) -> bool {
    apps_of(conn).dom().finite() && titles_of(conn).dom().finite()
}

/// All three table views unchanged between two connection states.
pub open spec fn tables_unchanged(pre: rusqlite::Connection, post: rusqlite::Connection) -> bool {
    &&& segments_of(post) == segments_of(pre)
    &&& apps_of(post) == apps_of(pre)
    &&& titles_of(post) == titles_of(pre)
}

/// Relies on rusqlite::Connection::open: opens (creating it if missing) the
/// SQLite database file at `path`. The file may already hold rows; nothing is
/// known of the contents beyond the schema's uniqueness constraints, which
/// keep the dimension tables finite.
#[verifier::external_body]
fn open_conn(path: &str) -> (r: Result<rusqlite::Connection, DbError>)
    ensures
        r is Ok ==> tables_finite(r->Ok_0),
{
    rusqlite::Connection::open(path).map_err(|_| DbError::OpenDatabase)
}

/// Relies on rusqlite::Connection::open_in_memory: a fresh in-memory
/// database holds no tables, hence no rows.
#[verifier::external_body]
fn open_mem_conn() -> (r: Result<rusqlite::Connection, DbError>)
    ensures
        r is Ok ==> {
            &&& segments_of(r->Ok_0) == Seq::<SegmentInsert>::empty()
            &&& apps_of(r->Ok_0) == Map::<(Seq<char>, Seq<char>), i64>::empty()
            &&& titles_of(r->Ok_0) == Map::<Seq<char>, i64>::empty()
            &&& tables_finite(r->Ok_0)
        },
{
    rusqlite::Connection::open_in_memory().map_err(|_| DbError::OpenDatabase)
}

/// Relies on rusqlite::Connection::busy_timeout: only configures how long a
/// contended lock is waited for; it touches no rows.
#[verifier::external_body]
fn set_busy_timeout(conn: &mut rusqlite::Connection) -> (r: Result<(), DbError>)
    ensures
        tables_unchanged(*old(conn), *final(conn)),
        tables_finite(*old(conn)) ==> tables_finite(*final(conn)),
{
    conn.busy_timeout(std::time::Duration::from_secs(5)).map_err(|_| DbError::SetBusyTimeout)
}

/// Relies on rusqlite::Connection::execute_batch running the statements in
/// order: the PRAGMAs configure the connection, and the CREATE ... IF NOT
/// EXISTS statements add missing tables and indexes without touching any
/// existing row.
#[verifier::external_body]
fn init_schema(conn: &mut rusqlite::Connection) -> (r: Result<(), DbError>)
    ensures
        tables_unchanged(*old(conn), *final(conn)),
        tables_finite(*old(conn)) ==> tables_finite(*final(conn)),
{
    conn.execute_batch(
        "PRAGMA journal_mode = WAL; PRAGMA synchronous = NORMAL; PRAGMA temp_store = MEMORY; PRAGMA foreign_keys = ON; \
         CREATE TABLE IF NOT EXISTS apps (id INTEGER PRIMARY KEY, exe_name TEXT NOT NULL, process_path TEXT NOT NULL, UNIQUE(exe_name, process_path)); \
         CREATE TABLE IF NOT EXISTS titles (id INTEGER PRIMARY KEY, title TEXT NOT NULL UNIQUE); \
         CREATE TABLE IF NOT EXISTS segments (id INTEGER PRIMARY KEY, start_ts INTEGER NOT NULL, end_ts INTEGER NOT NULL CHECK (end_ts >= start_ts), app_id INTEGER, title_id INTEGER, is_idle INTEGER NOT NULL DEFAULT 0, pid INTEGER, pid_create_time INTEGER, FOREIGN KEY(app_id) REFERENCES apps(id), FOREIGN KEY(title_id) REFERENCES titles(id)); \
         CREATE INDEX IF NOT EXISTS idx_segments_start ON segments(start_ts); \
         CREATE INDEX IF NOT EXISTS idx_segments_app_start ON segments(app_id, start_ts); \
         CREATE INDEX IF NOT EXISTS idx_segments_idle_start ON segments(is_idle, start_ts);",
    ).map_err(|_| DbError::InitializeSchema)
}

/// Relies on rusqlite::Connection::execute running
/// `INSERT ... ON CONFLICT(exe_name, process_path) DO NOTHING` on `apps`:
/// if the key is present nothing changes, otherwise exactly one row with a
/// fresh id is added. A single statement is atomic, so a failure leaves the
/// table as it was.
#[verifier::external_body]
fn insert_app_row(conn: &mut rusqlite::Connection, exe_name: &str, process_path: &str) -> (r:
    Result<(), DbError>)
    ensures
        segments_of(*final(conn)) == segments_of(*old(conn)),
        titles_of(*final(conn)) == titles_of(*old(conn)),
        ({
            let k = (exe_name@, process_path@);
            if apps_of(*old(conn)).contains_key(k) || r is Err {
                apps_of(*final(conn)) == apps_of(*old(conn))
            } else {
                exists|id: i64| apps_of(*final(conn)) == apps_of(*old(conn)).insert(k, id)
            }
        }),
{
    conn.execute(
        "INSERT INTO apps (exe_name, process_path) VALUES (?1, ?2) \
         ON CONFLICT(exe_name, process_path) DO NOTHING",
        (exe_name, process_path),
    ).map(|_| ()).map_err(|_| DbError::UpsertAppRow)
}

/// Relies on rusqlite::Connection::query_row running
/// `SELECT id FROM apps WHERE exe_name = ?1 AND process_path = ?2`: on
/// success the returned id is the one stored under that unique key. A SELECT
/// changes nothing, and the borrow is shared.
#[verifier::external_body]
fn query_app_id(conn: &rusqlite::Connection, exe_name: &str, process_path: &str) -> (r: Result<
    i64,
    DbError,
>)
    ensures
        r is Ok ==> apps_of(*conn).contains_key((exe_name@, process_path@)) && r->Ok_0 == apps_of(
            *conn,
        )[(exe_name@, process_path@)],
{
    conn.query_row(
        "SELECT id FROM apps WHERE exe_name = ?1 AND process_path = ?2",
        (exe_name, process_path),
        |row| row.get::<_, i64>(0),
    ).map_err(|_| DbError::ReadAppId)
}

/// Relies on rusqlite::Connection::execute running
/// `INSERT ... ON CONFLICT(title) DO NOTHING` on `titles`: if the key is
/// present nothing changes, otherwise exactly one row with a fresh id is
/// added. A single statement is atomic, so a failure leaves the table as it
/// was.
#[verifier::external_body]
fn insert_title_row(conn: &mut rusqlite::Connection, title: &str) -> (r: Result<(), DbError>)
    ensures
        segments_of(*final(conn)) == segments_of(*old(conn)),
        apps_of(*final(conn)) == apps_of(*old(conn)),
        if titles_of(*old(conn)).contains_key(title@) || r is Err {
            titles_of(*final(conn)) == titles_of(*old(conn))
        } else {
            exists|id: i64| titles_of(*final(conn)) == titles_of(*old(conn)).insert(title@, id)
        },
{
    conn.execute(
        "INSERT INTO titles (title) VALUES (?1) ON CONFLICT(title) DO NOTHING",
        (title,),
    ).map(|_| ()).map_err(|_| DbError::UpsertTitleRow)
}

/// Relies on rusqlite::Connection::query_row running
/// `SELECT id FROM titles WHERE title = ?1`: on success the returned id is
/// the one stored under that unique key.
#[verifier::external_body]
fn query_title_id(conn: &rusqlite::Connection, title: &str) -> (r: Result<i64, DbError>)
    ensures
        r is Ok ==> titles_of(*conn).contains_key(title@) && r->Ok_0 == titles_of(*conn)[title@],
{
    conn.query_row(
        "SELECT id FROM titles WHERE title = ?1",
        (title,),
        |row| row.get::<_, i64>(0),
    ).map_err(|_| DbError::ReadTitleId)
}

/// Relies on rusqlite::Connection::execute running a plain INSERT on
/// `segments`: on success exactly the given row is appended. The row
/// satisfies the table's CHECK (end_ts >= start_ts) by the precondition.
/// A single statement is atomic, so a failure leaves the table as it was.
#[verifier::external_body]
fn insert_segment_row(conn: &mut rusqlite::Connection, segment: &SegmentInsert) -> (r: Result<
    (),
    DbError,
>)
    requires
        segment.end_ts > segment.start_ts,
    ensures
        apps_of(*final(conn)) == apps_of(*old(conn)),
        titles_of(*final(conn)) == titles_of(*old(conn)),
        r is Ok ==> segments_of(*final(conn)) == segments_of(*old(conn)).push(*segment),
        r is Err ==> segments_of(*final(conn)) == segments_of(*old(conn)),
{
    conn.execute(
        "INSERT INTO segments (start_ts, end_ts, app_id, title_id, is_idle, pid, pid_create_time) \
         VALUES (?1, ?2, ?3, ?4, ?5, ?6, ?7)",
        (
            segment.start_ts, segment.end_ts, segment.app_id, segment.title_id,
            crate::db::bool_to_i64(segment.is_idle), segment.pid.map(i64::from),
            segment.pid_create_time.map(|v| v as i64),
        ),
    ).map(|_| ()).map_err(|_| DbError::InsertSegment)
}

/// Relies on rusqlite::Connection::transaction and Transaction::commit: the
/// DELETE (active rows starting at or after the cutoff) and the UPDATE
/// (active rows straddling the cutoff are shortened to end at it) are applied
/// in order, atomically; a transaction dropped before commit is rolled back,
/// so a failure leaves the table as it was.
#[verifier::external_body]
fn truncate_rows(conn: &mut rusqlite::Connection, cutoff_ts: i64) -> (r: Result<(), DbError>)
    ensures
        apps_of(*final(conn)) == apps_of(*old(conn)),
        titles_of(*final(conn)) == titles_of(*old(conn)),
        r is Ok ==> segments_of(*final(conn)) == truncate_model(
            segments_of(*old(conn)),
            cutoff_ts,
        ),
        r is Err ==> segments_of(*final(conn)) == segments_of(*old(conn)),
{
    let mut go = || -> Result<(), rusqlite::Error> {
        let tx = conn.transaction()?;
        tx.execute("DELETE FROM segments WHERE is_idle = 0 AND start_ts >= ?1", (cutoff_ts,))?;
        tx.execute(
            "UPDATE segments SET end_ts = ?1 WHERE is_idle = 0 AND start_ts < ?1 AND end_ts > ?1",
            (cutoff_ts,),
        )?;
        tx.commit()
    };
    go().map_err(|_| DbError::TruncateSegments)
}

/// Relies on rusqlite::Connection::query_row running
/// `SELECT COUNT(*) FROM apps`: the count of rows equals the number of
/// distinct natural keys, since the key is unique.
#[verifier::external_body]
fn count_app_rows(conn: &rusqlite::Connection) -> (r: Result<i64, DbError>)
    ensures
        r is Ok ==> apps_of(*conn).dom().finite() && r->Ok_0 == apps_of(*conn).dom().len(),
{
    conn.query_row("SELECT COUNT(*) FROM apps", (), |row| row.get::<_, i64>(0))
        .map_err(|_| DbError::CountRows)
}

/// Relies on rusqlite::Connection::prepare and Statement::query_map running
/// `SELECT ... FROM segments ORDER BY id`: the rows come back in rowid
/// order, each converted to a SegmentInsert value.
#[verifier::external_body]
fn read_segment_rows(conn: &rusqlite::Connection) -> (r: Result<Vec<SegmentInsert>, DbError>)
    ensures
        r is Ok ==> r->Ok_0@ == segments_of(*conn),
{
    let go = || -> Result<Vec<SegmentInsert>, rusqlite::Error> {
        let sql = "SELECT start_ts, end_ts, app_id, title_id, is_idle, pid, pid_create_time FROM segments ORDER BY id";
        let mut stmt = conn.prepare(sql)?;
        let rows = stmt.query_map((), |row| Ok(SegmentInsert {
            start_ts: row.get(0)?, end_ts: row.get(1)?, app_id: row.get(2)?, title_id: row.get(3)?,
            is_idle: row.get(4)?, pid: row.get::<_, Option<i64>>(5)?.map(|v| v as u32),
            pid_create_time: row.get::<_, Option<i64>>(6)?.map(|v| v as u64),
        }))?;
        rows.collect()
    };
    go().map_err(|_| DbError::ReadSegments)
}

/// One memoized row of the `apps` dimension table.
struct AppCacheEntry {
    exe_name: String,
    process_path: String,
    id: i64,
}

/// One memoized row of the `titles` dimension table.
struct TitleCacheEntry {
    title: String,
    id: i64,
}

/// A cached app id is exactly what the `apps` table stores for that key.
spec fn app_entry_valid(m: Map<(Seq<char>, Seq<char>), i64>, e: AppCacheEntry) -> bool {
    m.contains_key((e.exe_name@, e.process_path@)) && m[(e.exe_name@, e.process_path@)] == e.id
}

/// A cached title id is exactly what the `titles` table stores for that key.
spec fn title_entry_valid(m: Map<Seq<char>, i64>, e: TitleCacheEntry) -> bool {
    m.contains_key(e.title@) && m[e.title@] == e.id
}

/// The handle on the persistent store: the SQLite connection plus the two
/// in-process dimension caches. The caches only memoize ids that a read-back
/// confirmed, so they never disagree with the tables.
pub struct Database {
    conn: rusqlite::Connection,
    app_cache: Vec<AppCacheEntry>,
    title_cache: Vec<TitleCacheEntry>,
}

impl Database {
    /// The `segments` table of this database, in rowid order.
    pub closed spec fn segments(&self) -> Seq<SegmentInsert> {
        segments_of(self.conn)
    }

    /// The `apps` table of this database, keyed by `(exe_name, process_path)`.
    pub closed spec fn apps(&self) -> Map<(Seq<char>, Seq<char>), i64> {
        apps_of(self.conn)
    }

    /// The `titles` table of this database, keyed by `title`.
    pub closed spec fn titles(&self) -> Map<Seq<char>, i64> {
        titles_of(self.conn)
    }

    /// Well-formedness: the dimension tables are finite and every cache entry
    /// agrees with the table it memoizes.
    pub closed spec fn inv(&self) -> bool {
        &&& tables_finite(self.conn)
        &&& forall|i: int|
            0 <= i < self.app_cache@.len() ==> app_entry_valid(
                apps_of(self.conn),
                #[trigger] self.app_cache@[i],
            )
        &&& forall|i: int|
            0 <= i < self.title_cache@.len() ==> title_entry_valid(
                titles_of(self.conn),
                #[trigger] self.title_cache@[i],
            )
    }

    /// Opens (creating it if missing) the store at `path`, configures the
    /// bounded busy-wait and the journaling mode, and creates any missing
    /// part of the schema. The file may already hold rows.
    pub fn open(path: &str) -> (r: Result<Database, DbError>)
        ensures
            r is Ok ==> r->Ok_0.inv(),
    {
        let mut conn = open_conn(path)?;
        set_busy_timeout(&mut conn)?;
        init_schema(&mut conn)?;
        Ok(Database { conn, app_cache: Vec::new(), title_cache: Vec::new() })
    }

    /// Opens a fresh, empty in-memory store with the same schema; used where
    /// no file should be touched.
    pub fn open_in_memory() -> (r: Result<Database, DbError>)
        ensures
            r is Ok ==> ({
                &&& r->Ok_0.inv()
                &&& r->Ok_0.segments() == Seq::<SegmentInsert>::empty()
                &&& r->Ok_0.apps() == Map::<(Seq<char>, Seq<char>), i64>::empty()
                &&& r->Ok_0.titles() == Map::<Seq<char>, i64>::empty()
            }),
    {
        let mut conn = open_mem_conn()?;
        set_busy_timeout(&mut conn)?;
        init_schema(&mut conn)?;
        Ok(Database { conn, app_cache: Vec::new(), title_cache: Vec::new() })
    }

    /// The cached id for `(exe_name, process_path)`, if that pair was
    /// memoized earlier.
    fn find_app_cache(&self, exe_name: &str, process_path: &str) -> (r: Option<i64>)
        ensures
            r is Some ==> exists|i: int|
                0 <= i < self.app_cache@.len() && (#[trigger] self.app_cache@[i]).exe_name@
                    == exe_name@ && self.app_cache@[i].process_path@ == process_path@
                    && self.app_cache@[i].id == r->0,
    {
        let key_exe = exe_name.to_owned();
        let key_path = process_path.to_owned();
        let n = self.app_cache.len();
        let mut i: usize = 0;
        while i < n
            invariant
                0 <= i <= n,
                n == self.app_cache@.len(),
                key_exe@ == exe_name@,
                key_path@ == process_path@,
            decreases n - i,
        {
            let entry = &self.app_cache[i];
            if entry.exe_name == key_exe && entry.process_path == key_path {
                return Some(entry.id);
            }
            i = i + 1;
        }
        None
    }

    /// The cached id for `title`, if it was memoized earlier.
    fn find_title_cache(&self, title: &str) -> (r: Option<i64>)
        ensures
            r is Some ==> exists|i: int|
                0 <= i < self.title_cache@.len() && (#[trigger] self.title_cache@[i]).title@
                    == title@ && self.title_cache@[i].id == r->0,
    {
        let key = title.to_owned();
        let n = self.title_cache.len();
        let mut i: usize = 0;
        while i < n
            invariant
                0 <= i <= n,
                n == self.title_cache@.len(),
                key@ == title@,
            decreases n - i,
        {
            let entry = &self.title_cache[i];
            if entry.title == key {
                return Some(entry.id);
            }
            i = i + 1;
        }
        None
    }

    /// Idempotent get-or-create of the `apps` row for the pair
    /// `(exe_name, process_path)`: on success the returned id is the one the
    /// table stores for that pair, the table gains at most that one row, and
    /// nothing else changes. Safe against a concurrent writer because the
    /// conflict-tolerant insert is followed by a read-back.
    pub fn upsert_app(&mut self, exe_name: &str, process_path: &str) -> (r: Result<i64, DbError>)
        requires
            old(self).inv(),
        ensures
            final(self).inv(),
            final(self).segments() == old(self).segments(),
            final(self).titles() == old(self).titles(),
            r is Ok ==> ({
                let k = (exe_name@, process_path@);
                &&& final(self).apps() == upsert_post(old(self).apps(), k, r->Ok_0)
                &&& final(self).apps().contains_key(k)
                &&& final(self).apps()[k] == r->Ok_0
                &&& old(self).apps().contains_key(k) ==> r->Ok_0 == old(self).apps()[k]
            }),
            r is Err ==> final(self).apps() == old(self).apps() || (!old(self).apps().contains_key(
                (exe_name@, process_path@),
            ) && exists|id: i64|
                final(self).apps() == old(self).apps().insert((exe_name@, process_path@), id)),
    {
        if let Some(id) = self.find_app_cache(exe_name, process_path) {
            proof {
                let i = choose|i: int|
                    0 <= i < self.app_cache@.len() && (#[trigger] self.app_cache@[i]).exe_name@
                        == exe_name@ && self.app_cache@[i].process_path@ == process_path@
                        && self.app_cache@[i].id == id;
                assert(app_entry_valid(apps_of(self.conn), self.app_cache@[i]));
            }
            return Ok(id);
        }

        let ghost m = apps_of(self.conn);
        match insert_app_row(&mut self.conn, exe_name, process_path) {
            Ok(()) => (),
            Err(e) => {
                return Err(e);
            },
        }
        let ghost m1 = apps_of(self.conn);
        proof {
            lemma_apps_cache_still_valid(m, m1, (exe_name@, process_path@), self.app_cache@);
            if !(m1 == m) {
                let id0 = choose|id0: i64| m1 == m.insert((exe_name@, process_path@), id0);
                assert(m1.dom() == m.dom().insert((exe_name@, process_path@)));
            }
        }
        let id = match query_app_id(&self.conn, exe_name, process_path) {
            Ok(id) => id,
            Err(e) => {
                return Err(e);
            },
        };
        proof {
            if !(m1 == m) {
                let id0 = choose|id0: i64| m1 == m.insert((exe_name@, process_path@), id0);
                assert(m1[(exe_name@, process_path@)] == id0);
                assert(m1 == m.insert((exe_name@, process_path@), id));
            }
        }
        self.app_cache.push(
            AppCacheEntry { exe_name: exe_name.to_owned(), process_path: process_path.to_owned(), id },
        );
        Ok(id)
    }

    /// Idempotent get-or-create of the `titles` row for `title`, with the
    /// same pattern and guarantees as `upsert_app`.
    pub fn upsert_title(&mut self, title: &str) -> (r: Result<i64, DbError>)
        requires
            old(self).inv(),
        ensures
            final(self).inv(),
            final(self).segments() == old(self).segments(),
            final(self).apps() == old(self).apps(),
            r is Ok ==> ({
                &&& final(self).titles() == upsert_post(old(self).titles(), title@, r->Ok_0)
                &&& final(self).titles().contains_key(title@)
                &&& final(self).titles()[title@] == r->Ok_0
                &&& old(self).titles().contains_key(title@) ==> r->Ok_0 == old(self).titles()[title@]
            }),
            r is Err ==> final(self).titles() == old(self).titles() || (!old(
                self,
            ).titles().contains_key(title@) && exists|id: i64|
                final(self).titles() == old(self).titles().insert(title@, id)),
    {
        if let Some(id) = self.find_title_cache(title) {
            proof {
                let i = choose|i: int|
                    0 <= i < self.title_cache@.len() && (#[trigger] self.title_cache@[i]).title@
                        == title@ && self.title_cache@[i].id == id;
                assert(title_entry_valid(titles_of(self.conn), self.title_cache@[i]));
            }
            return Ok(id);
        }

        let ghost m = titles_of(self.conn);
        match insert_title_row(&mut self.conn, title) {
            Ok(()) => (),
            Err(e) => {
                return Err(e);
            },
        }
        let ghost m1 = titles_of(self.conn);
        proof {
            lemma_titles_cache_still_valid(m, m1, title@, self.title_cache@);
            if !(m1 == m) {
                let id0 = choose|id0: i64| m1 == m.insert(title@, id0);
                assert(m1.dom() == m.dom().insert(title@));
            }
        }
        let id = match query_title_id(&self.conn, title) {
            Ok(id) => id,
            Err(e) => {
                return Err(e);
            },
        };
        proof {
            if !(m1 == m) {
                let id0 = choose|id0: i64| m1 == m.insert(title@, id0);
                assert(m1[title@] == id0);
                assert(m1 == m.insert(title@, id));
            }
        }
        self.title_cache.push(TitleCacheEntry { title: title.to_owned(), id });
        Ok(id)
    }

    /// Appends one fact row; a row with `end_ts <= start_ts` is silently
    /// dropped (it carries no information), leaving the table untouched.
    pub fn insert_segment(&mut self, segment: &SegmentInsert) -> (r: Result<(), DbError>)
        requires
            old(self).inv(),
        ensures
            final(self).inv(),
            final(self).apps() == old(self).apps(),
            final(self).titles() == old(self).titles(),
            r is Ok ==> final(self).segments() == flush_model(old(self).segments(), *segment),
            r is Err ==> final(self).segments() == old(self).segments(),
            segment.end_ts <= segment.start_ts ==> r is Ok && *final(self) == *old(self),
    {
        if segment.end_ts <= segment.start_ts {
            return Ok(());
        }
        insert_segment_row(&mut self.conn, segment)
    }

    /// The retroactive correction: within one transaction, deletes active
    /// rows that start at or after `cutoff_ts` and shortens active rows that
    /// straddle it to end exactly there. Idle rows are never touched.
    pub fn truncate_active_segments_from(&mut self, cutoff_ts: i64) -> (r: Result<(), DbError>)
        requires
            old(self).inv(),
        ensures
            final(self).inv(),
            final(self).apps() == old(self).apps(),
            final(self).titles() == old(self).titles(),
            r is Ok ==> final(self).segments() == truncate_model(old(self).segments(), cutoff_ts),
            r is Err ==> final(self).segments() == old(self).segments(),
    {
        truncate_rows(&mut self.conn, cutoff_ts)
    }

    /// The number of rows of the `apps` table.
    pub fn app_count(&self) -> (r: Result<i64, DbError>)
        requires
            self.inv(),
        ensures
            r is Ok ==> r->Ok_0 == self.apps().dom().len(),
    {
        count_app_rows(&self.conn)
    }

    /// All rows of the `segments` table, in rowid order.
    pub fn segments_snapshot(&self) -> (r: Result<Vec<SegmentInsert>, DbError>)
        ensures
            r is Ok ==> r->Ok_0@ == self.segments(),
    {
        read_segment_rows(&self.conn)
    }
}

/// Cache entries stay valid when the apps table is extended by a key that
/// either was already present or is fresh.
proof fn lemma_apps_cache_still_valid(
    m: Map<(Seq<char>, Seq<char>), i64>,
    m1: Map<(Seq<char>, Seq<char>), i64>,
    k: (Seq<char>, Seq<char>),
    cache: Seq<AppCacheEntry>,
)
    requires
        m1 == m || (!m.contains_key(k) && exists|id: i64| m1 == m.insert(k, id)),
        forall|i: int| 0 <= i < cache.len() ==> app_entry_valid(m, #[trigger] cache[i]),
    ensures
        forall|i: int| 0 <= i < cache.len() ==> app_entry_valid(m1, #[trigger] cache[i]),
{
    if !(m1 == m) {
        let id = choose|id: i64| m1 == m.insert(k, id);
        assert forall|i: int| 0 <= i < cache.len() implies app_entry_valid(
            m1,
            #[trigger] cache[i],
        ) by {
            let ek = (cache[i].exe_name@, cache[i].process_path@);
            assert(m.contains_key(ek));
            assert(ek != k);
        }
    }
}

/// Cache entries stay valid when the titles table is extended by a key that
/// either was already present or is fresh.
proof fn lemma_titles_cache_still_valid(
    m: Map<Seq<char>, i64>,
    m1: Map<Seq<char>, i64>,
    k: Seq<char>,
    cache: Seq<TitleCacheEntry>,
)
    requires
        m1 == m || (!m.contains_key(k) && exists|id: i64| m1 == m.insert(k, id)),
        forall|i: int| 0 <= i < cache.len() ==> title_entry_valid(m, #[trigger] cache[i]),
    ensures
        forall|i: int| 0 <= i < cache.len() ==> title_entry_valid(m1, #[trigger] cache[i]),
{
    if !(m1 == m) {
        let id = choose|id: i64| m1 == m.insert(k, id);
        assert forall|i: int| 0 <= i < cache.len() implies title_entry_valid(
            m1,
            #[trigger] cache[i],
        ) by {
            assert(m.contains_key(cache[i].title@));
            assert(cache[i].title@ != k);
        }
    }
}

/// The boolean of `is_idle` as it is stored in the segments table.
pub fn bool_to_i64(v: bool) -> (r: i64)
    ensures
        r == (if v { 1int } else { 0int }),
{
    if v {
        1
    } else {
        0
    }
}

/// How a single row looks after truncation at `cutoff`: an active row that
/// still ends past the cutoff is shortened to end exactly there.
pub open spec fn trim_row(r: SegmentInsert, cutoff: i64) -> SegmentInsert {
    if !r.is_idle && r.end_ts > cutoff {
        SegmentInsert { end_ts: cutoff, ..r }
    } else {
        r
    }
}

/// The segments table after the retroactive truncation at `cutoff`: active
/// rows starting at or after the cutoff are deleted, active rows straddling
/// it are shortened to end at it, and idle rows are untouched.
pub open spec fn truncate_model(s: Seq<SegmentInsert>, cutoff: i64) -> Seq<SegmentInsert>
    decreases s.len(),
{
    if s.len() == 0 {
        s
    } else {
        let rest = truncate_model(s.drop_last(), cutoff);
        let r = s.last();
        if !r.is_idle && r.start_ts >= cutoff {
            rest
        } else {
            rest.push(trim_row(r, cutoff))
        }
    }
}

/// The segments table after one row is flushed: a row that would have zero
/// or negative duration carries no information and is silently dropped.
pub open spec fn flush_model(s: Seq<SegmentInsert>, row: SegmentInsert) -> Seq<SegmentInsert> {
    if row.end_ts > row.start_ts {
        s.push(row)
    } else {
        s
    }
}

/// A dimension map after a get-or-create with key `k` that returned `id`:
/// unchanged when the key was present, else extended by exactly that pair.
pub open spec fn upsert_post<K>(m: Map<K, i64>, k: K, id: i64) -> Map<K, i64> {
    if m.contains_key(k) {
        m
    } else {
        m.insert(k, id)
    }
}

/// The dimension upsert round-trips: two upserts of the same key return the
/// same id both times, the second changes nothing, and together they create
/// at most one row (exactly one when the key was new). The hypotheses are
/// what `upsert_app` and `upsert_title` ensure of their returned ids.
pub proof fn lemma_upsert_round_trip<K>(m: Map<K, i64>, k: K, id1: i64, id2: i64)
    requires
        m.dom().finite(),
        m.contains_key(k) ==> id1 == m[k],
        upsert_post(m, k, id1).contains_key(k) ==> id2 == upsert_post(m, k, id1)[k],
    ensures
        id2 == id1,
        upsert_post(upsert_post(m, k, id1), k, id2) == upsert_post(m, k, id1),
        m.contains_key(k) ==> upsert_post(m, k, id1) == m,
        !m.contains_key(k) ==> upsert_post(m, k, id1).dom().len() == m.dom().len() + 1,
{
    let m1 = upsert_post(m, k, id1);
    assert(m1.contains_key(k));
    if !m.contains_key(k) {
        assert(m1.dom() =~= m.dom().insert(k));
        vstd::set::axiom_set_insert_len(m.dom(), k);
    }
}

} // verus!
