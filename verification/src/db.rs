//! Storage facade over an embedded SQL database.  The engine itself
//! is an external collaborator reached only through the trusted
//! wrappers at the bottom of this file; every retention decision —
//! which rows a window holds, which rows compaction or pruning
//! deletes, what the aggregates are — is computed by the verified
//! functions of `crate::history` and of this module over the rows the
//! engine hands back, so the policy holds for every value the engine
//! can possibly return.

use vstd::prelude::*;
use crate::history::{
    is_victim, is_victim_row, rows_model, EntryModel, HistoryEntry, HistoryStats, HistoryStore,
};

verus! {

/// Error taxonomy of the storage facade.
#[derive(Debug)]
pub enum DbError {
    /// The handle was never initialized: no connection is open.
    NotInitialized,
    /// The storage engine reported a failure.
    Engine(String),
}

impl DbError {
    /// Human-readable description of the error.
    pub fn message(&self) -> (r: String)
        ensures
            match self {
                DbError::NotInitialized => r@ == "history database is not initialized"@,
                DbError::Engine(d) => r@ == "storage engine error: "@ + d@,
            },
    {
        match self {
            DbError::NotInitialized => String::from_str("history database is not initialized"),
            DbError::Engine(d) => String::from_str("storage engine error: ").concat(d.as_str()),
        }
    }
}

/// Row identities of the rows compaction deletes, in storage order:
/// nominal-status rows with an earlier nominal row in the same
/// 300-second bucket.  A row without an identity is never selected.
pub open spec fn victim_ids(rows: Seq<EntryModel>) -> Seq<u64>
    decreases rows.len(),
{
    if rows.len() == 0 {
        Seq::empty()
    } else {
        victim_ids(rows.drop_last()) + (if is_victim(rows, rows.len() - 1) && rows.last().id
            is Some {
            seq![rows.last().id.unwrap()]
        } else {
            Seq::empty()
        })
    }
}

/// Collect the row identities compaction must delete.
pub fn compaction_victims(rows: &Vec<HistoryEntry>) -> (r: Vec<u64>)
    ensures
        r@ == victim_ids(rows_model(rows@)),
{
    let ghost rm = rows_model(rows@);
    let mut out: Vec<u64> = Vec::new();
    proof {
        assert(out@ =~= victim_ids(rm.take(0)));
    }
    let mut i: usize = 0;
    while i < rows.len()
        invariant
            i <= rows@.len(),
            rm == rows_model(rows@),
            out@ == victim_ids(rm.take(i as int)),
        decreases rows@.len() - i,
    {
        let victim = is_victim_row(rows, i);
        proof {
            let t = rm.take(i + 1);
            assert(t.drop_last() =~= rm.take(i as int));
            assert(t.last() == rm[i as int]);
        }
        if victim {
            if let Some(id) = rows[i].id {
                out.push(id);
                proof {
                    assert(out@ =~= out@.drop_last() + seq![id]);
                }
            } else {
                proof {
                    assert(out@ =~= out@ + Seq::<u64>::empty());
                }
            }
        } else {
            proof {
                assert(out@ =~= out@ + Seq::<u64>::empty());
            }
        }
        i = i + 1;
    }
    proof {
        assert(rm.take(rm.len() as int) =~= rm);
    }
    out
}

/// Start of the retention window: `days` days before `now`, clamped
/// at the epoch.
pub open spec fn spec_prune_cutoff(now: u64, days: u64) -> int {
    if days * 86400 > now {
        0
    } else {
        now - days * 86400
    }
}

/// Compute the pruning cutoff from the clock reading and the
/// configured day count.
pub fn prune_cutoff(now: u64, days_to_keep: u64) -> (c: u64)
    ensures
        c as int == spec_prune_cutoff(now, days_to_keep),
{
    match days_to_keep.checked_mul(86400) {
        Some(span) => if span > now {
            0
        } else {
            now - span
        },
        None => 0,
    }
}

/// Row identities of the rows pruning deletes, in storage order:
/// every row strictly older than the cutoff.  A row without an
/// identity is never selected.
pub open spec fn stale_ids(rows: Seq<EntryModel>, cutoff: int) -> Seq<u64>
    decreases rows.len(),
{
    if rows.len() == 0 {
        Seq::empty()
    } else {
        stale_ids(rows.drop_last(), cutoff) + (if rows.last().timestamp < cutoff
            && rows.last().id is Some {
            seq![rows.last().id.unwrap()]
        } else {
            Seq::empty()
        })
    }
}

/// Collect the row identities pruning must delete.
pub fn prune_victims(rows: &Vec<HistoryEntry>, cutoff: u64) -> (r: Vec<u64>)
    ensures
        r@ == stale_ids(rows_model(rows@), cutoff as int),
{
    let ghost rm = rows_model(rows@);
    let mut out: Vec<u64> = Vec::new();
    proof {
        assert(out@ =~= stale_ids(rm.take(0), cutoff as int));
    }
    let mut i: usize = 0;
    while i < rows.len()
        invariant
            i <= rows@.len(),
            rm == rows_model(rows@),
            out@ == stale_ids(rm.take(i as int), cutoff as int),
        decreases rows@.len() - i,
    {
        proof {
            let t = rm.take(i + 1);
            assert(t.drop_last() =~= rm.take(i as int));
            assert(t.last() == rm[i as int]);
        }
        if rows[i].timestamp < cutoff {
            if let Some(id) = rows[i].id {
                out.push(id);
                proof {
                    assert(out@ =~= out@.drop_last() + seq![id]);
                }
            } else {
                proof {
                    assert(out@ =~= out@ + Seq::<u64>::empty());
                }
            }
        } else {
            proof {
                assert(out@ =~= out@ + Seq::<u64>::empty());
            }
        }
        i = i + 1;
    }
    proof {
        assert(rm.take(rm.len() as int) =~= rm);
    }
    out
}

#[verifier::external_type_specification]
#[verifier::external_body]
pub struct ExConnection(rusqlite::Connection);

/// Handle to the on-disk (or in-memory) history database.  `init`
/// opens the connection; every operation before that fails with
/// `DbError::NotInitialized`.
pub struct NutDB {
    path: String,
    conn: Option<rusqlite::Connection>,
}

impl NutDB {
    /// Whether `init` has opened the connection.
    pub closed spec fn is_open(&self) -> bool {
        self.conn is Some
    }

    /// The database file path this handle was created with.
    pub closed spec fn spec_path(&self) -> Seq<char> {
        self.path@
    }

    /// A handle on the history database file inside the given data
    /// directory; nothing is opened yet.
    pub fn new(app_data_dir: &str) -> (db: NutDB)
        ensures
            db.spec_path() == app_data_dir@ + "/history.db"@,
            !db.is_open(),
    {
        NutDB { path: String::from_str(app_data_dir).concat("/history.db"), conn: None }
    }

    /// A handle on a fresh in-memory database, already open and with
    /// the history table created.
    pub fn open_in_memory() -> (r: Result<NutDB, DbError>)
        ensures
            r matches Ok(db) ==> db.is_open(),
    {
        let conn = match conn_open_memory() {
            Ok(c) => c,
            Err(e) => {
                return Err(DbError::Engine(e));
            },
        };
        match conn_create_table(&conn) {
            Ok(_) => Ok(NutDB { path: String::new(), conn: Some(conn) }),
            Err(e) => Err(DbError::Engine(e)),
        }
    }

    /// Open the database file and create the history table if it is
    /// not there yet.
    pub fn init(&mut self) -> (r: Result<(), DbError>)
        ensures
            r is Ok ==> final(self).is_open(),
            final(self).spec_path() == old(self).spec_path(),
    {
        let conn = match conn_open(self.path.as_str()) {
            Ok(c) => c,
            Err(e) => {
                return Err(DbError::Engine(e));
            },
        };
        match conn_create_table(&conn) {
            Ok(_) => {
                self.conn = Some(conn);
                Ok(())
            },
            Err(e) => Err(DbError::Engine(e)),
        }
    }

    /// Append one history entry; its row identity is assigned by the
    /// engine.
    pub fn insert_entry(&self, entry: &HistoryEntry) -> (r: Result<(), DbError>)
        ensures
            !self.is_open() <==> r matches Err(DbError::NotInitialized),
    {
        match &self.conn {
            None => Err(DbError::NotInitialized),
            Some(conn) => match conn_insert_row(conn, entry) {
                Ok(_) => Ok(()),
                Err(e) => Err(DbError::Engine(e)),
            },
        }
    }

    /// The persisted rows of the lookback window of
    /// `time_range_hours` hours ending now, ordered by ascending
    /// timestamp.  The rows are selected and sorted by the verified
    /// `HistoryStore::query_range` over whatever rows the engine
    /// returned, so every returned row lies inside the window and the
    /// order holds whatever the engine did.
    pub fn get_history(&self, time_range_hours: u64) -> (r: Result<Vec<HistoryEntry>, DbError>)
        ensures
            !self.is_open() <==> r matches Err(DbError::NotInitialized),
    {
        let conn = match &self.conn {
            None => {
                return Err(DbError::NotInitialized);
            },
            Some(c) => c,
        };
        let rows = match conn_fetch_all(conn) {
            Ok(rows) => rows,
            Err(e) => {
                return Err(DbError::Engine(e));
            },
        };
        let now = now_secs();
        let store = HistoryStore { rows, next_id: 0 };
        Ok(store.query_range(now, time_range_hours))
    }

    /// Compaction on demand: keep, among the nominal-status rows of
    /// each 300-second bucket, only the earliest by row identity;
    /// delete the rest.  Which rows go is computed by the verified
    /// `compaction_victims` over whatever rows the engine returned;
    /// the count is what the engine reports deleted.
    pub fn compact(&self) -> (r: Result<usize, DbError>)
        ensures
            !self.is_open() <==> r matches Err(DbError::NotInitialized),
    {
        let conn = match &self.conn {
            None => {
                return Err(DbError::NotInitialized);
            },
            Some(c) => c,
        };
        let rows = match conn_fetch_all(conn) {
            Ok(rows) => rows,
            Err(e) => {
                return Err(DbError::Engine(e));
            },
        };
        let victims = compaction_victims(&rows);
        delete_rows_by_id(conn, &victims)
    }

    /// Aggregate electrical statistics over the lookback window of
    /// `time_range_hours` hours ending now.  The statistics are
    /// computed by the verified `HistoryStore::aggregate` over
    /// whatever rows the engine returned.
    pub fn aggregate(&self, time_range_hours: u64) -> (r: Result<HistoryStats, DbError>)
        ensures
            !self.is_open() <==> r matches Err(DbError::NotInitialized),
    {
        let conn = match &self.conn {
            None => {
                return Err(DbError::NotInitialized);
            },
            Some(c) => c,
        };
        let rows = match conn_fetch_all(conn) {
            Ok(rows) => rows,
            Err(e) => {
                return Err(DbError::Engine(e));
            },
        };
        let now = now_secs();
        let store = HistoryStore { rows, next_id: 0 };
        Ok(store.aggregate(now, time_range_hours))
    }

    /// Pruning: permanently delete every row strictly older than
    /// `days_to_keep` days before now.  The cutoff is computed by the
    /// verified `prune_cutoff` and the rows to delete by the verified
    /// `prune_victims` over whatever rows the engine returned; the
    /// count is what the engine reports deleted.
    pub fn prune_old_data(&self, days_to_keep: u64) -> (r: Result<usize, DbError>)
        ensures
            !self.is_open() <==> r matches Err(DbError::NotInitialized),
    {
        let conn = match &self.conn {
            None => {
                return Err(DbError::NotInitialized);
            },
            Some(c) => c,
        };
        let rows = match conn_fetch_all(conn) {
            Ok(rows) => rows,
            Err(e) => {
                return Err(DbError::Engine(e));
            },
        };
        let cutoff = prune_cutoff(now_secs(), days_to_keep);
        let victims = prune_victims(&rows, cutoff);
        delete_rows_by_id(conn, &victims)
    }
}

/// Delete the given rows by identity, one statement each, summing the
/// engine's deletion counts.
fn delete_rows_by_id(conn: &rusqlite::Connection, ids: &Vec<u64>) -> (r: Result<usize, DbError>)
    ensures
        r matches Err(e) ==> e is Engine,
{
    let mut deleted: usize = 0;
    let mut i: usize = 0;
    while i < ids.len()
        invariant
            i <= ids@.len(),
        decreases ids@.len() - i,
    {
        match conn_delete_id(conn, ids[i]) {
            Ok(n) => {
                deleted = match deleted.checked_add(n) {
                    Some(d) => d,
                    None => usize::MAX,
                };
            },
            Err(e) => {
                return Err(DbError::Engine(e));
            },
        }
        i = i + 1;
    }
    Ok(deleted)
}

/// Relies on std::time::SystemTime::now: whole seconds since the
/// Unix epoch, zero for a clock set before it.  The clock is outside
/// the program: nothing is promised of the value, and nothing
/// relates two reads.
#[verifier::external_body]
fn now_secs() -> (r: u64) {
    match std::time::SystemTime::now().duration_since(std::time::UNIX_EPOCH) {
        Ok(d) => d.as_secs(),
        Err(_) => 0,
    }
}

/// Relies on rusqlite::Connection::open: opens or creates the
/// database file at the path.
#[verifier::external_body]
fn conn_open(path: &str) -> (r: Result<rusqlite::Connection, String>) {
    rusqlite::Connection::open(path).map_err(|e| format!("{e}"))
}

/// Relies on rusqlite::Connection::open_in_memory: a fresh, empty
/// in-memory database.
#[verifier::external_body]
fn conn_open_memory() -> (r: Result<rusqlite::Connection, String>) {
    rusqlite::Connection::open_in_memory().map_err(|e| format!("{e}"))
}

/// Relies on rusqlite::Connection::execute: creates the history
/// table when it does not exist.
#[verifier::external_body]
fn conn_create_table(conn: &rusqlite::Connection) -> (r: Result<(), String>) {
    conn.execute(
        "CREATE TABLE IF NOT EXISTS history (
            id INTEGER PRIMARY KEY,
            timestamp INTEGER NOT NULL,
            input_voltage INTEGER,
            output_voltage INTEGER,
            load_percent INTEGER,
            battery_charge INTEGER,
            status TEXT
        )",
        (),
    ).map(|_| ()).map_err(|e| format!("{e}"))
}

/// Relies on rusqlite::Connection::execute: inserts one row; the
/// engine assigns the row identity.  The timestamp is stored in the
/// engine's signed 64-bit integer column; the cast is one-for-one
/// for every epoch second this era can produce.
#[verifier::external_body]
fn conn_insert_row(conn: &rusqlite::Connection, e: &HistoryEntry) -> (r: Result<(), String>) {
    conn.execute(
        "INSERT INTO history (timestamp, input_voltage, output_voltage, load_percent, battery_charge, status)
         VALUES (?1, ?2, ?3, ?4, ?5, ?6)",
        (e.timestamp as i64, e.input_voltage, e.output_voltage, e.load_percent,
        e.battery_charge, e.status.as_str()),
    ).map(|_| ()).map_err(|e| format!("{e}"))
}

/// Relies on rusqlite::Connection::prepare, Statement::query_map and
/// Row::get: reads every stored row back, in row-identity order,
/// undoing the signed-integer storage of the identity and timestamp
/// columns.
#[verifier::external_body]
fn conn_fetch_all(conn: &rusqlite::Connection) -> (r: Result<Vec<HistoryEntry>, String>) {
    let mut stmt = conn.prepare(
        "SELECT id, timestamp, input_voltage, output_voltage, load_percent, battery_charge, status
         FROM history ORDER BY id ASC",
    ).map_err(|e| format!("{e}"))?;
    let it = stmt.query_map((), |row| {
        Ok(HistoryEntry {
            id: row.get::<_, Option<i64>>(0)?.map(|v| v as u64),
            timestamp: row.get::<_, i64>(1)? as u64,
            input_voltage: row.get(2)?,
            output_voltage: row.get(3)?,
            load_percent: row.get(4)?,
            battery_charge: row.get(5)?,
            status: row.get(6)?,
        })
    }).map_err(|e| format!("{e}"))?;
    it.collect::<Result<Vec<_>, _>>().map_err(|e| format!("{e}"))
}

/// Relies on rusqlite::Connection::execute: deletes the row with the
/// given identity and reports how many went.
#[verifier::external_body]
fn conn_delete_id(conn: &rusqlite::Connection, id: u64) -> (r: Result<usize, String>) {
    conn.execute("DELETE FROM history WHERE id = ?1", (id as i64,)).map_err(|e| format!("{e}"))
}

} // verus!
