use vstd::prelude::*;

verus! {

/// Largest number of identifiers bound into one lookup query; the
/// underlying store caps the placeholders a single statement may carry.
pub const CHUNK_SIZE: usize = 950;

/// A record is fresh for strictly less than this many seconds (30 days)
/// after its last update.
pub const TTL_SECS: u64 = 2592000;

/// Rows that predate the freshness column are stamped this many seconds
/// (31 days) in the past, so they start out stale rather than fresh.
pub const STALE_BACKFILL_SECS: u64 = 2678400;

/// Largest stamp the store can hold: its integer column is signed 64-bit.
pub const MAX_STAMP_SECS: u64 = 0x7fff_ffff_ffff_ffff;

/// One modeled row of the store: the seconds-since-epoch stamp of its
/// last update and the accumulated provider bitmask.
pub type CacheRow = (Option<u64>, u32);

/// The rows of the `avatars` table held by a store connection, keyed by
/// identifier. The stamp reads `Some(u)` exactly when the `updated_at`
/// cell holds a non-negative integer `u`; it reads `None` when the cell
/// is NULL, the column is missing, or the cell holds anything else (a
/// text datetime left by an older schema, say). The bitmask reads the
/// `provider_bits` cell's value when that is an integer a `u32` can
/// hold, and 0 when the cell is NULL or the column is missing. The
/// creation stamp is carried by the table but never read.
pub uninterp spec fn cache_table(conn: rusqlite::Connection) -> Map<Seq<char>, CacheRow>;

#[verifier::external_type_specification]
#[verifier::external_body]
pub struct ExConnection(rusqlite::Connection);

#[verifier::external_type_specification]
#[verifier::external_body]
pub struct ExSqliteError(rusqlite::Error);

/// A failure of the persistence layer; always fatal to the current batch.
#[derive(Debug)]
pub enum CacheError {
    Storage(String),
}

/// Whether a row stamped at `stamp` is fresh at time `now`: it has a
/// stamp and less than the freshness window has passed since.
pub open spec fn row_fresh(stamp: Option<u64>, now: u64) -> bool {
    match stamp {
        Some(u) => now - u < TTL_SECS,
        None => false,
    }
}

/// Whether a row's stamp exists and is at or past `cutoff`; this is the
/// comparison the store's lookup query performs.
pub open spec fn row_at_least(stamp: Option<u64>, cutoff: u64) -> bool {
    match stamp {
        Some(u) => u >= cutoff,
        None => false,
    }
}

/// The bitmask a lookup reports for `id` at time `now`: the stored bits
/// when a fresh record exists, and zero when the record is absent or
/// stale.
pub open spec fn fresh_bits(t: Map<Seq<char>, CacheRow>, id: Seq<char>, now: u64) -> u32 {
    if t.dom().contains(id) && row_fresh(t[id].0, now) {
        t[id].1
    } else {
        0
    }
}

/// View of a list of (identifier, bitmask) entries.
pub open spec fn entries_view(entries: Seq<(String, u32)>) -> Seq<(Seq<char>, u32)> {
    Seq::new(entries.len(), |i: int| (entries[i].0@, entries[i].1))
}

/// The table after storing `entries` in order at time `now`: each entry
/// replaces the row's bitmask outright and stamps the row with `now`;
/// rows not named are untouched.
pub open spec fn store_model(
    t: Map<Seq<char>, CacheRow>,
    entries: Seq<(Seq<char>, u32)>,
    now: u64,
) -> Map<Seq<char>, CacheRow>
    decreases entries.len(),
{
    if entries.len() == 0 {
        t
    } else {
        store_model(t, entries.drop_last(), now).insert(
            entries.last().0,
            (Some(now), entries.last().1),
        )
    }
}

/// The stamp schema setup writes onto rows that had none: a moment one
/// backfill window before `now`, so such rows start out stale.
pub open spec fn stale_stamp(now: u64) -> u64 {
    if now >= STALE_BACKFILL_SECS {
        (now - STALE_BACKFILL_SECS) as u64
    } else {
        0
    }
}

/// The table after schema setup ran over an existing store: every row
/// keeps its bitmask; a row that already had a stamp keeps it, and a row
/// without one is stamped `stale`.
pub open spec fn migrate_model(t: Map<Seq<char>, CacheRow>, stale: u64) -> Map<
    Seq<char>,
    CacheRow,
> {
    Map::new(
        |id: Seq<char>| t.dom().contains(id),
        |id: Seq<char>|
            (
                if t[id].0 is Some {
                    t[id].0
                } else {
                    Some(stale)
                },
                t[id].1,
            ),
    )
}

/// Setup is idempotent: when every row already carries a stamp (as after
/// any earlier setup), migrating changes nothing.
pub proof fn lemma_migration_idempotent(t: Map<Seq<char>, CacheRow>, stale: u64)
    requires
        forall|id: Seq<char>| t.dom().contains(id) ==> t[id].0 is Some,
    ensures
        migrate_model(t, stale) == t,
{
    assert(migrate_model(t, stale) =~= t);
}

/// A row that setup had to stamp is stale, not fresh: a schema upgrade
/// never turns old rows into fresh ones.
pub proof fn lemma_backfilled_rows_stale(t: Map<Seq<char>, CacheRow>, id: Seq<char>, now: u64)
    requires
        now >= TTL_SECS,
        t.dom().contains(id),
        t[id].0 is None,
    ensures
        migrate_model(t, stale_stamp(now)).dom().contains(id),
        !row_fresh(migrate_model(t, stale_stamp(now))[id].0, now),
{
}

/// An identifier that was never stored is reported as bitmask 0 by any
/// lookup, at any time.
pub proof fn lemma_unstored_reports_zero(t: Map<Seq<char>, CacheRow>, id: Seq<char>, now: u64)
    requires
        !t.dom().contains(id),
    ensures
        fresh_bits(t, id, now) == 0,
{
}

/// Storing `(id, a)` and then `(id, b)` leaves the stored bitmask equal
/// to `b`: a store replaces the bitmask, it never merges. Every other
/// identifier's row is untouched by both stores.
pub proof fn lemma_store_replaces(
    t: Map<Seq<char>, CacheRow>,
    id: Seq<char>,
    a: u32,
    b: u32,
    now1: u64,
    now2: u64,
)
    ensures
        ({
            let t2 = store_model(store_model(t, seq![(id, a)], now1), seq![(id, b)], now2);
            &&& t2.dom().contains(id)
            &&& t2[id] == (Some(now2), b)
            &&& forall|o: Seq<char>|
                o != id ==> t2.dom().contains(o) == t.dom().contains(o) && (t.dom().contains(o)
                    ==> t2[o] == t[o])
        }),
{
    let e: Seq<(Seq<char>, u32)> = Seq::empty();
    let t1 = store_model(t, seq![(id, a)], now1);
    assert(seq![(id, a)].drop_last() =~= e);
    assert(seq![(id, b)].drop_last() =~= e);
    assert(store_model(t, e, now1) == t);
    assert(t1 == t.insert(id, (Some(now1), a)));
    assert(store_model(t1, e, now2) == t1);
    assert(store_model(t1, seq![(id, b)], now2) == t1.insert(id, (Some(now2), b)));
}

/// A stored record ages out: once the freshness window has fully
/// passed, a lookup reports bitmask 0 for the identifier even though
/// its row still exists in the table.
pub proof fn lemma_ttl_expires(
    t: Map<Seq<char>, CacheRow>,
    id: Seq<char>,
    bits: u32,
    stored_at: u64,
    now: u64,
)
    requires
        now - stored_at >= TTL_SECS,
    ensures
        store_model(t, seq![(id, bits)], stored_at).dom().contains(id),
        fresh_bits(store_model(t, seq![(id, bits)], stored_at), id, now) == 0,
{
    let e: Seq<(Seq<char>, u32)> = Seq::empty();
    assert(seq![(id, bits)].drop_last() =~= e);
    assert(store_model(t, e, stored_at) == t);
    assert(store_model(t, seq![(id, bits)], stored_at) == t.insert(id, (Some(stored_at), bits)));
}

/// Relies on rusqlite's `Connection::open`: opens or creates the store
/// file at `path`. The table keeps whatever the file held; nothing is
/// assumed of its contents.
#[verifier::external_body]
fn open_file_store(path: &str) -> Result<rusqlite::Connection, rusqlite::Error> {
    rusqlite::Connection::open(path)
}

/// Relies on rusqlite's `Connection::open_in_memory`: opens a fresh
/// ephemeral store. The `avatars` table does not exist yet, so nothing
/// is stated of the model until the table is created.
#[verifier::external_body]
fn open_memory_store() -> Result<rusqlite::Connection, rusqlite::Error> {
    rusqlite::Connection::open_in_memory()
}

/// Relies on rusqlite's `Connection::execute` running `CREATE TABLE`:
/// on success a brand-new empty table exists; on failure (normally
/// because the table is already there) nothing changes.
#[verifier::external_body]
fn create_avatars_table(conn: &mut rusqlite::Connection) -> (r: bool)
    ensures
        cache_table(*final(conn)) == (if r {
            Map::<Seq<char>, CacheRow>::empty()
        } else {
            cache_table(*old(conn))
        }),
{
    conn.execute(
        "CREATE TABLE avatars (
            id TEXT PRIMARY KEY,
            created_at DATETIME,
            updated_at DATETIME,
            provider_bits INT DEFAULT 0
        )",
        (),
    ).is_ok()
}

/// Relies on rusqlite's `Statement::query_map` over `PRAGMA table_info`:
/// returns the column names of the `avatars` table. Reading the schema
/// leaves the rows untouched.
#[verifier::external_body]
fn table_columns(conn: &rusqlite::Connection) -> Result<Vec<String>, rusqlite::Error> {
    let mut stmt = conn.prepare("PRAGMA table_info(avatars)")?;
    let rows = stmt.query_map([], |row| row.get::<_, String>(1))?;
    rows.collect()
}

/// Relies on rusqlite's `Connection::execute` running `ALTER TABLE ADD
/// COLUMN created_at`: the creation stamp is not part of the model, so
/// the modeled rows are unchanged whether the statement succeeds or not.
#[verifier::external_body]
fn add_column_created_at(conn: &mut rusqlite::Connection) -> (r: Result<(), rusqlite::Error>)
    ensures
        cache_table(*final(conn)) == cache_table(*old(conn)),
{
    conn.execute("ALTER TABLE avatars ADD COLUMN created_at DATETIME", ()).map(|_| ())
}

/// Relies on rusqlite's `Connection::execute` running `UPDATE avatars
/// SET created_at = ? WHERE created_at IS NULL`: only the unmodeled
/// creation stamp is written, so the modeled rows are unchanged.
#[verifier::external_body]
fn backfill_created_at(conn: &mut rusqlite::Connection, now: u64) -> (r: Result<
    (),
    rusqlite::Error,
>)
    requires
        now <= MAX_STAMP_SECS,
    ensures
        cache_table(*final(conn)) == cache_table(*old(conn)),
{
    conn.execute("UPDATE avatars SET created_at = ?1 WHERE created_at IS NULL", (now as i64,)).map(
        |_| (),
    )
}

/// Relies on rusqlite's `Connection::execute` running `ALTER TABLE ADD
/// COLUMN updated_at`: the statement succeeds only when the column did
/// not exist, in which case every stamp already read `None` (missing
/// column) and still does (every cell NULL); no row changes either way.
#[verifier::external_body]
fn add_column_updated_at(conn: &mut rusqlite::Connection) -> (r: Result<(), rusqlite::Error>)
    ensures
        cache_table(*final(conn)) == cache_table(*old(conn)),
        r is Ok ==> forall|id: Seq<char>|
            cache_table(*old(conn)).dom().contains(id) ==> cache_table(*old(conn))[id].0 is None,
{
    conn.execute("ALTER TABLE avatars ADD COLUMN updated_at DATETIME", ()).map(|_| ())
}

/// Relies on rusqlite's `Connection::execute` running `ALTER TABLE ADD
/// COLUMN provider_bits INT DEFAULT 0`: the statement succeeds only when
/// the column did not exist, in which case every bitmask already read 0
/// (missing column) and still does (constant default); no row changes
/// either way.
#[verifier::external_body]
fn add_column_provider_bits(conn: &mut rusqlite::Connection) -> (r: Result<(), rusqlite::Error>)
    ensures
        cache_table(*final(conn)) == cache_table(*old(conn)),
        r is Ok ==> forall|id: Seq<char>|
            cache_table(*old(conn)).dom().contains(id) ==> cache_table(*old(conn))[id].1 == 0,
{
    conn.execute("ALTER TABLE avatars ADD COLUMN provider_bits INT DEFAULT 0", ()).map(|_| ())
}

/// Relies on rusqlite's `Connection::execute` running one `UPDATE` over
/// exactly the rows whose stamp reads `None`: NULL cells, and cells an
/// older schema filled with text datetimes or other non-integer values.
/// Each such row is stamped `stamp`; rows whose cell already holds a
/// non-negative integer are untouched. One statement, atomic: on
/// failure nothing changes.
#[verifier::external_body]
fn backfill_updated_at(conn: &mut rusqlite::Connection, stamp: u64) -> (r: Result<
    (),
    rusqlite::Error,
>)
    requires
        stamp <= MAX_STAMP_SECS,
    ensures
        r is Ok ==> cache_table(*final(conn)).dom() == cache_table(*old(conn)).dom(),
        r is Ok ==> forall|id: Seq<char>| cache_table(*old(conn)).dom().contains(id)
            ==> cache_table(*final(conn))[id] == (
            if cache_table(*old(conn))[id].0 is Some {
                cache_table(*old(conn))[id].0
            } else {
                Some(stamp)
            },
            cache_table(*old(conn))[id].1,
        ),
        r is Err ==> cache_table(*final(conn)) == cache_table(*old(conn)),
{
    conn.execute(
        "UPDATE avatars SET updated_at = ?1
         WHERE updated_at IS NULL OR typeof(updated_at) != 'integer' OR updated_at < 0",
        (stamp as i64,),
    ).map(|_| ())
}

/// Relies on rusqlite's `Connection::execute_batch` running two `CREATE
/// INDEX IF NOT EXISTS` statements: indexes change lookup speed, never
/// the rows.
#[verifier::external_body]
fn create_indexes(conn: &mut rusqlite::Connection) -> (r: Result<(), rusqlite::Error>)
    ensures
        cache_table(*final(conn)) == cache_table(*old(conn)),
{
    conn.execute_batch(
        "CREATE INDEX IF NOT EXISTS idx_avatars_updated_at ON avatars(updated_at);
         CREATE INDEX IF NOT EXISTS idx_avatars_id ON avatars(id);",
    )
}

/// Relies on rusqlite's `Connection::transaction`, `Transaction::execute`
/// and `Transaction::commit`: every entry is upserted inside one
/// transaction, in order, each replacing the row's bitmask and stamping
/// it with `now`. On any failure the transaction is rolled back (the
/// default drop behavior), leaving the table unchanged.
#[verifier::external_body]
fn store_rows(conn: &mut rusqlite::Connection, entries: &Vec<(String, u32)>, now: u64) -> (r:
    Result<(), rusqlite::Error>)
    requires
        now <= MAX_STAMP_SECS,
    ensures
        r is Ok ==> cache_table(*final(conn)) == store_model(
            cache_table(*old(conn)),
            entries_view(entries@),
            now,
        ),
        r is Err ==> cache_table(*final(conn)) == cache_table(*old(conn)),
{
    let tx = conn.transaction()?;
    for (id, bits) in entries.iter() {
        tx.execute(
            "INSERT INTO avatars (id, provider_bits, created_at, updated_at)
             VALUES (?1, ?2, ?3, ?3)
             ON CONFLICT (id) DO UPDATE SET updated_at = ?3, provider_bits = ?2",
            (id, bits, now as i64),
        )?;
    }
    tx.commit()
}

/// Relies on rusqlite's `Statement::query_map` over `SELECT id,
/// provider_bits FROM avatars WHERE id IN (...) AND typeof(updated_at)
/// = 'integer' AND updated_at >= ?`: returns one row for each distinct
/// requested identifier whose record exists with an integer stamp at or
/// past `cutoff`, carrying that record's bitmask. Identifiers without
/// such a record yield no row; in particular a cell an older schema
/// filled with a text datetime reads `None` and is never matched.
#[verifier::external_body]
fn query_rows(conn: &rusqlite::Connection, ids: &Vec<String>, cutoff: u64) -> (r: Result<
    Vec<(String, u32)>,
    rusqlite::Error,
>)
    requires
        ids@.len() <= CHUNK_SIZE,
        cutoff <= MAX_STAMP_SECS,
    ensures
        r matches Ok(rows) ==> {
            &&& forall|j: int|
                0 <= j < rows@.len() ==> {
                    &&& exists|i: int| 0 <= i < ids@.len() && ids@[i]@ == rows@[j].0@
                    &&& cache_table(*conn).dom().contains(rows@[j].0@)
                    &&& row_at_least(cache_table(*conn)[rows@[j].0@].0, cutoff)
                    &&& rows@[j].1 == cache_table(*conn)[rows@[j].0@].1
                }
            &&& forall|i: int|
                0 <= i < ids@.len() && cache_table(*conn).dom().contains(ids@[i]@)
                    && row_at_least(cache_table(*conn)[ids@[i]@].0, cutoff) ==> exists|j: int|
                    0 <= j < rows@.len() && rows@[j].0@ == ids@[i]@
            &&& forall|j: int, k: int|
                0 <= j < rows@.len() && 0 <= k < rows@.len() && j != k ==> rows@[j].0@
                    != rows@[k].0@
        },
{
    let placeholders = vec!["?"; ids.len()].join(",");
    let sql = format!(
        "SELECT id, provider_bits FROM avatars
         WHERE id IN ({placeholders}) AND typeof(updated_at) = 'integer' AND updated_at >= ?",
    );
    let cutoff = cutoff as i64;
    let mut params: Vec<&dyn rusqlite::ToSql> = ids.iter().map(|id| id as &dyn rusqlite::ToSql).collect();
    params.push(&cutoff);
    let mut stmt = conn.prepare(&sql)?;
    let rows = stmt.query_map(&params[..], |row| {
        Ok((row.get::<_, String>(0)?, row.get::<_, u32>(1)?))
    })?;
    rows.collect()
}

/// Relies on rusqlite's `Connection::execute` upserting one row: the
/// row is stamped with `now`; a new row starts with bitmask 0 and an
/// existing row keeps its bitmask. On failure nothing changes.
#[verifier::external_body]
fn touch_row(conn: &mut rusqlite::Connection, id: &String, now: u64) -> (r: Result<
    (),
    rusqlite::Error,
>)
    requires
        now <= MAX_STAMP_SECS,
    ensures
        r is Ok ==> cache_table(*final(conn)) == cache_table(*old(conn)).insert(
            id@,
            (
                Some(now),
                if cache_table(*old(conn)).dom().contains(id@) {
                    cache_table(*old(conn))[id@].1
                } else {
                    0u32
                },
            ),
        ),
        r is Err ==> cache_table(*final(conn)) == cache_table(*old(conn)),
{
    conn.execute(
        "INSERT INTO avatars (id, provider_bits, created_at, updated_at)
         VALUES (?1, 0, ?2, ?2)
         ON CONFLICT (id) DO UPDATE SET updated_at = ?2",
        (id, now as i64),
    ).map(|_| ())
}

/// Relies on the `Display` rendering of rusqlite's error type, for
/// reporting only.
#[verifier::external_body]
fn error_text(e: &rusqlite::Error) -> String {
    format!("{e}")
}

/// Wrap a storage-layer failure into this crate's error type.
fn storage_error(e: rusqlite::Error) -> CacheError {
    CacheError::Storage(error_text(&e))
}

/// Whether one of `cols` reads as `name`.
fn has_column(cols: &Vec<String>, name: &String) -> (r: bool)
    ensures
        r == exists|i: int| 0 <= i < cols@.len() && cols@[i]@ == name@,
{
    let mut i: usize = 0;
    while i < cols.len()
        invariant
            i <= cols@.len(),
            forall|k: int| 0 <= k < i ==> cols@[k]@ != name@,
        decreases cols@.len() - i,
    {
        if cols[i] == *name {
            assert(cols@[i as int]@ == name@);
            return true;
        }
        i = i + 1;
    }
    false
}

/// The persistent deduplication cache: one table mapping each avatar
/// identifier to the bitmask of providers that have accepted it, with a
/// stamp that ages records out of lookups after the freshness window.
pub struct Cache {
    connection: rusqlite::Connection,
}

impl Cache {
    /// The modeled rows of this store.
    pub closed spec fn table(&self) -> Map<Seq<char>, CacheRow> {
        cache_table(self.connection)
    }

    /// Open or create the store at `path` and bring its schema up to
    /// date through `setup_database`, whose contract pins what setup
    /// does to the rows the file held: every row ends up stamped, and a
    /// row that had no usable stamp is stamped in the past (stale).
    pub fn new_at_location(path: &str, now: u64) -> (r: Result<Cache, CacheError>)
        requires
            now <= MAX_STAMP_SECS,
        ensures
            r matches Ok(c) ==> forall|id: Seq<char>|
                c.table().dom().contains(id) ==> c.table()[id].0 is Some,
    {
        let conn = match open_file_store(path) {
            Ok(c) => c,
            Err(e) => {
                return Err(storage_error(e));
            },
        };
        let mut cache = Cache { connection: conn };
        match cache.setup_database(now) {
            Ok(_) => Ok(cache),
            Err(e) => Err(e),
        }
    }

    /// Open a fresh ephemeral store with an empty table.
    pub fn new_in_memory() -> (r: Result<Cache, CacheError>)
        ensures
            r matches Ok(c) ==> c.table() == Map::<Seq<char>, CacheRow>::empty(),
    {
        let conn = match open_memory_store() {
            Ok(c) => c,
            Err(e) => {
                return Err(storage_error(e));
            },
        };
        let mut cache = Cache { connection: conn };
        if !create_avatars_table(&mut cache.connection) {
            return Err(CacheError::Storage(
                <String as vstd::string::StringExecFns>::from_str(
                    "could not create the avatars table",
                ),
            ));
        }
        match create_indexes(&mut cache.connection) {
            Ok(_) => Ok(cache),
            Err(e) => Err(storage_error(e)),
        }
    }

    /// Idempotent schema setup. When the table is absent it is created
    /// empty (`Ok(true)`). When it exists (`Ok(false)`), missing columns
    /// are added and the stamps normalized: every row keeps its bitmask;
    /// a row whose stamp cell already holds a usable value keeps it; a
    /// row without one — NULL, a missing column, or a text datetime from
    /// an older schema — is stamped one backfill window in the past, so
    /// a schema upgrade leaves old rows stale, never fresh (see
    /// `lemma_backfilled_rows_stale`). Running setup again changes
    /// nothing (see `lemma_migration_idempotent`). On failure the rows
    /// are either untouched, fully migrated, or the newly created empty
    /// table.
    pub fn setup_database(&mut self, now: u64) -> (r: Result<bool, CacheError>)
        requires
            now <= MAX_STAMP_SECS,
        ensures
            r matches Ok(created) ==> final(self).table() == (if created {
                Map::<Seq<char>, CacheRow>::empty()
            } else {
                migrate_model(old(self).table(), stale_stamp(now))
            }),
            r matches Ok(created) ==> forall|id: Seq<char>|
                final(self).table().dom().contains(id) ==> final(self).table()[id].0 is Some,
            r is Err ==> final(self).table() == old(self).table() || final(self).table()
                == migrate_model(old(self).table(), stale_stamp(now)) || final(self).table()
                == Map::<Seq<char>, CacheRow>::empty(),
    {
        let ghost t0 = self.table();
        if create_avatars_table(&mut self.connection) {
            match create_indexes(&mut self.connection) {
                Ok(_) => Ok(true),
                Err(e) => Err(storage_error(e)),
            }
        } else {
            let cols = match table_columns(&self.connection) {
                Ok(c) => c,
                Err(e) => {
                    return Err(storage_error(e));
                },
            };
            let created_at_name = <String as vstd::string::StringExecFns>::from_str("created_at");
            let updated_at_name = <String as vstd::string::StringExecFns>::from_str("updated_at");
            let bits_name = <String as vstd::string::StringExecFns>::from_str("provider_bits");
            if !has_column(&cols, &created_at_name) {
                match add_column_created_at(&mut self.connection) {
                    Ok(_) => (),
                    Err(e) => {
                        return Err(storage_error(e));
                    },
                }
            }
            match backfill_created_at(&mut self.connection, now) {
                Ok(_) => (),
                Err(e) => {
                    return Err(storage_error(e));
                },
            }
            if !has_column(&cols, &updated_at_name) {
                match add_column_updated_at(&mut self.connection) {
                    Ok(_) => (),
                    Err(e) => {
                        return Err(storage_error(e));
                    },
                }
            }
            if !has_column(&cols, &bits_name) {
                match add_column_provider_bits(&mut self.connection) {
                    Ok(_) => (),
                    Err(e) => {
                        return Err(storage_error(e));
                    },
                }
            }
            proof {
                assert(self.table() =~= t0);
            }
            let stale = if now >= STALE_BACKFILL_SECS {
                now - STALE_BACKFILL_SECS
            } else {
                0
            };
            match backfill_updated_at(&mut self.connection, stale) {
                Ok(_) => (),
                Err(e) => {
                    return Err(storage_error(e));
                },
            }
            proof {
                assert(self.table() =~= migrate_model(t0, stale_stamp(now)));
            }
            match create_indexes(&mut self.connection) {
                Ok(_) => Ok(false),
                Err(e) => Err(storage_error(e)),
            }
        }
    }

    /// Look up a batch: for every requested identifier, report the
    /// stored bitmask when its record is fresh at `now`, else 0. The
    /// result covers the whole input, position by position. Inputs
    /// larger than the placeholder ceiling are looked up in chunks and
    /// the chunk results merged, without loss or duplication.
    pub fn check_all_ids(&self, ids: &Vec<String>, now: u64) -> (r: Result<
        Vec<(String, u32)>,
        CacheError,
    >)
        requires
            now <= MAX_STAMP_SECS,
        ensures
            r matches Ok(out) ==> {
                &&& out@.len() == ids@.len()
                &&& forall|i: int|
                    0 <= i < ids@.len() ==> out@[i].0@ == ids@[i]@ && out@[i].1 == fresh_bits(
                        self.table(),
                        ids@[i]@,
                        now,
                    )
            },
    {
        // A stamp passes `u >= cutoff` exactly when it is fresh at `now`.
        let cutoff: u64 = if now >= TTL_SECS {
            now - (TTL_SECS - 1)
        } else {
            0
        };
        assert(forall|u: u64| (u >= cutoff) == row_fresh(Some(u), now));

        let mut out: Vec<(String, u32)> = Vec::new();
        let mut start: usize = 0;
        while start < ids.len()
            invariant
                start <= ids@.len(),
                out@.len() == start,
                forall|i: int|
                    0 <= i < start ==> out@[i].0@ == ids@[i]@ && out@[i].1 == fresh_bits(
                        self.table(),
                        ids@[i]@,
                        now,
                    ),
                forall|u: u64| (u >= cutoff) == row_fresh(Some(u), now),
                cutoff <= MAX_STAMP_SECS,
            decreases ids@.len() - start,
        {
            let end = if ids.len() - start > CHUNK_SIZE {
                start + CHUNK_SIZE
            } else {
                ids.len()
            };
            let mut chunk: Vec<String> = Vec::new();
            let mut k = start;
            while k < end
                invariant
                    start <= k <= end <= ids@.len(),
                    end - start <= CHUNK_SIZE,
                    chunk@.len() == k - start,
                    forall|m: int| 0 <= m < chunk@.len() ==> chunk@[m]@ == ids@[start + m]@,
                decreases end - k,
            {
                chunk.push(ids[k].clone());
                k = k + 1;
            }
            let rows = match query_rows(&self.connection, &chunk, cutoff) {
                Ok(r) => r,
                Err(e) => {
                    return Err(storage_error(e));
                },
            };
            let mut j: usize = 0;
            while j < chunk.len()
                invariant
                    start + chunk@.len() == end <= ids@.len(),
                    j <= chunk@.len(),
                    out@.len() == start + j,
                    forall|m: int| 0 <= m < chunk@.len() ==> chunk@[m]@ == ids@[start + m]@,
                    forall|i: int|
                        0 <= i < out@.len() ==> out@[i].0@ == ids@[i]@ && out@[i].1 == fresh_bits(
                            self.table(),
                            ids@[i]@,
                            now,
                        ),
                    forall|u: u64| (u >= cutoff) == row_fresh(Some(u), now),
                    forall|jj: int|
                        0 <= jj < rows@.len() ==> {
                            &&& cache_table(self.connection).dom().contains(rows@[jj].0@)
                            &&& row_at_least(cache_table(self.connection)[rows@[jj].0@].0, cutoff)
                            &&& rows@[jj].1 == cache_table(self.connection)[rows@[jj].0@].1
                        },
                    forall|i: int|
                        0 <= i < chunk@.len() && cache_table(self.connection).dom().contains(
                            chunk@[i]@,
                        ) && row_at_least(cache_table(self.connection)[chunk@[i]@].0, cutoff)
                            ==> exists|jj: int|
                            0 <= jj < rows@.len() && rows@[jj].0@ == chunk@[i]@,
                decreases chunk@.len() - j,
            {
                let mut bits: u32 = 0;
                let mut found = false;
                let mut m: usize = 0;
                while m < rows.len()
                    invariant
                        j < chunk@.len(),
                        m <= rows@.len(),
                        !found ==> bits == 0,
                        !found ==> forall|mm: int| 0 <= mm < m ==> rows@[mm].0@ != chunk@[j as int]@,
                        found ==> exists|mm: int|
                            0 <= mm < rows@.len() && rows@[mm].0@ == chunk@[j as int]@ && bits
                                == rows@[mm].1,
                    decreases rows@.len() - m,
                {
                    if rows[m].0 == chunk[j] {
                        bits = rows[m].1;
                        found = true;
                        assert(rows@[m as int].0@ == chunk@[j as int]@);
                    }
                    m = m + 1;
                }
                proof {
                    let id = chunk@[j as int]@;
                    let t = cache_table(self.connection);
                    if found {
                        let mm = choose|mm: int|
                            0 <= mm < rows@.len() && rows@[mm].0@ == id && bits == rows@[mm].1;
                        assert(t.dom().contains(id) && row_at_least(t[id].0, cutoff));
                        assert(row_fresh(t[id].0, now));
                        assert(bits == fresh_bits(t, id, now));
                    } else {
                        if t.dom().contains(id) && row_fresh(t[id].0, now) {
                            assert(row_at_least(t[id].0, cutoff));
                            assert(exists|jj: int|
                                0 <= jj < rows@.len() && rows@[jj].0@ == id);
                            assert(false);
                        }
                        assert(fresh_bits(t, id, now) == 0);
                    }
                }
                let id_copy = chunk[j].clone();
                assert(id_copy@ == chunk@[j as int]@);
                assert(chunk@[j as int]@ == ids@[start + j as int]@);
                assert(bits == fresh_bits(self.table(), ids@[start + j as int]@, now));
                out.push((id_copy, bits));
                j = j + 1;
                assert(out@[start + j - 1].0@ == ids@[start + j - 1]@);
            }
            start = end;
        }
        Ok(out)
    }

    /// Store every `(identifier, bitmask)` entry in one atomic
    /// transaction at time `now`. Each entry replaces the stored bitmask
    /// outright (no merging here: callers merge first when they mean
    /// to). On failure nothing at all is written.
    pub fn store_avatar_ids_with_providers(&mut self, entries: &Vec<(String, u32)>, now: u64) -> (r:
        Result<(), CacheError>)
        requires
            now <= MAX_STAMP_SECS,
        ensures
            r is Ok ==> final(self).table() == store_model(
                old(self).table(),
                entries_view(entries@),
                now,
            ),
            r is Err ==> final(self).table() == old(self).table(),
    {
        match store_rows(&mut self.connection, entries, now) {
            Ok(_) => Ok(()),
            Err(e) => Err(storage_error(e)),
        }
    }

    /// Whether `avatar_id` should still be processed: true when no fresh
    /// record of it exists at `now`.
    pub fn check_avatar_id(&self, avatar_id: &String, now: u64) -> (r: Result<bool, CacheError>)
        requires
            now <= MAX_STAMP_SECS,
        ensures
            r matches Ok(b) ==> b == !(self.table().dom().contains(avatar_id@) && row_fresh(
                self.table()[avatar_id@].0,
                now,
            )),
    {
        let cutoff: u64 = if now >= TTL_SECS {
            now - (TTL_SECS - 1)
        } else {
            0
        };
        assert(forall|u: u64| (u >= cutoff) == row_fresh(Some(u), now));
        let mut one: Vec<String> = Vec::new();
        one.push(avatar_id.clone());
        assert(one@[0]@ == avatar_id@);
        let rows = match query_rows(&self.connection, &one, cutoff) {
            Ok(r) => r,
            Err(e) => {
                return Err(storage_error(e));
            },
        };
        let t = Ghost(cache_table(self.connection));
        if rows.len() == 0 {
            proof {
                if t@.dom().contains(avatar_id@) && row_fresh(t@[avatar_id@].0, now) {
                    assert(row_at_least(t@[avatar_id@].0, cutoff));
                    assert(exists|jj: int| 0 <= jj < rows@.len() && rows@[jj].0@ == one@[0]@);
                    assert(false);
                }
            }
            Ok(true)
        } else {
            proof {
                assert(t@.dom().contains(rows@[0].0@) && row_at_least(t@[rows@[0].0@].0, cutoff));
                assert(exists|i: int| 0 <= i < one@.len() && one@[i]@ == rows@[0].0@);
                assert(rows@[0].0@ == avatar_id@);
                assert(row_fresh(t@[avatar_id@].0, now));
            }
            Ok(false)
        }
    }

    /// Record that `avatar_id` was fully processed at `now`: the row is
    /// stamped fresh, keeping whatever provider bits it carries (a new
    /// row starts with none).
    pub fn send_avatar_id(&mut self, avatar_id: &String, now: u64) -> (r: Result<(), CacheError>)
        requires
            now <= MAX_STAMP_SECS,
        ensures
            r is Ok ==> final(self).table() == old(self).table().insert(
                avatar_id@,
                (
                    Some(now),
                    if old(self).table().dom().contains(avatar_id@) {
                        old(self).table()[avatar_id@].1
                    } else {
                        0u32
                    },
                ),
            ),
            r is Err ==> final(self).table() == old(self).table(),
    {
        match touch_row(&mut self.connection, avatar_id, now) {
            Ok(_) => Ok(()),
            Err(e) => Err(storage_error(e)),
        }
    }
}

} // verus!
