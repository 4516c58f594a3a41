//! The table store: ordered tables that map a 64-bit key to a row of bytes,
//! kept in a `redb` database. Nothing in this file is proved: each function
//! makes the calls into `redb` that its comment names, and its contract says
//! what those calls do to the rows.

use redb::{ReadableDatabase, ReadableTable, ReadableTableMetadata, TableDefinition};
use vstd::prelude::*;

verus! {

#[verifier::external_type_specification]
#[verifier::external_body]
pub struct ExDatabase(redb::Database);

#[verifier::external_type_specification]
#[verifier::external_body]
pub struct ExTableFault(redb::Error);

/// The rows of the table called `table`: for each key the bytes kept under
/// it. Empty where the database has no table of that name with rows of
/// bytes.
pub uninterp spec fn table_rows(db: redb::Database, table: Seq<char>) -> Map<u64, Seq<u8>>;

/// `listing` holds exactly the rows of `rows`, by ascending key.
pub open spec fn lists_bytes(listing: Seq<(u64, Vec<u8>)>, rows: Map<u64, Seq<u8>>) -> bool {
    &&& forall|i: int, j: int| 0 <= i < j < listing.len() ==> listing[i].0 < listing[j].0
    &&& forall|i: int|
        0 <= i < listing.len() ==> rows.contains_key(#[trigger] listing[i].0) && rows[listing[i].0]
            == listing[i].1@
    &&& forall|k: u64| #[trigger]
        rows.contains_key(k) ==> exists|i: int| 0 <= i < listing.len() && #[trigger] listing[i].0 == k
}

/// Calls `Database::open`, which opens a database file that is there. Whether
/// it succeeds, and what the database then holds, is for the file system to
/// say.
#[verifier::external_body]
pub(crate) fn open_database(path: &std::path::Path) -> (r: Result<redb::Database, redb::Error>) {
    Ok(redb::Database::open(path)?)
}

/// Calls `Database::create`, which opens a database file or starts a new one
/// where none is there. Whether it succeeds, and what the database then
/// holds, is for the file system to say.
#[verifier::external_body]
pub(crate) fn create_database(path: &std::path::Path) -> (r: Result<redb::Database, redb::Error>) {
    Ok(redb::Database::create(path)?)
}

/// One write transaction of `Database::begin_write` that opens the three
/// tables with `WriteTransaction::open_table`, which creates a table that is
/// missing, and commits with `WriteTransaction::commit`. A success leaves the
/// rows of every table as they were. `TableDefinition::new` takes no empty
/// name.
#[verifier::external_body]
pub(crate) fn prepare_tables(db: &mut redb::Database, vertex: &str, texture: &str, locations: &str) -> (r: Result<
    (),
    redb::Error,
>)
    requires
        vertex@.len() > 0,
        texture@.len() > 0,
        locations@.len() > 0,
    ensures
        r is Ok ==> forall|t: Seq<char>| #[trigger] table_rows(*final(db), t) == table_rows(*old(db), t),
{
    let txn = db.begin_write()?;
    txn.open_table(TableDefinition::<u64, &[u8]>::new(vertex))?;
    txn.open_table(TableDefinition::<u64, &[u8]>::new(texture))?;
    txn.open_table(TableDefinition::<u64, &[u8]>::new(locations))?;
    txn.commit()?;
    Ok(())
}

/// One read transaction of `ReadableDatabase::begin_read` that walks the
/// table with `ReadableTable::iter`. A success hands out every row of the
/// table, by ascending key.
#[verifier::external_body]
pub(crate) fn list_rows(db: &redb::Database, table: &str) -> (r: Result<Vec<(u64, Vec<u8>)>, redb::Error>)
    requires
        table@.len() > 0,
    ensures
        r is Ok ==> lists_bytes(r->Ok_0@, table_rows(*db, table@)),
{
    let opened = db.begin_read()?.open_table(TableDefinition::<u64, &[u8]>::new(table))?;
    let mut listing = Vec::new();
    for entry in opened.iter()? {
        let (key, value) = entry?;
        listing.push((key.value(), value.value().to_vec()));
    }
    Ok(listing)
}

/// One write transaction that sets the row under `key` with `Table::insert`,
/// which replaces a row that is there, and commits. A success changes that
/// row of that table and nothing else.
#[verifier::external_body]
pub(crate) fn put_row(db: &mut redb::Database, table: &str, key: u64, bytes: &[u8]) -> (r: Result<(), redb::Error>)
    requires
        table@.len() > 0,
    ensures
        r is Ok ==> table_rows(*final(db), table@) == table_rows(*old(db), table@).insert(key, bytes@),
        r is Ok ==> forall|t: Seq<char>|
            t != table@ ==> #[trigger] table_rows(*final(db), t) == table_rows(*old(db), t),
{
    let txn = db.begin_write()?;
    txn.open_table(TableDefinition::<u64, &[u8]>::new(table))?.insert(key, bytes)?;
    txn.commit()?;
    Ok(())
}

/// One read transaction that asks the table for
/// `ReadableTableMetadata::len`. A success is the number of its rows.
#[verifier::external_body]
pub(crate) fn count_rows(db: &redb::Database, table: &str) -> (r: Result<u64, redb::Error>)
    requires
        table@.len() > 0,
    ensures
        r is Ok ==> table_rows(*db, table@).dom().finite(),
        r is Ok ==> r->Ok_0 == table_rows(*db, table@).len(),
{
    Ok(db.begin_read()?.open_table(TableDefinition::<u64, &[u8]>::new(table))?.len()?)
}

/// One read transaction that looks `key` up with `ReadableTable::get`. A
/// success is the row under that key, or `None` where the table has none.
#[verifier::external_body]
pub(crate) fn get_row(db: &redb::Database, table: &str, key: u64) -> (r: Result<Option<Vec<u8>>, redb::Error>)
    requires
        table@.len() > 0,
    ensures
        r is Ok ==> (r->Ok_0 is Some <==> table_rows(*db, table@).contains_key(key)),
        r is Ok && r->Ok_0 is Some ==> r->Ok_0->Some_0@ == table_rows(*db, table@)[key],
{
    let opened = db.begin_read()?.open_table(TableDefinition::<u64, &[u8]>::new(table))?;
    let found = opened.get(key)?;
    Ok(found.map(|guard| guard.value().to_vec()))
}

} // verus!
