//! Rows as values: what the tables hold once their bytes are decoded, and
//! the reads and writes that the index is made of.

use crate::codec::{
    decode_location, decode_storage, encode_location, encode_storage, lemma_location_round_trip,
    lemma_storage_row_well_framed, location_encodes, location_of, location_row_bytes, storage_encodes, storage_of,
    storage_row_bytes, well_framed,
};
use crate::error::StorageError;
use crate::table_store::{count_rows, get_row, list_rows, lists_bytes, put_row, table_rows};
use vstd::bytes::{lemma_auto_spec_u64_to_from_le_bytes, u64_from_le_bytes};
use vstd::prelude::*;
use vstd::slice::slice_subrange;
use vstd::utf8::encode_utf8;

verus! {

/// The storage row that bytes stand for. Bytes that do not decode read as
/// a file without a name; no function hands such a row out.
pub open spec fn read_storage(bytes: Seq<u8>) -> (Seq<char>, u64) {
    match storage_of(bytes) {
        Some(row) => row,
        None => (Seq::empty(), 0u64),
    }
}

/// The location row that bytes stand for. Bytes that do not decode read as
/// a blob without bytes; no function hands such a row out.
pub open spec fn read_location(bytes: Seq<u8>) -> (bool, u64, u64, u64) {
    match location_of(bytes) {
        Some(row) => row,
        None => (false, 0u64, 0u64, 0u64),
    }
}

/// The rows of the storage table called `table`: for each key the file's
/// relative path and its recorded size.
pub open spec fn storage_rows(db: redb::Database, table: Seq<char>) -> Map<u64, (Seq<char>, u64)> {
    table_rows(db, table).map_values(|bytes: Seq<u8>| read_storage(bytes))
}

/// The rows of the location table called `table`: for each key the class
/// flag, the storage key, the offset and the size.
pub open spec fn location_rows(db: redb::Database, table: Seq<char>) -> Map<u64, (bool, u64, u64, u64)> {
    table_rows(db, table).map_values(|bytes: Seq<u8>| read_location(bytes))
}

/// `listing` holds exactly the rows of `rows`, by ascending key.
pub open spec fn lists_rows(listing: Seq<(u64, String, u64)>, rows: Map<u64, (Seq<char>, u64)>) -> bool {
    &&& forall|i: int, j: int| 0 <= i < j < listing.len() ==> listing[i].0 < listing[j].0
    &&& forall|i: int|
        0 <= i < listing.len() ==> rows.contains_key(#[trigger] listing[i].0) && rows[listing[i].0] == (
            listing[i].1@,
            listing[i].2,
        )
    &&& forall|k: u64| #[trigger]
        rows.contains_key(k) ==> exists|i: int| 0 <= i < listing.len() && #[trigger] listing[i].0 == k
}

/// The bytes are a storage row: they are well framed and decode.
pub open spec fn is_storage_row(bytes: Seq<u8>) -> bool {
    well_framed(bytes) && storage_of(bytes) is Some
}

/// Every row of the storage table called `table` is a storage row.
pub open spec fn storages_decode(db: redb::Database, table: Seq<char>) -> bool {
    forall|key: u64| #[trigger]
        table_rows(db, table).contains_key(key) ==> is_storage_row(table_rows(db, table)[key])
}

/// Two databases with the same rows in a table agree on whether they
/// decode.
pub proof fn lemma_same_rows_decode(one: redb::Database, other: redb::Database, table: Seq<char>)
    requires
        table_rows(one, table) == table_rows(other, table),
    ensures
        storages_decode(one, table) == storages_decode(other, table),
{
    if storages_decode(one, table) {
        assert forall|key: u64| #[trigger] table_rows(other, table).contains_key(key) implies is_storage_row(
            table_rows(other, table)[key],
        ) by {
            assert(table_rows(one, table).contains_key(key));
        }
    }
    if storages_decode(other, table) {
        assert forall|key: u64| #[trigger] table_rows(one, table).contains_key(key) implies is_storage_row(
            table_rows(one, table)[key],
        ) by {
            assert(table_rows(other, table).contains_key(key));
        }
    }
}

/// A table whose rows decode still does once a storage row is set in it.
pub proof fn lemma_set_row_decodes(
    before: redb::Database,
    after: redb::Database,
    table: Seq<char>,
    key: u64,
    bytes: Seq<u8>,
)
    requires
        table_rows(after, table) == table_rows(before, table).insert(key, bytes),
        is_storage_row(bytes),
        storages_decode(before, table),
    ensures
        storages_decode(after, table),
{
    assert forall|other: u64| #[trigger] table_rows(after, table).contains_key(other) implies is_storage_row(
        table_rows(after, table)[other],
    ) by {
        if other != key {
            assert(table_rows(before, table).contains_key(other));
        }
    }
}

/// Whether the length that a storage row begins with is one that the row
/// can hold.
pub fn is_well_framed(bytes: &[u8]) -> (framed: bool)
    ensures
        framed == well_framed(bytes@),
{
    if bytes.len() < 8 {
        true
    } else {
        u64_from_le_bytes(slice_subrange(bytes, 0, 8)) <= bytes.len() as u64
    }
}

/// Every row of a storage table, decoded, by ascending key. The listing
/// fails with `Encoding` where a row is not a storage row, and only there.
pub(crate) fn list_storages(db: &redb::Database, table: &str) -> (r: Result<Vec<(u64, String, u64)>, StorageError>)
    requires
        table@.len() > 0,
    ensures
        match r {
            Ok(listing) => lists_rows(listing@, storage_rows(*db, table@)) && storages_decode(*db, table@),
            Err(StorageError::Encoding) => !storages_decode(*db, table@),
            Err(e) => e == StorageError::Table,
        },
{
    let raw = match list_rows(db, table) {
        Ok(raw) => raw,
        Err(_) => {
            return Err(StorageError::Table);
        },
    };
    let ghost bytes = table_rows(*db, table@);
    let mut listing: Vec<(u64, String, u64)> = Vec::new();
    let mut at: usize = 0;
    while at < raw.len()
        invariant
            at <= raw@.len(),
            listing@.len() == at,
            bytes == table_rows(*db, table@),
            lists_bytes(raw@, bytes),
            forall|j: int|
                0 <= j < at ==> (#[trigger] listing@[j]).0 == raw@[j].0 && well_framed(raw@[j].1@) && storage_of(
                    raw@[j].1@,
                ) == Some((listing@[j].1@, listing@[j].2)),
        decreases raw@.len() - at,
    {
        assert(bytes.contains_key(raw@[at as int].0) && bytes[raw@[at as int].0] == raw@[at as int].1@);
        if !is_well_framed(raw[at].1.as_slice()) {
            assert(!is_storage_row(bytes[raw@[at as int].0]));
            return Err(StorageError::Encoding);
        }
        let row = match decode_storage(raw[at].1.as_slice()) {
            Ok(row) => row,
            Err(_) => {
                assert(!is_storage_row(bytes[raw@[at as int].0]));
                return Err(StorageError::Encoding);
            },
        };
        let ghost listed = listing@;
        listing.push((raw[at].0, row.0, row.1));
        at += 1;
        assert forall|j: int| 0 <= j < at implies (#[trigger] listing@[j]).0 == raw@[j].0 && well_framed(
            raw@[j].1@,
        ) && storage_of(raw@[j].1@) == Some((listing@[j].1@, listing@[j].2)) by {
            if j < at - 1 {
                assert(listing@[j] == listed[j]);
            }
        }
    }
    proof {
        let rows = storage_rows(*db, table@);
        assert forall|i: int| 0 <= i < listing@.len() implies rows.contains_key(#[trigger] listing@[i].0)
            && rows[listing@[i].0] == (listing@[i].1@, listing@[i].2) by {
            assert(bytes.contains_key(raw@[i].0));
        }
        assert forall|k: u64| #[trigger] rows.contains_key(k) implies exists|i: int|
            0 <= i < listing@.len() && #[trigger] listing@[i].0 == k by {
            assert(bytes.contains_key(k));
            let i = choose|i: int| 0 <= i < raw@.len() && #[trigger] raw@[i].0 == k;
            assert(listing@[i].0 == k);
        }
        assert forall|i: int, j: int| 0 <= i < j < listing@.len() implies listing@[i].0 < listing@[j].0 by {
            assert(raw@[i].0 < raw@[j].0);
        }
        assert forall|k: u64| #[trigger] bytes.contains_key(k) implies is_storage_row(bytes[k]) by {
            let i = choose|i: int| 0 <= i < raw@.len() && #[trigger] raw@[i].0 == k;
            assert(listing@[i].0 == raw@[i].0);
            assert(bytes.contains_key(raw@[i].0));
        }
    }
    Ok(listing)
}

/// Sets the storage row under `key` to the bytes of the path and the size.
/// Nothing is written where these could not be encoded.
pub(crate) fn put_storage(db: &mut redb::Database, table: &str, key: u64, path: &str, size: u64) -> (r: Result<
    (),
    StorageError,
>)
    requires
        table@.len() > 0,
    ensures
        match r {
            Ok(()) => {
                &&& storage_encodes(path@, size)
                &&& table_rows(*final(db), table@) == table_rows(*old(db), table@).insert(
                    key,
                    storage_row_bytes(path@, size),
                )
                &&& is_storage_row(storage_row_bytes(path@, size))
                &&& storage_rows(*final(db), table@) == storage_rows(*old(db), table@).insert(key, (path@, size))
                &&& forall|t: Seq<char>|
                    t != table@ ==> #[trigger] table_rows(*final(db), t) == table_rows(*old(db), t)
            },
            Err(StorageError::Encoding) => !storage_encodes(path@, size) && *final(db) == *old(db),
            Err(e) => e == StorageError::Table,
        },
{
    let bytes = match encode_storage(path, size) {
        Ok(bytes) => bytes,
        Err(_) => {
            return Err(StorageError::Encoding);
        },
    };
    proof {
        lemma_auto_spec_u64_to_from_le_bytes();
        assert(bytes.len() == 16 + encode_utf8(path@).len());
        lemma_storage_row_well_framed(path@, size);
    }
    match put_row(db, table, key, bytes.as_slice()) {
        Ok(()) => {
            assert(storage_rows(*db, table@) =~= storage_rows(*old(db), table@).insert(key, (path@, size)));
            Ok(())
        },
        Err(_) => Err(StorageError::Table),
    }
}

/// The number of rows in a location table.
pub(crate) fn count_locations(db: &redb::Database, table: &str) -> (r: Result<u64, StorageError>)
    requires
        table@.len() > 0,
    ensures
        match r {
            Ok(count) => location_rows(*db, table@).dom().finite() && count == location_rows(*db, table@).len(),
            Err(e) => e == StorageError::Table,
        },
{
    match count_rows(db, table) {
        Ok(count) => {
            assert(location_rows(*db, table@).dom() =~= table_rows(*db, table@).dom());
            Ok(count)
        },
        Err(_) => Err(StorageError::Table),
    }
}

/// Sets the location row under `key` to the bytes of the row. Nothing is
/// written where the row could not be encoded.
pub(crate) fn put_location(db: &mut redb::Database, table: &str, key: u64, row: (bool, u64, u64, u64)) -> (r: Result<
    (),
    StorageError,
>)
    requires
        table@.len() > 0,
    ensures
        match r {
            Ok(()) => {
                &&& location_encodes(row.0, row.1, row.2, row.3)
                &&& table_rows(*final(db), table@) == table_rows(*old(db), table@).insert(
                    key,
                    location_row_bytes(row),
                )
                &&& location_rows(*final(db), table@) == location_rows(*old(db), table@).insert(key, row)
                &&& forall|t: Seq<char>|
                    t != table@ ==> #[trigger] table_rows(*final(db), t) == table_rows(*old(db), t)
            },
            Err(StorageError::Encoding) => !location_encodes(row.0, row.1, row.2, row.3) && *final(db) == *old(db),
            Err(e) => e == StorageError::Table,
        },
{
    let bytes = match encode_location(row) {
        Ok(bytes) => bytes,
        Err(_) => {
            return Err(StorageError::Encoding);
        },
    };
    proof {
        lemma_location_round_trip(row);
    }
    match put_row(db, table, key, bytes.as_slice()) {
        Ok(()) => {
            assert(location_rows(*db, table@) =~= location_rows(*old(db), table@).insert(key, row));
            Ok(())
        },
        Err(_) => Err(StorageError::Table),
    }
}

/// The location row under `key`, decoded, or `None` where the table has no
/// row under it. The lookup fails with `Encoding` where the row under `key`
/// does not decode, and only there.
pub(crate) fn get_location(db: &redb::Database, table: &str, key: u64) -> (r: Result<
    Option<(bool, u64, u64, u64)>,
    StorageError,
>)
    requires
        table@.len() > 0,
    ensures
        match r {
            Ok(Some(row)) => table_rows(*db, table@).contains_key(key) && location_of(table_rows(*db, table@)[key])
                == Some(row),
            Ok(None) => !table_rows(*db, table@).contains_key(key),
            Err(StorageError::Encoding) => table_rows(*db, table@).contains_key(key) && location_of(
                table_rows(*db, table@)[key],
            ) is None,
            Err(e) => e == StorageError::Table,
        },
{
    let found = match get_row(db, table, key) {
        Ok(found) => found,
        Err(_) => {
            return Err(StorageError::Table);
        },
    };
    match found {
        None => Ok(None),
        Some(bytes) => match decode_location(bytes.as_slice()) {
            Ok(row) => Ok(Some(row)),
            Err(_) => Err(StorageError::Encoding),
        },
    }
}

} // verus!
