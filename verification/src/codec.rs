//! The bytes of a row: `bincode`'s encoding with little-endian integers of
//! fixed width, the same on every platform. The four functions that encode
//! and decode are not proved: each makes the one call into `bincode` that its
//! comment names. The two lemmas at the end are proved from what the bytes
//! are.

use vstd::bytes::{lemma_auto_spec_u64_to_from_le_bytes, spec_u64_from_le_bytes, spec_u64_to_le_bytes};
use vstd::prelude::*;
use vstd::utf8::encode_utf8;

verus! {

#[verifier::external_type_specification]
#[verifier::external_body]
pub struct ExEncodeError(bincode::error::EncodeError);

#[verifier::external_type_specification]
#[verifier::external_body]
pub struct ExDecodeError(bincode::error::DecodeError);

/// The bytes of a storage row: the length of the path in bytes, the path in
/// UTF-8, and the size, each number as eight bytes with the least first.
pub open spec fn storage_row_bytes(path: Seq<char>, size: u64) -> Seq<u8> {
    spec_u64_to_le_bytes(encode_utf8(path).len() as u64) + encode_utf8(path) + spec_u64_to_le_bytes(size)
}

/// The bytes of a location row: one byte for the class, then the storage
/// key, the offset and the size, each as eight bytes with the least first.
pub open spec fn location_row_bytes(row: (bool, u64, u64, u64)) -> Seq<u8> {
    seq![if row.0 { 1u8 } else { 0u8 }] + spec_u64_to_le_bytes(row.1) + spec_u64_to_le_bytes(row.2)
        + spec_u64_to_le_bytes(row.3)
}

/// The location row at the front of `bytes`: there is one where the bytes
/// are at least twenty-five and the first is 0 or 1.
pub open spec fn location_of(bytes: Seq<u8>) -> Option<(bool, u64, u64, u64)> {
    if bytes.len() >= 25 && bytes[0] <= 1 {
        Some(
            (
                bytes[0] == 1,
                spec_u64_from_le_bytes(bytes.subrange(1, 9)),
                spec_u64_from_le_bytes(bytes.subrange(9, 17)),
                spec_u64_from_le_bytes(bytes.subrange(17, 25)),
            ),
        )
    } else {
        None
    }
}

/// Whether `bincode` makes bytes of a storage row.
pub uninterp spec fn storage_encodes(path: Seq<char>, size: u64) -> bool;

/// Whether `bincode` makes bytes of a location row.
pub uninterp spec fn location_encodes(is_vertex: bool, storage_id: u64, offset: u64, size: u64) -> bool;

/// The storage row that `bincode` reads from the front of `bytes`, or `None`
/// where it reads none: the bytes end too early, or the path is no UTF-8.
pub uninterp spec fn storage_of(bytes: Seq<u8>) -> Option<(Seq<char>, u64)>;

/// The length that a storage row begins with is one that the row can hold.
/// A row of fewer than eight bytes has no length to speak of.
pub open spec fn well_framed(bytes: Seq<u8>) -> bool {
    bytes.len() >= 8 ==> spec_u64_from_le_bytes(bytes.subrange(0, 8)) <= bytes.len()
}

/// Calls `bincode::serde::encode_to_vec` on the path and the size. Whether
/// bytes come out depends on the two alone. The bytes are the length of the
/// path, the path and the size, and a decoding of them gives the two back.
#[verifier::external_body]
pub(crate) fn encode_storage(path: &str, size: u64) -> (r: Result<Vec<u8>, bincode::error::EncodeError>)
    ensures
        match r {
            Ok(bytes) => {
                &&& storage_encodes(path@, size)
                &&& bytes@ == storage_row_bytes(path@, size)
                &&& storage_of(bytes@) == Some((path@, size))
            },
            Err(_) => !storage_encodes(path@, size),
        },
{
    let format = bincode::config::standard().with_little_endian().with_fixed_int_encoding();
    bincode::serde::encode_to_vec((path, size), format)
}

/// Calls `bincode::serde::decode_from_slice` for a path and a size. What it
/// reads depends on the bytes alone. Before it reads the path it sets aside
/// as many bytes as the eight bytes in front say, so these must not say more
/// than the row holds.
#[verifier::external_body]
pub(crate) fn decode_storage(bytes: &[u8]) -> (r: Result<(String, u64), bincode::error::DecodeError>)
    requires
        well_framed(bytes@),
    ensures
        match r {
            Ok(row) => storage_of(bytes@) == Some((row.0@, row.1)),
            Err(_) => storage_of(bytes@) is None,
        },
{
    let format = bincode::config::standard().with_little_endian().with_fixed_int_encoding();
    let (row, _) = bincode::serde::decode_from_slice::<(String, u64), _>(bytes, format)?;
    Ok(row)
}

/// Calls `bincode::serde::encode_to_vec` on the four fields of a location.
/// Whether bytes come out depends on the four alone. The bytes are the class
/// and the three numbers.
#[verifier::external_body]
pub(crate) fn encode_location(row: (bool, u64, u64, u64)) -> (r: Result<Vec<u8>, bincode::error::EncodeError>)
    ensures
        match r {
            Ok(bytes) => location_encodes(row.0, row.1, row.2, row.3) && bytes@ == location_row_bytes(row),
            Err(_) => !location_encodes(row.0, row.1, row.2, row.3),
        },
{
    let format = bincode::config::standard().with_little_endian().with_fixed_int_encoding();
    bincode::serde::encode_to_vec(row, format)
}

/// Calls `bincode::serde::decode_from_slice` for the four fields of a
/// location: it reads the class from a first byte of 0 or 1 and the three
/// numbers from the twenty-four bytes that follow.
#[verifier::external_body]
pub(crate) fn decode_location(bytes: &[u8]) -> (r: Result<(bool, u64, u64, u64), bincode::error::DecodeError>)
    ensures
        match r {
            Ok(row) => location_of(bytes@) == Some(row),
            Err(_) => location_of(bytes@) is None,
        },
{
    let format = bincode::config::standard().with_little_endian().with_fixed_int_encoding();
    let (row, _) = bincode::serde::decode_from_slice::<(bool, u64, u64, u64), _>(bytes, format)?;
    Ok(row)
}

/// The bytes of a location row decode to that row.
pub proof fn lemma_location_round_trip(row: (bool, u64, u64, u64))
    ensures
        location_row_bytes(row).len() == 25,
        location_of(location_row_bytes(row)) == Some(row),
{
    lemma_auto_spec_u64_to_from_le_bytes();
    let bytes = location_row_bytes(row);
    assert(bytes.subrange(1, 9) =~= spec_u64_to_le_bytes(row.1));
    assert(bytes.subrange(9, 17) =~= spec_u64_to_le_bytes(row.2));
    assert(bytes.subrange(17, 25) =~= spec_u64_to_le_bytes(row.3));
}

/// The bytes of a storage row begin with a length that they can hold.
pub proof fn lemma_storage_row_well_framed(path: Seq<char>, size: u64)
    requires
        encode_utf8(path).len() <= u64::MAX,
    ensures
        well_framed(storage_row_bytes(path, size)),
{
    lemma_auto_spec_u64_to_from_le_bytes();
    let bytes = storage_row_bytes(path, size);
    assert(bytes.subrange(0, 8) =~= spec_u64_to_le_bytes(encode_utf8(path).len() as u64));
}

} // verus!
