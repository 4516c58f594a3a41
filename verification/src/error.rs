//! What can go wrong.

use vstd::prelude::*;

verus! {

/// Why a store or a lookup failed.
#[derive(Clone, Copy, Debug, PartialEq, Eq, Structural)]
pub enum StorageError {
    /// The table store reported a failure. Nothing is known of the index
    /// after a failed write.
    Table,
    /// The index holds a row that this library cannot have written: a key
    /// at the end of the key space, or an offset or size beyond what this
    /// machine can address.
    Corrupted,
    /// A row could not be encoded, or the bytes of a row in the index do
    /// not decode.
    Encoding,
    /// Every name that was tried for a new file was already taken.
    ExhaustedNamespace,
}

/// Why an index could not be opened.
#[derive(Clone, Copy, Debug, PartialEq, Eq, Structural)]
pub enum OpenError {
    /// The index file could not be opened, created or prepared.
    Index,
    /// The index file's place or the blob directory could not be resolved.
    Path,
}

} // verus!
