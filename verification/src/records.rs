//! The records that the index keeps, and the payloads that are stored.

use crate::paths::{join_path, joined_bytes, path_bytes};
use std::path::PathBuf;
use vstd::prelude::*;

verus! {

/// A payload that can say, before it is encoded, about how many bytes it
/// will take. The estimate only picks the file; the index records what was
/// really written. Nothing is asked of the estimate.
pub trait BinData {
    fn calc_size(&self) -> usize;
}

/// Where one stored blob lives.
#[derive(Clone, Copy, Debug, PartialEq, Eq, Structural)]
pub struct BinaryDataInfo {
    pub is_vertex: bool,
    pub storage_id: u64,
    pub offset: usize,
    pub size: usize,
}

impl BinaryDataInfo {
    /// The row that the location table keeps for this record.
    pub open spec fn row(self) -> (bool, u64, u64, u64) {
        (self.is_vertex, self.storage_id, self.offset as u64, self.size as u64)
    }
}

/// One growable, append-only file and the length it is known to have.
#[derive(Debug, PartialEq, Eq)]
pub struct Storage {
    pub relative_path: String,
    pub current_size: usize,
}

impl Clone for Storage {
    fn clone(&self) -> (copy: Self)
        ensures
            copy == *self,
    {
        Storage { relative_path: self.relative_path.clone(), current_size: self.current_size }
    }
}

impl Storage {
    /// The row that a storage table keeps for this record.
    pub open spec fn row(self) -> (Seq<char>, u64) {
        (self.relative_path@, self.current_size as u64)
    }

    /// The file's place under `base_path`.
    pub fn construct_path(&self, base_path: PathBuf) -> (path: PathBuf)
        ensures
            path_bytes(path) == joined_bytes(path_bytes(base_path), self.relative_path@),
    {
        join_path(&base_path, self.relative_path.as_str())
    }
}

/// The bytes in front of a byte payload that say how long it is.
pub const LENGTH_PREFIX: usize = 8;

/// What a payload of `len` plain bytes declares: the length prefix and the
/// bytes, or the largest size there is where that sum does not fit.
pub open spec fn prefixed(len: nat) -> usize {
    if LENGTH_PREFIX + len <= usize::MAX {
        (LENGTH_PREFIX + len) as usize
    } else {
        usize::MAX
    }
}

/// The size that a payload of `len` plain bytes declares.
pub fn prefixed_size(len: usize) -> (size: usize)
    ensures
        size == prefixed(len as nat),
{
    if len <= usize::MAX - LENGTH_PREFIX {
        LENGTH_PREFIX + len
    } else {
        usize::MAX
    }
}

/// A payload of plain bytes.
pub struct TestBinData {
    pub binary: Vec<u8>,
}

impl TestBinData {
    /// The length prefix and the bytes.
    pub open spec fn declared_size(&self) -> usize {
        prefixed(self.binary@.len())
    }
}

impl BinData for TestBinData {
    fn calc_size(&self) -> (size: usize)
        ensures
            size == self.declared_size(),
    {
        prefixed_size(self.binary.len())
    }
}

/// The bytes in front of a vertex buffer: the two lengths, of the vertices
/// and of the indices.
pub const VERTEX_DATA_HEADER: usize = 16;

/// The bytes that one index takes.
pub const INDEX_WIDTH: usize = 4;

/// What a vertex buffer declares: the header, the vertices at their width,
/// and the indices.
pub open spec fn vertex_data_bytes(vertices: nat, vertex_width: nat, indices: nat) -> nat {
    VERTEX_DATA_HEADER as nat + vertices * vertex_width + indices * INDEX_WIDTH as nat
}

/// The size that a vertex buffer declares, or `None` where it is beyond
/// what this machine can count.
pub fn vertex_data_size(vertices: usize, vertex_width: usize, indices: usize) -> (size: Option<usize>)
    ensures
        size is Some <==> vertex_data_bytes(vertices as nat, vertex_width as nat, indices as nat) <= usize::MAX,
        size is Some ==> size->Some_0 == vertex_data_bytes(vertices as nat, vertex_width as nat, indices as nat),
{
    assert(vertices * vertex_width <= 0xffff_ffff_ffff_ffff * 0xffff_ffff_ffff_ffff) by (nonlinear_arith)
        requires
            0 <= vertices <= 0xffff_ffff_ffff_ffff,
            0 <= vertex_width <= 0xffff_ffff_ffff_ffff,
    ;
    let body: u128 = vertices as u128 * vertex_width as u128;
    if body > usize::MAX as u128 {
        return None;
    }
    let total: u128 = VERTEX_DATA_HEADER as u128 + body + indices as u128 * INDEX_WIDTH as u128;
    if total > usize::MAX as u128 {
        None
    } else {
        Some(total as usize)
    }
}

} // verus!
