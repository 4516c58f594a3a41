//! The index as mathematics: two storage tables and one location table, each
//! a map from a 64-bit key to a row, and the steps that a store takes it
//! through.

use crate::names::is_random_name;
use vstd::prelude::*;

verus! {

/// The length of a storage file's name.
pub const NAME_LENGTH: usize = 32;

/// The three tables. A storage row is a file's relative path and its
/// recorded size; a location row is the class, the storage key, the offset
/// and the size of one blob.
pub struct Index {
    pub vertex: Map<u64, (Seq<char>, u64)>,
    pub texture: Map<u64, (Seq<char>, u64)>,
    pub locations: Map<u64, (bool, u64, u64, u64)>,
}

/// A file of `size` bytes can take `requested` more without passing
/// `threshold`.
pub open spec fn fits(size: u64, requested: usize, threshold: usize) -> bool {
    size + requested <= threshold
}

/// `key` is the first row of `rows`, by key, that has room for `requested`.
pub open spec fn is_first_fit(rows: Map<u64, (Seq<char>, u64)>, key: u64, requested: usize, threshold: usize) -> bool {
    &&& rows.contains_key(key)
    &&& fits(rows[key].1, requested, threshold)
    &&& forall|other: u64| other < key && #[trigger] rows.contains_key(other) ==> !fits(rows[other].1, requested, threshold)
}

/// No row of `rows` has room for `requested`.
pub open spec fn none_fits(rows: Map<u64, (Seq<char>, u64)>, requested: usize, threshold: usize) -> bool {
    forall|key: u64| #[trigger] rows.contains_key(key) ==> !fits(rows[key].1, requested, threshold)
}

/// The keys of `rows` are 0, 1, 2, .. with no gap.
pub open spec fn dense<V>(rows: Map<u64, V>) -> bool {
    &&& rows.dom().finite()
    &&& forall|key: u64| #[trigger] rows.contains_key(key) <==> (key as nat) < rows.len()
}

/// Two byte ranges, each an offset and a size, share no byte.
pub open spec fn apart(first: (bool, u64, u64, u64), second: (bool, u64, u64, u64)) -> bool {
    first.2 + first.3 <= second.2 || second.2 + second.3 <= first.2
}

impl Index {
    /// The storage table of one class.
    pub open spec fn table(self, is_vertex: bool) -> Map<u64, (Seq<char>, u64)> {
        if is_vertex {
            self.vertex
        } else {
            self.texture
        }
    }

    /// The index with one storage row set.
    pub open spec fn with_storage(self, is_vertex: bool, key: u64, row: (Seq<char>, u64)) -> Index {
        if is_vertex {
            Index { vertex: self.vertex.insert(key, row), ..self }
        } else {
            Index { texture: self.texture.insert(key, row), ..self }
        }
    }

    /// The index with one location row set.
    pub open spec fn with_location(self, id: u64, row: (bool, u64, u64, u64)) -> Index {
        Index { locations: self.locations.insert(id, row), ..self }
    }

    /// The location row under `id`, if there is one.
    pub open spec fn lookup(self, id: u64) -> Option<(bool, u64, u64, u64)> {
        if self.locations.contains_key(id) {
            Some(self.locations[id])
        } else {
            None
        }
    }

    /// The id that the next stored blob gets: the number of location rows.
    pub open spec fn next_id(self) -> u64 {
        self.locations.len() as u64
    }

    /// Some storage row, of either class, has this path.
    pub open spec fn path_in_use(self, path: Seq<char>) -> bool {
        exists|is_vertex: bool, key: u64| #[trigger]
            self.table(is_vertex).contains_key(key) && self.table(is_vertex)[key].0 == path
    }

    /// No location row points at this storage row.
    pub open spec fn unoccupied(self, is_vertex: bool, key: u64) -> bool {
        forall|id: u64| #[trigger]
            self.locations.contains_key(id) ==> !(self.locations[id].0 == is_vertex && self.locations[id].1
                == key)
    }

    /// At most one location row points at this storage row.
    pub open spec fn sole_occupant(self, is_vertex: bool, key: u64) -> bool {
        forall|a: u64, b: u64|
            #![trigger self.locations.contains_key(a), self.locations.contains_key(b)]
            self.locations.contains_key(a) && self.locations.contains_key(b) && self.locations[a].0 == is_vertex
                && self.locations[a].1 == key && self.locations[b].0 == is_vertex && self.locations[b].1 == key
                ==> a == b
    }

    /// The index after a new, empty file was entered under `key`.
    pub open spec fn created(self, is_vertex: bool, key: u64, path: Seq<char>) -> Index {
        self.with_storage(is_vertex, key, (path, 0u64))
    }

    /// Every key of the class's table is below `key`.
    pub open spec fn keys_below(self, is_vertex: bool, key: u64) -> bool {
        forall|other: u64| #[trigger] self.table(is_vertex).contains_key(other) ==> other < key
    }

    /// `key` is the next unused key of the class's table: 0 in a table
    /// without rows, else the key after the last one.
    pub open spec fn next_unused(self, is_vertex: bool, key: u64) -> bool {
        &&& self.keys_below(is_vertex, key)
        &&& key == 0 || self.table(is_vertex).contains_key((key - 1) as u64)
    }

    /// `after` and the row under `key` are what placing a blob of
    /// `requested` bytes makes of this index: either the first file with
    /// room, and the index as it was; or, where no file has room, a new and
    /// empty file under the next unused key and an unused name.
    pub open spec fn placed(
        self,
        after: Index,
        is_vertex: bool,
        key: u64,
        row: (Seq<char>, u64),
        requested: usize,
        threshold: usize,
    ) -> bool {
        ||| {
            &&& after == self
            &&& is_first_fit(self.table(is_vertex), key, requested, threshold)
            &&& row == self.table(is_vertex)[key]
        }
        ||| {
            &&& none_fits(self.table(is_vertex), requested, threshold)
            &&& self.next_unused(is_vertex, key)
            &&& is_random_name(row.0, NAME_LENGTH as nat)
            &&& row.1 == 0
            &&& !self.path_in_use(row.0)
            &&& after == self.created(is_vertex, key, row.0)
        }
    }

    /// The index after a blob was appended to the file under `key`, from
    /// `offset` up to `end`: the file's recorded size is `end`, and a new
    /// location row stands under the next id.
    pub open spec fn stored(self, is_vertex: bool, key: u64, offset: u64, end: u64) -> Index {
        self.with_storage(is_vertex, key, (self.table(is_vertex)[key].0, end)).with_location(
            self.next_id(),
            (is_vertex, key, offset, (end - offset) as u64),
        )
    }

    /// No two storage rows, of one class or of both, share a path.
    pub open spec fn paths_unique(self) -> bool {
        forall|c1: bool, k1: u64, c2: bool, k2: u64|
            #![trigger self.table(c1).contains_key(k1), self.table(c2).contains_key(k2)]
            self.table(c1).contains_key(k1) && self.table(c2).contains_key(k2) && self.table(c1)[k1].0
                == self.table(c2)[k2].0 ==> c1 == c2 && k1 == k2
    }

    /// Every location row points at a storage row of its class, and ends
    /// within that file's recorded size.
    pub open spec fn locations_within(self) -> bool {
        forall|id: u64| #[trigger]
            self.locations.contains_key(id) ==> {
                let row = self.locations[id];
                self.table(row.0).contains_key(row.1) && row.2 + row.3 <= self.table(row.0)[row.1].1
            }
    }

    /// No two location rows of one file share a byte.
    pub open spec fn ranges_apart(self) -> bool {
        forall|a: u64, b: u64|
            #![trigger self.locations.contains_key(a), self.locations.contains_key(b)]
            self.locations.contains_key(a) && self.locations.contains_key(b) && a != b && self.locations[a].0
                == self.locations[b].0 && self.locations[a].1 == self.locations[b].1 ==> apart(
                self.locations[a],
                self.locations[b],
            )
    }

    /// What every index that this library wrote satisfies.
    pub open spec fn consistent(self) -> bool {
        &&& dense(self.locations)
        &&& self.paths_unique()
        &&& self.locations_within()
        &&& self.ranges_apart()
    }

    /// Every file of the class is within `threshold`, but for a file that
    /// holds a single blob.
    pub open spec fn within_headroom(self, is_vertex: bool, threshold: usize) -> bool {
        forall|key: u64| #[trigger]
            self.table(is_vertex).contains_key(key) ==> self.table(is_vertex)[key].1 <= threshold
                || self.sole_occupant(is_vertex, key)
    }
}

} // verus!
