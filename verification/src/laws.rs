//! What holds of every index that stores take from one state to the next.
//!
//! A store is two steps: a placement, which picks or makes the file, and a
//! record, which enters what the host appended. Each law below speaks of one
//! step or of both.

use crate::index::{apart, dense, fits, Index};
use vstd::prelude::*;

verus! {

/// The index with no rows.
pub open spec fn empty_index() -> Index {
    Index { vertex: Map::empty(), texture: Map::empty(), locations: Map::empty() }
}

/// An index with no rows is consistent, and within any threshold.
pub proof fn lemma_empty_index(is_vertex: bool, threshold: usize)
    ensures
        empty_index().consistent(),
        empty_index().within_headroom(is_vertex, threshold),
        empty_index().next_id() == 0,
{
    assert(empty_index().locations.dom() =~= Set::<u64>::empty());
}

/// A lookup of the id that a store handed out finds the record of that
/// store: its class, its file, and the bytes from `offset` up to `end`.
pub proof fn lemma_lookup_finds_stored(before: Index, is_vertex: bool, key: u64, offset: u64, end: u64)
    requires
        offset <= end,
    ensures
        before.stored(is_vertex, key, offset, end).lookup(before.next_id()) == Some(
            (is_vertex, key, offset, (end - offset) as u64),
        ),
{
}

/// A store leaves every record that was there as it was: a location, once
/// entered, does not change.
pub proof fn lemma_stored_keeps_records(before: Index, is_vertex: bool, key: u64, offset: u64, end: u64, id: u64)
    requires
        dense(before.locations),
        before.locations.len() <= u64::MAX,
        before.locations.contains_key(id),
    ensures
        before.stored(is_vertex, key, offset, end).lookup(id) == before.lookup(id),
{
}

/// The ids that stores hand out are 0, 1, 2, ..: each is new, larger than
/// every id before it, and leaves no gap.
pub proof fn lemma_ids_ascend(before: Index, is_vertex: bool, key: u64, offset: u64, end: u64)
    requires
        dense(before.locations),
        before.locations.len() <= u64::MAX,
    ensures
        !before.locations.contains_key(before.next_id()),
        forall|id: u64| #[trigger] before.locations.contains_key(id) ==> id < before.next_id(),
        dense(before.stored(is_vertex, key, offset, end).locations),
        before.stored(is_vertex, key, offset, end).locations.len() == before.locations.len() + 1,
{
    let after = before.stored(is_vertex, key, offset, end).locations;
    assert(after.dom() =~= before.locations.dom().insert(before.next_id()));
}

/// A placement keeps the index consistent, and the row that it hands out
/// is in the index.
pub proof fn lemma_placed_consistent(
    before: Index,
    after: Index,
    is_vertex: bool,
    key: u64,
    row: (Seq<char>, u64),
    requested: usize,
    threshold: usize,
)
    requires
        before.consistent(),
        before.placed(after, is_vertex, key, row, requested, threshold),
    ensures
        after.consistent(),
        after.locations == before.locations,
        after.table(is_vertex).contains_key(key),
        after.table(is_vertex)[key] == row,
        fits(row.1, requested, threshold) || after.unoccupied(is_vertex, key),
{
    if after != before {
        assert(!before.table(is_vertex).contains_key(key));
        assert(after == before.created(is_vertex, key, row.0));
        assert forall|c1: bool, k1: u64, c2: bool, k2: u64|
            #![trigger after.table(c1).contains_key(k1), after.table(c2).contains_key(k2)]
            after.table(c1).contains_key(k1) && after.table(c2).contains_key(k2) && after.table(c1)[k1].0
                == after.table(c2)[k2].0 implies c1 == c2 && k1 == k2 by {
            let first_new = c1 == is_vertex && k1 == key;
            let second_new = c2 == is_vertex && k2 == key;
            if first_new && !second_new {
                assert(before.table(c2).contains_key(k2));
            }
            if !first_new && second_new {
                assert(before.table(c1).contains_key(k1));
            }
            if !first_new && !second_new {
                assert(before.table(c1).contains_key(k1) && before.table(c2).contains_key(k2));
            }
        }
        assert forall|id: u64| #[trigger] after.locations.contains_key(id) implies {
            let entry = after.locations[id];
            after.table(entry.0).contains_key(entry.1) && entry.2 + entry.3 <= after.table(entry.0)[entry.1].1
        } by {
            assert(before.locations.contains_key(id));
            let entry = before.locations[id];
            assert(before.table(entry.0).contains_key(entry.1));
        }
        assert forall|id: u64| #[trigger] after.locations.contains_key(id) implies !(after.locations[id].0
            == is_vertex && after.locations[id].1 == key) by {
            assert(before.locations.contains_key(id));
            let entry = before.locations[id];
            assert(before.table(entry.0).contains_key(entry.1));
        }
    }
}

/// A record keeps the index consistent, where the append began no earlier
/// than at the file's recorded size: no two files share a name, every blob
/// lies within its file, and no two blobs of one file share a byte.
pub proof fn lemma_stored_consistent(before: Index, is_vertex: bool, key: u64, offset: u64, end: u64)
    requires
        before.consistent(),
        before.locations.len() <= u64::MAX,
        before.table(is_vertex).contains_key(key),
        before.table(is_vertex)[key].1 <= offset <= end,
    ensures
        before.stored(is_vertex, key, offset, end).consistent(),
{
    let after = before.stored(is_vertex, key, offset, end);
    let id = before.next_id();
    lemma_ids_ascend(before, is_vertex, key, offset, end);
    assert forall|c1: bool, k1: u64, c2: bool, k2: u64|
        #![trigger after.table(c1).contains_key(k1), after.table(c2).contains_key(k2)]
        after.table(c1).contains_key(k1) && after.table(c2).contains_key(k2) && after.table(c1)[k1].0
            == after.table(c2)[k2].0 implies c1 == c2 && k1 == k2 by {
        assert(before.table(c1).contains_key(k1) && before.table(c2).contains_key(k2));
        assert(before.table(c1)[k1].0 == after.table(c1)[k1].0);
        assert(before.table(c2)[k2].0 == after.table(c2)[k2].0);
    }
    assert forall|other: u64| #[trigger] after.locations.contains_key(other) implies {
        let entry = after.locations[other];
        after.table(entry.0).contains_key(entry.1) && entry.2 + entry.3 <= after.table(entry.0)[entry.1].1
    } by {
        if other != id {
            assert(before.locations.contains_key(other));
            let entry = before.locations[other];
            assert(before.table(entry.0).contains_key(entry.1));
        }
    }
    assert forall|a: u64, b: u64|
        #![trigger after.locations.contains_key(a), after.locations.contains_key(b)]
        after.locations.contains_key(a) && after.locations.contains_key(b) && a != b && after.locations[a].0
            == after.locations[b].0 && after.locations[a].1 == after.locations[b].1 implies apart(
        after.locations[a],
        after.locations[b],
    ) by {
        if a != id && b != id {
            assert(before.locations.contains_key(a) && before.locations.contains_key(b));
        } else if a == id {
            assert(before.locations.contains_key(b));
        } else {
            assert(before.locations.contains_key(a));
        }
    }
}

/// A record keeps every file of the class within the threshold, but for a
/// file that holds this one blob: where the file had room for the declared
/// size or was empty of blobs, the append began no later than at the file's
/// recorded size, and no more was written than was declared.
pub proof fn lemma_stored_within_headroom(
    before: Index,
    is_vertex: bool,
    key: u64,
    offset: u64,
    end: u64,
    declared: usize,
    threshold: usize,
)
    requires
        before.within_headroom(is_vertex, threshold),
        before.table(is_vertex).contains_key(key),
        fits(before.table(is_vertex)[key].1, declared, threshold) || before.unoccupied(is_vertex, key),
        offset <= before.table(is_vertex)[key].1,
        offset <= end,
        end - offset <= declared,
    ensures
        before.stored(is_vertex, key, offset, end).within_headroom(is_vertex, threshold),
{
    let after = before.stored(is_vertex, key, offset, end);
    let id = before.next_id();
    assert forall|other: u64| #[trigger] after.table(is_vertex).contains_key(other) implies after.table(
        is_vertex,
    )[other].1 <= threshold || after.sole_occupant(is_vertex, other) by {
        if other == key {
            if !fits(before.table(is_vertex)[key].1, declared, threshold) {
                assert forall|a: u64, b: u64|
                    #![trigger after.locations.contains_key(a), after.locations.contains_key(b)]
                    after.locations.contains_key(a) && after.locations.contains_key(b) && after.locations[a].0
                        == is_vertex && after.locations[a].1 == key && after.locations[b].0 == is_vertex
                        && after.locations[b].1 == key implies a == b by {
                    if a != id {
                        assert(before.locations.contains_key(a));
                    }
                    if b != id {
                        assert(before.locations.contains_key(b));
                    }
                }
            }
        } else {
            assert(before.table(is_vertex).contains_key(other));
            if before.table(is_vertex)[other].1 > threshold {
                assert(before.sole_occupant(is_vertex, other));
                assert forall|a: u64, b: u64|
                    #![trigger after.locations.contains_key(a), after.locations.contains_key(b)]
                    after.locations.contains_key(a) && after.locations.contains_key(b) && after.locations[a].0
                        == is_vertex && after.locations[a].1 == other && after.locations[b].0 == is_vertex
                        && after.locations[b].1 == other implies a == b by {
                    assert(before.locations.contains_key(a) && before.locations.contains_key(b));
                }
            }
        }
    }
}

/// A store of one class leaves the files of the other class within their
/// threshold.
pub proof fn lemma_stored_other_class(
    before: Index,
    is_vertex: bool,
    key: u64,
    offset: u64,
    end: u64,
    class: bool,
    threshold: usize,
)
    requires
        class != is_vertex,
        before.within_headroom(class, threshold),
    ensures
        before.stored(is_vertex, key, offset, end).within_headroom(class, threshold),
{
    let after = before.stored(is_vertex, key, offset, end);
    assert forall|other: u64| #[trigger] after.table(class).contains_key(other) implies after.table(
        class,
    )[other].1 <= threshold || after.sole_occupant(class, other) by {
        assert(before.table(class).contains_key(other));
        if before.table(class)[other].1 > threshold {
            assert(before.sole_occupant(class, other));
            assert forall|a: u64, b: u64|
                #![trigger after.locations.contains_key(a), after.locations.contains_key(b)]
                after.locations.contains_key(a) && after.locations.contains_key(b) && after.locations[a].0
                    == class && after.locations[a].1 == other && after.locations[b].0 == class
                    && after.locations[b].1 == other implies a == b by {
                assert(before.locations.contains_key(a) && before.locations.contains_key(b));
            }
        }
    }
}

/// A placement keeps the files of both classes within their thresholds: a
/// new file is empty.
pub proof fn lemma_placed_within_headroom(
    before: Index,
    after: Index,
    is_vertex: bool,
    key: u64,
    row: (Seq<char>, u64),
    requested: usize,
    threshold: usize,
    class: bool,
    limit: usize,
)
    requires
        before.placed(after, is_vertex, key, row, requested, threshold),
        before.within_headroom(class, limit),
    ensures
        after.within_headroom(class, limit),
{
    if after != before {
        assert(after.locations == before.locations);
        assert forall|other: u64| #[trigger] after.table(class).contains_key(other) implies after.table(
            class,
        )[other].1 <= limit || after.sole_occupant(class, other) by {
            if !(class == is_vertex && other == key) {
                assert(before.table(class).contains_key(other));
                assert(before.sole_occupant(class, other) == after.sole_occupant(class, other));
            }
        }
    }
}

/// The whole store, placement and record together: where the host appended
/// at the file's recorded size and wrote no more than was declared, the index
/// stays consistent, the files of the class stay within the threshold but for
/// a file that holds one blob alone, and the id that was handed out finds the
/// blob.
pub proof fn lemma_store(
    before: Index,
    placed: Index,
    is_vertex: bool,
    key: u64,
    row: (Seq<char>, u64),
    declared: usize,
    threshold: usize,
    end: u64,
)
    requires
        before.consistent(),
        before.locations.len() <= u64::MAX,
        before.within_headroom(is_vertex, threshold),
        before.placed(placed, is_vertex, key, row, declared, threshold),
        row.1 <= end,
        end - row.1 <= declared,
    ensures
        placed.stored(is_vertex, key, row.1, end).consistent(),
        placed.stored(is_vertex, key, row.1, end).within_headroom(is_vertex, threshold),
        placed.stored(is_vertex, key, row.1, end).lookup(before.next_id()) == Some(
            (is_vertex, key, row.1, (end - row.1) as u64),
        ),
        !before.locations.contains_key(before.next_id()),
{
    lemma_placed_consistent(before, placed, is_vertex, key, row, declared, threshold);
    lemma_placed_within_headroom(before, placed, is_vertex, key, row, declared, threshold, is_vertex, threshold);
    lemma_stored_consistent(placed, is_vertex, key, row.1, end);
    lemma_stored_within_headroom(placed, is_vertex, key, row.1, end, declared, threshold);
    lemma_lookup_finds_stored(placed, is_vertex, key, row.1, end);
    lemma_ids_ascend(before, is_vertex, key, row.1, end);
}

/// In a table whose keys are 0, 1, 2, .. the next unused key is the number
/// of rows: a new file is entered under the row count.
pub proof fn lemma_next_unused_is_count(index: Index, is_vertex: bool, key: u64)
    requires
        dense(index.table(is_vertex)),
        index.next_unused(is_vertex, key),
    ensures
        key == index.table(is_vertex).len(),
{
    let rows = index.table(is_vertex);
    if key == 0 {
        assert(rows.dom() =~= Set::<u64>::empty());
    } else {
        assert(rows.contains_key((key - 1) as u64));
        if key < rows.len() {
            assert(rows.contains_key(key));
        }
    }
}

/// One store as the index sees it: the file, the name under which the file
/// was made where it is new, and the bytes that the blob takes.
pub struct StoreStep {
    pub is_vertex: bool,
    pub key: u64,
    pub created: Option<Seq<char>>,
    pub offset: u64,
    pub end: u64,
}

/// The location row that a store enters.
pub open spec fn record_of(step: StoreStep) -> (bool, u64, u64, u64) {
    (step.is_vertex, step.key, step.offset, (step.end - step.offset) as u64)
}

/// The index after one store.
pub open spec fn after_store(index: Index, step: StoreStep) -> Index {
    let placed = match step.created {
        Some(path) => index.created(step.is_vertex, step.key, path),
        None => index,
    };
    placed.stored(step.is_vertex, step.key, step.offset, step.end)
}

/// The index after a run of stores, the first of them first.
pub open spec fn after_stores(index: Index, steps: Seq<StoreStep>) -> Index
    decreases steps.len(),
{
    if steps.len() == 0 {
        index
    } else {
        after_store(after_stores(index, steps.drop_last()), steps.last())
    }
}

/// Whatever stores follow, of either class: the ids go on counting up
/// without a gap, every record that was there reads as before, and the
/// record of each store stands under the id that the store was given.
pub proof fn lemma_stores_keep_records(before: Index, steps: Seq<StoreStep>)
    requires
        dense(before.locations),
        before.locations.len() + steps.len() <= u64::MAX,
    ensures
        dense(after_stores(before, steps).locations),
        after_stores(before, steps).locations.len() == before.locations.len() + steps.len(),
        forall|id: u64| #[trigger]
            before.locations.contains_key(id) ==> after_stores(before, steps).lookup(id) == before.lookup(id),
        forall|i: int|
            0 <= i < steps.len() ==> after_stores(before, steps).lookup((before.locations.len() + i) as u64)
                == Some(record_of(#[trigger] steps[i])),
    decreases steps.len(),
{
    if steps.len() > 0 {
        let earlier = steps.drop_last();
        let last = steps.last();
        lemma_stores_keep_records(before, earlier);
        let reached = after_stores(before, earlier);
        let placed = match last.created {
            Some(path) => reached.created(last.is_vertex, last.key, path),
            None => reached,
        };
        assert(placed.locations == reached.locations);
        lemma_ids_ascend(placed, last.is_vertex, last.key, last.offset, last.end);
        let after = after_stores(before, steps);
        assert(after == placed.stored(last.is_vertex, last.key, last.offset, last.end));
        assert forall|id: u64| #[trigger] before.locations.contains_key(id) implies after.lookup(id)
            == before.lookup(id) by {
            assert(reached.lookup(id) == before.lookup(id));
            assert(reached.locations.contains_key(id));
        }
        assert forall|i: int| 0 <= i < steps.len() implies after.lookup((before.locations.len() + i) as u64)
            == Some(record_of(#[trigger] steps[i])) by {
            if i < earlier.len() {
                assert(earlier[i] == steps[i]);
                assert(reached.lookup((before.locations.len() + i) as u64) == Some(record_of(earlier[i])));
                assert(reached.locations.contains_key((before.locations.len() + i) as u64));
            }
        }
    }
}

} // verus!
