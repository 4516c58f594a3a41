//! Choosing the file for a new blob: first fit over a table's rows, read in
//! key order.

use crate::index::{fits, is_first_fit, none_fits};
use crate::rows::lists_rows;
use vstd::prelude::*;

verus! {

/// Some row of the listing has this path.
pub open spec fn lists_path(listing: Seq<(u64, String, u64)>, path: Seq<char>) -> bool {
    exists|i: int| 0 <= i < listing.len() && (#[trigger] listing[i]).1@ == path
}

/// Some row of the table has this path.
pub open spec fn holds_path(rows: Map<u64, (Seq<char>, u64)>, path: Seq<char>) -> bool {
    exists|key: u64| #[trigger] rows.contains_key(key) && rows[key].0 == path
}

/// A listing and its table hold the same paths.
pub proof fn lemma_listed_paths(listing: Seq<(u64, String, u64)>, rows: Map<u64, (Seq<char>, u64)>, path: Seq<char>)
    requires
        lists_rows(listing, rows),
    ensures
        lists_path(listing, path) == holds_path(rows, path),
{
    if lists_path(listing, path) {
        let i = choose|i: int| 0 <= i < listing.len() && (#[trigger] listing[i]).1@ == path;
        assert(rows.contains_key(listing[i].0));
    }
    if holds_path(rows, path) {
        let key = choose|key: u64| #[trigger] rows.contains_key(key) && rows[key].0 == path;
        let i = choose|i: int| 0 <= i < listing.len() && #[trigger] listing[i].0 == key;
        assert(listing[i].1@ == path);
    }
}

/// Whether a file of `size` bytes has room for `requested` more.
pub fn has_room(size: u64, requested: usize, threshold: usize) -> (room: bool)
    ensures
        room == fits(size, requested, threshold),
{
    let limit: u64 = threshold as u64;
    size <= limit && requested as u64 <= limit - size
}

/// The place in the listing of the first row with room for `requested`.
pub fn first_fit(listing: &Vec<(u64, String, u64)>, requested: usize, threshold: usize) -> (found: Option<usize>)
    ensures
        match found {
            Some(at) => {
                &&& at < listing@.len()
                &&& fits(listing@[at as int].2, requested, threshold)
                &&& forall|j: int| 0 <= j < at ==> !fits((#[trigger] listing@[j]).2, requested, threshold)
            },
            None => forall|j: int| 0 <= j < listing@.len() ==> !fits((#[trigger] listing@[j]).2, requested, threshold),
        },
{
    let mut at: usize = 0;
    while at < listing.len()
        invariant
            at <= listing@.len(),
            forall|j: int| 0 <= j < at ==> !fits((#[trigger] listing@[j]).2, requested, threshold),
        decreases listing@.len() - at,
    {
        if has_room(listing[at].2, requested, threshold) {
            return Some(at);
        }
        at += 1;
    }
    None
}

/// The first row with room in a listing is the first row with room in the
/// table.
pub proof fn lemma_first_fit_listed(
    listing: Seq<(u64, String, u64)>,
    rows: Map<u64, (Seq<char>, u64)>,
    at: int,
    requested: usize,
    threshold: usize,
)
    requires
        lists_rows(listing, rows),
        0 <= at < listing.len(),
        fits(listing[at].2, requested, threshold),
        forall|j: int| 0 <= j < at ==> !fits((#[trigger] listing[j]).2, requested, threshold),
    ensures
        is_first_fit(rows, listing[at].0, requested, threshold),
        rows[listing[at].0] == (listing[at].1@, listing[at].2),
{
    let key = listing[at].0;
    assert(rows.contains_key(listing[at].0));
    assert forall|other: u64| other < key && #[trigger] rows.contains_key(other) implies !fits(
        rows[other].1,
        requested,
        threshold,
    ) by {
        let j = choose|j: int| 0 <= j < listing.len() && #[trigger] listing[j].0 == other;
        if j >= at {
            if j > at {
                assert(listing[at].0 < listing[j].0);
            }
        }
        assert(rows.contains_key(listing[j].0));
        assert(!fits(listing[j].2, requested, threshold));
    }
}

/// Where no listed row has room, no row of the table has.
pub proof fn lemma_none_fits_listed(
    listing: Seq<(u64, String, u64)>,
    rows: Map<u64, (Seq<char>, u64)>,
    requested: usize,
    threshold: usize,
)
    requires
        lists_rows(listing, rows),
        forall|j: int| 0 <= j < listing.len() ==> !fits((#[trigger] listing[j]).2, requested, threshold),
    ensures
        none_fits(rows, requested, threshold),
{
    assert forall|key: u64| #[trigger] rows.contains_key(key) implies !fits(rows[key].1, requested, threshold) by {
        let j = choose|j: int| 0 <= j < listing.len() && #[trigger] listing[j].0 == key;
        assert(rows.contains_key(listing[j].0));
        assert(!fits(listing[j].2, requested, threshold));
    }
}

/// Whether a listed row has this path.
pub fn name_taken(listing: &Vec<(u64, String, u64)>, name: &String) -> (taken: bool)
    ensures
        taken == lists_path(listing@, name@),
{
    let mut at: usize = 0;
    while at < listing.len()
        invariant
            at <= listing@.len(),
            forall|j: int| 0 <= j < at ==> (#[trigger] listing@[j]).1@ != name@,
        decreases listing@.len() - at,
    {
        if listing[at].1 == *name {
            return true;
        }
        at += 1;
    }
    false
}

/// The keys of the listing ascend.
pub open spec fn ascending(listing: Seq<(u64, String, u64)>) -> bool {
    forall|i: int, j: int| 0 <= i < j < listing.len() ==> listing[i].0 < listing[j].0
}

/// The key after the last listed one; `None` where the last key is the
/// largest there is.
pub fn next_key(listing: &Vec<(u64, String, u64)>) -> (key: Option<u64>)
    requires
        ascending(listing@),
    ensures
        match key {
            Some(k) => forall|j: int| 0 <= j < listing@.len() ==> (#[trigger] listing@[j]).0 < k,
            None => listing@.len() > 0 && listing@.last().0 == u64::MAX,
        },
        listing@.len() == 0 ==> key == Some(0u64),
        listing@.len() > 0 && listing@.last().0 < u64::MAX ==> key == Some((listing@.last().0 + 1) as u64),
{
    if listing.len() == 0 {
        return Some(0);
    }
    let last: u64 = listing[listing.len() - 1].0;
    assert forall|j: int| 0 <= j < listing@.len() implies (#[trigger] listing@[j]).0 <= last by {
        if j < listing@.len() - 1 {
            assert(listing@[j].0 < listing@[listing@.len() - 1].0);
        }
    }
    if last == u64::MAX {
        None
    } else {
        Some(last + 1)
    }
}

} // verus!
