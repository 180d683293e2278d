//! One unit of work: what a single directory listing contributes.
//!
//! Every entry whose name matches is reported, a directory as well as a
//! file. Every directory is descended into while the depth limit allows,
//! whether or not its own name matches.

use crate::search::entry::{Entry, Unit};
use crate::search::pattern::{PatternView, SearchPattern};
use std::path::PathBuf;
use vstd::prelude::*;

verus! {

/// Whether `entry` has a name that `pattern` matches. An entry whose name
/// is not valid Unicode matches nothing.
pub open spec fn entry_matches(pattern: PatternView, entry: Entry) -> bool {
    match entry.file_name {
        Some(name) => pattern.matches(name@),
        None => false,
    }
}

/// The paths of the entries of `listing` that `pattern` matches, in the
/// order of the listing.
pub open spec fn matched_paths(pattern: PatternView, listing: Seq<Entry>) -> Seq<PathBuf>
    decreases listing.len(),
{
    if listing.len() == 0 {
        Seq::empty()
    } else {
        let before = matched_paths(pattern, listing.drop_last());
        if entry_matches(pattern, listing.last()) {
            before.push(listing.last().path)
        } else {
            before
        }
    }
}

/// The units of work that a listing found at `depth` gives rise to: one for
/// each directory in it, one level further down, and none once `depth` has
/// reached `max_depth`.
pub open spec fn child_units(listing: Seq<Entry>, depth: usize, max_depth: usize) -> Seq<Unit>
    decreases listing.len(),
{
    if listing.len() == 0 || depth >= max_depth {
        Seq::empty()
    } else {
        let before = child_units(listing.drop_last(), depth, max_depth);
        if listing.last().is_dir {
            before.push(Unit { dir: listing.last().path, depth: (depth + 1) as usize })
        } else {
            before
        }
    }
}

/// Every unit that a listing gives rise to lies one level below it, within
/// the depth limit.
pub proof fn lemma_child_units_depth(listing: Seq<Entry>, depth: usize, max_depth: usize)
    ensures
        forall|i: int|
            #![trigger child_units(listing, depth, max_depth)[i]]
            0 <= i < child_units(listing, depth, max_depth).len() ==> {
                &&& child_units(listing, depth, max_depth)[i].depth == depth + 1
                &&& depth < max_depth
            },
    decreases listing.len(),
{
    let units = child_units(listing, depth, max_depth);
    if listing.len() == 0 || depth >= max_depth {
        assert(units.len() == 0);
    } else {
        let before = child_units(listing.drop_last(), depth, max_depth);
        lemma_child_units_depth(listing.drop_last(), depth, max_depth);
        assert forall|i: int| 0 <= i < units.len() implies {
            &&& (#[trigger] units[i]).depth == depth + 1
            &&& depth < max_depth
        } by {
            if i < before.len() {
                assert(units[i] == before[i]);
            }
        }
    }
}

/// What one directory listing contributes to a search.
#[derive(Debug)]
pub struct Visit {
    /// The paths of the matching entries, in the order of the listing.
    pub matches: Vec<PathBuf>,
    /// The directories to list next, in the order of the listing.
    pub children: Vec<Unit>,
}

/// Processes the listing of a directory found at `depth`: collects the
/// paths of the entries that `pattern` matches, and a unit of work for each
/// directory, unless the depth limit has been reached.
pub fn visit_directory(
    listing: &Vec<Entry>,
    pattern: &SearchPattern,
    depth: usize,
    max_depth: usize,
) -> (visit: Visit)
    ensures
        visit.matches@ == matched_paths(pattern@, listing@),
        visit.children@ == child_units(listing@, depth, max_depth),
{
    let mut matches: Vec<PathBuf> = Vec::new();
    let mut children: Vec<Unit> = Vec::new();
    let mut i: usize = 0;
    while i < listing.len()
        invariant
            i <= listing.len(),
            matches@ == matched_paths(pattern@, listing@.take(i as int)),
            children@ == child_units(listing@.take(i as int), depth, max_depth),
        decreases listing.len() - i,
    {
        let entry = &listing[i];
        proof {
            let upto = listing@.take(i + 1);
            assert(upto.drop_last() == listing@.take(i as int));
            assert(upto.last() == *entry);
        }
        let found = match &entry.file_name {
            Some(name) => pattern.is_match(name.as_str()),
            None => false,
        };
        if found {
            matches.push(entry.path.clone());
        }
        if entry.is_dir && depth < max_depth {
            children.push(Unit { dir: entry.path.clone(), depth: depth + 1 });
        }
        i = i + 1;
    }
    proof {
        assert(listing@.take(i as int) == listing@);
    }
    Visit { matches, children }
}

} // verus!
