//! What a search is meant to find, told by nesting level: a path is found
//! exactly when it is a matching entry of a directory that lies no deeper
//! than the depth limit.

use crate::search::entry::Entry;
use crate::search::model::{found_below, found_in_subdirectories, FileSystem};
use crate::search::pattern::PatternView;
use crate::search::visit::matched_paths;
use std::path::PathBuf;
use vstd::prelude::*;

verus! {

/// `child` is a directory among the entries of `parent`.
pub open spec fn is_subdirectory(fs: FileSystem, parent: PathBuf, child: PathBuf) -> bool {
    exists|i: int| 0 <= i < fs(parent).len() && (#[trigger] fs(parent)[i]).is_dir && fs(parent)[i].path == child
}

/// `chain` leads from its first directory down to its last, each directory
/// being an entry of the one before. A directory at the end of a chain of
/// `n` directories that starts at the start directory lies at level `n`.
pub open spec fn is_descent(fs: FileSystem, chain: Seq<PathBuf>) -> bool {
    &&& chain.len() >= 1
    &&& forall|k: int| 0 <= k < chain.len() - 1 ==> is_subdirectory(fs, #[trigger] chain[k], chain[k + 1])
}

/// Whatever is found in the subdirectories of a listing is found below one
/// of its directories.
pub proof fn lemma_found_in_some_subdirectory(
    fs: FileSystem,
    pattern: PatternView,
    max_depth: nat,
    listing: Seq<Entry>,
    depth: nat,
    path: PathBuf,
) -> (at: int)
    requires
        found_in_subdirectories(fs, pattern, max_depth, listing, depth).count(path) > 0,
    ensures
        0 <= at < listing.len(),
        listing[at].is_dir,
        found_below(fs, pattern, max_depth, listing[at].path, depth).count(path) > 0,
    decreases listing.len(),
{
    let last: int = listing.len() - 1;
    if listing.last().is_dir && found_below(
        fs,
        pattern,
        max_depth,
        listing.last().path,
        depth,
    ).count(path) > 0 {
        last
    } else {
        lemma_found_in_some_subdirectory(fs, pattern, max_depth, listing.drop_last(), depth, path)
    }
}

/// What is found below a directory of a listing is found in the
/// subdirectories of the listing.
pub proof fn lemma_subdirectory_is_searched(
    fs: FileSystem,
    pattern: PatternView,
    max_depth: nat,
    listing: Seq<Entry>,
    depth: nat,
    at: int,
    path: PathBuf,
)
    requires
        0 <= at < listing.len(),
        listing[at].is_dir,
        found_below(fs, pattern, max_depth, listing[at].path, depth).count(path) > 0,
    ensures
        found_in_subdirectories(fs, pattern, max_depth, listing, depth).count(path) > 0,
    decreases listing.len(),
{
    if at < listing.len() - 1 {
        lemma_subdirectory_is_searched(fs, pattern, max_depth, listing.drop_last(), depth, at, path);
    }
}

/// The depth bound. Whatever is found at or below a directory at level
/// `depth` is a matching entry of a directory that a chain of descents
/// reaches from it without passing `max_depth`: nothing that lies deeper is
/// found, even if it would match.
pub proof fn lemma_found_within_depth(
    fs: FileSystem,
    pattern: PatternView,
    max_depth: nat,
    dir: PathBuf,
    depth: nat,
    path: PathBuf,
) -> (chain: Seq<PathBuf>)
    requires
        found_below(fs, pattern, max_depth, dir, depth).count(path) > 0,
    ensures
        is_descent(fs, chain),
        chain[0] == dir,
        depth + chain.len() - 1 <= max_depth,
        matched_paths(pattern, fs(chain.last())).contains(path),
    decreases max_depth + 1 - depth,
{
    broadcast use vstd::seq_lib::group_to_multiset_ensures;

    if matched_paths(pattern, fs(dir)).to_multiset().count(path) > 0 {
        seq![dir]
    } else {
        let at = lemma_found_in_some_subdirectory(
            fs,
            pattern,
            max_depth,
            fs(dir),
            depth + 1,
            path,
        );
        let child = fs(dir)[at].path;
        let below = lemma_found_within_depth(fs, pattern, max_depth, child, depth + 1, path);
        let chain = seq![dir] + below;
        assert forall|k: int| 0 <= k < chain.len() - 1 implies is_subdirectory(
            fs,
            #[trigger] chain[k],
            chain[k + 1],
        ) by {
            if k == 0 {
                assert(chain[1] == below[0]);
            } else {
                assert(chain[k] == below[k - 1]);
                assert(chain[k + 1] == below[k - 1 + 1]);
            }
        }
        assert(chain.last() == below.last());
        chain
    }
}

/// No omission. Every matching entry of a directory that a chain of
/// descents reaches from a directory at level `depth`, without passing
/// `max_depth`, is found.
pub proof fn lemma_reachable_is_found(
    fs: FileSystem,
    pattern: PatternView,
    max_depth: nat,
    chain: Seq<PathBuf>,
    depth: nat,
    path: PathBuf,
)
    requires
        is_descent(fs, chain),
        depth + chain.len() - 1 <= max_depth,
        matched_paths(pattern, fs(chain.last())).contains(path),
    ensures
        found_below(fs, pattern, max_depth, chain[0], depth).count(path) > 0,
    decreases chain.len(),
{
    broadcast use vstd::seq_lib::group_to_multiset_ensures;

    if chain.len() > 1 {
        let rest = chain.drop_first();
        assert forall|k: int| 0 <= k < rest.len() - 1 implies is_subdirectory(
            fs,
            #[trigger] rest[k],
            rest[k + 1],
        ) by {
            assert(rest[k] == chain[k + 1]);
            assert(is_subdirectory(fs, chain[k + 1], chain[k + 1 + 1]));
        }
        assert(rest.last() == chain.last());
        lemma_reachable_is_found(fs, pattern, max_depth, rest, depth + 1, path);
        assert(is_subdirectory(fs, chain[0int], chain[0int + 1]));
        let at = choose|i: int|
            0 <= i < fs(chain[0]).len() && (#[trigger] fs(chain[0])[i]).is_dir && fs(
                chain[0],
            )[i].path == chain[1];
        lemma_subdirectory_is_searched(fs, pattern, max_depth, fs(chain[0]), depth + 1, at, path);
    }
}

/// The directory that `steps` applications of `parent` lead to from `path`.
pub open spec fn ancestor(parent: spec_fn(PathBuf) -> PathBuf, path: PathBuf, steps: nat) -> PathBuf
    decreases steps,
{
    if steps == 0 {
        path
    } else {
        ancestor(parent, parent(path), (steps - 1) as nat)
    }
}

/// The file system is a forest: every entry lies directly under the
/// directory that lists it, one level further from the top, and no listing
/// names a path twice. `parent` gives the directory an entry lies under, and
/// `rank` how far from the top a path is.
pub open spec fn is_forest(
    fs: FileSystem,
    parent: spec_fn(PathBuf) -> PathBuf,
    rank: spec_fn(PathBuf) -> nat,
) -> bool {
    &&& forall|dir: PathBuf, i: int|
        0 <= i < fs(dir).len() ==> parent((#[trigger] fs(dir)[i]).path) == dir
    &&& forall|dir: PathBuf, i: int|
        0 <= i < fs(dir).len() ==> rank((#[trigger] fs(dir)[i]).path) == rank(dir) + 1
    &&& forall|dir: PathBuf, i: int, j: int|
        0 <= i < j < fs(dir).len() ==> (#[trigger] fs(dir)[i]).path != (#[trigger] fs(dir)[j]).path
}

/// Every matched path is the path of an entry of the listing.
pub proof fn lemma_matched_path_is_listed(pattern: PatternView, listing: Seq<Entry>, path: PathBuf) -> (at:
    int)
    requires
        matched_paths(pattern, listing).contains(path),
    ensures
        0 <= at < listing.len(),
        listing[at].path == path,
    decreases listing.len(),
{
    let before = matched_paths(pattern, listing.drop_last());
    if listing.len() == 0 {
        0
    } else if before.contains(path) {
        lemma_matched_path_is_listed(pattern, listing.drop_last(), path)
    } else {
        let found = matched_paths(pattern, listing);
        let k = choose|k: int| 0 <= k < found.len() && found[k] == path;
        if k < before.len() {
            assert(before[k] == path);
        }
        listing.len() - 1
    }
}

/// A listing that names no path twice has no path matched twice.
pub proof fn lemma_matched_once(pattern: PatternView, listing: Seq<Entry>, path: PathBuf)
    requires
        forall|i: int, j: int|
            0 <= i < j < listing.len() ==> (#[trigger] listing[i]).path != (#[trigger] listing[j]).path,
    ensures
        matched_paths(pattern, listing).to_multiset().count(path) <= 1,
    decreases listing.len(),
{
    broadcast use vstd::seq_lib::group_to_multiset_ensures;

    if listing.len() > 0 {
        let earlier = listing.drop_last();
        let before = matched_paths(pattern, earlier);
        assert forall|i: int, j: int| 0 <= i < j < earlier.len() implies (#[trigger] earlier[i]).path
            != (#[trigger] earlier[j]).path by {
            assert(earlier[i] == listing[i]);
            assert(earlier[j] == listing[j]);
        }
        lemma_matched_once(pattern, earlier, path);
        if listing.last().path == path && before.contains(path) {
            let at = lemma_matched_path_is_listed(pattern, earlier, path);
            assert(earlier[at] == listing[at]);
            assert(listing[at].path != listing[listing.len() - 1].path);
        }
    }
}

/// In a forest, the last directory of a chain of descents has the first as
/// its ancestor, as many steps up as the chain is long.
pub proof fn lemma_descent_leads_up(
    fs: FileSystem,
    parent: spec_fn(PathBuf) -> PathBuf,
    rank: spec_fn(PathBuf) -> nat,
    chain: Seq<PathBuf>,
)
    requires
        is_forest(fs, parent, rank),
        is_descent(fs, chain),
    ensures
        rank(chain.last()) == rank(chain[0]) + chain.len() - 1,
        ancestor(parent, chain.last(), (chain.len() - 1) as nat) == chain[0],
    decreases chain.len(),
{
    if chain.len() > 1 {
        let upper = chain.drop_last();
        assert forall|k: int| 0 <= k < upper.len() - 1 implies is_subdirectory(
            fs,
            #[trigger] upper[k],
            upper[k + 1],
        ) by {
            assert(upper[k] == chain[k]);
            assert(upper[k + 1] == chain[k + 1]);
        }
        lemma_descent_leads_up(fs, parent, rank, upper);
        let last: int = chain.len() - 1;
        assert(is_subdirectory(fs, chain[last - 1], chain[last - 1 + 1]));
        assert(upper.last() == chain[last - 1]);
        lemma_ancestor_of_parent(parent, chain.last(), (chain.len() - 2) as nat);
    }
}

/// Going up one step and then `steps` more is going up `steps + 1`.
pub proof fn lemma_ancestor_of_parent(parent: spec_fn(PathBuf) -> PathBuf, path: PathBuf, steps: nat)
    ensures
        ancestor(parent, path, steps + 1) == ancestor(parent, parent(path), steps),
{
}

/// In a forest, whatever is found at or below a directory lies further
/// from the top than the directory, which is its ancestor.
pub proof fn lemma_found_lies_below(
    fs: FileSystem,
    pattern: PatternView,
    max_depth: nat,
    dir: PathBuf,
    depth: nat,
    path: PathBuf,
    parent: spec_fn(PathBuf) -> PathBuf,
    rank: spec_fn(PathBuf) -> nat,
)
    requires
        is_forest(fs, parent, rank),
        found_below(fs, pattern, max_depth, dir, depth).count(path) > 0,
    ensures
        rank(path) > rank(dir),
        ancestor(parent, path, (rank(path) - rank(dir)) as nat) == dir,
{
    let chain = lemma_found_within_depth(fs, pattern, max_depth, dir, depth, path);
    lemma_descent_leads_up(fs, parent, rank, chain);
    let at = lemma_matched_path_is_listed(pattern, fs(chain.last()), path);
    assert(parent(fs(chain.last())[at].path) == chain.last());
    lemma_ancestor_of_parent(parent, path, (chain.len() - 1) as nat);
}

/// No duplicates. In a forest, nothing is found twice.
pub proof fn lemma_nothing_is_found_twice(
    fs: FileSystem,
    pattern: PatternView,
    max_depth: nat,
    dir: PathBuf,
    depth: nat,
    path: PathBuf,
    parent: spec_fn(PathBuf) -> PathBuf,
    rank: spec_fn(PathBuf) -> nat,
)
    requires
        is_forest(fs, parent, rank),
    ensures
        found_below(fs, pattern, max_depth, dir, depth).count(path) <= 1,
    decreases max_depth + 1 - depth, 0nat, 0nat,
{
    broadcast use vstd::seq_lib::group_to_multiset_ensures;

    if depth <= max_depth {
        let listing = fs(dir);
        let matched = matched_paths(pattern, listing);
        let deeper = found_in_subdirectories(fs, pattern, max_depth, listing, depth + 1);
        lemma_matched_once(pattern, listing, path);
        lemma_found_once_in_subdirectories(
            fs,
            pattern,
            max_depth,
            dir,
            listing.len() as nat,
            depth + 1,
            path,
            parent,
            rank,
        );
        assert(listing.take(listing.len() as int) == listing);
        if matched.contains(path) && deeper.count(path) > 0 {
            let at = lemma_matched_path_is_listed(pattern, listing, path);
            let under = lemma_found_in_some_subdirectory(
                fs,
                pattern,
                max_depth,
                listing,
                depth + 1,
                path,
            );
            lemma_found_lies_below(
                fs,
                pattern,
                max_depth,
                listing[under].path,
                depth + 1,
                path,
                parent,
                rank,
            );
            assert(rank(listing[at].path) == rank(dir) + 1);
            assert(rank(listing[under].path) == rank(dir) + 1);
        }
    }
}

/// In a forest, nothing is found twice in the subdirectories among the
/// first `upto` entries of the listing of `dir`.
pub proof fn lemma_found_once_in_subdirectories(
    fs: FileSystem,
    pattern: PatternView,
    max_depth: nat,
    dir: PathBuf,
    upto: nat,
    depth: nat,
    path: PathBuf,
    parent: spec_fn(PathBuf) -> PathBuf,
    rank: spec_fn(PathBuf) -> nat,
)
    requires
        is_forest(fs, parent, rank),
        upto <= fs(dir).len(),
    ensures
        found_in_subdirectories(fs, pattern, max_depth, fs(dir).take(upto as int), depth).count(path)
            <= 1,
    decreases max_depth + 1 - depth, 1nat, upto,
{
    let listing = fs(dir).take(upto as int);
    if upto > 0 && depth <= max_depth {
        let earlier = listing.drop_last();
        assert(earlier == fs(dir).take(upto - 1));
        let last: int = upto - 1;
        assert(listing.last() == fs(dir)[last]);
        lemma_found_once_in_subdirectories(
            fs,
            pattern,
            max_depth,
            dir,
            (upto - 1) as nat,
            depth,
            path,
            parent,
            rank,
        );
        if listing.last().is_dir {
            let child = listing.last().path;
            lemma_nothing_is_found_twice(fs, pattern, max_depth, child, depth, path, parent, rank);
            if found_below(fs, pattern, max_depth, child, depth).count(path) > 0
                && found_in_subdirectories(fs, pattern, max_depth, earlier, depth).count(path) > 0 {
                let other = lemma_found_in_some_subdirectory(
                    fs,
                    pattern,
                    max_depth,
                    earlier,
                    depth,
                    path,
                );
                assert(earlier[other] == fs(dir)[other]);
                lemma_found_lies_below(
                    fs,
                    pattern,
                    max_depth,
                    fs(dir)[other].path,
                    depth,
                    path,
                    parent,
                    rank,
                );
                lemma_found_lies_below(fs, pattern, max_depth, child, depth, path, parent, rank);
                assert(rank(fs(dir)[other].path) == rank(dir) + 1);
                assert(rank(fs(dir)[last].path) == rank(dir) + 1);
                assert(fs(dir)[other].path != fs(dir)[last].path);
            }
        }
    }
}

} // verus!
