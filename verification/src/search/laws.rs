//! What holds of every traversal: the bound on running units, the depth bound, and that
//! a traversal which runs to its end without a failure has collected
//! exactly what the search is meant to find.

use crate::search::entry::{Entry, Unit};
use crate::search::error::SearchError;
use crate::search::model::{
    found_below, found_in_subdirectories, outstanding, unset_among, Event, FileSystem,
    TraversalModel,
};
use crate::search::pattern::PatternView;
use crate::search::visit::{child_units, lemma_child_units_depth, matched_paths};
use std::path::PathBuf;
use vstd::multiset::Multiset;
use vstd::prelude::*;
use vstd::seq_lib::lemma_multiset_commutative;

verus! {

/// No more flags are unset among the first `upto` than there are.
pub proof fn lemma_unset_among_bound(flags: Seq<bool>, upto: nat)
    ensures
        unset_among(flags, upto) <= upto,
    decreases upto,
{
    if upto > 0 {
        lemma_unset_among_bound(flags, (upto - 1) as nat);
    }
}

/// The count of unset flags among the first `upto` depends on those flags
/// alone.
pub proof fn lemma_unset_among_frame(a: Seq<bool>, b: Seq<bool>, upto: nat)
    requires
        forall|i: int| 0 <= i < upto ==> a[i] == b[i],
    ensures
        unset_among(a, upto) == unset_among(b, upto),
    decreases upto,
{
    if upto > 0 {
        lemma_unset_among_frame(a, b, (upto - 1) as nat);
    }
}

/// Setting one unset flag among the first `upto` lowers the count by one.
pub proof fn lemma_unset_among_set(flags: Seq<bool>, upto: nat, at: int)
    requires
        0 <= at < upto <= flags.len(),
        !flags[at],
    ensures
        unset_among(flags.update(at, true), upto) + 1 == unset_among(flags, upto),
    decreases upto,
{
    let after = flags.update(at, true);
    if at == upto - 1 {
        lemma_unset_among_frame(flags, after, (upto - 1) as nat);
    } else {
        lemma_unset_among_set(flags, (upto - 1) as nat, at);
    }
}

/// Where no flag is counted as unset, every flag is set.
pub proof fn lemma_unset_among_none(flags: Seq<bool>, upto: nat)
    requires
        unset_among(flags, upto) == 0,
    ensures
        forall|i: int| 0 <= i < upto ==> flags[i],
    decreases upto,
{
    if upto > 0 {
        lemma_unset_among_none(flags, (upto - 1) as nat);
    }
}

/// Units that have all completed have nothing outstanding.
pub proof fn lemma_outstanding_all_done(
    fs: FileSystem,
    pattern: PatternView,
    max_depth: nat,
    units: Seq<Unit>,
    done: Seq<bool>,
)
    requires
        units.len() == done.len(),
        forall|i: int| 0 <= i < done.len() ==> done[i],
    ensures
        outstanding(fs, pattern, max_depth, units, done) == Multiset::<PathBuf>::empty(),
    decreases units.len(),
{
    if units.len() > 0 {
        lemma_outstanding_all_done(fs, pattern, max_depth, units.drop_last(), done.drop_last());
    }
}

/// Marking a unit as completed takes what lies at or below it out of what
/// is outstanding.
pub proof fn lemma_outstanding_mark_done(
    fs: FileSystem,
    pattern: PatternView,
    max_depth: nat,
    units: Seq<Unit>,
    done: Seq<bool>,
    at: int,
)
    requires
        units.len() == done.len(),
        0 <= at < units.len(),
        !done[at],
    ensures
        outstanding(fs, pattern, max_depth, units, done) == outstanding(
            fs,
            pattern,
            max_depth,
            units,
            done.update(at, true),
        ).add(found_below(fs, pattern, max_depth, units[at].dir, units[at].depth as nat)),
    decreases units.len(),
{
    let after = done.update(at, true);
    let below = found_below(fs, pattern, max_depth, units[at].dir, units[at].depth as nat);
    if at == units.len() - 1 {
        assert(after.drop_last() == done.drop_last());
        assert(outstanding(fs, pattern, max_depth, units, done) =~= outstanding(
            fs,
            pattern,
            max_depth,
            units,
            after,
        ).add(below));
    } else {
        lemma_outstanding_mark_done(fs, pattern, max_depth, units.drop_last(), done.drop_last(), at);
        assert(after.drop_last() == done.drop_last().update(at, true));
        assert(units.drop_last()[at] == units[at]);
        assert(outstanding(fs, pattern, max_depth, units, done) =~= outstanding(
            fs,
            pattern,
            max_depth,
            units,
            after,
        ).add(below));
    }
}

/// The units that a listing gives rise to add to what is outstanding
/// exactly what lies at or below the directories of the listing.
pub proof fn lemma_outstanding_children(
    fs: FileSystem,
    pattern: PatternView,
    max_depth: usize,
    units: Seq<Unit>,
    done: Seq<bool>,
    listing: Seq<Entry>,
    depth: usize,
)
    requires
        units.len() == done.len(),
    ensures
        outstanding(
            fs,
            pattern,
            max_depth as nat,
            units + child_units(listing, depth, max_depth),
            done + Seq::new(child_units(listing, depth, max_depth).len(), |i: int| false),
        ) == outstanding(fs, pattern, max_depth as nat, units, done).add(
            found_in_subdirectories(fs, pattern, max_depth as nat, listing, (depth + 1) as nat),
        ),
    decreases listing.len(),
{
    let children = child_units(listing, depth, max_depth);
    let unset = Seq::new(children.len(), |i: int| false);
    let base = outstanding(fs, pattern, max_depth as nat, units, done);
    let below = found_in_subdirectories(fs, pattern, max_depth as nat, listing, (depth + 1) as nat);
    if listing.len() == 0 || depth >= max_depth {
        assert(units + children == units);
        assert(done + unset == done);
        assert(base.add(below) =~= base);
    } else {
        let earlier = child_units(listing.drop_last(), depth, max_depth);
        let earlier_unset = Seq::new(earlier.len(), |i: int| false);
        lemma_outstanding_children(fs, pattern, max_depth, units, done, listing.drop_last(), depth);
        let earlier_below = found_in_subdirectories(
            fs,
            pattern,
            max_depth as nat,
            listing.drop_last(),
            (depth + 1) as nat,
        );
        if listing.last().is_dir {
            let unit = Unit { dir: listing.last().path, depth: (depth + 1) as usize };
            assert(children == earlier.push(unit));
            assert((units + children).drop_last() == units + earlier);
            assert((done + unset).drop_last() == done + earlier_unset);
            assert((units + children).last() == unit);
            assert(!(done + unset).last());
            assert(outstanding(fs, pattern, max_depth as nat, units + children, done + unset)
                =~= base.add(below));
        } else {
            assert(children == earlier);
        }
    }
}

/// A fresh traversal is well formed, and nothing is running in it.
pub proof fn lemma_start(
    pattern: PatternView,
    max_depth: usize,
    gating: bool,
    capacity: nat,
    root: PathBuf,
)
    requires
        max_depth >= 1,
        gating ==> capacity >= 1,
    ensures
        TraversalModel::start(pattern, max_depth, gating, capacity, root).wf(),
        TraversalModel::start(pattern, max_depth, gating, capacity, root).running() == 0,
{
}

/// A fresh traversal accounts for the whole search: everything is still
/// to come.
pub proof fn lemma_start_accounts(
    fs: FileSystem,
    pattern: PatternView,
    max_depth: usize,
    gating: bool,
    capacity: nat,
    root: PathBuf,
)
    ensures
        TraversalModel::start(pattern, max_depth, gating, capacity, root).accounts_for(fs, root),
{
    let t = TraversalModel::start(pattern, max_depth, gating, capacity, root);
    assert(t.units.drop_last() == Seq::<Unit>::empty());
    assert(outstanding(fs, pattern, max_depth as nat, t.units.drop_last(), t.done.drop_last())
        == Multiset::<PathBuf>::empty());
    assert(t.results.to_multiset() =~= Multiset::<PathBuf>::empty()) by {
        broadcast use vstd::seq_lib::group_to_multiset_ensures;

    }
    assert(t.results.to_multiset().add(
        outstanding(fs, pattern, max_depth as nat, t.units, t.done),
    ) =~= found_below(fs, pattern, max_depth as nat, root, 1));
}

/// Handing out a unit keeps the traversal well formed and within its
/// bound on running units, and leaves what it accounts for untouched.
pub proof fn lemma_launch(t: TraversalModel)
    requires
        t.wf(),
        t.can_launch(),
    ensures
        t.launch().wf(),
        t.launch().running() == t.running() + 1,
        t.launch().is_running(t.launched),
        forall|fs: FileSystem, root: PathBuf|
            t.accounts_for(fs, root) ==> #[trigger] t.launch().accounts_for(fs, root),
{
}

/// Taking in the listing of a running unit keeps the traversal well
/// formed and frees the unit's slot.
pub proof fn lemma_complete(t: TraversalModel, ticket: nat, listing: Seq<Entry>)
    requires
        t.wf(),
        t.is_running(ticket),
    ensures
        t.complete(ticket, listing).wf(),
        t.complete(ticket, listing).running() + 1 == t.running(),
{
    let after = t.complete(ticket, listing);
    lemma_unset_among_set(t.done, t.launched, ticket as int);
    lemma_unset_among_frame(t.done.update(ticket as int, true), after.done, t.launched);
    if t.failure is None {
        let depth = t.units[ticket as int].depth;
        lemma_child_units_depth(listing, depth, t.max_depth);
        let children = child_units(listing, depth, t.max_depth);
        assert forall|i: int| 0 <= i < after.units.len() implies 1 <= (
        #[trigger] after.units[i]).depth <= after.max_depth by {
            if i >= t.units.len() {
                assert(after.units[i] == children[i - t.units.len()]);
            } else {
                assert(after.units[i] == t.units[i]);
            }
        }
    }
}

/// Taking in the listing that the file system holds for a running unit
/// keeps the accounts balanced.
pub proof fn lemma_complete_accounts(
    t: TraversalModel,
    ticket: nat,
    listing: Seq<Entry>,
    fs: FileSystem,
    root: PathBuf,
)
    requires
        t.wf(),
        t.is_running(ticket),
        t.accounts_for(fs, root),
        listing == fs(t.units[ticket as int].dir),
    ensures
        t.complete(ticket, listing).accounts_for(fs, root),
{
    if t.failure is None {
        let after = t.complete(ticket, listing);
        let unit = t.units[ticket as int];
        let limit = t.max_depth as nat;
        let marked = t.done.update(ticket as int, true);
        let found = matched_paths(t.pattern, listing);
        lemma_outstanding_mark_done(fs, t.pattern, limit, t.units, t.done, ticket as int);
        lemma_outstanding_children(fs, t.pattern, t.max_depth, t.units, marked, listing, unit.depth);
        lemma_multiset_commutative(t.results, found);
        assert(after.results.to_multiset().add(
            outstanding(fs, t.pattern, limit, after.units, after.done),
        ) =~= t.results.to_multiset().add(outstanding(fs, t.pattern, limit, t.units, t.done)));
    }
}

/// Taking in the failure of a running unit keeps the traversal well
/// formed, frees the unit's slot and marks the search as failed.
pub proof fn lemma_fail(t: TraversalModel, ticket: nat, error: SearchError)
    requires
        t.wf(),
        t.is_running(ticket),
    ensures
        t.fail(ticket, error).wf(),
        t.fail(ticket, error).running() + 1 == t.running(),
        t.fail(ticket, error).failure is Some,
        forall|fs: FileSystem, root: PathBuf| #[trigger] t.fail(ticket, error).accounts_for(fs, root),
{
    lemma_unset_among_set(t.done, t.launched, ticket as int);
}

/// A traversal that is not over and cannot hand out a unit has a unit
/// running: a driver that waits for an outcome is never left waiting for
/// nothing.
pub proof fn lemma_stalled_is_running(t: TraversalModel)
    requires
        t.wf(),
        !t.is_complete(),
        !t.can_launch(),
    ensures
        t.running() > 0,
{
}

/// A traversal that has run to its end without a failure has collected
/// exactly the matches at or below the start directory, each as often as
/// the file system holds it.
pub proof fn lemma_complete_traversal_found_all(t: TraversalModel, fs: FileSystem, root: PathBuf)
    requires
        t.wf(),
        t.accounts_for(fs, root),
        t.is_complete(),
        t.failure is None,
    ensures
        t.results.to_multiset() == found_below(fs, t.pattern, t.max_depth as nat, root, 1),
{
    lemma_unset_among_none(t.done, t.launched);
    lemma_outstanding_all_done(fs, t.pattern, t.max_depth as nat, t.units, t.done);
    assert(t.results.to_multiset().add(Multiset::<PathBuf>::empty()) =~= t.results.to_multiset());
}

/// The bound on running units. However a traversal proceeds, it stays well
/// formed: with gating enabled, the number of units being listed never
/// exceeds the capacity, and no unit lies deeper than the depth limit.
pub proof fn lemma_every_state_is_bounded(t: TraversalModel, events: Seq<Event>)
    requires
        t.wf(),
        t.admits_all(events),
    ensures
        t.after(events).wf(),
        t.after(events).gating ==> t.after(events).running() <= t.after(events).capacity,
        forall|i: int|
            0 <= i < t.after(events).units.len() ==> (#[trigger] t.after(events).units[i]).depth
                <= t.after(events).max_depth,
    decreases events.len(),
{
    if events.len() > 0 {
        lemma_every_state_is_bounded(t, events.drop_last());
        let before = t.after(events.drop_last());
        match events.last() {
            Event::Launch => lemma_launch(before),
            Event::Listed { ticket, listing } => lemma_complete(before, ticket, listing),
            Event::Failed { ticket, error } => lemma_fail(before, ticket, error),
        }
    }
}

/// However a traversal proceeds, as long as each listing it takes in is
/// the one the file system holds, its results and what is still to come
/// add up to everything the search is meant to find.
pub proof fn lemma_every_state_accounts(
    t: TraversalModel,
    events: Seq<Event>,
    fs: FileSystem,
    root: PathBuf,
)
    requires
        t.wf(),
        t.accounts_for(fs, root),
        t.admits_all(events),
        t.listings_from(events, fs),
    ensures
        t.after(events).accounts_for(fs, root),
    decreases events.len(),
{
    if events.len() > 0 {
        lemma_every_state_accounts(t, events.drop_last(), fs, root);
        lemma_every_state_is_bounded(t, events.drop_last());
        let before = t.after(events.drop_last());
        match events.last() {
            Event::Launch => {
                lemma_launch(before);
            },
            Event::Listed { ticket, listing } => {
                lemma_complete_accounts(before, ticket, listing, fs, root);
            },
            Event::Failed { ticket, error } => {
                lemma_fail(before, ticket, error);
            },
        }
    }
}

/// Completeness. A search that starts at `root`, takes in the listings
/// that the file system holds, in whatever order they come back, and runs
/// to its end without a failure has collected exactly the matches at or
/// below `root` down to the depth limit: none is left out, and none is
/// reported more often than the file system holds it.
pub proof fn lemma_search_finds_everything(
    pattern: PatternView,
    max_depth: usize,
    gating: bool,
    capacity: nat,
    root: PathBuf,
    fs: FileSystem,
    events: Seq<Event>,
)
    requires
        max_depth >= 1,
        gating ==> capacity >= 1,
        TraversalModel::start(pattern, max_depth, gating, capacity, root).admits_all(events),
        TraversalModel::start(pattern, max_depth, gating, capacity, root).listings_from(events, fs),
        TraversalModel::start(pattern, max_depth, gating, capacity, root).after(events).is_complete(),
        TraversalModel::start(pattern, max_depth, gating, capacity, root).after(
            events,
        ).failure is None,
    ensures
        TraversalModel::start(pattern, max_depth, gating, capacity, root).after(
            events,
        ).results.to_multiset() == found_below(fs, pattern, max_depth as nat, root, 1),
{
    let begun = TraversalModel::start(pattern, max_depth, gating, capacity, root);
    lemma_start(pattern, max_depth, gating, capacity, root);
    lemma_start_accounts(fs, pattern, max_depth, gating, capacity, root);
    lemma_every_state_is_bounded(begun, events);
    lemma_every_state_accounts(begun, events, fs, root);
    lemma_settings_are_kept(begun, events);
    lemma_complete_traversal_found_all(begun.after(events), fs, root);
}

/// Nothing that happens to a traversal changes its pattern, its depth
/// limit or its gating.
pub proof fn lemma_settings_are_kept(t: TraversalModel, events: Seq<Event>)
    ensures
        t.after(events).pattern == t.pattern,
        t.after(events).max_depth == t.max_depth,
        t.after(events).gating == t.gating,
        t.after(events).capacity == t.capacity,
    decreases events.len(),
{
    if events.len() > 0 {
        lemma_settings_are_kept(t, events.drop_last());
    }
}

/// A failure, once reported, stays: a traversal in which a unit has failed
/// ends in that failure, whatever comes after it.
pub proof fn lemma_failure_is_kept(t: TraversalModel, events: Seq<Event>)
    requires
        t.failure is Some,
    ensures
        t.after(events).failure == t.failure,
        t.after(events).culprit == t.culprit,
        t.after(events).results == t.results,
    decreases events.len(),
{
    if events.len() > 0 {
        lemma_failure_is_kept(t, events.drop_last());
    }
}

/// Nothing is ever taken out of the results: what a traversal has
/// collected stays, in its place, whatever happens next.
pub proof fn lemma_results_are_kept(t: TraversalModel, events: Seq<Event>)
    ensures
        t.results.is_prefix_of(t.after(events).results),
    decreases events.len(),
{
    if events.len() > 0 {
        lemma_results_are_kept(t, events.drop_last());
        let before = t.after(events.drop_last());
        assert(before.results.is_prefix_of(before.step(events.last()).results));
    }
}

/// Two patterns that match the same names pick the same paths out of a
/// listing.
pub proof fn lemma_matched_depends_on_matches(
    first: PatternView,
    second: PatternView,
    listing: Seq<Entry>,
)
    requires
        forall|name: Seq<char>| #[trigger] first.matches(name) == second.matches(name),
    ensures
        matched_paths(first, listing) == matched_paths(second, listing),
    decreases listing.len(),
{
    if listing.len() > 0 {
        lemma_matched_depends_on_matches(first, second, listing.drop_last());
        if let Some(name) = listing.last().file_name {
            assert(first.matches(name@) == second.matches(name@));
        }
    }
}

/// Pattern equivalence. Two patterns that match the same names find the
/// same below every directory; so a plain text finds the same whether it
/// is read as a literal or as a regular expression.
pub proof fn lemma_found_depends_on_matches(
    fs: FileSystem,
    first: PatternView,
    second: PatternView,
    max_depth: nat,
    dir: PathBuf,
    depth: nat,
)
    requires
        forall|name: Seq<char>| #[trigger] first.matches(name) == second.matches(name),
    ensures
        found_below(fs, first, max_depth, dir, depth) == found_below(
            fs,
            second,
            max_depth,
            dir,
            depth,
        ),
    decreases max_depth + 1 - depth, 0nat, 0nat,
{
    if depth <= max_depth {
        lemma_matched_depends_on_matches(first, second, fs(dir));
        lemma_found_in_subdirectories_depends_on_matches(
            fs,
            first,
            second,
            max_depth,
            fs(dir),
            depth + 1,
        );
    }
}

/// Two patterns that match the same names find the same in the
/// subdirectories of every listing.
pub proof fn lemma_found_in_subdirectories_depends_on_matches(
    fs: FileSystem,
    first: PatternView,
    second: PatternView,
    max_depth: nat,
    listing: Seq<Entry>,
    depth: nat,
)
    requires
        forall|name: Seq<char>| #[trigger] first.matches(name) == second.matches(name),
    ensures
        found_in_subdirectories(fs, first, max_depth, listing, depth) == found_in_subdirectories(
            fs,
            second,
            max_depth,
            listing,
            depth,
        ),
    decreases max_depth + 1 - depth, 1nat, listing.len(),
{
    if listing.len() > 0 && depth <= max_depth {
        lemma_found_in_subdirectories_depends_on_matches(
            fs,
            first,
            second,
            max_depth,
            listing.drop_last(),
            depth,
        );
        if listing.last().is_dir {
            lemma_found_depends_on_matches(
                fs,
                first,
                second,
                max_depth,
                listing.last().path,
                depth,
            );
        }
    }
}

} // verus!
