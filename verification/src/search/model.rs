//! What a search is meant to find, stated over a mathematical model of the
//! file system, and the bookkeeping of a traversal as a state machine over
//! plain sequences.

use crate::search::entry::{Entry, Unit};
use crate::search::error::SearchError;
use crate::search::pattern::PatternView;
use crate::search::visit::{child_units, matched_paths};
use std::path::PathBuf;
use vstd::multiset::Multiset;
use vstd::prelude::*;

verus! {

/// A file system, as far as a search can see it: the listing that each
/// directory yields.
pub type FileSystem = spec_fn(PathBuf) -> Seq<Entry>;

/// Every match at or below the directory `dir`, which lies at nesting level
/// `depth`: the matching entries of its own listing, and those of each of
/// its subdirectories one level further down. Nothing lies below
/// `max_depth`.
pub open spec fn found_below(
    fs: FileSystem,
    pattern: PatternView,
    max_depth: nat,
    dir: PathBuf,
    depth: nat,
) -> Multiset<PathBuf>
    decreases max_depth + 1 - depth, 0nat, 0nat,
{
    if depth > max_depth {
        Multiset::empty()
    } else {
        matched_paths(pattern, fs(dir)).to_multiset().add(
            found_in_subdirectories(fs, pattern, max_depth, fs(dir), depth + 1),
        )
    }
}

/// Every match at or below the directories among the entries of `listing`,
/// which lie at nesting level `depth`.
pub open spec fn found_in_subdirectories(
    fs: FileSystem,
    pattern: PatternView,
    max_depth: nat,
    listing: Seq<Entry>,
    depth: nat,
) -> Multiset<PathBuf>
    decreases max_depth + 1 - depth, 1nat, listing.len(),
{
    if listing.len() == 0 || depth > max_depth {
        Multiset::empty()
    } else {
        let before = found_in_subdirectories(fs, pattern, max_depth, listing.drop_last(), depth);
        if listing.last().is_dir {
            before.add(found_below(fs, pattern, max_depth, listing.last().path, depth))
        } else {
            before
        }
    }
}

/// How many of the first `upto` flags are unset.
pub open spec fn unset_among(flags: Seq<bool>, upto: nat) -> nat
    decreases upto,
{
    if upto == 0 {
        0
    } else {
        let before = unset_among(flags, (upto - 1) as nat);
        if flags[upto - 1] {
            before
        } else {
            before + 1
        }
    }
}

/// Every match at or below the units that have not completed.
pub open spec fn outstanding(
    fs: FileSystem,
    pattern: PatternView,
    max_depth: nat,
    units: Seq<Unit>,
    done: Seq<bool>,
) -> Multiset<PathBuf>
    decreases units.len(),
{
    if units.len() == 0 {
        Multiset::empty()
    } else {
        let before = outstanding(fs, pattern, max_depth, units.drop_last(), done.drop_last());
        if done.last() {
            before
        } else {
            before.add(
                found_below(fs, pattern, max_depth, units.last().dir, units.last().depth as nat),
            )
        }
    }
}

/// The state of a traversal. Every unit of work discovered so far stands in
/// one table, in the order of discovery; a unit's position in it is its
/// ticket. The first `launched` units have been handed out for listing, and
/// `done` marks those whose outcome has come back.
pub struct TraversalModel {
    /// The pattern that names are tested against.
    pub pattern: PatternView,
    /// The deepest level that is listed.
    pub max_depth: usize,
    /// Whether the number of running units is bounded.
    pub gating: bool,
    /// The bound on the number of running units.
    pub capacity: nat,
    /// The units discovered so far.
    pub units: Seq<Unit>,
    /// For each unit, whether its outcome has come back.
    pub done: Seq<bool>,
    /// How many units have been handed out.
    pub launched: nat,
    /// The matched paths collected so far.
    pub results: Seq<PathBuf>,
    /// The first failure that was reported, if any.
    pub failure: Option<SearchError>,
    /// The ticket of the unit that reported it.
    pub culprit: Option<nat>,
}

impl TraversalModel {
    /// The state before anything has been listed: the start directory waits
    /// as the only unit, at level 1.
    pub open spec fn start(
        pattern: PatternView,
        max_depth: usize,
        gating: bool,
        capacity: nat,
        root: PathBuf,
    ) -> TraversalModel {
        TraversalModel {
            pattern,
            max_depth,
            gating,
            capacity,
            units: seq![Unit { dir: root, depth: 1 }],
            done: seq![false],
            launched: 0,
            results: Seq::empty(),
            failure: None,
            culprit: None,
        }
    }

    /// The number of units that are being listed.
    pub open spec fn running(self) -> nat {
        unset_among(self.done, self.launched)
    }

    /// Whether the unit with this ticket is being listed.
    pub open spec fn is_running(self, ticket: nat) -> bool {
        ticket < self.launched && !self.done[ticket as int]
    }

    /// Whether a further unit may be handed out: the search has not failed,
    /// a unit is waiting, and a slot is free.
    pub open spec fn can_launch(self) -> bool {
        &&& self.failure is None
        &&& self.launched < self.units.len()
        &&& self.gating ==> self.running() < self.capacity
    }

    /// Whether the traversal is over: nothing is being listed, and nothing
    /// is left to hand out or the search has failed.
    pub open spec fn is_complete(self) -> bool {
        &&& self.running() == 0
        &&& self.failure is Some || self.launched == self.units.len()
    }

    /// The state is one that a traversal can be in.
    pub open spec fn wf(self) -> bool {
        &&& self.max_depth >= 1
        &&& self.gating ==> self.capacity >= 1
        &&& self.units.len() == self.done.len()
        &&& self.launched <= self.units.len()
        &&& forall|i: int| self.launched <= i < self.done.len() ==> !#[trigger] self.done[i]
        &&& forall|i: int|
            0 <= i < self.units.len() ==> 1 <= (#[trigger] self.units[i]).depth <= self.max_depth
        &&& self.gating ==> self.running() <= self.capacity
        &&& self.failure is Some <==> self.culprit is Some
        &&& self.culprit matches Some(ticket) ==> ticket < self.launched
    }

    /// Hands out the next waiting unit.
    pub open spec fn launch(self) -> TraversalModel {
        TraversalModel { launched: self.launched + 1, ..self }
    }

    /// Takes in the listing of the running unit `ticket`. Unless the search
    /// has failed, the matching entries join the results and the
    /// directories join the waiting units.
    pub open spec fn complete(self, ticket: nat, listing: Seq<Entry>) -> TraversalModel {
        let done = self.done.update(ticket as int, true);
        if self.failure is Some {
            TraversalModel { done, ..self }
        } else {
            let children = child_units(listing, self.units[ticket as int].depth, self.max_depth);
            TraversalModel {
                units: self.units + children,
                done: done + Seq::new(children.len(), |i: int| false),
                results: self.results + matched_paths(self.pattern, listing),
                ..self
            }
        }
    }

    /// Takes in the failure of the running unit `ticket`. The first failure
    /// is kept, together with the ticket of the unit that reported it.
    pub open spec fn fail(self, ticket: nat, error: SearchError) -> TraversalModel {
        TraversalModel {
            done: self.done.update(ticket as int, true),
            failure: if self.failure is Some {
                self.failure
            } else {
                Some(error)
            },
            culprit: if self.failure is Some {
                self.culprit
            } else {
                Some(ticket)
            },
            ..self
        }
    }

    /// The results and what is still to come add up to everything the
    /// search is meant to find below `root`, as long as it has not failed.
    pub open spec fn accounts_for(self, fs: FileSystem, root: PathBuf) -> bool {
        self.failure is None ==> self.results.to_multiset().add(
            outstanding(fs, self.pattern, self.max_depth as nat, self.units, self.done),
        ) == found_below(fs, self.pattern, self.max_depth as nat, root, 1)
    }
}

/// One thing that happens to a traversal.
pub enum Event {
    /// The next waiting unit is handed out.
    Launch,
    /// The listing of a running unit comes back.
    Listed { ticket: nat, listing: Seq<Entry> },
    /// A running unit fails.
    Failed { ticket: nat, error: SearchError },
}

impl TraversalModel {
    /// Whether `event` can happen in this state.
    pub open spec fn admits(self, event: Event) -> bool {
        match event {
            Event::Launch => self.can_launch(),
            Event::Listed { ticket, listing } => self.is_running(ticket),
            Event::Failed { ticket, error } => self.is_running(ticket),
        }
    }

    /// The state after `event`.
    pub open spec fn step(self, event: Event) -> TraversalModel {
        match event {
            Event::Launch => self.launch(),
            Event::Listed { ticket, listing } => self.complete(ticket, listing),
            Event::Failed { ticket, error } => self.fail(ticket, error),
        }
    }

    /// The state after `events`, in their order.
    pub open spec fn after(self, events: Seq<Event>) -> TraversalModel
        decreases events.len(),
    {
        if events.len() == 0 {
            self
        } else {
            self.after(events.drop_last()).step(events.last())
        }
    }

    /// Whether each of `events` can happen in the state that those before
    /// it lead to.
    pub open spec fn admits_all(self, events: Seq<Event>) -> bool
        decreases events.len(),
    {
        events.len() == 0 || {
            &&& self.admits_all(events.drop_last())
            &&& self.after(events.drop_last()).admits(events.last())
        }
    }

    /// Whether every listing among `events` is the one that `fs` holds for
    /// the directory of the unit it answers.
    pub open spec fn listings_from(self, events: Seq<Event>, fs: FileSystem) -> bool
        decreases events.len(),
    {
        events.len() == 0 || {
            &&& self.listings_from(events.drop_last(), fs)
            &&& events.last() matches Event::Listed { ticket, listing } ==> listing == fs(
                self.after(events.drop_last()).units[ticket as int].dir,
            )
        }
    }
}

} // verus!
