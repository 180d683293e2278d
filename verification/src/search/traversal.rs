//! The traversal engine: it decides which directory is listed next, takes
//! each listing back, and collects the matches. Listing a directory is left
//! to the driver, which may have as many listings in flight as the engine
//! has handed out.

use crate::search::entry::{Entry, Unit};
use crate::search::error::SearchError;
use crate::search::gate::Gate;
use crate::search::laws::{
    lemma_complete, lemma_fail, lemma_launch, lemma_start, lemma_unset_among_bound,
};
use crate::search::model::TraversalModel;
use crate::search::pattern::SearchPattern;
use crate::search::visit::visit_directory;
use std::path::PathBuf;
use vstd::prelude::*;

verus! {

/// What the driver of a traversal is to do next.
#[derive(Debug)]
pub enum Action {
    /// List the directory `dir`, and report the outcome under `ticket`.
    List { ticket: usize, dir: PathBuf },
    /// Nothing can be started now: report the outcome of a running listing.
    Wait,
    /// Every listing has come back: take the result.
    Finish,
}

/// As many unset flags as asked for.
fn unset_flags(count: usize) -> (flags: Vec<bool>)
    ensures
        flags@ == Seq::new(count as nat, |i: int| false),
{
    let mut flags: Vec<bool> = Vec::new();
    while flags.len() < count
        invariant
            flags.len() <= count,
            forall|i: int| 0 <= i < flags.len() ==> !flags[i],
        decreases count - flags.len(),
    {
        flags.push(false);
    }
    assert(flags@ =~= Seq::new(count as nat, |i: int| false));
    flags
}

/// A search in progress.
#[derive(Debug)]
pub struct Traversal {
    pattern: SearchPattern,
    max_depth: usize,
    gate: Gate,
    units: Vec<Unit>,
    done: Vec<bool>,
    launched: usize,
    running: usize,
    results: Vec<PathBuf>,
    failure: Option<SearchError>,
    culprit: Option<usize>,
}

impl View for Traversal {
    type V = TraversalModel;

    closed spec fn view(&self) -> TraversalModel {
        TraversalModel {
            pattern: self.pattern@,
            max_depth: self.max_depth,
            gating: self.gate.enabled(),
            capacity: self.gate.capacity(),
            units: self.units@,
            done: self.done@,
            launched: self.launched as nat,
            results: self.results@,
            failure: self.failure,
            culprit: match self.culprit {
                Some(ticket) => Some(ticket as nat),
                None => None,
            },
        }
    }
}

impl Traversal {
    /// The counters agree with the table of units.
    pub closed spec fn consistent(&self) -> bool {
        &&& self.gate.wf()
        &&& self.running == self@.running()
        &&& self.gate.enabled() ==> self.gate.held() == self.running
    }

    /// The traversal is in a state that its own operations lead to.
    pub open spec fn wf(&self) -> bool {
        self@.wf() && self.consistent()
    }

    /// Begins a traversal at `root`, which becomes the only waiting unit.
    pub fn start(pattern: SearchPattern, max_depth: usize, gate: Gate, root: PathBuf) -> (traversal:
        Traversal)
        requires
            max_depth >= 1,
            gate.wf(),
            gate.held() == 0,
            gate.enabled() ==> gate.capacity() >= 1,
        ensures
            traversal.wf(),
            traversal@ == TraversalModel::start(
                pattern@,
                max_depth,
                gate.enabled(),
                gate.capacity(),
                root,
            ),
            traversal@.running() == 0,
    {
        let mut units: Vec<Unit> = Vec::new();
        units.push(Unit { dir: root, depth: 1 });
        let mut done: Vec<bool> = Vec::new();
        done.push(false);
        let traversal = Traversal {
            pattern,
            max_depth,
            gate,
            units,
            done,
            launched: 0,
            running: 0,
            results: Vec::new(),
            failure: None,
            culprit: None,
        };
        proof {
            assert(traversal.units@ == seq![Unit { dir: root, depth: 1 }]);
            assert(traversal.done@ == seq![false]);
            lemma_start(pattern@, max_depth, gate.enabled(), gate.capacity(), root);
        }
        traversal
    }

    /// Says what to do next, and hands out a waiting unit when one may
    /// start: the search has not failed and a slot is free. The number
    /// of running units never exceeds an enabled gate's capacity, and the
    /// driver is told to wait only while a unit is running.
    pub fn next_action(&mut self) -> (action: Action)
        requires
            old(self).wf(),
        ensures
            final(self).wf(),
            action is Finish <==> old(self)@.is_complete(),
            action is List <==> old(self)@.can_launch(),
            action is Finish || action is Wait ==> final(self)@ == old(self)@,
            action is Wait ==> final(self)@.running() > 0,
            action matches Action::List { ticket, dir } ==> {
                &&& final(self)@ == old(self)@.launch()
                &&& ticket == old(self)@.launched
                &&& dir == old(self)@.units[ticket as int].dir
                &&& final(self)@.is_running(ticket as nat)
                &&& final(self)@.running() == old(self)@.running() + 1
            },
            final(self)@.gating ==> final(self)@.running() <= final(self)@.capacity,
    {
        if self.running == 0 && (self.failure.is_some() || self.launched == self.units.len()) {
            return Action::Finish;
        }
        if self.failure.is_none() && self.launched < self.units.len() {
            let granted = self.gate.try_acquire();
            if granted {
                let ticket: usize = self.launched;
                let dir = self.units[ticket].dir.clone();
                proof {
                    lemma_launch(old(self)@);
                    lemma_unset_among_bound(old(self)@.done, old(self)@.launched);
                }
                self.launched = ticket + 1;
                self.running = self.running + 1;
                return Action::List { ticket, dir };
            }
        }
        Action::Wait
    }

    /// Takes in the listing of the directory handed out under `ticket`.
    /// Unless the search has failed, the paths of the matching entries join
    /// the results, and the directories among the entries wait to be listed
    /// in turn if the depth limit allows. The unit's slot is given back. A
    /// ticket that is not running changes nothing.
    pub fn listed(&mut self, ticket: usize, listing: Vec<Entry>) -> (accepted: bool)
        requires
            old(self).wf(),
        ensures
            final(self).wf(),
            accepted == old(self)@.is_running(ticket as nat),
            final(self)@ == if accepted {
                old(self)@.complete(ticket as nat, listing@)
            } else {
                old(self)@
            },
            accepted ==> final(self)@.running() + 1 == old(self)@.running(),
            final(self)@.gating ==> final(self)@.running() <= final(self)@.capacity,
    {
        if ticket >= self.launched || self.done[ticket] {
            return false;
        }
        proof {
            lemma_complete(self@, ticket as nat, listing@);
        }
        self.done.set(ticket, true);
        self.running = self.running - 1;
        self.gate.release();
        if self.failure.is_none() {
            let depth: usize = self.units[ticket].depth;
            let visit = visit_directory(&listing, &self.pattern, depth, self.max_depth);
            let mut matches = visit.matches;
            let mut children = visit.children;
            let mut unset = unset_flags(children.len());
            self.results.append(&mut matches);
            self.units.append(&mut children);
            self.done.append(&mut unset);
        }
        proof {
            let after = old(self)@.complete(ticket as nat, listing@);
            assert(self@.done =~= after.done);
            assert(self@.units =~= after.units);
            assert(self@.results =~= after.results);
        }
        true
    }

    /// Takes in the failure of the listing handed out under `ticket`. The
    /// first failure reported becomes the outcome of the search, and no
    /// further unit is handed out. The unit's slot is given back. A ticket
    /// that is not running changes nothing.
    pub fn failed(&mut self, ticket: usize, error: SearchError) -> (accepted: bool)
        requires
            old(self).wf(),
        ensures
            final(self).wf(),
            accepted == old(self)@.is_running(ticket as nat),
            final(self)@ == if accepted {
                old(self)@.fail(ticket as nat, error)
            } else {
                old(self)@
            },
            accepted ==> final(self)@.running() + 1 == old(self)@.running(),
            final(self)@.gating ==> final(self)@.running() <= final(self)@.capacity,
    {
        if ticket >= self.launched || self.done[ticket] {
            return false;
        }
        proof {
            lemma_fail(self@, ticket as nat, error);
        }
        self.done.set(ticket, true);
        self.running = self.running - 1;
        self.gate.release();
        if self.failure.is_none() {
            self.failure = Some(error);
            self.culprit = Some(ticket);
        }
        true
    }

    /// The directory whose listing failed first, if the search has failed:
    /// the one that the failure kept is about.
    pub fn failed_directory(&self) -> (dir: Option<PathBuf>)
        requires
            self.wf(),
        ensures
            dir == match self@.culprit {
                Some(ticket) => Some(self@.units[ticket as int].dir),
                None => None,
            },
            dir is Some <==> self@.failure is Some,
    {
        match self.culprit {
            Some(ticket) => Some(self.units[ticket].dir.clone()),
            None => None,
        }
    }

    /// The number of listings in flight.
    pub fn running(&self) -> (count: usize)
        requires
            self.wf(),
        ensures
            count == self@.running(),
    {
        self.running
    }

    /// Whether every listing has come back and none is left to hand out.
    pub fn is_complete(&self) -> (complete: bool)
        requires
            self.wf(),
        ensures
            complete == self@.is_complete(),
    {
        self.running == 0 && (self.failure.is_some() || self.launched == self.units.len())
    }

    /// Ends the traversal: the first failure that was reported, or else
    /// the paths collected, in the order in which the listings came back.
    /// Once `next_action` has said `Finish` nothing more can come; earlier,
    /// the paths are those collected so far.
    pub fn into_result(self) -> (outcome: Result<Vec<PathBuf>, SearchError>)
        ensures
            match self@.failure {
                Some(error) => outcome == Err::<Vec<PathBuf>, SearchError>(error),
                None => outcome matches Ok(paths) && paths@ == self@.results,
            },
    {
        match self.failure {
            Some(error) => Err(error),
            None => Ok(self.results),
        }
    }
}

} // verus!
