//! The concurrency gate: a counter of slots that bounds how many directory
//! visits run at once, or imposes no bound when it is switched off.

use vstd::prelude::*;

verus! {

/// A counting gate with a fixed capacity.
#[derive(Debug)]
pub struct Gate {
    enabled: bool,
    capacity: usize,
    held: usize,
}

impl Gate {
    /// Whether this gate bounds anything.
    pub closed spec fn enabled(&self) -> bool {
        self.enabled
    }

    /// The number of slots.
    pub closed spec fn capacity(&self) -> nat {
        self.capacity as nat
    }

    /// The number of slots that are taken.
    pub closed spec fn held(&self) -> nat {
        self.held as nat
    }

    /// No more slots are taken than there are, and a gate that is
    /// switched off has none taken.
    pub open spec fn wf(&self) -> bool {
        &&& self.enabled() ==> self.held() <= self.capacity()
        &&& !self.enabled() ==> self.held() == 0
    }

    /// Whether a further visit may start.
    pub open spec fn has_room(&self) -> bool {
        self.enabled() ==> self.held() < self.capacity()
    }

    /// A gate with `capacity` slots, all free.
    pub fn new(capacity: usize, enabled: bool) -> (gate: Gate)
        ensures
            gate.wf(),
            gate.enabled() == enabled,
            gate.capacity() == capacity,
            gate.held() == 0,
    {
        Gate { enabled, capacity, held: 0 }
    }

    /// Takes a slot if one is free. A gate that is switched off always
    /// grants, and counts nothing.
    pub fn try_acquire(&mut self) -> (granted: bool)
        requires
            old(self).wf(),
        ensures
            final(self).wf(),
            granted == old(self).has_room(),
            final(self).enabled() == old(self).enabled(),
            final(self).capacity() == old(self).capacity(),
            final(self).held() == if granted && old(self).enabled() {
                old(self).held() + 1
            } else {
                old(self).held()
            },
    {
        if !self.enabled {
            true
        } else if self.held < self.capacity {
            self.held = self.held + 1;
            true
        } else {
            false
        }
    }

    /// Gives a slot back. A gate that is switched off, or has no slot
    /// taken, is left as it is.
    pub fn release(&mut self)
        requires
            old(self).wf(),
        ensures
            final(self).wf(),
            final(self).enabled() == old(self).enabled(),
            final(self).capacity() == old(self).capacity(),
            final(self).held() == if old(self).held() > 0 {
                old(self).held() - 1
            } else {
                0
            },
    {
        if self.held > 0 {
            self.held = self.held - 1;
        }
    }

    /// The number of slots that are taken.
    pub fn in_use(&self) -> (count: usize)
        ensures
            count == self.held(),
    {
        self.held
    }
}

} // verus!
