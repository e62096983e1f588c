//! The admission gate that caps the number of probes in flight.

use vstd::prelude::*;
use crate::error::ScanError;

verus! {

/// What a gate holds: its fixed capacity and the slots handed out.
pub struct GateView {
    pub capacity: nat,
    pub holders: nat,
}

impl GateView {
    /// A gate never has more holders than slots, and has at least one slot.
    pub open spec fn wf(self) -> bool {
        1 <= self.capacity && self.holders <= self.capacity
    }

    /// Whether a slot is free.
    pub open spec fn has_room(self) -> bool {
        self.holders < self.capacity
    }
}

/// A counting gate of fixed capacity. A probe starts only after this gate
/// admitted it, and gives its slot back when it ends, however it ends.
#[derive(Debug)]
pub struct ConcurrencyGate {
    capacity: usize,
    holders: usize,
}

impl View for ConcurrencyGate {
    type V = GateView;

    closed spec fn view(&self) -> GateView {
        GateView { capacity: self.capacity as nat, holders: self.holders as nat }
    }
}

impl ConcurrencyGate {
    #[verifier::type_invariant]
    spec fn within_capacity(self) -> bool {
        self@.wf()
    }

    /// A gate with `capacity` free slots. A gate without slots would admit
    /// nobody, so a capacity of zero is refused.
    pub fn new(capacity: usize) -> (outcome: Result<ConcurrencyGate, ScanError>)
        ensures
            match outcome {
                Ok(gate) => capacity >= 1 && gate@ == (GateView {
                    capacity: capacity as nat,
                    holders: 0,
                }),
                Err(error) => capacity == 0 && error == ScanError::InvalidConcurrency,
            },
    {
        if capacity == 0 {
            Err(ScanError::InvalidConcurrency)
        } else {
            Ok(ConcurrencyGate::with_slots(capacity))
        }
    }

    /// A gate with `capacity` free slots, where the capacity is known to be
    /// positive.
    pub(crate) fn with_slots(capacity: usize) -> (gate: ConcurrencyGate)
        requires
            capacity >= 1,
        ensures
            gate@ == (GateView { capacity: capacity as nat, holders: 0 }),
    {
        ConcurrencyGate { capacity, holders: 0 }
    }

    /// Admits the caller if a slot is free, and says whether it did. A
    /// caller that was not admitted waits and asks again after a release.
    pub fn try_acquire(&mut self) -> (admitted: bool)
        ensures
            admitted == old(self)@.has_room(),
            final(self)@.capacity == old(self)@.capacity,
            final(self)@.holders == old(self)@.holders + if admitted { 1nat } else { 0nat },
            final(self)@.wf(),
    {
        proof {
            use_type_invariant(&*self);
        }
        if self.holders < self.capacity {
            self.holders = self.holders + 1;
            true
        } else {
            false
        }
    }

    /// Gives one slot back, and says whether there was one to give back.
    pub fn release(&mut self) -> (released: bool)
        ensures
            released == (old(self)@.holders > 0),
            final(self)@.capacity == old(self)@.capacity,
            final(self)@.holders == old(self)@.holders - if released { 1nat } else { 0nat },
            final(self)@.wf(),
    {
        proof {
            use_type_invariant(&*self);
        }
        if self.holders > 0 {
            self.holders = self.holders - 1;
            true
        } else {
            false
        }
    }

    /// The number of slots, free or not.
    pub fn capacity(&self) -> (capacity: usize)
        ensures
            capacity == self@.capacity,
            self@.wf(),
    {
        proof {
            use_type_invariant(self);
        }
        self.capacity
    }

    /// The number of slots handed out and not yet given back.
    pub fn holders(&self) -> (holders: usize)
        ensures
            holders == self@.holders,
            self@.wf(),
    {
        proof {
            use_type_invariant(self);
        }
        self.holders
    }

    /// The number of free slots.
    pub fn available(&self) -> (free: usize)
        ensures
            free == self@.capacity - self@.holders,
            self@.wf(),
    {
        proof {
            use_type_invariant(self);
        }
        self.capacity - self.holders
    }
}

} // verus!
