//! One-way latches shared between an incarnation and its handles.

use vstd::prelude::*;

verus! {

/// Names a latch in its table.
#[derive(Clone, Copy, Debug, PartialEq, Eq, Structural, Hash)]
pub struct LatchId(pub usize);

/// Latches, each of which fires at most once and stays fired.
#[derive(Debug)]
pub struct LatchTable {
    fired: Vec<bool>,
}

/// Whether latch `id` exists and has fired.
pub open spec fn is_set(latches: Seq<bool>, id: LatchId) -> bool {
    id.0 < latches.len() && latches[id.0 as int]
}

impl LatchTable {
    /// For each latch, whether it has fired.
    pub closed spec fn view(&self) -> Seq<bool> {
        self.fired@
    }

    /// Whether latch `id` exists.
    pub open spec fn has(&self, id: LatchId) -> bool {
        id.0 < self@.len()
    }

    /// A table without latches.
    pub fn new() -> (latches: LatchTable)
        ensures
            latches@ == Seq::<bool>::empty(),
    {
        LatchTable { fired: Vec::new() }
    }

    /// Makes a latch that has not fired.
    pub fn create(&mut self) -> (id: LatchId)
        ensures
            id.0 == old(self)@.len(),
            final(self)@ == old(self)@.push(false),
    {
        let id = LatchId(self.fired.len());
        self.fired.push(false);
        id
    }

    /// Whether latch `id` has fired.
    pub fn is_fired(&self, id: LatchId) -> (fired: bool)
        ensures
            fired == is_set(self@, id),
    {
        id.0 < self.fired.len() && self.fired[id.0]
    }

    /// Fires latch `id`; reports whether this was the first time.
    pub fn fire(&mut self, id: LatchId) -> (first: bool)
        requires
            old(self).has(id),
        ensures
            first == !is_set(old(self)@, id),
            final(self)@ == old(self)@.update(id.0 as int, true),
    {
        let first = !self.fired[id.0];
        self.fired[id.0] = true;
        first
    }
}

/// Firing never clears a latch, and firing again changes nothing.
pub proof fn law_latches_are_one_way(latches: Seq<bool>, id: LatchId, other: LatchId)
    requires
        id.0 < latches.len(),
    ensures
        is_set(latches, other) ==> is_set(latches.update(id.0 as int, true), other),
        is_set(latches.update(id.0 as int, true), id),
        latches.update(id.0 as int, true).update(id.0 as int, true) == latches.update(
            id.0 as int,
            true,
        ),
{
    assert(latches.update(id.0 as int, true).update(id.0 as int, true) =~= latches.update(
        id.0 as int,
        true,
    ));
}

} // verus!
