use vstd::prelude::*;
use crate::id::Id;

verus! {

/// Hands out fresh IDs: a monotonic counter, starting at a configurable
/// base. Every ID it has handed out is below its counter, so no ID is
/// ever handed out twice.
#[derive(Debug, PartialEq, Eq, Structural, Hash)]
pub struct IdProvider {
    next_id: u32,
}

impl IdProvider {
    /// The value the next generated ID will have.
    pub closed spec fn spec_next_id(&self) -> u32 {
        self.next_id
    }

    pub fn new() -> (r: IdProvider)
        ensures
            r.spec_next_id() == 0,
    {
        IdProvider { next_id: 0 }
    }

    /// Starts counting at `starting_value` instead of zero.
    pub(crate) fn start_by(starting_value: u32) -> (r: IdProvider)
        ensures
            r.spec_next_id() == starting_value,
    {
        IdProvider { next_id: starting_value }
    }

    /// Returns the next free ID and moves the counter past it.
    pub fn generate_next(&mut self) -> (r: Id)
        requires
            old(self).spec_next_id() < u32::MAX,
        ensures
            r@ == old(self).spec_next_id(),
            final(self).spec_next_id() == old(self).spec_next_id() + 1,
    {
        let next = self.next_id;
        self.next_id = next + 1;
        Id::new(next)
    }
}

} // verus!
