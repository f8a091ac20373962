use vstd::prelude::*;

verus! {

/// A usually unique ID referencing an entity.
///
/// The view of an `Id` is its numeric value.
#[derive(Debug, PartialEq, Eq, Structural, Hash, Copy, Clone)]
pub struct Id {
    value: u32,
}

impl View for Id {
    type V = u32;

    closed spec fn view(&self) -> u32 {
        self.value
    }
}

impl Id {
    pub fn new(value: u32) -> (r: Id)
        ensures
            r@ == value,
    {
        Id { value }
    }

    /// The numeric value, for keying collections within the crate.
    pub(crate) fn value(&self) -> (v: u32)
        ensures
            v == self@,
    {
        self.value
    }
}

} // verus!
