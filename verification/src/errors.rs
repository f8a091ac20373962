use vstd::prelude::*;

verus! {

/// Removing an entry by ID from a collection that does not hold it.
#[derive(Debug, PartialEq, Eq, Structural, Copy, Clone)]
pub enum RemoveError {
    NotFound,
}

} // verus!
