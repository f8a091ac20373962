use vstd::prelude::*;
use crate::id::Id;

verus! {

/// A participant, identified by an immutable ID and carrying a
/// display name.
#[derive(Debug, PartialEq, Eq, Hash)]
pub struct User {
    id: Id,
    name: String,
}

impl User {
    pub closed spec fn spec_id(&self) -> Id {
        self.id
    }

    pub closed spec fn spec_name(&self) -> Seq<char> {
        self.name@
    }

    pub fn new(id: Id, name: String) -> (r: User)
        ensures
            r.spec_id() == id,
            r.spec_name() == name@,
    {
        User { id, name }
    }

    pub fn get_id(&self) -> (r: Id)
        ensures
            r == self.spec_id(),
    {
        self.id
    }

    pub fn get_name(&self) -> (r: &String)
        ensures
            r@ == self.spec_name(),
    {
        &self.name
    }
}

} // verus!
