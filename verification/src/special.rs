use vstd::prelude::*;
use crate::id::Id;
use crate::id_provider::IdProvider;

verus! {

/// Creates `Special` values, giving each a fresh ID. A factory instance
/// is the scope of that uniqueness: two specials created by the same
/// factory never share an ID.
#[derive(Debug, PartialEq, Eq, Structural, Hash)]
pub struct SpecialFactory {
    id_provider: IdProvider,
}

impl SpecialFactory {
    /// The value the next created special's ID will have.
    pub closed spec fn spec_next_id(&self) -> u32 {
        self.id_provider.spec_next_id()
    }

    pub fn new() -> (r: SpecialFactory)
        ensures
            r.spec_next_id() == 0,
    {
        SpecialFactory { id_provider: IdProvider::new() }
    }

    /// Creates a special with a fresh ID and the given description.
    pub fn create_special(&mut self, description: String) -> (r: Special)
        requires
            old(self).spec_next_id() < u32::MAX,
        ensures
            r.spec_id()@ == old(self).spec_next_id(),
            r.spec_description() == description@,
            final(self).spec_next_id() == old(self).spec_next_id() + 1,
    {
        Special::new(self.id_provider.generate_next(), description)
    }
}

/// Whether some special in `s` has the ID value `id`.
pub open spec fn has_special(s: Seq<Special>, id: u32) -> bool {
    exists|i: int| 0 <= i < s.len() && #[trigger] s[i].spec_id()@ == id
}

/// The index of the special with ID value `id`; meaningful only when
/// `has_special(s, id)` holds and the IDs in `s` are unique.
pub open spec fn index_of_special(s: Seq<Special>, id: u32) -> int {
    choose|i: int| 0 <= i < s.len() && #[trigger] s[i].spec_id()@ == id
}

/// No two specials in `s` share an ID.
pub open spec fn unique_special_ids(s: Seq<Special>) -> bool {
    forall|i: int, j: int|
        0 <= i < j < s.len() ==> #[trigger] s[i].spec_id()@ != #[trigger] s[j].spec_id()@
}

/// Every special in `s` has an ID value below `bound`.
pub open spec fn special_ids_below(s: Seq<Special>, bound: u32) -> bool {
    forall|i: int| 0 <= i < s.len() ==> #[trigger] s[i].spec_id()@ < bound
}

/// In a sequence with unique IDs, the special found at `i` is the one
/// that `index_of_special` names.
pub proof fn lemma_index_of_special_is(s: Seq<Special>, id: u32, i: int)
    requires
        unique_special_ids(s),
        0 <= i < s.len(),
        s[i].spec_id()@ == id,
    ensures
        has_special(s, id),
        index_of_special(s, id) == i,
{
    assert(has_special(s, id));
    let j = index_of_special(s, id);
    assert(0 <= j < s.len() && s[j].spec_id()@ == id);
    if i < j {
        assert(s[i].spec_id()@ != s[j].spec_id()@);
    } else if j < i {
        assert(s[j].spec_id()@ != s[i].spec_id()@);
    }
}

/// A named add-on attached to a meal, identified by an immutable ID.
#[derive(Clone, Debug, PartialEq, Eq, Hash)]
pub struct Special {
    id: Id,
    description: String,
}

impl Special {
    pub closed spec fn spec_id(&self) -> Id {
        self.id
    }

    pub closed spec fn spec_description(&self) -> Seq<char> {
        self.description@
    }

    pub fn new(id: Id, description: String) -> (r: Special)
        ensures
            r.spec_id() == id,
            r.spec_description() == description@,
    {
        Special { id, description }
    }

    pub fn get_id(&self) -> (r: Id)
        ensures
            r == self.spec_id(),
    {
        self.id
    }

    pub fn get_description(&self) -> (r: String)
        ensures
            r@ == self.spec_description(),
    {
        self.description.clone()
    }

    /// Overwrites the description; the identity is unchanged.
    pub fn set_description(&mut self, description: String)
        ensures
            final(self).spec_id() == old(self).spec_id(),
            final(self).spec_description() == description@,
    {
        self.description = description;
    }
}

} // verus!
