//! The unit (organisation) that owns a repository.

use vstd::prelude::*;

verus! {

/// The unit the repository is for.
#[derive(Clone, Debug)]
pub struct Unit {
    name: String,
    id: Option<String>,
}

impl Unit {
    /// The unit's name.
    pub closed spec fn spec_name(&self) -> Seq<char> {
        self.name@
    }

    /// The unit's id, if it has one.
    pub closed spec fn spec_id(&self) -> Option<Seq<char>> {
        match self.id {
            Some(i) => Some(i@),
            None => None,
        }
    }

    /// Creates a unit.
    pub fn new(name: String, id: Option<String>) -> (r: Unit)
        ensures
            r.spec_name() == name@,
            r.spec_id() == (match id {
                Some(i) => Some(i@),
                None => None::<Seq<char>>,
            }),
    {
        Unit { name, id }
    }

    /// Gets the unit name.
    pub fn name(&self) -> (r: &str)
        ensures
            r@ == self.spec_name(),
    {
        self.name.as_str()
    }

    /// Gets the unit id.
    pub fn id(&self) -> (r: Option<&String>)
        ensures
            r matches Some(i) ==> self.spec_id() == Some(i@),
            r is None ==> self.spec_id() is None,
    {
        self.id.as_ref()
    }
}

} // verus!
