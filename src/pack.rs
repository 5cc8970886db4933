//! Packs: named selections of mods and DLCs.

use vstd::prelude::*;
use crate::dlc::DLC;

verus! {

/// A pack of mods and DLCs.
#[derive(Debug)]
pub struct Pack {
    name: String,
    mods: Vec<String>,
    dlcs: Vec<DLC>,
}

impl Pack {
    /// The display name.
    pub closed spec fn spec_name(&self) -> Seq<char> {
        self.name@
    }

    /// The mod selectors, in order.
    pub closed spec fn spec_mods(&self) -> Seq<String> {
        self.mods@
    }

    /// The DLCs, in order.
    pub closed spec fn spec_dlcs(&self) -> Seq<DLC> {
        self.dlcs@
    }

    /// Creates a new pack.
    pub fn new(name: String, mods: Vec<String>, dlcs: Vec<DLC>) -> (r: Self)
        ensures
            r.spec_name() == name@,
            r.spec_mods() == mods@,
            r.spec_dlcs() == dlcs@,
    {
        Pack { name, mods, dlcs }
    }

    /// Gets the name of the pack.
    pub fn name(&self) -> (r: &str)
        ensures
            r@ == self.spec_name(),
    {
        self.name.as_str()
    }

    /// Gets the mod selectors of the pack.
    pub fn mods(&self) -> (r: &[String])
        ensures
            r@ == self.spec_mods(),
    {
        self.mods.as_slice()
    }

    /// Gets the DLCs in the pack.
    pub fn dlcs(&self) -> (r: &[DLC])
        ensures
            r@ == self.spec_dlcs(),
    {
        self.dlcs.as_slice()
    }
}

} // verus!
