//! The creator DLCs that a pack can require.

use vstd::prelude::*;
use crate::text::{lower_of, str_eq, to_lowercase, trim_start, trim_start_matches};

verus! {

/// DLCs that require opt-in.
#[derive(Clone, Copy, Debug, PartialEq, Eq, Structural)]
pub enum DLC {
    /// Contact
    Contact,
    /// Creator DLC: Global Mobilization - Cold War Germany
    GlobalMobilization,
    /// Creator DLC: S.O.G. Prairie Fire
    PrairieFire,
    /// Creator DLC: CSLA Iron Curtain
    IronCurtain,
    /// Creator DLC: Western Sahara
    WesternSahara,
    /// Creator DLC: Reaction Forces
    ReactionForces,
}

/// The wire tag of a DLC, which is also its `-mod` parameter.
pub open spec fn tag_of(d: DLC) -> Seq<char> {
    match d {
        DLC::Contact => "enoch"@,
        DLC::GlobalMobilization => "gm"@,
        DLC::PrairieFire => "vn"@,
        DLC::IronCurtain => "csla"@,
        DLC::WesternSahara => "ws"@,
        DLC::ReactionForces => "rf"@,
    }
}

/// The display name of a DLC.
pub open spec fn display_of(d: DLC) -> Seq<char> {
    match d {
        DLC::Contact => "Contact"@,
        DLC::GlobalMobilization => "Global Mobilization"@,
        DLC::PrairieFire => "S.O.G. Prairie Fire"@,
        DLC::IronCurtain => "CSLA Iron Curtain"@,
        DLC::WesternSahara => "Western Sahara"@,
        DLC::ReactionForces => "Reaction Forces"@,
    }
}

/// The DLC that a lower-cased name without its "creator dlc: " prefixes denotes.
pub open spec fn dlc_named(t: Seq<char>) -> Option<DLC> {
    if t == "contact"@ {
        Some(DLC::Contact)
    } else if t == "gm"@ || t == "global mobilization"@ || t
        == "global mobilization - cold war germany"@ {
        Some(DLC::GlobalMobilization)
    } else if t == "sog"@ || t == "prairie fire"@ || t == "s.o.g. prairie fire"@ {
        Some(DLC::PrairieFire)
    } else if t == "csla"@ || t == "iron curtain"@ || t == "csla iron curtain"@ {
        Some(DLC::IronCurtain)
    } else if t == "ws"@ || t == "western sahara"@ {
        Some(DLC::WesternSahara)
    } else if t == "rf"@ || t == "reaction forces"@ {
        Some(DLC::ReactionForces)
    } else {
        None
    }
}

/// The DLC that a free-form name denotes: case is ignored, and leading
/// "creator dlc: " prefixes are dropped.
pub open spec fn dlc_from_name(s: Seq<char>) -> Option<DLC> {
    dlc_named(trim_start(lower_of(s), "creator dlc: "@))
}

impl DLC {
    /// Returns the `-mod` parameter.
    pub fn to_mod(&self) -> (r: &'static str)
        ensures
            r@ == tag_of(*self),
    {
        match self {
            DLC::Contact => "enoch",
            DLC::GlobalMobilization => "gm",
            DLC::PrairieFire => "vn",
            DLC::IronCurtain => "csla",
            DLC::WesternSahara => "ws",
            DLC::ReactionForces => "rf",
        }
    }

    /// The display name.
    pub fn to_string(&self) -> (r: String)
        ensures
            r@ == display_of(*self),
    {
        match self {
            DLC::Contact => "Contact".to_string(),
            DLC::GlobalMobilization => "Global Mobilization".to_string(),
            DLC::PrairieFire => "S.O.G. Prairie Fire".to_string(),
            DLC::IronCurtain => "CSLA Iron Curtain".to_string(),
            DLC::WesternSahara => "Western Sahara".to_string(),
            DLC::ReactionForces => "Reaction Forces".to_string(),
        }
    }

    /// Reads a DLC from a free-form name such as "Creator DLC: Western Sahara".
    pub fn try_from(dlc: String) -> (r: Result<DLC, ()>)
        ensures
            r matches Ok(d) ==> dlc_from_name(dlc@) == Some(d),
            r is Err ==> dlc_from_name(dlc@) is None,
    {
        let lower = to_lowercase(dlc.as_str());
        proof {
            reveal_strlit("creator dlc: ");
        }
        let t = trim_start_matches(lower.as_str(), "creator dlc: ");
        if str_eq(t, "contact") {
            Ok(DLC::Contact)
        } else if str_eq(t, "gm") || str_eq(t, "global mobilization") || str_eq(
            t,
            "global mobilization - cold war germany",
        ) {
            Ok(DLC::GlobalMobilization)
        } else if str_eq(t, "sog") || str_eq(t, "prairie fire") || str_eq(t, "s.o.g. prairie fire") {
            Ok(DLC::PrairieFire)
        } else if str_eq(t, "csla") || str_eq(t, "iron curtain") || str_eq(t, "csla iron curtain") {
            Ok(DLC::IronCurtain)
        } else if str_eq(t, "ws") || str_eq(t, "western sahara") {
            Ok(DLC::WesternSahara)
        } else if str_eq(t, "rf") || str_eq(t, "reaction forces") {
            Ok(DLC::ReactionForces)
        } else {
            Err(())
        }
    }
}

} // verus!
