//! A server password that never shows its value when rendered.

use vstd::prelude::*;

verus! {

/// A password whose textual renderings are redacted.
#[derive(Clone, PartialEq, Eq)]
pub struct Password(String);

/// The text that every rendering of a password shows.
pub open spec fn redacted() -> Seq<char> {
    seq!['[', 'P', 'a', 's', 's', 'w', 'o', 'r', 'd', ']']
}

impl Password {
    /// The raw value.
    pub closed spec fn secret(&self) -> Seq<char> {
        self.0@
    }

    /// Creates a new password.
    pub fn new(password: String) -> (r: Self)
        ensures
            r.secret() == password@,
    {
        Password(password)
    }

    /// Reveals the password (renders the raw value).
    pub fn reveal_str(&self) -> (r: &str)
        ensures
            r@ == self.secret(),
    {
        self.0.as_str()
    }

    /// The displayed form: always `[Password]`.
    pub fn to_string(&self) -> (r: String)
        ensures
            r@ == redacted(),
    {
        let r = "[Password]".to_string();
        proof {
            reveal_strlit("[Password]");
        }
        r
    }

    /// The debug form: always `[Password]`.
    pub fn to_debug_string(&self) -> (r: String)
        ensures
            r@ == redacted(),
    {
        self.to_string()
    }
}

impl From<String> for Password {
    fn from(password: String) -> (r: Self) {
        Password(password)
    }
}

impl vstd::std_specs::convert::FromSpecImpl<String> for Password {
    open spec fn obeys_from_spec() -> bool {
        true
    }

    closed spec fn from_spec(v: String) -> Self {
        Password(v)
    }
}

/// A password made from a string holds that string.
pub proof fn lemma_from_secret(v: String)
    ensures
        <Password as vstd::std_specs::convert::FromSpec<String>>::from_spec(v).secret() == v@,
{
}

} // verus!
