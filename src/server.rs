//! Game servers that a repository advertises.

use vstd::prelude::*;
use crate::password::Password;

verus! {

/// The port a server listens on when none is given.
pub const DEFAULT_PORT: u16 = 2302;

/// A game server.
pub struct Server {
    name: String,
    address: String,
    port: u16,
    password: Password,
    pack: String,
    battleye: bool,
}

/// The port used when a configuration gives none.
pub fn default_port() -> (r: u16)
    ensures
        r == 2302,
{
    DEFAULT_PORT
}

/// Whether BattlEye is on when a configuration does not say.
pub fn default_battleye() -> (r: bool)
    ensures
        r,
{
    true
}

impl Server {
    /// The name of the server.
    pub closed spec fn spec_name(&self) -> Seq<char> {
        self.name@
    }

    /// The address of the server.
    pub closed spec fn spec_address(&self) -> Seq<char> {
        self.address@
    }

    /// The port of the server.
    pub closed spec fn spec_port(&self) -> u16 {
        self.port
    }

    /// The raw password of the server.
    pub closed spec fn spec_password(&self) -> Seq<char> {
        self.password.secret()
    }

    /// The key of the pack the server uses.
    pub closed spec fn spec_pack(&self) -> Seq<char> {
        self.pack@
    }

    /// Whether BattlEye is enabled.
    pub closed spec fn spec_battleye(&self) -> bool {
        self.battleye
    }

    /// Creates a new server.
    pub fn new(
        name: String,
        address: String,
        port: u16,
        password: Password,
        pack: String,
        battleye: bool,
    ) -> (r: Self)
        ensures
            r.spec_name() == name@,
            r.spec_address() == address@,
            r.spec_port() == port,
            r.spec_password() == password.secret(),
            r.spec_pack() == pack@,
            r.spec_battleye() == battleye,
    {
        Server { name, address, port, password, pack, battleye }
    }

    /// Gets the name of the server.
    pub fn name(&self) -> (r: &str)
        ensures
            r@ == self.spec_name(),
    {
        self.name.as_str()
    }

    /// Gets the address of the server.
    pub fn address(&self) -> (r: &String)
        ensures
            r@ == self.spec_address(),
    {
        &self.address
    }

    /// Gets the port of the server.
    pub fn port(&self) -> (r: u16)
        ensures
            r == self.spec_port(),
    {
        self.port
    }

    /// Gets the password of the server.
    pub fn password(&self) -> (r: &Password)
        ensures
            r.secret() == self.spec_password(),
    {
        &self.password
    }

    /// Gets the key of the pack used by the server.
    pub fn pack(&self) -> (r: &str)
        ensures
            r@ == self.spec_pack(),
    {
        self.pack.as_str()
    }

    /// Gets whether BattlEye is enabled.
    pub fn battleye(&self) -> (r: bool)
        ensures
            r == self.spec_battleye(),
    {
        self.battleye
    }
}

} // verus!
