//! Mods and repositories, and the versioned blob that carries a repository.

use vstd::prelude::*;
use crate::bytes::extend_bytes;
use crate::config::{keys_unique, Config};
use crate::digest::{sha256, sha256_of};
use crate::layer::{layer_hash_input, Layer};
use crate::pack::Pack;
use crate::server::Server;
use crate::unit::Unit;

verus! {

/// The repository format version this library writes and reads.
pub const VERSION: u8 = 1;

/// A mod: a named top-level tree.
#[derive(Debug)]
pub struct Mod {
    name: String,
    root: Layer,
}

impl Mod {
    /// The name of the mod.
    pub closed spec fn spec_name(&self) -> Seq<char> {
        self.name@
    }

    /// The root layer.
    pub closed spec fn spec_root(&self) -> Layer {
        self.root
    }

    /// The hash of the mod: that of its root layer.
    pub open spec fn spec_hash(&self) -> Seq<u8> {
        self.spec_root().spec_hash()
    }

    /// Creates a new mod.
    pub fn new(name: String, root: Layer) -> (r: Self)
        ensures
            r.spec_name() == name@,
            r.spec_root() == root,
    {
        Mod { name, root }
    }

    /// Gets the name of the mod.
    pub fn name(&self) -> (r: &str)
        ensures
            r@ == self.spec_name(),
    {
        self.name.as_str()
    }

    /// Gets the root layer.
    pub fn root(&self) -> (r: &Layer)
        ensures
            *r == self.spec_root(),
    {
        &self.root
    }

    /// Gets the hash of the mod, which is the hash of its root layer.
    pub fn hash(&self) -> (r: &[u8])
        ensures
            r@ == self.spec_hash(),
            r@ == self.spec_root().spec_hash(),
            r@ == sha256_of(
                layer_hash_input(self.spec_root().spec_files(), self.spec_root().spec_layers()),
            ),
    {
        self.root.hash()
    }
}

/// The hashes of the mods, one after another.
pub open spec fn mods_input(mods: Seq<Mod>) -> Seq<u8>
    decreases mods.len(),
{
    if mods.len() == 0 {
        Seq::empty()
    } else {
        mods_input(mods.drop_last()) + mods.last().spec_hash()
    }
}

/// The blob of a repository with hash `hash` whose encoded body is `body`:
/// the version byte, the hash, then the body.
pub open spec fn blob_of(hash: Seq<u8>, body: Seq<u8>) -> Seq<u8> {
    seq![VERSION] + hash + body
}

/// Why a blob was refused.
#[derive(Clone, Copy, Debug, PartialEq, Eq, Structural)]
pub enum BlobError {
    /// The first byte names a version other than 1.
    UnsupportedVersion(u8),
    /// The blob ends before its 33-byte prefix does.
    Truncated,
}

/// What reading a blob gives: its encoded body, or why it was refused.
pub open spec fn body_of(source: Seq<u8>) -> Result<Seq<u8>, BlobError> {
    if source.len() == 0 {
        Err(BlobError::Truncated)
    } else if source[0] != VERSION {
        Err(BlobError::UnsupportedVersion(source[0]))
    } else if source.len() < 33 {
        Err(BlobError::Truncated)
    } else {
        Ok(source.skip(33))
    }
}

/// A repository of mods.
pub struct Repository {
    version: u8,
    unit: Unit,
    mods: Vec<Mod>,
    packs: Vec<(String, Pack)>,
    servers: Vec<Server>,
    time: u64,
    hash: Vec<u8>,
}

impl Repository {
    #[verifier::type_invariant]
    spec fn hashed(&self) -> bool {
        &&& self.version == VERSION
        &&& self.hash@ == sha256_of(mods_input(self.mods@))
        &&& self.hash@.len() == 32
        &&& keys_unique(self.packs@)
    }

    /// The unit.
    pub closed spec fn spec_unit(&self) -> Unit {
        self.unit
    }

    /// The mods, in order.
    pub closed spec fn spec_mods(&self) -> Seq<Mod> {
        self.mods@
    }

    /// The packs, each under its key.
    pub closed spec fn spec_packs(&self) -> Seq<(String, Pack)> {
        self.packs@
    }

    /// The servers, in order.
    pub closed spec fn spec_servers(&self) -> Seq<Server> {
        self.servers@
    }

    /// The generation time, in seconds since the Unix epoch.
    pub closed spec fn spec_time(&self) -> u64 {
        self.time
    }

    /// The hash of all mods.
    pub closed spec fn spec_hash(&self) -> Seq<u8> {
        self.hash@
    }

    /// Creates a new repository whose hash is the SHA-256 of its mods' hashes.
    /// The packs form a map: no two share a key.
    pub fn new(
        unit: Unit,
        mods: Vec<Mod>,
        packs: Vec<(String, Pack)>,
        servers: Vec<Server>,
        time: u64,
    ) -> (r: Self)
        requires
            keys_unique(packs@),
        ensures
            r.spec_unit() == unit,
            r.spec_mods() == mods@,
            r.spec_packs() == packs@,
            r.spec_servers() == servers@,
            r.spec_time() == time,
            r.spec_hash() == sha256_of(mods_input(mods@)),
    {
        let mut input: Vec<u8> = Vec::new();
        let mut i: usize = 0;
        while i < mods.len()
            invariant
                i <= mods@.len(),
                input@ == mods_input(mods@.subrange(0, i as int)),
            decreases mods@.len() - i,
        {
            extend_bytes(&mut input, mods[i].hash());
            i = i + 1;
            assert(mods@.subrange(0, i as int).drop_last() == mods@.subrange(0, i - 1));
        }
        assert(mods@.subrange(0, mods@.len() as int) == mods@);
        let hash = sha256(input.as_slice());
        Repository { version: VERSION, unit, mods, packs, servers, time, hash }
    }

    /// Builds a repository from a valid configuration, the mods scanned for it and
    /// the generation time: the packs are carried over, and the servers are
    /// taken out of their keyed entries in order.
    pub fn from_config(config: Config, mods: Vec<Mod>, time: u64) -> (r: Self)
        requires
            config.valid(),
        ensures
            r.spec_unit() == config.spec_unit(),
            r.spec_mods() == mods@,
            r.spec_packs() == config.spec_packs(),
            r.spec_servers() == config.spec_servers().map_values(|e: (String, Server)| e.1),
            r.spec_time() == time,
            r.spec_hash() == sha256_of(mods_input(mods@)),
    {
        let (unit, packs, entries) = config.into_parts();
        let mut entries = entries;
        let ghost all = entries@;
        let mut servers: Vec<Server> = Vec::new();
        while entries.len() > 0
            invariant
                servers@ + entries@.map_values(|e: (String, Server)| e.1) == all.map_values(
                    |e: (String, Server)| e.1,
                ),
            decreases entries@.len(),
        {
            let (_, server) = entries.remove(0);
            servers.push(server);
            assert(servers@ + entries@.map_values(|e: (String, Server)| e.1) =~= all.map_values(
                |e: (String, Server)| e.1,
            ));
        }
        assert(servers@ =~= all.map_values(|e: (String, Server)| e.1));
        Repository::new(unit, mods, packs, servers, time)
    }

    /// Gets the repository format version.
    pub fn version(&self) -> (r: u8)
        ensures
            r == VERSION,
    {
        proof {
            use_type_invariant(self);
        }
        self.version
    }

    /// Gets the unit of the repository.
    pub fn unit(&self) -> (r: &Unit)
        ensures
            *r == self.spec_unit(),
    {
        &self.unit
    }

    /// Gets the mods in the repository.
    pub fn mods(&self) -> (r: &[Mod])
        ensures
            r@ == self.spec_mods(),
    {
        self.mods.as_slice()
    }

    /// Gets the packs in the repository, each under its own key.
    pub fn packs(&self) -> (r: &[(String, Pack)])
        ensures
            r@ == self.spec_packs(),
            keys_unique(r@),
    {
        proof {
            use_type_invariant(self);
        }
        self.packs.as_slice()
    }

    /// Gets the servers in the repository.
    pub fn servers(&self) -> (r: &[Server])
        ensures
            r@ == self.spec_servers(),
    {
        self.servers.as_slice()
    }

    /// Gets the generation time.
    pub fn time(&self) -> (r: u64)
        ensures
            r == self.spec_time(),
    {
        self.time
    }

    /// Gets the hash of the repository: the SHA-256 of its mods' hashes in order.
    pub fn hash(&self) -> (r: &[u8])
        ensures
            r@ == self.spec_hash(),
            r@ == sha256_of(mods_input(self.spec_mods())),
            r@.len() == 32,
    {
        proof {
            use_type_invariant(self);
        }
        self.hash.as_slice()
    }

    /// Frames the encoded repository `body` as a blob: the version byte,
    /// the 32-byte hash, then the body.
    pub fn to_blob(&self, body: &[u8]) -> (r: Vec<u8>)
        ensures
            r@ == blob_of(self.spec_hash(), body@),
    {
        let mut buf: Vec<u8> = Vec::new();
        buf.push(VERSION);
        extend_bytes(&mut buf, self.hash());
        extend_bytes(&mut buf, body);
        buf
    }

    /// The encoded repository that a blob carries. A blob whose first byte
    /// is not the version 1 is refused, as is one shorter than its prefix;
    /// the prefix hash is not checked against anything.
    pub fn from_blob(source: &[u8]) -> (r: Result<Vec<u8>, BlobError>)
        ensures
            r matches Ok(b) ==> body_of(source@) == Ok::<Seq<u8>, BlobError>(b@),
            r matches Err(e) ==> body_of(source@) == Err::<Seq<u8>, BlobError>(e),
    {
        if source.len() == 0 {
            return Err(BlobError::Truncated);
        }
        let version = source[0];
        if version != VERSION {
            return Err(BlobError::UnsupportedVersion(version));
        }
        if source.len() < 33 {
            return Err(BlobError::Truncated);
        }
        let mut body: Vec<u8> = Vec::new();
        let mut i: usize = 33;
        while i < source.len()
            invariant
                33 <= i <= source@.len(),
                body@ == source@.subrange(33, i as int),
            decreases source@.len() - i,
        {
            body.push(source[i]);
            i = i + 1;
            assert(source@.subrange(33, i as int) == source@.subrange(33, i - 1).push(
                source@[i - 1],
            ));
        }
        assert(source@.subrange(33, source@.len() as int) == source@.skip(33));
        Ok(body)
    }
}

/// Reading back the blob of a repository gives the encoded body that was framed.
pub proof fn lemma_blob_round_trip(hash: Seq<u8>, body: Seq<u8>)
    requires
        hash.len() == 32,
    ensures
        body_of(blob_of(hash, body)) == Ok::<Seq<u8>, BlobError>(body),
        blob_of(hash, body)[0] == VERSION,
        blob_of(hash, body).subrange(1, 33) == hash,
{
    let b = blob_of(hash, body);
    assert(b.skip(33) == body);
    assert(b.subrange(1, 33) == hash);
}

} // verus!
