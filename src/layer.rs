//! Layers: the directories of a mod, hashed over their children.

use vstd::prelude::*;
use vstd::utf8::encode_utf8;
use crate::bytes::extend_bytes;
use crate::digest::{sha256, sha256_of};
use crate::file::File;
use crate::text::{lower_of, str_eq, to_lowercase};

verus! {

/// A layer of a mod: a directory.
#[derive(Debug)]
pub struct Layer {
    name: String,
    files: Vec<File>,
    layers: Vec<Layer>,
    hash: Vec<u8>,
}

/// What the files contribute to a layer's hash: each name, then its hash.
pub open spec fn files_input(files: Seq<File>) -> Seq<u8>
    decreases files.len(),
{
    if files.len() == 0 {
        Seq::empty()
    } else {
        files_input(files.drop_last()) + encode_utf8(files.last().spec_name())
            + files.last().spec_hash()
    }
}

/// What the sub-layers contribute to a layer's hash: each name, then its hash.
pub open spec fn layers_input(layers: Seq<Layer>) -> Seq<u8>
    decreases layers.len(),
{
    if layers.len() == 0 {
        Seq::empty()
    } else {
        layers_input(layers.drop_last()) + encode_utf8(layers.last().spec_name())
            + layers.last().spec_hash()
    }
}

/// The bytes whose SHA-256 is the hash of a layer with these children.
pub open spec fn layer_hash_input(files: Seq<File>, layers: Seq<Layer>) -> Seq<u8> {
    files_input(files) + layers_input(layers)
}

impl Layer {
    #[verifier::type_invariant]
    spec fn hashed(&self) -> bool {
        self.hash@ == sha256_of(layer_hash_input(self.files@, self.layers@))
    }

    /// The name of the layer.
    pub closed spec fn spec_name(&self) -> Seq<char> {
        self.name@
    }

    /// The files of the layer, in scan order.
    pub closed spec fn spec_files(&self) -> Seq<File> {
        self.files@
    }

    /// The sub-layers of the layer, in scan order.
    pub closed spec fn spec_layers(&self) -> Seq<Layer> {
        self.layers@
    }

    /// The hash of the layer.
    pub closed spec fn spec_hash(&self) -> Seq<u8> {
        self.hash@
    }

    /// A sub-layer is structurally smaller than its layer.
    pub proof fn lemma_sub_layer_decreases(&self, i: int)
        requires
            0 <= i < self.spec_layers().len(),
        ensures
            decreases_to!(*self => self.spec_layers()[i]),
    {
        assert(decreases_to!(self.layers => self.layers@));
        assert(decreases_to!(self.layers@ => self.layers@[i]));
    }

    /// Creates a new layer, hashing the names and hashes of its files, then
    /// those of its sub-layers.
    pub fn new(name: String, files: Vec<File>, layers: Vec<Layer>) -> (r: Self)
        ensures
            r.spec_name() == name@,
            r.spec_files() == files@,
            r.spec_layers() == layers@,
            r.spec_hash() == sha256_of(layer_hash_input(files@, layers@)),
    {
        let mut input: Vec<u8> = Vec::new();
        let mut i: usize = 0;
        while i < files.len()
            invariant
                i <= files@.len(),
                input@ == files_input(files@.subrange(0, i as int)),
            decreases files@.len() - i,
        {
            extend_bytes(&mut input, files[i].name().as_bytes());
            extend_bytes(&mut input, files[i].hash());
            i = i + 1;
            assert(files@.subrange(0, i as int).drop_last() == files@.subrange(0, i - 1));
        }
        assert(files@.subrange(0, files@.len() as int) == files@);
        let ghost file_bytes = input@;
        let mut j: usize = 0;
        while j < layers.len()
            invariant
                j <= layers@.len(),
                file_bytes == files_input(files@),
                input@ == file_bytes + layers_input(layers@.subrange(0, j as int)),
            decreases layers@.len() - j,
        {
            extend_bytes(&mut input, layers[j].name().as_bytes());
            extend_bytes(&mut input, layers[j].hash());
            j = j + 1;
            assert(layers@.subrange(0, j as int).drop_last() == layers@.subrange(0, j - 1));
        }
        assert(layers@.subrange(0, layers@.len() as int) == layers@);
        let hash = sha256(input.as_slice());
        Layer { name, files, layers, hash }
    }

    /// Gets the name of the layer.
    pub fn name(&self) -> (r: &str)
        ensures
            r@ == self.spec_name(),
    {
        self.name.as_str()
    }

    /// Gets the files in the layer.
    pub fn files(&self) -> (r: &[File])
        ensures
            r@ == self.spec_files(),
    {
        self.files.as_slice()
    }

    /// Gets the sub-layers in the layer.
    pub fn layers(&self) -> (r: &[Layer])
        ensures
            r@ == self.spec_layers(),
    {
        self.layers.as_slice()
    }

    /// Gets the hash of the layer, made up of the hashes of all its files and
    /// layers: every layer's hash is the SHA-256 of the names and hashes of its
    /// files, then of the names and hashes of its sub-layers, in order.
    pub fn hash(&self) -> (r: &[u8])
        ensures
            r@ == self.spec_hash(),
            r@ == sha256_of(layer_hash_input(self.spec_files(), self.spec_layers())),
    {
        proof {
            use_type_invariant(self);
        }
        self.hash.as_slice()
    }
}

/// The lower-case name that an entry called `name` is renamed to before it
/// is scanned, or `None` when `name` is lower-case already.
pub fn lowercase_name(name: &str) -> (r: Option<String>)
    ensures
        r is None <==> lower_of(name@) == name@,
        r matches Some(l) ==> l@ == lower_of(name@),
{
    let lower = to_lowercase(name);
    if str_eq(lower.as_str(), name) {
        None
    } else {
        Some(lower)
    }
}

} // verus!
