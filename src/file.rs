//! Files of a mod: plain files, and PBO archives split into parts.

use vstd::prelude::*;
use vstd::utf8::encode_utf8;
use indexmap::IndexMap;
use crate::bytes::extend_bytes;
use crate::digest::{sha256, sha256_of};
use crate::pbo::{
    pbo_entry_data, pbo_entry_data_of, pbo_entry_offset, pbo_entry_offset_of, pbo_error_text,
    pbo_header_readable, pbo_header_utf8, pbo_properties, pbo_properties_of, pbo_sorted_names,
    pbo_sorted_names_of, pbo_reads_of, prop_entries, props_of,
};
use crate::text::ends_with;
use vstd::string::StrSliceExecFns;

verus! {

/// A part of a PBO file.
#[derive(Clone, Debug, PartialEq, Eq)]
pub struct Part {
    name: String,
    hash: Vec<u8>,
    offset: u64,
}

impl Part {
    /// The name of the part.
    pub closed spec fn spec_name(&self) -> Seq<char> {
        self.name@
    }

    /// The hash of the part's bytes.
    pub closed spec fn spec_hash(&self) -> Seq<u8> {
        self.hash@
    }

    /// The offset of the part's payload in the PBO file.
    pub closed spec fn spec_offset(&self) -> u64 {
        self.offset
    }

    /// Creates a new part.
    pub fn new(name: String, hash: Vec<u8>, offset: u64) -> (r: Self)
        ensures
            r.spec_name() == name@,
            r.spec_hash() == hash@,
            r.spec_offset() == offset,
    {
        Part { name, hash, offset }
    }

    /// Gets the name of the part.
    pub fn name(&self) -> (r: &str)
        ensures
            r@ == self.spec_name(),
    {
        self.name.as_str()
    }

    /// Gets the hash of the part.
    pub fn hash(&self) -> (r: &[u8])
        ensures
            r@ == self.spec_hash(),
    {
        self.hash.as_slice()
    }

    /// Gets the offset in the PBO file.
    pub fn offset(&self) -> (r: u64)
        ensures
            r == self.spec_offset(),
    {
        self.offset
    }

    /// A copy with the same name, hash and offset.
    pub fn duplicate(&self) -> (r: Part)
        ensures
            r.spec_name() == self.spec_name(),
            r.spec_hash() == self.spec_hash(),
            r.spec_offset() == self.spec_offset(),
    {
        Part { name: self.name.clone(), hash: self.hash.clone(), offset: self.offset }
    }
}

/// A file of a mod.
#[derive(Debug)]
pub enum File {
    /// Any file that is not a PBO.
    Generic {
        /// The name of the file.
        name: String,
        /// The size of the file.
        size: u64,
        /// The hash of the file.
        hash: Vec<u8>,
    },
    /// A PBO file.
    Pbo {
        /// The name of the file.
        name: String,
        /// The size of the file.
        size: u64,
        /// The properties of the PBO header, in order.
        props: IndexMap<String, String>,
        /// The parts of the file.
        parts: Vec<Part>,
        /// The hash of the file.
        hash: Vec<u8>,
    },
}

/// A name with an extension `pbo`: it ends in `.pbo` after a non-empty stem.
pub open spec fn is_pbo_name(name: Seq<char>) -> bool {
    name.len() > 4 && name.skip(name.len() - 4) == ".pbo"@
}

/// What the properties contribute to a PBO's hash: each key, then its value.
pub open spec fn props_input(props: Seq<(Seq<char>, Seq<char>)>) -> Seq<u8>
    decreases props.len(),
{
    if props.len() == 0 {
        Seq::empty()
    } else {
        props_input(props.drop_last()) + encode_utf8(props.last().0) + encode_utf8(
            props.last().1,
        )
    }
}

/// What the parts contribute to a PBO's hash: each name, then its hash.
pub open spec fn parts_input(parts: Seq<Part>) -> Seq<u8>
    decreases parts.len(),
{
    if parts.len() == 0 {
        Seq::empty()
    } else {
        parts_input(parts.drop_last()) + encode_utf8(parts.last().spec_name())
            + parts.last().spec_hash()
    }
}

/// The bytes whose SHA-256 is the hash of a PBO with these properties and parts.
pub open spec fn pbo_hash_input(props: Seq<(Seq<char>, Seq<char>)>, parts: Seq<Part>) -> Seq<u8> {
    props_input(props) + parts_input(parts)
}

/// The parts of an archive: for each entry name in sort order, its name, the
/// hash of its payload and its offset.
pub open spec fn parts_match_archive(parts: Seq<Part>, bytes: Seq<u8>) -> bool {
    let names = pbo_sorted_names_of(bytes);
    &&& parts.len() == names.len()
    &&& forall|i: int|
        0 <= i < parts.len() ==> {
            &&& #[trigger] parts[i].spec_name() == names[i]
            &&& pbo_entry_data_of(bytes, names[i]) matches Some(d) && parts[i].spec_hash()
                == sha256_of(d)
            &&& pbo_entry_offset_of(bytes, names[i]) == Some(parts[i].spec_offset())
        }
}

/// Whether `hemtt_pbo` reads the whole archive `bytes`: its header strings
/// are UTF-8, its header reads without error, and every entry it lists has
/// a payload and an offset.
pub open spec fn pbo_readable(bytes: Seq<u8>) -> bool {
    &&& pbo_header_utf8(bytes)
    &&& pbo_reads_of(bytes)
    &&& forall|i: int|
        0 <= i < pbo_sorted_names_of(bytes).len() ==> {
            &&& (#[trigger] pbo_entry_data_of(bytes, pbo_sorted_names_of(bytes)[i])) is Some
            &&& pbo_entry_offset_of(bytes, pbo_sorted_names_of(bytes)[i]) is Some
        }
}

/// One entry of an archive as read from it: name, payload and payload offset.
pub struct PboEntry {
    /// The entry name.
    pub name: String,
    /// The entry payload.
    pub data: Vec<u8>,
    /// Where the payload starts in the archive.
    pub offset: u64,
}

impl File {
    /// The name of the file.
    pub open spec fn spec_name(&self) -> Seq<char> {
        match self {
            File::Generic { name, .. } => name@,
            File::Pbo { name, .. } => name@,
        }
    }

    /// The hash of the file.
    pub open spec fn spec_hash(&self) -> Seq<u8> {
        match self {
            File::Generic { hash, .. } => hash@,
            File::Pbo { hash, .. } => hash@,
        }
    }

    /// The size of the file.
    pub open spec fn spec_size(&self) -> u64 {
        match self {
            File::Generic { size, .. } => *size,
            File::Pbo { size, .. } => *size,
        }
    }

    /// Creates a new generic file.
    pub fn new_generic(name: String, size: u64, hash: Vec<u8>) -> (r: Self)
        ensures
            r == (File::Generic { name, size, hash }),
    {
        File::Generic { name, size, hash }
    }

    /// Creates a new PBO file.
    pub fn new_pbo(
        name: String,
        size: u64,
        props: IndexMap<String, String>,
        parts: Vec<Part>,
        hash: Vec<u8>,
    ) -> (r: Self)
        ensures
            r == (File::Pbo { name, size, props, parts, hash }),
    {
        File::Pbo { name, size, props, parts, hash }
    }

    /// Gets the name of the file.
    pub fn name(&self) -> (r: &str)
        ensures
            r@ == self.spec_name(),
    {
        match self {
            File::Generic { name, .. } => name.as_str(),
            File::Pbo { name, .. } => name.as_str(),
        }
    }

    /// Gets the hash of the file.
    pub fn hash(&self) -> (r: &[u8])
        ensures
            r@ == self.spec_hash(),
    {
        match self {
            File::Generic { hash, .. } => hash.as_slice(),
            File::Pbo { hash, .. } => hash.as_slice(),
        }
    }

    /// A generic file holding `bytes`: its size is their length and its hash their SHA-256.
    pub fn generic_from_bytes(name: String, bytes: &[u8]) -> (r: Self)
        ensures
            r matches File::Generic { name: n, size, hash } && n@ == name@ && size
                == bytes@.len() && hash@ == sha256_of(bytes@),
    {
        let hash = sha256(bytes);
        File::Generic { name, size: bytes.len() as u64, hash }
    }

    /// A PBO file made of its header properties and its entries in sort order.
    /// Each entry becomes a part whose hash is the SHA-256 of its payload; the
    /// file's hash is the SHA-256 of every key and value, then of every part's
    /// name and hash.
    pub fn pbo_from_entries(
        name: String,
        size: u64,
        props: IndexMap<String, String>,
        entries: &Vec<PboEntry>,
    ) -> (r: Self)
        ensures
            r matches File::Pbo { name: n, size: s, props: p, parts, hash } && {
                &&& n@ == name@
                &&& s == size
                &&& props_of(p) == props_of(props)
                &&& parts@.len() == entries@.len()
                &&& forall|i: int|
                    0 <= i < entries@.len() ==> {
                        &&& #[trigger] parts@[i].spec_name() == entries@[i].name@
                        &&& parts@[i].spec_hash() == sha256_of(entries@[i].data@)
                        &&& parts@[i].spec_offset() == entries@[i].offset
                    }
                &&& hash@ == sha256_of(pbo_hash_input(props_of(props), parts@))
            },
    {
        let pairs = prop_entries(&props);
        let ghost pv = pairs@.map_values(|e: (String, String)| (e.0@, e.1@));
        let mut input: Vec<u8> = Vec::new();
        let mut i: usize = 0;
        while i < pairs.len()
            invariant
                i <= pairs@.len(),
                pv == pairs@.map_values(|e: (String, String)| (e.0@, e.1@)),
                input@ == props_input(pv.subrange(0, i as int)),
            decreases pairs@.len() - i,
        {
            extend_bytes(&mut input, pairs[i].0.as_str().as_bytes());
            extend_bytes(&mut input, pairs[i].1.as_str().as_bytes());
            i = i + 1;
            assert(pv.subrange(0, i as int).drop_last() == pv.subrange(0, i - 1));
        }
        assert(pv.subrange(0, pairs@.len() as int) == pv);
        let ghost prop_bytes = input@;
        let mut parts: Vec<Part> = Vec::new();
        let mut j: usize = 0;
        while j < entries.len()
            invariant
                j <= entries@.len(),
                parts@.len() == j,
                prop_bytes == props_input(pv),
                input@ == prop_bytes + parts_input(parts@),
                forall|k: int|
                    0 <= k < j ==> {
                        &&& #[trigger] parts@[k].spec_name() == entries@[k].name@
                        &&& parts@[k].spec_hash() == sha256_of(entries@[k].data@)
                        &&& parts@[k].spec_offset() == entries@[k].offset
                    },
            decreases entries@.len() - j,
        {
            let entry = &entries[j];
            let part_hash = sha256(entry.data.as_slice());
            extend_bytes(&mut input, entry.name.as_str().as_bytes());
            extend_bytes(&mut input, part_hash.as_slice());
            let ghost before = parts@;
            parts.push(Part { name: entry.name.clone(), hash: part_hash, offset: entry.offset });
            assert(parts@.drop_last() == before);
            j = j + 1;
        }
        let hash = sha256(input.as_slice());
        File::Pbo { name, size, props, parts, hash }
    }

    /// A PBO file read from the archive `bytes` with `hemtt_pbo`; an error
    /// describes an archive that could not be read, among them one whose
    /// header holds a string that is not UTF-8.
    pub fn pbo_from_bytes(name: String, bytes: &[u8]) -> (r: Result<Self, String>)
        ensures
            r is Ok <==> pbo_readable(bytes@),
            r matches Ok(f) ==> f matches File::Pbo { name: n, size, props, parts, hash } && {
                &&& n@ == name@
                &&& size == bytes@.len()
                &&& props_of(props) == pbo_properties_of(bytes@)
                &&& parts_match_archive(parts@, bytes@)
                &&& hash@ == sha256_of(pbo_hash_input(props_of(props), parts@))
            },
    {
        if !pbo_header_readable(bytes) {
            return Err("PBO header holds a string that is not UTF-8".to_string());
        }
        let props = match pbo_properties(bytes) {
            Ok(p) => p,
            Err(e) => {
                return Err(pbo_error_text(e));
            },
        };
        let names = match pbo_sorted_names(bytes) {
            Ok(n) => n,
            Err(e) => {
                return Err(pbo_error_text(e));
            },
        };
        let ghost nv = names@.map_values(|n: String| n@);
        let mut entries: Vec<PboEntry> = Vec::new();
        let mut i: usize = 0;
        while i < names.len()
            invariant
                i <= names@.len(),
                entries@.len() == i,
                nv == names@.map_values(|n: String| n@),
                nv == pbo_sorted_names_of(bytes@),
                pbo_header_utf8(bytes@),
                pbo_reads_of(bytes@),
                forall|k: int|
                    0 <= k < i ==> {
                        &&& #[trigger] entries@[k].name@ == nv[k]
                        &&& pbo_entry_data_of(bytes@, nv[k]) == Some(entries@[k].data@)
                        &&& pbo_entry_offset_of(bytes@, nv[k]) == Some(entries@[k].offset)
                    },
            decreases names@.len() - i,
        {
            let entry_name = names[i].as_str();
            let data = match pbo_entry_data(bytes, entry_name) {
                Ok(Some(d)) => d,
                Ok(None) => {
                    assert((pbo_entry_data_of(bytes@, pbo_sorted_names_of(bytes@)[i as int])) is None);
                    return Err(missing_entry_message(entry_name));
                },
                Err(e) => {
                    return Err(pbo_error_text(e));
                },
            };
            let offset = match pbo_entry_offset(bytes, entry_name) {
                Ok(Some(o)) => o,
                Ok(None) => {
                    assert((pbo_entry_data_of(bytes@, pbo_sorted_names_of(bytes@)[i as int])) is Some);
                    assert(pbo_entry_offset_of(bytes@, pbo_sorted_names_of(bytes@)[i as int]) is None);
                    return Err(missing_entry_message(entry_name));
                },
                Err(e) => {
                    return Err(pbo_error_text(e));
                },
            };
            entries.push(PboEntry { name: names[i].clone(), data, offset });
            i = i + 1;
        }
        assert forall|k: int| 0 <= k < pbo_sorted_names_of(bytes@).len() implies {
            &&& (#[trigger] pbo_entry_data_of(bytes@, pbo_sorted_names_of(bytes@)[k])) is Some
            &&& pbo_entry_offset_of(bytes@, pbo_sorted_names_of(bytes@)[k]) is Some
        } by {
            assert(entries@[k].name@ == nv[k]);
        }
        Ok(File::pbo_from_entries(name, bytes.len() as u64, props, &entries))
    }

    /// Builds the file called `name` from its contents: a PBO when the name
    /// has the extension `pbo`, a generic file otherwise.
    pub fn from_bytes(name: String, bytes: &[u8]) -> (r: Result<Self, String>)
        ensures
            !is_pbo_name(name@) ==> (r matches Ok(f) && f matches File::Generic {
                name: n,
                size,
                hash,
            } && n@ == name@ && size == bytes@.len() && hash@ == sha256_of(bytes@)),
            is_pbo_name(name@) ==> (r is Ok <==> pbo_readable(bytes@)),
            is_pbo_name(name@) ==> (r matches Ok(f) ==> f matches File::Pbo {
                name: n,
                size,
                props,
                parts,
                hash,
            } && {
                &&& n@ == name@
                &&& size == bytes@.len()
                &&& props_of(props) == pbo_properties_of(bytes@)
                &&& parts_match_archive(parts@, bytes@)
                &&& hash@ == sha256_of(pbo_hash_input(props_of(props), parts@))
            }),
    {
        let pbo = name.as_str().unicode_len() > 4 && ends_with(name.as_str(), ".pbo");
        proof {
            reveal_strlit(".pbo");
        }
        if pbo {
            File::pbo_from_bytes(name, bytes)
        } else {
            Ok(File::generic_from_bytes(name, bytes))
        }
    }
}

/// The message for an entry that the archive lists but cannot hand out.
fn missing_entry_message(entry: &str) -> (r: String)
    ensures
        r@ == "missing entry `"@ + entry@ + "`"@,
{
    let s = "missing entry `".to_string();
    let s = s.concat(entry);
    s.concat("`")
}

} // verus!
