//! Reading PBO archives through `hemtt_pbo`, and their ordered property maps.

use vstd::prelude::*;
use indexmap::IndexMap;
use hemtt_pbo::ReadablePbo;
use std::io::Cursor;
use vstd::utf8::valid_utf8;

verus! {

#[verifier::external_type_specification]
#[verifier::external_body]
#[verifier::reject_recursive_types(K)]
#[verifier::reject_recursive_types(V)]
#[verifier::reject_recursive_types(S)]
pub struct ExIndexMap<K, V, S>(IndexMap<K, V, S>);

#[verifier::external_type_specification]
#[verifier::external_body]
pub struct ExPboError(hemtt_pbo::Error);

/// The tag of the header entry that holds the properties.
pub const MIME_VERS: u32 = 0x5665_7273;

/// The tag of a compressed entry.
pub const MIME_CPRS: u32 = 0x4370_7273;

/// The tag of an encoded entry.
pub const MIME_ENCO: u32 = 0x456e_6372;

/// The position of the first zero byte of `b` at or after `pos`, or the
/// length of `b` when there is none: where a C string starting at `pos` ends.
pub open spec fn cstr_end(b: Seq<u8>, pos: int) -> int
    decreases b.len() - pos,
{
    if pos < 0 || pos >= b.len() {
        b.len() as int
    } else if b[pos] == 0 {
        pos
    } else {
        cstr_end(b, pos + 1)
    }
}

/// Where reading resumes after the C string at `pos`.
pub open spec fn after_cstr(b: Seq<u8>, pos: int) -> int {
    if cstr_end(b, pos) < b.len() {
        cstr_end(b, pos) + 1
    } else {
        b.len() as int
    }
}

/// Whether the C string at `pos` is valid UTF-8.
pub open spec fn cstr_utf8(b: Seq<u8>, pos: int) -> bool {
    valid_utf8(b.subrange(pos, cstr_end(b, pos)))
}

/// The little-endian `u32` at `pos`.
pub open spec fn u32_le(b: Seq<u8>, pos: int) -> int {
    b[pos] as int + b[pos + 1] as int * 0x100 + b[pos + 2] as int * 0x1_0000 + b[pos + 3] as int
        * 0x100_0000
}

/// Whether every string that reading the header from `pos` on meets is
/// valid UTF-8. `mode` is 0 at an entry, 1 at a property key and 2 at a
/// property value. An entry is a name, then five `u32`s of which the first
/// is its tag; properties follow the entry tagged `Vers` and end with an
/// empty key; an entry with an empty name and another tag ends the header.
/// Reading stops with an error at a short entry or an unknown tag.
pub open spec fn header_strings_utf8(b: Seq<u8>, pos: int, mode: int) -> bool
    decreases 3 * (b.len() - pos) + mode
    when 0 <= pos <= b.len() && 0 <= mode <= 2
    via header_strings_utf8_decreases
{
    if !cstr_utf8(b, pos) {
        false
    } else if mode == 0 {
        let fields_at = after_cstr(b, pos);
        if fields_at + 20 > b.len() {
            true
        } else {
            let mime = u32_le(b, fields_at);
            if mime == MIME_VERS {
                header_strings_utf8(b, fields_at + 20, 1)
            } else if mime != MIME_CPRS && mime != MIME_ENCO && mime != 0 {
                true
            } else if cstr_end(b, pos) == pos {
                true
            } else {
                header_strings_utf8(b, fields_at + 20, 0)
            }
        }
    } else if mode == 1 {
        if cstr_end(b, pos) == pos {
            header_strings_utf8(b, after_cstr(b, pos), 0)
        } else {
            header_strings_utf8(b, after_cstr(b, pos), 2)
        }
    } else {
        header_strings_utf8(b, after_cstr(b, pos), 1)
    }
}

#[via_fn]
proof fn header_strings_utf8_decreases(b: Seq<u8>, pos: int, mode: int) {
    lemma_cstr_end(b, pos);
}

/// A C string ends at or after its start, at a zero byte or at the end.
pub proof fn lemma_cstr_end(b: Seq<u8>, pos: int)
    requires
        0 <= pos <= b.len(),
    ensures
        pos <= cstr_end(b, pos) <= b.len(),
        cstr_end(b, pos) < b.len() ==> b[cstr_end(b, pos)] == 0,
        forall|j: int| pos <= j < cstr_end(b, pos) ==> b[j] != 0,
    decreases b.len() - pos,
{
    if pos < b.len() && b[pos] != 0 {
        lemma_cstr_end(b, pos + 1);
    }
}

/// Whether `hemtt_pbo` can read the header of the archive `b` without
/// failing on a string that is not UTF-8 (it panics there).
pub open spec fn pbo_header_utf8(b: Seq<u8>) -> bool {
    header_strings_utf8(b, 0, 0)
}

/// Where the C string of `b` starting at `pos` ends.
fn find_cstr_end(b: &[u8], pos: usize) -> (r: usize)
    requires
        pos <= b@.len(),
    ensures
        r == cstr_end(b@, pos as int),
{
    let mut i = pos;
    while i < b.len() && b[i] != 0
        invariant
            pos <= i <= b@.len(),
            cstr_end(b@, i as int) == cstr_end(b@, pos as int),
        decreases b@.len() - i,
    {
        i = i + 1;
    }
    i
}

/// Whether reading the header of the archive `b` meets only strings that
/// are valid UTF-8.
pub fn pbo_header_readable(b: &[u8]) -> (r: bool)
    ensures
        r == pbo_header_utf8(b@),
{
    let mut pos: usize = 0;
    let mut mode: u8 = 0;
    loop
        invariant
            pos <= b@.len(),
            mode <= 2,
            header_strings_utf8(b@, pos as int, mode as int) == pbo_header_utf8(b@),
        decreases 3 * (b@.len() - pos) + mode,
    {
        proof {
            lemma_cstr_end(b@, pos as int);
        }
        let end = find_cstr_end(b, pos);
        if !is_utf8(&b[pos..end]) {
            return false;
        }
        let after = if end < b.len() {
            end + 1
        } else {
            end
        };
        if mode == 0 {
            if b.len() < 20 || after > b.len() - 20 {
                return true;
            }
            let mime = b[after] as u32 + b[after + 1] as u32 * 0x100 + b[after + 2] as u32
                * 0x1_0000 + b[after + 3] as u32 * 0x100_0000;
            assert(mime == u32_le(b@, after as int));
            if mime == MIME_VERS {
                pos = after + 20;
                mode = 1;
            } else if mime != MIME_CPRS && mime != MIME_ENCO && mime != 0 {
                return true;
            } else if end == pos {
                return true;
            } else {
                pos = after + 20;
            }
        } else if mode == 1 {
            mode = if end == pos {
                0
            } else {
                2
            };
            pos = after;
        } else {
            pos = after;
            mode = 1;
        }
    }
}

/// The entries of a property map, keys and values, in insertion order.
pub uninterp spec fn props_of(m: IndexMap<String, String>) -> Seq<(Seq<char>, Seq<char>)>;

/// Relies on IndexMap::iter: it walks the entries in insertion order.
#[verifier::external_body]
pub(crate) fn prop_entries(m: &IndexMap<String, String>) -> (r: Vec<(String, String)>)
    ensures
        r@.map_values(|e: (String, String)| (e.0@, e.1@)) == props_of(*m),
{
    m.iter().map(|(k, v)| (k.clone(), v.clone())).collect()
}

/// Relies on IndexMap::clone: the copy holds the same entries in the same order.
#[verifier::external_body]
pub(crate) fn clone_props(m: &IndexMap<String, String>) -> (r: IndexMap<String, String>)
    ensures
        props_of(r) == props_of(*m),
{
    m.clone()
}

/// Whether `hemtt_pbo` reads the header of the archive `bytes` without error.
pub uninterp spec fn pbo_reads_of(bytes: Seq<u8>) -> bool;

/// The properties in the header of the archive `bytes`, in order.
pub uninterp spec fn pbo_properties_of(bytes: Seq<u8>) -> Seq<(Seq<char>, Seq<char>)>;

/// The names of the entries of the archive `bytes`, in the archive's sort order.
pub uninterp spec fn pbo_sorted_names_of(bytes: Seq<u8>) -> Seq<Seq<char>>;

/// The payload of the entry called `name` in the archive `bytes`.
pub uninterp spec fn pbo_entry_data_of(bytes: Seq<u8>, name: Seq<char>) -> Option<Seq<u8>>;

/// The offset in the archive `bytes` at which the payload of `name` starts.
pub uninterp spec fn pbo_entry_offset_of(bytes: Seq<u8>, name: Seq<char>) -> Option<u64>;

/// Relies on hemtt_pbo::ReadablePbo::from, which reads the header from the
/// bytes, and on ReadablePbo::properties: the header's properties, in order.
#[verifier::external_body]
pub(crate) fn pbo_properties(bytes: &[u8]) -> (r: Result<IndexMap<String, String>, hemtt_pbo::Error>)
    requires
        pbo_header_utf8(bytes@),
    ensures
        r is Ok <==> pbo_reads_of(bytes@),
        r matches Ok(m) ==> props_of(m) == pbo_properties_of(bytes@),
{
    ReadablePbo::from(Cursor::new(bytes)).map(|pbo| pbo.properties().clone())
}

/// Relies on hemtt_pbo::ReadablePbo::from, which reads the header from the
/// bytes, and on ReadablePbo::files_sorted: the entry names in sort order.
#[verifier::external_body]
pub(crate) fn pbo_sorted_names(bytes: &[u8]) -> (r: Result<Vec<String>, hemtt_pbo::Error>)
    requires
        pbo_header_utf8(bytes@),
    ensures
        r is Ok <==> pbo_reads_of(bytes@),
        r matches Ok(v) ==> v@.map_values(|n: String| n@) == pbo_sorted_names_of(bytes@),
{
    let mut pbo = ReadablePbo::from(Cursor::new(bytes))?;
    Ok(pbo.files_sorted().iter().map(|h| h.filename().to_string()).collect())
}

/// Relies on hemtt_pbo::ReadablePbo::from, which reads the header from the
/// bytes, and on ReadablePbo::file: the payload of the entry called `name`.
#[verifier::external_body]
pub(crate) fn pbo_entry_data(bytes: &[u8], name: &str) -> (r: Result<Option<Vec<u8>>, hemtt_pbo::Error>)
    requires
        pbo_header_utf8(bytes@),
    ensures
        pbo_reads_of(bytes@) ==> r is Ok,
        r matches Ok(Some(d)) ==> pbo_entry_data_of(bytes@, name@) == Some(d@),
        r matches Ok(None) ==> pbo_entry_data_of(bytes@, name@) is None,
{
    let mut pbo = ReadablePbo::from(Cursor::new(bytes))?;
    let Some(mut f) = pbo.file(name)? else {
        return Ok(None);
    };
    let mut data = Vec::new();
    std::io::Read::read_to_end(&mut f, &mut data)?;
    Ok(Some(data))
}

/// Relies on hemtt_pbo::ReadablePbo::from, which reads the header from the
/// bytes, and on ReadablePbo::file_offset: where the payload of `name` starts.
/// Each of these reads panics on a header string that is not UTF-8, hence
/// their common `requires`. Once the header was read, `file` and
/// `file_offset` only seek within the in-memory cursor, which does not fail.
#[verifier::external_body]
pub(crate) fn pbo_entry_offset(bytes: &[u8], name: &str) -> (r: Result<Option<u64>, hemtt_pbo::Error>)
    requires
        pbo_header_utf8(bytes@),
    ensures
        pbo_reads_of(bytes@) ==> r is Ok,
        r matches Ok(o) ==> pbo_entry_offset_of(bytes@, name@) == o,
{
    ReadablePbo::from(Cursor::new(bytes))?.file_offset(name)
}

/// Relies on std::str::from_utf8: it accepts exactly the valid UTF-8 sequences.
#[verifier::external_body]
pub(crate) fn is_utf8(b: &[u8]) -> (r: bool)
    ensures
        r == valid_utf8(b@),
{
    std::str::from_utf8(b).is_ok()
}

/// Relies on the `Display` of hemtt_pbo::Error: a description of what went wrong.
#[verifier::external_body]
pub(crate) fn pbo_error_text(e: hemtt_pbo::Error) -> (r: String) {
    e.to_string()
}

} // verus!
