//! The repository configuration: unit, packs and servers, their validation,
//! and the expansion of packs into the mods to scan.

use vstd::prelude::*;
use crate::names::{merge, names_of, push_absent, push_if_absent, remove_first, remove_first_match};
use crate::pack::Pack;
use crate::server::Server;
use crate::text::{
    lower_of, starts_with_char, starts_with_char_exec, str_eq, to_lowercase, trim_start,
    trim_start_matches,
};
use crate::unit::Unit;

verus! {

/// A repository configuration.
pub struct Config {
    unit: Unit,
    pack: Vec<(String, Pack)>,
    server: Vec<(String, Server)>,
}

/// Whether some pack is stored under `key`.
pub open spec fn has_pack_key(packs: Seq<(String, Pack)>, key: Seq<char>) -> bool {
    exists|i: int| 0 <= i < packs.len() && #[trigger] packs[i].0@ == key
}

/// Whether entry `i` is the first one stored under `key`.
pub open spec fn is_first_key<T>(entries: Seq<(String, T)>, key: Seq<char>, i: int) -> bool {
    0 <= i < entries.len() && entries[i].0@ == key && forall|j: int|
        0 <= j < i ==> entries[j].0@ != key
}

/// Whether no two entries share a key, as in a map.
pub open spec fn keys_unique<T>(entries: Seq<(String, T)>) -> bool {
    forall|i: int, j: int|
        0 <= i < j < entries.len() ==> #[trigger] entries[i].0@ != #[trigger] entries[j].0@
}

/// Whether entry `j` repeats the key of an earlier entry.
pub open spec fn repeats_key<T>(entries: Seq<(String, T)>, j: int) -> bool {
    exists|i: int| 0 <= i < j && #[trigger] entries[i].0@ == entries[j].0@
}

/// The first entry that repeats the key of an earlier one.
fn first_repeated_key<T>(entries: &Vec<(String, T)>) -> (r: Option<usize>)
    ensures
        r is None <==> keys_unique(entries@),
        r matches Some(j) ==> j < entries@.len() && repeats_key(entries@, j as int),
{
    let mut j: usize = 0;
    while j < entries.len()
        invariant
            j <= entries@.len(),
            keys_unique(entries@.subrange(0, j as int)),
        decreases entries@.len() - j,
    {
        let mut i: usize = 0;
        while i < j
            invariant
                i <= j < entries@.len(),
                forall|k: int| 0 <= k < i ==> entries@[k].0@ != entries@[j as int].0@,
            decreases j - i,
        {
            if str_eq(entries[i].0.as_str(), entries[j].0.as_str()) {
                assert(entries@[i as int].0@ == entries@[j as int].0@);
                return Some(j);
            }
            i = i + 1;
        }
        assert forall|a: int, b: int|
            0 <= a < b < j + 1 implies #[trigger] entries@.subrange(0, j + 1)[a].0@
            != #[trigger] entries@.subrange(0, j + 1)[b].0@ by {
            if b < j {
                assert(entries@.subrange(0, j as int)[a] == entries@[a]);
                assert(entries@.subrange(0, j as int)[b] == entries@[b]);
            }
        }
        j = j + 1;
    }
    assert(entries@.subrange(0, j as int) == entries@);
    None
}

/// The message for a pack key used twice.
pub open spec fn duplicate_pack_message(key: Seq<char>) -> Seq<char> {
    "Pack `"@ + key + "` is defined twice"@
}

/// The message for a server key used twice.
pub open spec fn duplicate_server_message(key: Seq<char>) -> Seq<char> {
    "Server `"@ + key + "` is defined twice"@
}

/// Whether server `i` names a pack that exists.
pub open spec fn server_ok(packs: Seq<(String, Pack)>, servers: Seq<(String, Server)>, i: int) -> bool {
    has_pack_key(packs, servers[i].1.spec_pack())
}

/// Whether selector `j` of pack `i` is its own lower-case form.
pub open spec fn selector_ok(packs: Seq<(String, Pack)>, i: int, j: int) -> bool {
    lower_of(packs[i].1.spec_mods()[j]@) == packs[i].1.spec_mods()[j]@
}

/// Whether every server's pack exists.
pub open spec fn servers_valid(packs: Seq<(String, Pack)>, servers: Seq<(String, Server)>) -> bool {
    forall|i: int| 0 <= i < servers.len() ==> #[trigger] server_ok(packs, servers, i)
}

/// Whether every mod selector of every pack is lower-case.
pub open spec fn selectors_valid(packs: Seq<(String, Pack)>) -> bool {
    forall|i: int, j: int|
        0 <= i < packs.len() && 0 <= j < packs[i].1.spec_mods().len() ==> #[trigger] selector_ok(
            packs,
            i,
            j,
        )
}

/// The message for a server whose pack does not exist.
pub open spec fn missing_pack_message(pack: Seq<char>) -> Seq<char> {
    "Pack `"@ + pack + "` does not exist"@
}

/// The message for a mod selector that is not lower-case.
pub open spec fn uppercase_mod_message(m: Seq<char>) -> Seq<char> {
    "Mod `"@ + m + "` must be lowercase"@
}

/// `acc` extended by each name of `dirs` that starts with `@` and that it
/// does not hold yet, in order.
pub open spec fn merge_mod_dirs(acc: Seq<Seq<char>>, dirs: Seq<Seq<char>>) -> Seq<Seq<char>>
    decreases dirs.len(),
{
    if dirs.len() == 0 {
        acc
    } else {
        let a = merge_mod_dirs(acc, dirs.drop_last());
        if starts_with_char(dirs.last(), '@') {
            push_absent(a, dirs.last())
        } else {
            a
        }
    }
}

/// The mods that one selector turns `acc` into; `dirs` are the directories
/// of the working directory.
pub open spec fn expand_step(acc: Seq<Seq<char>>, sel: Seq<char>, dirs: Seq<Seq<char>>) -> Seq<
    Seq<char>,
> {
    if sel == "*"@ {
        merge_mod_dirs(acc, dirs)
    } else if starts_with_char(sel, '-') {
        let name = trim_start(sel, "-"@);
        if starts_with_char(name, '@') {
            remove_first(acc, name)
        } else {
            acc
        }
    } else {
        push_absent(acc, sel)
    }
}

/// The mods that a pack's selectors resolve to, in order.
pub open spec fn expand_pack(sels: Seq<Seq<char>>, dirs: Seq<Seq<char>>) -> Seq<Seq<char>>
    decreases sels.len(),
{
    if sels.len() == 0 {
        Seq::empty()
    } else {
        expand_step(expand_pack(sels.drop_last(), dirs), sels.last(), dirs)
    }
}

/// The mods of all packs, each once, in order of first appearance.
pub open spec fn mods_of_packs(packs: Seq<(String, Pack)>, dirs: Seq<Seq<char>>) -> Seq<Seq<char>>
    decreases packs.len(),
{
    if packs.len() == 0 {
        Seq::empty()
    } else {
        merge(
            mods_of_packs(packs.drop_last(), dirs),
            expand_pack(names_of(packs.last().1.spec_mods()), dirs),
        )
    }
}

/// Appends to `acc` each name of `xs` that it does not hold yet.
fn merge_into(acc: &mut Vec<String>, xs: &Vec<String>)
    ensures
        names_of(final(acc)@) == merge(names_of(old(acc)@), names_of(xs@)),
{
    let mut i: usize = 0;
    while i < xs.len()
        invariant
            i <= xs@.len(),
            names_of(acc@) == merge(names_of(old(acc)@), names_of(xs@).subrange(0, i as int)),
        decreases xs@.len() - i,
    {
        push_if_absent(acc, xs[i].clone());
        i = i + 1;
        assert(names_of(xs@).subrange(0, i as int).drop_last() == names_of(xs@).subrange(
            0,
            i - 1,
        ));
    }
    assert(names_of(xs@).subrange(0, xs@.len() as int) == names_of(xs@));
}

/// Appends to `acc` each name of `dirs` that starts with `@` and that it
/// does not hold yet.
fn merge_mod_dirs_into(acc: &mut Vec<String>, dirs: &Vec<String>)
    ensures
        names_of(final(acc)@) == merge_mod_dirs(names_of(old(acc)@), names_of(dirs@)),
{
    let mut i: usize = 0;
    while i < dirs.len()
        invariant
            i <= dirs@.len(),
            names_of(acc@) == merge_mod_dirs(
                names_of(old(acc)@),
                names_of(dirs@).subrange(0, i as int),
            ),
        decreases dirs@.len() - i,
    {
        if starts_with_char_exec(dirs[i].as_str(), '@') {
            push_if_absent(acc, dirs[i].clone());
        }
        i = i + 1;
        assert(names_of(dirs@).subrange(0, i as int).drop_last() == names_of(dirs@).subrange(
            0,
            i - 1,
        ));
    }
    assert(names_of(dirs@).subrange(0, dirs@.len() as int) == names_of(dirs@));
}

/// Resolves one pack's selectors against the directories `dirs`.
fn expand_selectors(sels: &[String], dirs: &Vec<String>) -> (r: Vec<String>)
    ensures
        names_of(r@) == expand_pack(names_of(sels@), names_of(dirs@)),
{
    let mut acc: Vec<String> = Vec::new();
    let mut i: usize = 0;
    proof {
        reveal_strlit("*");
        reveal_strlit("-");
    }
    while i < sels.len()
        invariant
            i <= sels@.len(),
            names_of(acc@) == expand_pack(names_of(sels@).subrange(0, i as int), names_of(dirs@)),
        decreases sels@.len() - i,
    {
        let sel = sels[i].as_str();
        assert(names_of(sels@).subrange(0, i + 1).drop_last() == names_of(sels@).subrange(0, i as int));
        if str_eq(sel, "*") {
            merge_mod_dirs_into(&mut acc, dirs);
        } else if starts_with_char_exec(sel, '-') {
            proof {
                reveal_strlit("-");
            }
            let name = trim_start_matches(sel, "-");
            if starts_with_char_exec(name, '@') {
                remove_first_match(&mut acc, name);
            }
        } else {
            push_if_absent(&mut acc, sels[i].clone());
        }
        i = i + 1;
    }
    assert(names_of(sels@).subrange(0, sels@.len() as int) == names_of(sels@));
    acc
}

impl Config {
    /// The unit.
    pub closed spec fn spec_unit(&self) -> Unit {
        self.unit
    }

    /// The packs, each under its key.
    pub closed spec fn spec_packs(&self) -> Seq<(String, Pack)> {
        self.pack@
    }

    /// The servers, each under its key.
    pub closed spec fn spec_servers(&self) -> Seq<(String, Server)> {
        self.server@
    }

    /// Whether every server's pack exists and every mod selector is lower-case.
    pub open spec fn valid(&self) -> bool {
        &&& servers_valid(self.spec_packs(), self.spec_servers())
        &&& selectors_valid(self.spec_packs())
        &&& keys_unique(self.spec_packs())
        &&& keys_unique(self.spec_servers())
    }

    /// Creates a configuration; `validate` tells whether it is valid.
    pub fn new(unit: Unit, pack: Vec<(String, Pack)>, server: Vec<(String, Server)>) -> (r: Self)
        ensures
            r.spec_unit() == unit,
            r.spec_packs() == pack@,
            r.spec_servers() == server@,
    {
        Config { unit, pack, server }
    }

    /// Splits the configuration into its unit, packs and servers.
    pub fn into_parts(self) -> (r: (Unit, Vec<(String, Pack)>, Vec<(String, Server)>))
        ensures
            r.0 == self.spec_unit(),
            r.1@ == self.spec_packs(),
            r.2@ == self.spec_servers(),
    {
        (self.unit, self.pack, self.server)
    }

    /// Gets the unit.
    pub fn unit(&self) -> (r: &Unit)
        ensures
            *r == self.spec_unit(),
    {
        &self.unit
    }

    /// The first pack stored under `name`.
    pub fn pack(&self, name: &str) -> (r: Option<&Pack>)
        ensures
            r is None ==> !has_pack_key(self.spec_packs(), name@),
            r matches Some(p) ==> exists|i: int|
                is_first_key(self.spec_packs(), name@, i) && *p == #[trigger] self.spec_packs()[i].1,
    {
        let mut i: usize = 0;
        while i < self.pack.len()
            invariant
                i <= self.pack@.len(),
                forall|j: int| 0 <= j < i ==> self.pack@[j].0@ != name@,
            decreases self.pack@.len() - i,
        {
            if str_eq(self.pack[i].0.as_str(), name) {
                assert(is_first_key(self.spec_packs(), name@, i as int) && self.pack@[i as int].1
                    == self.spec_packs()[i as int].1);
                return Some(&self.pack[i].1);
            }
            i = i + 1;
        }
        None
    }

    /// Gets the packs, each under its key.
    pub fn packs(&self) -> (r: &[(String, Pack)])
        ensures
            r@ == self.spec_packs(),
    {
        self.pack.as_slice()
    }

    /// The first server stored under `name`.
    pub fn server(&self, name: &str) -> (r: Option<&Server>)
        ensures
            r is None ==> forall|i: int|
                0 <= i < self.spec_servers().len() ==> self.spec_servers()[i].0@ != name@,
            r matches Some(s) ==> exists|i: int|
                is_first_key(self.spec_servers(), name@, i) && *s == #[trigger] self.spec_servers()[i].1,
    {
        let mut i: usize = 0;
        while i < self.server.len()
            invariant
                i <= self.server@.len(),
                forall|j: int| 0 <= j < i ==> self.server@[j].0@ != name@,
            decreases self.server@.len() - i,
        {
            if str_eq(self.server[i].0.as_str(), name) {
                assert(is_first_key(self.spec_servers(), name@, i as int) && self.server@[i as int].1
                    == self.spec_servers()[i as int].1);
                return Some(&self.server[i].1);
            }
            i = i + 1;
        }
        None
    }

    /// Gets the servers, each under its key.
    pub fn servers(&self) -> (r: &[(String, Server)])
        ensures
            r@ == self.spec_servers(),
    {
        self.server.as_slice()
    }

    /// Checks that every server's pack exists, then that every mod selector
    /// is lower-case, then that no pack key and no server key is used twice;
    /// the error describes the first violation found.
    pub fn validate(&self) -> (r: Result<(), String>)
        ensures
            r is Ok <==> self.valid(),
            r matches Err(msg) ==> {
                ||| exists|i: int|
                    0 <= i < self.spec_servers().len() && !server_ok(
                        self.spec_packs(),
                        self.spec_servers(),
                        i,
                    ) && (forall|k: int|
                        0 <= k < i ==> server_ok(self.spec_packs(), self.spec_servers(), k))
                        && msg@ == missing_pack_message(self.spec_servers()[i].1.spec_pack())
                ||| servers_valid(self.spec_packs(), self.spec_servers()) && exists|i: int, j: int|
                    0 <= i < self.spec_packs().len() && 0 <= j
                        < self.spec_packs()[i].1.spec_mods().len() && !selector_ok(
                        self.spec_packs(),
                        i,
                        j,
                    ) && msg@ == uppercase_mod_message(self.spec_packs()[i].1.spec_mods()[j]@)
                ||| servers_valid(self.spec_packs(), self.spec_servers()) && selectors_valid(
                    self.spec_packs(),
                ) && exists|j: int|
                    0 <= j < self.spec_packs().len() && repeats_key(self.spec_packs(), j) && msg@
                        == duplicate_pack_message(self.spec_packs()[j].0@)
                ||| servers_valid(self.spec_packs(), self.spec_servers()) && selectors_valid(
                    self.spec_packs(),
                ) && keys_unique(self.spec_packs()) && exists|j: int|
                    0 <= j < self.spec_servers().len() && repeats_key(self.spec_servers(), j)
                        && msg@ == duplicate_server_message(self.spec_servers()[j].0@)
            },
    {
        let mut i: usize = 0;
        while i < self.server.len()
            invariant
                i <= self.server@.len(),
                forall|k: int| 0 <= k < i ==> server_ok(self.pack@, self.server@, k),
            decreases self.server@.len() - i,
        {
            let key = self.server[i].1.pack();
            let mut found = false;
            let mut k: usize = 0;
            while k < self.pack.len()
                invariant
                    k <= self.pack@.len(),
                    found ==> has_pack_key(self.pack@, key@),
                    !found ==> forall|m: int| 0 <= m < k ==> self.pack@[m].0@ != key@,
                decreases self.pack@.len() - k,
            {
                if str_eq(self.pack[k].0.as_str(), key) {
                    found = true;
                }
                k = k + 1;
            }
            if !found {
                assert(!server_ok(self.pack@, self.server@, i as int));
                assert(!servers_valid(self.pack@, self.server@));
                let s = "Pack `".to_string();
                let s = s.concat(key);
                let s = s.concat("` does not exist");
                return Err(s);
            }
            i = i + 1;
        }
        let mut i: usize = 0;
        while i < self.pack.len()
            invariant
                i <= self.pack@.len(),
                servers_valid(self.pack@, self.server@),
                forall|a: int, b: int|
                    0 <= a < i && 0 <= b < self.pack@[a].1.spec_mods().len() ==> selector_ok(
                        self.pack@,
                        a,
                        b,
                    ),
            decreases self.pack@.len() - i,
        {
            let mods = self.pack[i].1.mods();
            let mut j: usize = 0;
            while j < mods.len()
                invariant
                    i < self.pack@.len(),
                    servers_valid(self.pack@, self.server@),
                    mods@ == self.pack@[i as int].1.spec_mods(),
                    j <= mods@.len(),
                    forall|b: int| 0 <= b < j ==> selector_ok(self.pack@, i as int, b),
                decreases mods@.len() - j,
            {
                let lower = to_lowercase(mods[j].as_str());
                if !str_eq(lower.as_str(), mods[j].as_str()) {
                    assert(!selector_ok(self.pack@, i as int, j as int));
                    assert(!selectors_valid(self.pack@));
                    let s = "Mod `".to_string();
                    let s = s.concat(mods[j].as_str());
                    let s = s.concat("` must be lowercase");
                    assert(0 <= i < self.spec_packs().len() && 0 <= j
                        < self.spec_packs()[i as int].1.spec_mods().len() && !selector_ok(
                        self.spec_packs(),
                        i as int,
                        j as int,
                    ) && s@ == uppercase_mod_message(
                        self.spec_packs()[i as int].1.spec_mods()[j as int]@,
                    ));
                    return Err(s);
                }
                j = j + 1;
            }
            i = i + 1;
        }
        if let Some(j) = first_repeated_key(&self.pack) {
            let s = "Pack `".to_string();
            let s = s.concat(self.pack[j].0.as_str());
            let s = s.concat("` is defined twice");
            return Err(s);
        }
        if let Some(j) = first_repeated_key(&self.server) {
            let s = "Server `".to_string();
            let s = s.concat(self.server[j].0.as_str());
            let s = s.concat("` is defined twice");
            return Err(s);
        }
        Ok(())
    }

    /// The mods to scan: each pack's selectors resolved in order against
    /// `dirs`, the directories of the working directory, then all packs
    /// merged, each mod once, in order of first appearance.
    pub fn mods_to_scan(&self, dirs: &Vec<String>) -> (r: Vec<String>)
        ensures
            names_of(r@) == mods_of_packs(self.spec_packs(), names_of(dirs@)),
    {
        let mut acc: Vec<String> = Vec::new();
        let mut i: usize = 0;
        while i < self.pack.len()
            invariant
                i <= self.pack@.len(),
                names_of(acc@) == mods_of_packs(self.pack@.subrange(0, i as int), names_of(dirs@)),
            decreases self.pack@.len() - i,
        {
            let pack_mods = expand_selectors(self.pack[i].1.mods(), dirs);
            merge_into(&mut acc, &pack_mods);
            i = i + 1;
            assert(self.pack@.subrange(0, i as int).drop_last() == self.pack@.subrange(0, i - 1));
        }
        assert(self.pack@.subrange(0, self.pack@.len() as int) == self.pack@);
        acc
    }
}

} // verus!
