//! The delta engine: how a mod changed between two builds, down to files and
//! PBO parts.

use vstd::prelude::*;
use vstd::hash_map::StringHashMap;
use indexmap::IndexMap;
use crate::bytes::bytes_eq;
use crate::file::{File, Part};
use crate::layer::Layer;
use crate::names::{index_of, lemma_index_of, lemma_index_of_step, lemma_index_of_unique};
use crate::pbo::{clone_props, props_of};
use crate::repository::Mod;
use crate::text::str_eq;

verus! {

broadcast use vstd::std_specs::vec::group_vec_axioms;

/// How a file changed between updates.
#[derive(Debug)]
pub enum FileDelta {
    /// A file has been added to a mod.
    New,
    /// A file has been removed from a mod.
    Deleted,
    /// A generic file has been changed.
    GenericChanged,
    /// A PBO file has been changed.
    PboChanged {
        /// The props in the new PBO file.
        props: IndexMap<String, String>,
        /// The parts on both sides whose hash changed, as they are in the new file.
        changed: Vec<Part>,
        /// The parts only in the new file.
        added: Vec<Part>,
        /// The names of the parts only in the old file.
        removed: Vec<String>,
    },
}

/// A part as plain values: name, hash and offset.
pub type PartView = (Seq<char>, Seq<u8>, u64);

/// What a file delta says.
pub enum DeltaView {
    /// Added.
    New,
    /// Removed.
    Deleted,
    /// A generic file changed.
    GenericChanged,
    /// A PBO changed.
    PboChanged {
        /// The new file's properties.
        props: Seq<(Seq<char>, Seq<char>)>,
        /// The changed parts, as in the new file.
        changed: Seq<PartView>,
        /// The added parts.
        added: Seq<PartView>,
        /// The names of the removed parts.
        removed: Seq<Seq<char>>,
    },
}

/// A part's name, hash and offset.
pub open spec fn part_view(p: Part) -> PartView {
    (p.spec_name(), p.spec_hash(), p.spec_offset())
}

/// The names of some parts.
pub open spec fn part_names(ps: Seq<Part>) -> Seq<Seq<char>> {
    ps.map_values(|p: Part| p.spec_name())
}

/// The names of some files.
pub open spec fn file_names(fs: Seq<File>) -> Seq<Seq<char>> {
    fs.map_values(|f: File| f.spec_name())
}

/// The names of some layers.
pub open spec fn layer_names(ls: Seq<Layer>) -> Seq<Seq<char>> {
    ls.map_values(|l: Layer| l.spec_name())
}

impl View for FileDelta {
    type V = DeltaView;

    open spec fn view(&self) -> DeltaView {
        match self {
            FileDelta::New => DeltaView::New,
            FileDelta::Deleted => DeltaView::Deleted,
            FileDelta::GenericChanged => DeltaView::GenericChanged,
            FileDelta::PboChanged { props, changed, added, removed } => DeltaView::PboChanged {
                props: props_of(*props),
                changed: changed@.map_values(|p: Part| part_view(p)),
                added: added@.map_values(|p: Part| part_view(p)),
                removed: removed@.map_values(|n: String| n@),
            },
        }
    }
}

/// The parts present on both sides whose hash differs, as they are in
/// `news`, in the order of `olds`.
pub open spec fn changed_parts(olds: Seq<Part>, news: Seq<Part>) -> Seq<PartView>
    decreases olds.len(),
{
    if olds.len() == 0 {
        Seq::empty()
    } else {
        let prev = changed_parts(olds.drop_last(), news);
        let k = index_of(part_names(news), olds.last().spec_name());
        if k >= 0 && news[k].spec_hash() != olds.last().spec_hash() {
            prev.push(part_view(news[k]))
        } else {
            prev
        }
    }
}

/// The names of the parts of `olds` that `news` lacks, in order.
pub open spec fn removed_parts(olds: Seq<Part>, news: Seq<Part>) -> Seq<Seq<char>>
    decreases olds.len(),
{
    if olds.len() == 0 {
        Seq::empty()
    } else {
        let prev = removed_parts(olds.drop_last(), news);
        if part_names(news).contains(olds.last().spec_name()) {
            prev
        } else {
            prev.push(olds.last().spec_name())
        }
    }
}

/// The parts of `news` whose name `olds` lacks, in order.
pub open spec fn added_parts(olds: Seq<Part>, news: Seq<Part>) -> Seq<PartView>
    decreases news.len(),
{
    if news.len() == 0 {
        Seq::empty()
    } else {
        let prev = added_parts(olds, news.drop_last());
        if part_names(olds).contains(news.last().spec_name()) {
            prev
        } else {
            prev.push(part_view(news.last()))
        }
    }
}

/// How a file whose hash changed is reported: part by part when both sides
/// are PBOs, as a whole otherwise.
pub open spec fn file_change(old: File, new: File) -> DeltaView {
    match (old, new) {
        (File::Pbo { parts: op, .. }, File::Pbo { props, parts: np, .. }) => DeltaView::PboChanged {
            props: props_of(props),
            changed: changed_parts(op@, np@),
            added: added_parts(op@, np@),
            removed: removed_parts(op@, np@),
        },
        _ => DeltaView::GenericChanged,
    }
}

/// `m` with the changes of the files of `olds` recorded under `prefix`:
/// each one missing from `news` is deleted, each one whose hash differs changed.
pub open spec fn old_files_delta(
    m: Map<Seq<char>, DeltaView>,
    olds: Seq<File>,
    news: Seq<File>,
    prefix: Seq<char>,
) -> Map<Seq<char>, DeltaView>
    decreases olds.len(),
{
    if olds.len() == 0 {
        m
    } else {
        let m1 = old_files_delta(m, olds.drop_last(), news, prefix);
        let f = olds.last();
        let k = index_of(file_names(news), f.spec_name());
        if k < 0 {
            m1.insert(prefix + f.spec_name(), DeltaView::Deleted)
        } else if news[k].spec_hash() == f.spec_hash() {
            m1
        } else {
            m1.insert(prefix + f.spec_name(), file_change(f, news[k]))
        }
    }
}

/// `m` with each file of `news` whose name `olds` lacks recorded as new under `prefix`.
pub open spec fn new_files_delta(
    m: Map<Seq<char>, DeltaView>,
    olds: Seq<File>,
    news: Seq<File>,
    prefix: Seq<char>,
) -> Map<Seq<char>, DeltaView>
    decreases news.len(),
{
    if news.len() == 0 {
        m
    } else {
        let m1 = new_files_delta(m, olds, news.drop_last(), prefix);
        if file_names(olds).contains(news.last().spec_name()) {
            m1
        } else {
            m1.insert(prefix + news.last().spec_name(), DeltaView::New)
        }
    }
}

/// `m` with each layer of `news` whose name `olds` lacks recorded as new under `prefix`.
pub open spec fn new_layers_delta(
    m: Map<Seq<char>, DeltaView>,
    olds: Seq<Layer>,
    news: Seq<Layer>,
    prefix: Seq<char>,
) -> Map<Seq<char>, DeltaView>
    decreases news.len(),
{
    if news.len() == 0 {
        m
    } else {
        let m1 = new_layers_delta(m, olds, news.drop_last(), prefix);
        if layer_names(olds).contains(news.last().spec_name()) {
            m1
        } else {
            m1.insert(prefix + news.last().spec_name(), DeltaView::New)
        }
    }
}

/// `m` with the first `n` sub-layers of `old` compared: one missing from
/// `new` is deleted, one present is compared under its own path.
pub open spec fn old_layers_delta(
    m: Map<Seq<char>, DeltaView>,
    old: Layer,
    new: Layer,
    prefix: Seq<char>,
    n: int,
) -> Map<Seq<char>, DeltaView>
    decreases old, n
    via old_layers_delta_decreases
{
    if n <= 0 || n > old.spec_layers().len() {
        m
    } else {
        let m1 = old_layers_delta(m, old, new, prefix, n - 1);
        let ol = old.spec_layers()[n - 1];
        let k = index_of(layer_names(new.spec_layers()), ol.spec_name());
        if k < 0 {
            m1.insert(prefix + ol.spec_name(), DeltaView::Deleted)
        } else {
            layer_delta(m1, ol, new.spec_layers()[k], prefix + ol.spec_name() + "/"@)
        }
    }
}

#[via_fn]
proof fn old_layers_delta_decreases(
    m: Map<Seq<char>, DeltaView>,
    old: Layer,
    new: Layer,
    prefix: Seq<char>,
    n: int,
) {
    if 0 < n <= old.spec_layers().len() {
        old.lemma_sub_layer_decreases(n - 1);
    }
}

/// `m` with every difference between two layers recorded, each under its
/// path: `prefix`, then the names of the layers down to the file.
pub open spec fn layer_delta(
    m: Map<Seq<char>, DeltaView>,
    old: Layer,
    new: Layer,
    prefix: Seq<char>,
) -> Map<Seq<char>, DeltaView>
    decreases old, old.spec_layers().len() + 1,
{
    let m1 = old_files_delta(m, old.spec_files(), new.spec_files(), prefix);
    let m2 = new_files_delta(m1, old.spec_files(), new.spec_files(), prefix);
    let m3 = old_layers_delta(m2, old, new, prefix, old.spec_layers().len() as int);
    new_layers_delta(m3, old.spec_layers(), new.spec_layers(), prefix)
}

/// What each delta of a map says.
pub open spec fn view_map(m: Map<Seq<char>, FileDelta>) -> Map<Seq<char>, DeltaView> {
    m.map_values(|d: FileDelta| d@)
}

/// The changes of a mod whose hash changed, each under its path from the mod root.
pub open spec fn mod_changes(old: Mod, new: Mod) -> Map<Seq<char>, DeltaView> {
    layer_delta(Map::empty(), old.spec_root(), new.spec_root(), Seq::empty())
}

proof fn lemma_view_insert(m: Map<Seq<char>, FileDelta>, k: Seq<char>, v: FileDelta)
    ensures
        view_map(m.insert(k, v)) == view_map(m).insert(k, v@),
{
    assert(view_map(m.insert(k, v)) =~= view_map(m).insert(k, v@));
}

/// The first part of `parts` called `name`.
fn find_part(parts: &Vec<Part>, name: &str) -> (r: Option<usize>)
    ensures
        r matches Some(k) ==> k == index_of(part_names(parts@), name@) && k < parts@.len(),
        r is None ==> index_of(part_names(parts@), name@) < 0,
{
    let ghost names = part_names(parts@);
    let mut i: usize = 0;
    while i < parts.len()
        invariant
            i <= parts@.len(),
            names == part_names(parts@),
            index_of(names.subrange(0, i as int), name@) < 0,
        decreases parts@.len() - i,
    {
        proof {
            lemma_index_of_step(names, name@, i as int);
        }
        if str_eq(parts[i].name(), name) {
            return Some(i);
        }
        i = i + 1;
    }
    assert(names.subrange(0, i as int) == names);
    None
}

/// The first file of `files` called `name`.
fn find_file(files: &[File], name: &str) -> (r: Option<usize>)
    ensures
        r matches Some(k) ==> k == index_of(file_names(files@), name@) && k < files@.len(),
        r is None ==> index_of(file_names(files@), name@) < 0,
{
    let ghost names = file_names(files@);
    let mut i: usize = 0;
    while i < files.len()
        invariant
            i <= files@.len(),
            names == file_names(files@),
            index_of(names.subrange(0, i as int), name@) < 0,
        decreases files@.len() - i,
    {
        proof {
            lemma_index_of_step(names, name@, i as int);
        }
        if str_eq(files[i].name(), name) {
            return Some(i);
        }
        i = i + 1;
    }
    assert(names.subrange(0, i as int) == names);
    None
}

/// The first layer of `layers` called `name`.
fn find_layer(layers: &[Layer], name: &str) -> (r: Option<usize>)
    ensures
        r matches Some(k) ==> k == index_of(layer_names(layers@), name@) && k < layers@.len(),
        r is None ==> index_of(layer_names(layers@), name@) < 0,
{
    let ghost names = layer_names(layers@);
    let mut i: usize = 0;
    while i < layers.len()
        invariant
            i <= layers@.len(),
            names == layer_names(layers@),
            index_of(names.subrange(0, i as int), name@) < 0,
        decreases layers@.len() - i,
    {
        proof {
            lemma_index_of_step(names, name@, i as int);
        }
        if str_eq(layers[i].name(), name) {
            return Some(i);
        }
        i = i + 1;
    }
    assert(names.subrange(0, i as int) == names);
    None
}

/// The parts present on both sides whose hash changed, as in `news`.
fn diff_changed(olds: &Vec<Part>, news: &Vec<Part>) -> (r: Vec<Part>)
    ensures
        r@.map_values(|p: Part| part_view(p)) == changed_parts(olds@, news@),
{
    let mut out: Vec<Part> = Vec::new();
    let mut i: usize = 0;
    while i < olds.len()
        invariant
            i <= olds@.len(),
            out@.map_values(|p: Part| part_view(p)) == changed_parts(
                olds@.subrange(0, i as int),
                news@,
            ),
        decreases olds@.len() - i,
    {
        let ghost pre = olds@.subrange(0, i as int);
        assert(olds@.subrange(0, i + 1).drop_last() == pre);
        match find_part(news, olds[i].name()) {
            Some(k) => {
                if !bytes_eq(news[k].hash(), olds[i].hash()) {
                    let ghost before = out@;
                    out.push(news[k].duplicate());
                    assert(out@.map_values(|p: Part| part_view(p)) == before.map_values(
                        |p: Part| part_view(p),
                    ).push(part_view(news@[k as int])));
                }
            },
            None => {},
        }
        i = i + 1;
    }
    assert(olds@.subrange(0, olds@.len() as int) == olds@);
    out
}

/// The names of the parts of `olds` that `news` lacks.
fn diff_removed(olds: &Vec<Part>, news: &Vec<Part>) -> (r: Vec<String>)
    ensures
        r@.map_values(|n: String| n@) == removed_parts(olds@, news@),
{
    let mut out: Vec<String> = Vec::new();
    let mut i: usize = 0;
    while i < olds.len()
        invariant
            i <= olds@.len(),
            out@.map_values(|n: String| n@) == removed_parts(olds@.subrange(0, i as int), news@),
        decreases olds@.len() - i,
    {
        let ghost pre = olds@.subrange(0, i as int);
        assert(olds@.subrange(0, i + 1).drop_last() == pre);
        proof {
            lemma_index_of(part_names(news@), olds@[i as int].spec_name());
        }
        if find_part(news, olds[i].name()).is_none() {
            let ghost before = out@;
            out.push(olds[i].name().to_string());
            assert(out@.map_values(|n: String| n@) == before.map_values(|n: String| n@).push(
                olds@[i as int].spec_name(),
            ));
        }
        i = i + 1;
    }
    assert(olds@.subrange(0, olds@.len() as int) == olds@);
    out
}

/// The parts of `news` whose name `olds` lacks.
fn diff_added(olds: &Vec<Part>, news: &Vec<Part>) -> (r: Vec<Part>)
    ensures
        r@.map_values(|p: Part| part_view(p)) == added_parts(olds@, news@),
{
    let mut out: Vec<Part> = Vec::new();
    let mut i: usize = 0;
    while i < news.len()
        invariant
            i <= news@.len(),
            out@.map_values(|p: Part| part_view(p)) == added_parts(
                olds@,
                news@.subrange(0, i as int),
            ),
        decreases news@.len() - i,
    {
        let ghost pre = news@.subrange(0, i as int);
        assert(news@.subrange(0, i + 1).drop_last() == pre);
        proof {
            lemma_index_of(part_names(olds@), news@[i as int].spec_name());
        }
        if find_part(olds, news[i].name()).is_none() {
            let ghost before = out@;
            out.push(news[i].duplicate());
            assert(out@.map_values(|p: Part| part_view(p)) == before.map_values(
                |p: Part| part_view(p),
            ).push(part_view(news@[i as int])));
        }
        i = i + 1;
    }
    assert(news@.subrange(0, news@.len() as int) == news@);
    out
}

/// How a file whose hash changed is reported.
fn change_of(old: &File, new: &File) -> (r: FileDelta)
    ensures
        r@ == file_change(*old, *new),
{
    match (old, new) {
        (File::Pbo { parts: op, .. }, File::Pbo { props, parts: np, .. }) => {
            FileDelta::PboChanged {
                props: clone_props(props),
                changed: diff_changed(op, np),
                added: diff_added(op, np),
                removed: diff_removed(op, np),
            }
        },
        _ => FileDelta::GenericChanged,
    }
}

/// Records in `out` every difference between the layers `before` and `after`,
/// each under `prefix` followed by its path below the layers.
fn check_layer(before: &Layer, after: &Layer, prefix: &String, out: &mut StringHashMap<FileDelta>)
    ensures
        view_map(final(out)@) == layer_delta(view_map(old(out)@), *before, *after, prefix@),
    decreases before,
{
    let ofs = before.files();
    let nfs = after.files();
    let ghost m0 = view_map(out@);
    let mut i: usize = 0;
    while i < ofs.len()
        invariant
            i <= ofs@.len(),
            ofs@ == before.spec_files(),
            nfs@ == after.spec_files(),
            view_map(out@) == old_files_delta(m0, ofs@.subrange(0, i as int), nfs@, prefix@),
        decreases ofs@.len() - i,
    {
        assert(ofs@.subrange(0, i + 1).drop_last() == ofs@.subrange(0, i as int));
        let f = &ofs[i];
        let key = prefix.clone().concat(f.name());
        match find_file(nfs, f.name()) {
            None => {
                proof {
                    lemma_view_insert(out@, key@, FileDelta::Deleted);
                }
                out.insert(key, FileDelta::Deleted);
            },
            Some(k) => {
                if !bytes_eq(nfs[k].hash(), f.hash()) {
                    let d = change_of(f, &nfs[k]);
                    proof {
                        lemma_view_insert(out@, key@, d);
                    }
                    out.insert(key, d);
                }
            },
        }
        i = i + 1;
    }
    assert(ofs@.subrange(0, ofs@.len() as int) == ofs@);
    let ghost m1 = view_map(out@);
    let mut i: usize = 0;
    while i < nfs.len()
        invariant
            i <= nfs@.len(),
            ofs@ == before.spec_files(),
            nfs@ == after.spec_files(),
            view_map(out@) == new_files_delta(m1, ofs@, nfs@.subrange(0, i as int), prefix@),
        decreases nfs@.len() - i,
    {
        assert(nfs@.subrange(0, i + 1).drop_last() == nfs@.subrange(0, i as int));
        proof {
            lemma_index_of(file_names(ofs@), nfs@[i as int].spec_name());
        }
        if find_file(ofs, nfs[i].name()).is_none() {
            let key = prefix.clone().concat(nfs[i].name());
            proof {
                lemma_view_insert(out@, key@, FileDelta::New);
            }
            out.insert(key, FileDelta::New);
        }
        i = i + 1;
    }
    assert(nfs@.subrange(0, nfs@.len() as int) == nfs@);
    let ols = before.layers();
    let nls = after.layers();
    let ghost m2 = view_map(out@);
    let mut i: usize = 0;
    while i < ols.len()
        invariant
            i <= ols@.len(),
            ols@ == before.spec_layers(),
            nls@ == after.spec_layers(),
            view_map(out@) == old_layers_delta(m2, *before, *after, prefix@, i as int),
        decreases ols@.len() - i,
    {
        let ol = &ols[i];
        match find_layer(nls, ol.name()) {
            None => {
                let key = prefix.clone().concat(ol.name());
                proof {
                    lemma_view_insert(out@, key@, FileDelta::Deleted);
                }
                out.insert(key, FileDelta::Deleted);
            },
            Some(k) => {
                let sub = prefix.clone().concat(ol.name()).concat("/");
                proof {
                    reveal_strlit("/");
                    before.lemma_sub_layer_decreases(i as int);
                }
                check_layer(ol, &nls[k], &sub, out);
            },
        }
        i = i + 1;
    }
    let ghost m3 = view_map(out@);
    let mut i: usize = 0;
    while i < nls.len()
        invariant
            i <= nls@.len(),
            ols@ == before.spec_layers(),
            nls@ == after.spec_layers(),
            view_map(out@) == new_layers_delta(m3, ols@, nls@.subrange(0, i as int), prefix@),
        decreases nls@.len() - i,
    {
        assert(nls@.subrange(0, i + 1).drop_last() == nls@.subrange(0, i as int));
        proof {
            lemma_index_of(layer_names(ols@), nls@[i as int].spec_name());
        }
        if find_layer(ols, nls[i].name()).is_none() {
            let key = prefix.clone().concat(nls[i].name());
            proof {
                lemma_view_insert(out@, key@, FileDelta::New);
            }
            out.insert(key, FileDelta::New);
        }
        i = i + 1;
    }
    assert(nls@.subrange(0, nls@.len() as int) == nls@);
}

/// How a mod changed between updates.
pub enum ModDelta {
    /// A new mod has been added.
    Added,
    /// An existing mod has changes, each under its path from the mod root.
    Changed(StringHashMap<FileDelta>),
    /// A mod has been removed.
    Removed,
    /// An existing mod has no changes.
    Unchanged,
}

impl ModDelta {
    /// Compares two builds of a mod. Equal hashes mean no change; otherwise
    /// the layers are compared, and a comparison that finds nothing also
    /// means no change.
    pub fn new(old: &Mod, new: &Mod) -> (r: Result<Self, String>)
        ensures
            r is Ok,
            old.spec_hash() == new.spec_hash() ==> r matches Ok(ModDelta::Unchanged),
            old.spec_hash() != new.spec_hash() ==> (r matches Ok(ModDelta::Unchanged) <==> mod_changes(
                *old,
                *new,
            ).is_empty()),
            r matches Ok(ModDelta::Changed(c)) ==> old.spec_hash() != new.spec_hash() && view_map(
                c@,
            ) == mod_changes(*old, *new),
            r matches Ok(d) ==> !(d is Added) && !(d is Removed),
    {
        if bytes_eq(old.hash(), new.hash()) {
            return Ok(ModDelta::Unchanged);
        }
        let mut changed: StringHashMap<FileDelta> = StringHashMap::new();
        let prefix = String::new();
        assert(view_map(changed@) == Map::<Seq<char>, DeltaView>::empty());
        check_layer(old.root(), new.root(), &prefix, &mut changed);
        if changed.is_empty() {
            Ok(ModDelta::Unchanged)
        } else {
            Ok(ModDelta::Changed(changed))
        }
    }
}

/// Whether, in `l` and in every layer below it, no two files and no two
/// sub-layers share a name, as on a file system.
pub open spec fn names_unique(l: Layer) -> bool
    decreases l, l.spec_layers().len() + 1,
{
    &&& file_names(l.spec_files()).no_duplicates()
    &&& layer_names(l.spec_layers()).no_duplicates()
    &&& sub_names_unique(l, l.spec_layers().len() as int)
}

/// Whether names are unique in each of the first `n` sub-layers of `l`.
pub open spec fn sub_names_unique(l: Layer, n: int) -> bool
    decreases l, n
    via sub_names_unique_decreases
{
    if n <= 0 || n > l.spec_layers().len() {
        true
    } else {
        sub_names_unique(l, n - 1) && names_unique(l.spec_layers()[n - 1])
    }
}

#[via_fn]
proof fn sub_names_unique_decreases(l: Layer, n: int) {
    if 0 < n <= l.spec_layers().len() {
        l.lemma_sub_layer_decreases(n - 1);
    }
}

/// Names are unique in every sub-layer of a layer where they are unique.
proof fn lemma_names_unique_sub(l: Layer, i: int)
    requires
        names_unique(l),
        0 <= i < l.spec_layers().len(),
    ensures
        names_unique(l.spec_layers()[i]),
{
    lemma_sub_names_unique(l, l.spec_layers().len() as int, i);
}

proof fn lemma_sub_names_unique(l: Layer, n: int, i: int)
    requires
        sub_names_unique(l, n),
        0 <= i < n <= l.spec_layers().len(),
    ensures
        names_unique(l.spec_layers()[i]),
    decreases n,
{
    if i < n - 1 {
        lemma_sub_names_unique(l, n - 1, i);
    }
}

/// Old files that all keep their hash record nothing.
proof fn lemma_old_files_kept(
    m: Map<Seq<char>, DeltaView>,
    fs: Seq<File>,
    fs2: Seq<File>,
    p: Seq<char>,
    n: int,
)
    requires
        file_names(fs).no_duplicates(),
        0 <= n <= fs.len(),
        fs2 == fs,
    ensures
        old_files_delta(m, fs.subrange(0, n), fs2, p) == m,
    decreases n,
{
    if n > 0 {
        lemma_old_files_kept(m, fs, fs2, p, n - 1);
        assert(fs.subrange(0, n).drop_last() == fs.subrange(0, n - 1));
        lemma_index_of_unique(file_names(fs), n - 1);
    }
}

/// New files whose names the old side has record nothing.
proof fn lemma_new_files_known(
    m: Map<Seq<char>, DeltaView>,
    olds: Seq<File>,
    news: Seq<File>,
    p: Seq<char>,
)
    requires
        forall|j: int| 0 <= j < news.len() ==> file_names(olds).contains(#[trigger] news[j].spec_name()),
    ensures
        new_files_delta(m, olds, news, p) == m,
    decreases news.len(),
{
    if news.len() > 0 {
        lemma_new_files_known(m, olds, news.drop_last(), p);
        assert(file_names(olds).contains(news[news.len() - 1].spec_name()));
    }
}

/// New layers whose names the old side has record nothing.
proof fn lemma_new_layers_known(
    m: Map<Seq<char>, DeltaView>,
    olds: Seq<Layer>,
    news: Seq<Layer>,
    p: Seq<char>,
)
    requires
        forall|j: int|
            0 <= j < news.len() ==> layer_names(olds).contains(#[trigger] news[j].spec_name()),
    ensures
        new_layers_delta(m, olds, news, p) == m,
    decreases news.len(),
{
    if news.len() > 0 {
        lemma_new_layers_known(m, olds, news.drop_last(), p);
        assert(layer_names(olds).contains(news[news.len() - 1].spec_name()));
    }
}

/// Comparing the first `n` sub-layers of `l` with the same sub-layers records nothing.
proof fn lemma_old_layers_same(
    m: Map<Seq<char>, DeltaView>,
    l: Layer,
    l2: Layer,
    p: Seq<char>,
    n: int,
)
    requires
        names_unique(l),
        l2.spec_layers() == l.spec_layers(),
        0 <= n <= l.spec_layers().len(),
    ensures
        old_layers_delta(m, l, l2, p, n) == m,
    decreases l, n,
{
    if n > 0 {
        lemma_old_layers_same(m, l, l2, p, n - 1);
        lemma_index_of_unique(layer_names(l.spec_layers()), n - 1);
        let sub = l.spec_layers()[n - 1];
        l.lemma_sub_layer_decreases(n - 1);
        lemma_names_unique_sub(l, n - 1);
        lemma_layer_same(m, sub, p + sub.spec_name() + "/"@);
    }
}

/// A layer compared with itself records nothing, whatever its hashes, when
/// names are unique in it.
pub proof fn lemma_layer_same(m: Map<Seq<char>, DeltaView>, l: Layer, p: Seq<char>)
    requires
        names_unique(l),
    ensures
        layer_delta(m, l, l, p) == m,
    decreases l, l.spec_layers().len() + 1,
{
    let fs = l.spec_files();
    lemma_old_files_kept(m, fs, fs, p, fs.len() as int);
    assert(fs.subrange(0, fs.len() as int) == fs);
    assert forall|j: int| 0 <= j < fs.len() implies file_names(fs).contains(
        #[trigger] fs[j].spec_name(),
    ) by {
        assert(file_names(fs)[j] == fs[j].spec_name());
    }
    lemma_new_files_known(m, fs, fs, p);
    lemma_old_layers_same(m, l, l, p, l.spec_layers().len() as int);
    let ls = l.spec_layers();
    assert forall|j: int| 0 <= j < ls.len() implies layer_names(ls).contains(
        #[trigger] ls[j].spec_name(),
    ) by {
        assert(layer_names(ls)[j] == ls[j].spec_name());
    }
    lemma_new_layers_known(m, ls, ls, p);
}

/// Old files of which only the `i`th changed, into a generic file of the
/// same name, record that one change.
proof fn lemma_old_files_one(
    m: Map<Seq<char>, DeltaView>,
    fs: Seq<File>,
    fs2: Seq<File>,
    p: Seq<char>,
    i: int,
    n: int,
)
    requires
        file_names(fs).no_duplicates(),
        0 <= i < fs.len(),
        0 <= n <= fs.len(),
        fs2.len() == fs.len(),
        forall|j: int| 0 <= j < fs.len() && j != i ==> fs2[j] == fs[j],
        fs2[i].spec_name() == fs[i].spec_name(),
        fs2[i].spec_hash() != fs[i].spec_hash(),
        fs2[i] is Generic,
    ensures
        old_files_delta(m, fs.subrange(0, n), fs2, p) == (if n > i {
            m.insert(p + fs[i].spec_name(), DeltaView::GenericChanged)
        } else {
            m
        }),
    decreases n,
{
    assert(file_names(fs2) =~= file_names(fs));
    if n > 0 {
        lemma_old_files_one(m, fs, fs2, p, i, n - 1);
        assert(fs.subrange(0, n).drop_last() == fs.subrange(0, n - 1));
        lemma_index_of_unique(file_names(fs), n - 1);
    }
}

/// Delta locality, in the layer that holds the file: when the only
/// difference between two layers is that one file was replaced by a generic
/// file of the same name with another hash, the comparison records exactly
/// one key, the file's path, as a generic change.
pub proof fn lemma_one_generic_file_changed(
    m: Map<Seq<char>, DeltaView>,
    l: Layer,
    l2: Layer,
    p: Seq<char>,
    i: int,
)
    requires
        names_unique(l),
        0 <= i < l.spec_files().len(),
        l2.spec_files().len() == l.spec_files().len(),
        forall|j: int|
            0 <= j < l.spec_files().len() && j != i ==> l2.spec_files()[j] == l.spec_files()[j],
        l2.spec_files()[i].spec_name() == l.spec_files()[i].spec_name(),
        l2.spec_files()[i].spec_hash() != l.spec_files()[i].spec_hash(),
        l2.spec_files()[i] is Generic,
        l2.spec_layers() == l.spec_layers(),
    ensures
        layer_delta(m, l, l2, p) == m.insert(
            p + l.spec_files()[i].spec_name(),
            DeltaView::GenericChanged,
        ),
{
    let fs = l.spec_files();
    let fs2 = l2.spec_files();
    let m1 = m.insert(p + fs[i].spec_name(), DeltaView::GenericChanged);
    lemma_old_files_one(m, fs, fs2, p, i, fs.len() as int);
    assert(fs.subrange(0, fs.len() as int) == fs);
    assert(file_names(fs2) =~= file_names(fs));
    assert forall|j: int| 0 <= j < fs2.len() implies file_names(fs).contains(
        #[trigger] fs2[j].spec_name(),
    ) by {
        assert(file_names(fs)[j] == fs2[j].spec_name());
    }
    lemma_new_files_known(m1, fs, fs2, p);
    lemma_old_layers_same(m1, l, l2, p, l.spec_layers().len() as int);
    let ls = l.spec_layers();
    assert forall|j: int| 0 <= j < ls.len() implies layer_names(ls).contains(
        #[trigger] ls[j].spec_name(),
    ) by {
        assert(layer_names(ls)[j] == ls[j].spec_name());
    }
    lemma_new_layers_known(m1, ls, ls, p);
}

/// Old sub-layers of which only the `j`th differs, by one recorded change.
proof fn lemma_old_layers_one(
    m: Map<Seq<char>, DeltaView>,
    l: Layer,
    l2: Layer,
    p: Seq<char>,
    j: int,
    key: Seq<char>,
    v: DeltaView,
    n: int,
)
    requires
        names_unique(l),
        0 <= j < l.spec_layers().len(),
        0 <= n <= l.spec_layers().len(),
        l2.spec_layers().len() == l.spec_layers().len(),
        forall|k: int|
            0 <= k < l.spec_layers().len() && k != j ==> l2.spec_layers()[k] == l.spec_layers()[k],
        l2.spec_layers()[j].spec_name() == l.spec_layers()[j].spec_name(),
        forall|m0: Map<Seq<char>, DeltaView>|
            #[trigger] layer_delta(
                m0,
                l.spec_layers()[j],
                l2.spec_layers()[j],
                p + l.spec_layers()[j].spec_name() + "/"@,
            ) == m0.insert(key, v),
    ensures
        old_layers_delta(m, l, l2, p, n) == (if n > j {
            m.insert(key, v)
        } else {
            m
        }),
    decreases n,
{
    assert(layer_names(l2.spec_layers()) =~= layer_names(l.spec_layers()));
    if n > 0 {
        lemma_old_layers_one(m, l, l2, p, j, key, v, n - 1);
        lemma_index_of_unique(layer_names(l.spec_layers()), n - 1);
        let sub = l.spec_layers()[n - 1];
        let before = if n - 1 > j {
            m.insert(key, v)
        } else {
            m
        };
        assert(layer_names(l.spec_layers())[n - 1] == sub.spec_name());
        assert(index_of(layer_names(l2.spec_layers()), sub.spec_name()) == n - 1);
        if n - 1 != j {
            lemma_names_unique_sub(l, n - 1);
            lemma_layer_same(before, sub, p + sub.spec_name() + "/"@);
            assert(l2.spec_layers()[n - 1] == sub);
        } else {
            assert(layer_delta(before, sub, l2.spec_layers()[n - 1], p + sub.spec_name() + "/"@)
                == before.insert(key, v));
        }
    }
}

/// Delta locality, one level up: when the only difference between two
/// layers lies inside their `j`th sub-layer, where the comparison records
/// exactly one key, the comparison of the two layers records exactly that key.
/// With the previous law this covers a changed file at any depth.
pub proof fn lemma_change_inside_sub_layer(
    m: Map<Seq<char>, DeltaView>,
    l: Layer,
    l2: Layer,
    p: Seq<char>,
    j: int,
    key: Seq<char>,
    v: DeltaView,
)
    requires
        names_unique(l),
        0 <= j < l.spec_layers().len(),
        l2.spec_files() == l.spec_files(),
        l2.spec_layers().len() == l.spec_layers().len(),
        forall|k: int|
            0 <= k < l.spec_layers().len() && k != j ==> l2.spec_layers()[k] == l.spec_layers()[k],
        l2.spec_layers()[j].spec_name() == l.spec_layers()[j].spec_name(),
        forall|m0: Map<Seq<char>, DeltaView>|
            #[trigger] layer_delta(
                m0,
                l.spec_layers()[j],
                l2.spec_layers()[j],
                p + l.spec_layers()[j].spec_name() + "/"@,
            ) == m0.insert(key, v),
    ensures
        layer_delta(m, l, l2, p) == m.insert(key, v),
{
    let fs = l.spec_files();
    lemma_old_files_kept(m, fs, fs, p, fs.len() as int);
    assert(fs.subrange(0, fs.len() as int) == fs);
    assert forall|k: int| 0 <= k < fs.len() implies file_names(fs).contains(
        #[trigger] fs[k].spec_name(),
    ) by {
        assert(file_names(fs)[k] == fs[k].spec_name());
    }
    lemma_new_files_known(m, fs, fs, p);
    lemma_old_layers_one(m, l, l2, p, j, key, v, l.spec_layers().len() as int);
    let m1 = m.insert(key, v);
    let ls = l.spec_layers();
    let ls2 = l2.spec_layers();
    assert(layer_names(ls2) =~= layer_names(ls));
    assert forall|k: int| 0 <= k < ls2.len() implies layer_names(ls).contains(
        #[trigger] ls2[k].spec_name(),
    ) by {
        assert(layer_names(ls)[k] == ls2[k].spec_name());
    }
    lemma_new_layers_known(m1, ls, ls2, p);
}

/// Delta locality for a whole mod: when the only difference between the root
/// layers of two builds is one file replaced by a generic file of the same
/// name with another hash, the changes of the mod are exactly that file, as a
/// generic change. `ModDelta::new` then reports them as `Changed` whenever the
/// two mod hashes differ.
pub proof fn lemma_mod_one_generic_file_changed(old: Mod, new: Mod, i: int)
    requires
        names_unique(old.spec_root()),
        0 <= i < old.spec_root().spec_files().len(),
        new.spec_root().spec_files().len() == old.spec_root().spec_files().len(),
        forall|j: int|
            0 <= j < old.spec_root().spec_files().len() && j != i ==> new.spec_root().spec_files()[j]
                == old.spec_root().spec_files()[j],
        new.spec_root().spec_files()[i].spec_name() == old.spec_root().spec_files()[i].spec_name(),
        new.spec_root().spec_files()[i].spec_hash() != old.spec_root().spec_files()[i].spec_hash(),
        new.spec_root().spec_files()[i] is Generic,
        new.spec_root().spec_layers() == old.spec_root().spec_layers(),
    ensures
        mod_changes(old, new) == Map::<Seq<char>, DeltaView>::empty().insert(
            old.spec_root().spec_files()[i].spec_name(),
            DeltaView::GenericChanged,
        ),
        mod_changes(old, new).dom().len() == 1,
{
    let p = Seq::<char>::empty();
    lemma_one_generic_file_changed(Map::empty(), old.spec_root(), new.spec_root(), p, i);
    assert(p + old.spec_root().spec_files()[i].spec_name() == old.spec_root().spec_files()[i].spec_name());
    assert(Map::<Seq<char>, DeltaView>::empty().insert(
        old.spec_root().spec_files()[i].spec_name(),
        DeltaView::GenericChanged,
    ).dom() =~= set![old.spec_root().spec_files()[i].spec_name()]);
}

} // verus!
