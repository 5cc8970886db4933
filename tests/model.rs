use hermes::config::Config;
use hermes::dlc::DLC;
use hermes::file::{File, Part, PboEntry};
use hermes::layer::{lowercase_name, Layer};
use hermes::pack::Pack;
use hermes::password::Password;
use hermes::repository::{BlobError, Mod, Repository};
use hermes::server::Server;
use hermes::unit::Unit;
use indexmap::IndexMap;
use hemtt_pbo::WritablePbo;
use std::io::Cursor;

fn sha(data: &[u8]) -> Vec<u8> {
    ring::digest::digest(&ring::digest::SHA256, data).as_ref().to_vec()
}

fn hex(b: &[u8]) -> String {
    b.iter().map(|x| format!("{x:02x}")).collect()
}

fn generic(name: &str, bytes: &[u8]) -> File {
    File::generic_from_bytes(name.to_string(), bytes)
}

#[test]
fn generic_file_hash_of_hello() {
    let f = File::from_bytes("readme.txt".to_string(), b"hello\n").unwrap();
    match &f {
        File::Generic { name, size, hash } => {
            assert_eq!(name, "readme.txt");
            assert_eq!(*size, 6);
            assert_eq!(
                hex(hash),
                "5891b5b522d5df086d0ff0b110fbd9d21bb4fc7163af34d08286a2e846f6be03"
            );
        }
        File::Pbo { .. } => panic!("not a pbo"),
    }
    assert_eq!(f.name(), "readme.txt");
}

#[test]
fn layer_hash_covers_files_then_layers() {
    let sub = Layer::new("addons".to_string(), vec![generic("b.txt", b"b")], vec![]);
    let sub_hash = sub.hash().to_vec();
    let l = Layer::new("@m".to_string(), vec![generic("a.txt", b"a")], vec![sub]);
    let mut input = Vec::new();
    input.extend_from_slice(b"a.txt");
    input.extend_from_slice(&sha(b"a"));
    input.extend_from_slice(b"addons");
    input.extend_from_slice(&sub_hash);
    assert_eq!(l.hash(), sha(&input).as_slice());
    assert_eq!(l.name(), "@m");
    assert_eq!(l.files().len(), 1);
    assert_eq!(l.layers().len(), 1);
}

#[test]
fn empty_layer_hash_is_digest_of_nothing() {
    let l = Layer::new("x".to_string(), vec![], vec![]);
    assert_eq!(l.hash(), sha(b"").as_slice());
}

#[test]
fn mod_and_repository_hashes() {
    let m1 = Mod::new("@a".to_string(), Layer::new("@a".to_string(), vec![generic("f", b"1")], vec![]));
    let m2 = Mod::new("@b".to_string(), Layer::new("@b".to_string(), vec![], vec![]));
    assert_eq!(m1.hash(), m1.root().hash());
    let mut input = m1.hash().to_vec();
    input.extend_from_slice(m2.hash());
    let unit = Unit::new("Unit".to_string(), Some("42".to_string()));
    let r = Repository::new(unit, vec![m1, m2], vec![], vec![], 77);
    assert_eq!(r.hash(), sha(&input).as_slice());
    assert_eq!(r.version(), 1);
    assert_eq!(r.time(), 77);
    assert_eq!(r.mods().len(), 2);
    assert_eq!(r.unit().name(), "Unit");
    assert_eq!(r.unit().id().map(|s| s.as_str()), Some("42"));
}

#[test]
fn blob_prefix_and_round_trip() {
    let m = Mod::new("@a".to_string(), Layer::new("@a".to_string(), vec![], vec![]));
    let r = Repository::new(Unit::new("u".to_string(), None), vec![m], vec![], vec![], 1);
    let body = vec![9u8, 8, 7];
    let blob = r.to_blob(&body);
    assert_eq!(blob[0], 1);
    assert_eq!(&blob[1..33], r.hash());
    assert_eq!(&blob[33..], &body[..]);
    assert_eq!(Repository::from_blob(&blob), Ok(body));
}

#[test]
fn blob_with_other_version_is_refused() {
    let mut blob = vec![2u8];
    blob.extend_from_slice(&[0u8; 40]);
    assert_eq!(Repository::from_blob(&blob), Err(BlobError::UnsupportedVersion(2)));
    assert_eq!(Repository::from_blob(&[]), Err(BlobError::Truncated));
    assert_eq!(Repository::from_blob(&[1u8; 10]), Err(BlobError::Truncated));
}

fn pack(name: &str, mods: &[&str]) -> Pack {
    Pack::new(name.to_string(), mods.iter().map(|s| s.to_string()).collect(), vec![])
}

fn server(pack: &str) -> Server {
    Server::new(
        "s".to_string(),
        "host".to_string(),
        2302,
        Password::new("pw".to_string()),
        pack.to_string(),
        true,
    )
}

#[test]
fn pack_expansion_with_star_and_removal() {
    let c = Config::new(
        Unit::new("u".to_string(), None),
        vec![("base".to_string(), pack("base", &["*", "-@b"]))],
        vec![],
    );
    let dirs = vec!["@a".to_string(), "@b".to_string(), "@c".to_string(), "other".to_string()];
    assert_eq!(c.mods_to_scan(&dirs), vec!["@a".to_string(), "@c".to_string()]);
}

#[test]
fn packs_merge_each_mod_once() {
    let c = Config::new(
        Unit::new("u".to_string(), None),
        vec![
            ("base".to_string(), pack("base", &["@x", "@y", "@x"])),
            ("extra".to_string(), pack("extra", &["@y", "@z", "--@x"])),
        ],
        vec![],
    );
    assert_eq!(
        c.mods_to_scan(&vec![]),
        vec!["@x".to_string(), "@y".to_string(), "@z".to_string()]
    );
}

#[test]
fn config_validation() {
    let ok = Config::new(
        Unit::new("u".to_string(), None),
        vec![("core".to_string(), pack("Core", &["@a"]))],
        vec![("main".to_string(), server("core"))],
    );
    assert_eq!(ok.validate(), Ok(()));
    assert_eq!(ok.pack("core").map(|p| p.name()), Some("Core"));
    assert!(ok.pack("nope").is_none());
    assert_eq!(ok.server("main").map(|s| s.pack()), Some("core"));
    let missing = Config::new(
        Unit::new("u".to_string(), None),
        vec![("core".to_string(), pack("Core", &["@a"]))],
        vec![("main".to_string(), server("extra"))],
    );
    assert_eq!(missing.validate(), Err("Pack `extra` does not exist".to_string()));
    let upper = Config::new(
        Unit::new("u".to_string(), None),
        vec![("core".to_string(), pack("Core", &["@a", "@Big"]))],
        vec![],
    );
    assert_eq!(upper.validate(), Err("Mod `@Big` must be lowercase".to_string()));
}

#[test]
fn config_keys_must_be_unique() {
    let twice = Config::new(
        Unit::new("u".to_string(), None),
        vec![
            ("core".to_string(), pack("Core", &["@a"])),
            ("core".to_string(), pack("Other", &["@b"])),
        ],
        vec![],
    );
    assert_eq!(twice.validate(), Err("Pack `core` is defined twice".to_string()));
    let servers_twice = Config::new(
        Unit::new("u".to_string(), None),
        vec![("core".to_string(), pack("Core", &["@a"]))],
        vec![("main".to_string(), server("core")), ("main".to_string(), server("core"))],
    );
    assert_eq!(servers_twice.validate(), Err("Server `main` is defined twice".to_string()));
}

#[test]
fn repository_from_config_flattens_servers() {
    let c = Config::new(
        Unit::new("u".to_string(), None),
        vec![("core".to_string(), pack("Core", &["@a"]))],
        vec![("one".to_string(), server("core")), ("two".to_string(), server("core"))],
    );
    let r = Repository::from_config(c, vec![], 5);
    assert_eq!(r.servers().len(), 2);
    assert_eq!(r.packs().len(), 1);
    assert_eq!(r.packs()[0].0, "core");
    assert_eq!(r.hash(), sha(b"").as_slice());
}

#[test]
fn dlc_tags_and_names() {
    assert_eq!(DLC::Contact.to_mod(), "enoch");
    assert_eq!(DLC::GlobalMobilization.to_mod(), "gm");
    assert_eq!(DLC::PrairieFire.to_mod(), "vn");
    assert_eq!(DLC::IronCurtain.to_mod(), "csla");
    assert_eq!(DLC::WesternSahara.to_mod(), "ws");
    assert_eq!(DLC::ReactionForces.to_mod(), "rf");
    assert_eq!(DLC::PrairieFire.to_string(), "S.O.G. Prairie Fire");
    assert_eq!(DLC::try_from("Creator DLC: Western Sahara".to_string()), Ok(DLC::WesternSahara));
    assert_eq!(DLC::try_from("CONTACT".to_string()), Ok(DLC::Contact));
    assert_eq!(DLC::try_from("sog".to_string()), Ok(DLC::PrairieFire));
    assert_eq!(DLC::try_from("apex".to_string()), Err(()));
}

#[test]
fn lowercase_rename_decision() {
    assert_eq!(lowercase_name("Addons"), Some("addons".to_string()));
    assert_eq!(lowercase_name("addons"), None);
}

#[test]
fn pbo_from_entries_hashes_props_then_parts() {
    let mut props = IndexMap::new();
    props.insert("prefix".to_string(), "x".to_string());
    let entries = vec![
        PboEntry { name: "a.sqf".to_string(), data: b"one".to_vec(), offset: 10 },
        PboEntry { name: "b.sqf".to_string(), data: b"two".to_vec(), offset: 13 },
    ];
    let f = File::pbo_from_entries("x.pbo".to_string(), 99, props, &entries);
    let mut input = Vec::new();
    input.extend_from_slice(b"prefixx");
    input.extend_from_slice(b"a.sqf");
    input.extend_from_slice(&sha(b"one"));
    input.extend_from_slice(b"b.sqf");
    input.extend_from_slice(&sha(b"two"));
    match &f {
        File::Pbo { parts, size, hash, props, .. } => {
            assert_eq!(*size, 99);
            assert_eq!(props.get("prefix").map(|s| s.as_str()), Some("x"));
            assert_eq!(parts.len(), 2);
            assert_eq!(parts[1].name(), "b.sqf");
            assert_eq!(parts[1].hash(), sha(b"two").as_slice());
            assert_eq!(parts[1].offset(), 13);
            assert_eq!(hash, &sha(&input));
        }
        File::Generic { .. } => panic!("expected a pbo"),
    }
}

#[test]
fn pbo_read_from_archive_bytes() {
    let mut w: WritablePbo<Cursor<Vec<u8>>> = WritablePbo::new();
    w.add_property("prefix", "z");
    w.add_file("b.txt", Cursor::new(b"bee".to_vec())).unwrap();
    w.add_file("a.txt", Cursor::new(b"ay".to_vec())).unwrap();
    let mut out = Vec::new();
    w.write(&mut out, true).unwrap();
    let f = File::from_bytes("Z.pbo".to_string(), &out).unwrap();
    match &f {
        File::Pbo { name, size, props, parts, .. } => {
            assert_eq!(name, "Z.pbo");
            assert_eq!(*size as usize, out.len());
            assert_eq!(props.get("prefix").map(|s| s.as_str()), Some("z"));
            let names: Vec<&str> = parts.iter().map(|p| p.name()).collect();
            assert_eq!(names, vec!["a.txt", "b.txt"]);
            assert_eq!(parts[0].hash(), sha(b"ay").as_slice());
            assert_eq!(parts[1].hash(), sha(b"bee").as_slice());
            let off = parts[0].offset() as usize;
            assert_eq!(&out[off..off + 2], b"ay");
        }
        File::Generic { .. } => panic!("expected a pbo"),
    }
    assert!(File::from_bytes("bad.pbo".to_string(), b"not an archive").is_err());
}

#[test]
fn pbo_with_non_utf8_header_is_refused() {
    let mut bytes = vec![0xffu8, 0xfe, 0];
    bytes.extend_from_slice(&[0u8; 40]);
    assert!(!hermes::pbo::pbo_header_readable(&bytes));
    assert!(File::from_bytes("broken.pbo".to_string(), &bytes).is_err());
}

#[test]
fn part_accessors() {
    let p = Part::new("n".to_string(), vec![1, 2], 7);
    let q = p.duplicate();
    assert_eq!(q, p);
    assert_eq!(q.offset(), 7);
}
