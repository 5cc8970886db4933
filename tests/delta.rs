use hermes::delta::{FileDelta, ModDelta};
use hermes::file::{File, Part};
use hermes::layer::Layer;
use hermes::repository::Mod;
use indexmap::IndexMap;

fn generic(name: &str, bytes: &[u8]) -> File {
    File::generic_from_bytes(name.to_string(), bytes)
}

fn part(name: &str, h: u8) -> Part {
    Part::new(name.to_string(), vec![h; 32], u64::from(h))
}

fn pbo(name: &str, parts: Vec<Part>, tag: u8) -> File {
    File::new_pbo(name.to_string(), 100, IndexMap::new(), parts, vec![tag; 32])
}

fn tree(readme: &[u8]) -> Mod {
    let addons = Layer::new(
        "addons".to_string(),
        vec![generic("main.pbo.bisign", b"sig"), generic("config.cpp", b"cfg")],
        vec![],
    );
    Mod::new(
        "@m".to_string(),
        Layer::new("@m".to_string(), vec![generic("readme.txt", readme)], vec![addons]),
    )
}

#[test]
fn identical_mods_are_unchanged() {
    let a = tree(b"hello\n");
    let b = tree(b"hello\n");
    assert!(matches!(ModDelta::new(&a, &b), Ok(ModDelta::Unchanged)));
    assert!(matches!(ModDelta::new(&a, &a), Ok(ModDelta::Unchanged)));
}

#[test]
fn one_changed_generic_file_gives_one_key() {
    let a = tree(b"hello\n");
    let b = tree(b"bye\n");
    match ModDelta::new(&a, &b) {
        Ok(ModDelta::Changed(map)) => {
            assert_eq!(map.len(), 1);
            assert!(matches!(map.get("readme.txt"), Some(FileDelta::GenericChanged)));
        }
        _ => panic!("expected a change"),
    }
}

#[test]
fn nested_change_is_keyed_by_path() {
    let a = tree(b"x");
    let addons = Layer::new(
        "addons".to_string(),
        vec![generic("main.pbo.bisign", b"sig2"), generic("config.cpp", b"cfg")],
        vec![],
    );
    let b = Mod::new(
        "@m".to_string(),
        Layer::new("@m".to_string(), vec![generic("readme.txt", b"x")], vec![addons]),
    );
    match ModDelta::new(&a, &b) {
        Ok(ModDelta::Changed(map)) => {
            assert_eq!(map.len(), 1);
            assert!(matches!(map.get("addons/main.pbo.bisign"), Some(FileDelta::GenericChanged)));
        }
        _ => panic!("expected a change"),
    }
}

#[test]
fn added_and_removed_files_and_layers() {
    let a = Mod::new(
        "@m".to_string(),
        Layer::new(
            "@m".to_string(),
            vec![generic("gone.txt", b"1"), generic("kept.txt", b"2")],
            vec![Layer::new("old".to_string(), vec![], vec![])],
        ),
    );
    let b = Mod::new(
        "@m".to_string(),
        Layer::new(
            "@m".to_string(),
            vec![generic("kept.txt", b"2"), generic("fresh.txt", b"3")],
            vec![Layer::new("new".to_string(), vec![], vec![])],
        ),
    );
    match ModDelta::new(&a, &b) {
        Ok(ModDelta::Changed(map)) => {
            assert_eq!(map.len(), 4);
            assert!(matches!(map.get("gone.txt"), Some(FileDelta::Deleted)));
            assert!(matches!(map.get("fresh.txt"), Some(FileDelta::New)));
            assert!(matches!(map.get("old"), Some(FileDelta::Deleted)));
            assert!(matches!(map.get("new"), Some(FileDelta::New)));
            assert!(map.get("kept.txt").is_none());
        }
        _ => panic!("expected a change"),
    }
}

#[test]
fn pbo_changes_are_reported_per_part() {
    let old = pbo("data.pbo", vec![part("A", 1), part("B", 2), part("C", 3)], 1);
    let new = pbo("data.pbo", vec![part("A", 1), part("B", 9), part("D", 4)], 2);
    let a = Mod::new("@m".to_string(), Layer::new("@m".to_string(), vec![old], vec![]));
    let b = Mod::new("@m".to_string(), Layer::new("@m".to_string(), vec![new], vec![]));
    match ModDelta::new(&a, &b) {
        Ok(ModDelta::Changed(map)) => match map.get("data.pbo") {
            Some(FileDelta::PboChanged { changed, added, removed, .. }) => {
                assert_eq!(changed, &vec![part("B", 9)]);
                assert_eq!(added, &vec![part("D", 4)]);
                assert_eq!(removed, &vec!["C".to_string()]);
            }
            _ => panic!("expected a pbo change"),
        },
        _ => panic!("expected a change"),
    }
}

#[test]
fn pbo_replaced_by_generic_is_generic_change() {
    let old = pbo("data.pbo", vec![part("A", 1)], 1);
    let a = Mod::new("@m".to_string(), Layer::new("@m".to_string(), vec![old], vec![]));
    let b = Mod::new(
        "@m".to_string(),
        Layer::new("@m".to_string(), vec![generic("data.pbo", b"raw")], vec![]),
    );
    match ModDelta::new(&a, &b) {
        Ok(ModDelta::Changed(map)) => {
            assert!(matches!(map.get("data.pbo"), Some(FileDelta::GenericChanged)));
        }
        _ => panic!("expected a change"),
    }
}
