use data_cleaner::analyzer::{
    allocated_size, normalize_targets, truncate_to, validate_trash_target, StorageNode, StorageNodeKind,
    TargetFacts, TargetMetadata, TrashResult, TrashTarget,
};

#[test]
fn target_normalization_removes_descendants_of_selected_folders() {
    let parent = TrashTarget {
        path: "/tmp/analyzer/parent".to_string(),
        kind: StorageNodeKind::Directory,
        size: 100,
        device: 1,
        inode: 1,
    };
    let child = TrashTarget {
        path: format!("{}/child.bin", parent.path),
        kind: StorageNodeKind::File,
        size: 50,
        device: 1,
        inode: 2,
    };

    let normalized = normalize_targets(&vec![child, parent.clone()]);
    assert_eq!(normalized.len(), 1);
    assert_eq!(normalized[0].path, parent.path);
}

fn node(path: &str, kind: StorageNodeKind, children: Vec<StorageNode>) -> StorageNode {
    StorageNode { path: path.to_string(), kind, size: 1, modified: None, device: 1, inode: 1, children }
}

#[test]
fn nodes_are_found_and_named() {
    let tree = node(
        "/r",
        StorageNodeKind::Directory,
        vec![node("/r/a", StorageNodeKind::Directory, vec![node("/r/a/f.bin", StorageNodeKind::File, vec![])])],
    );
    assert_eq!(tree.find("/r/a/f.bin").unwrap().display_name(), "f.bin");
    assert!(tree.find("/elsewhere").is_none());
    assert_eq!(node("/", StorageNodeKind::Directory, vec![]).display_name(), "/");
    assert!(tree.is_directory());
    assert_eq!(allocated_size(8, 100), 4096);
    assert_eq!(allocated_size(0, 100), 100);
    assert_eq!(allocated_size(u64::MAX, 1), u64::MAX);
    let r = TrashResult { moved: vec![("/a".to_string(), 3), ("/b".to_string(), 4)], failed: vec![] };
    assert_eq!(r.bytes_moved(), 7);
}

#[test]
fn labels_are_cut_on_character_boundaries() {
    assert_eq!(truncate_to("αβγδεζηθ", 3), "αβ…");
    assert_eq!(truncate_to("short", 10), "short");
}

fn good_facts(path: &str, root: &str) -> TargetFacts {
    TargetFacts {
        canonical_root: Ok(root.to_string()),
        canonical_target: Ok(path.to_string()),
        metadata: Ok(TargetMetadata { is_symlink: false, is_dir: false, uid: 1000, device: 1, inode: 2 }),
    }
}

#[test]
fn trash_validation_protects_the_root_and_changed_items() {
    let file = TrashTarget { path: "/data/big.bin".to_string(), kind: StorageNodeKind::File, size: 5, device: 1, inode: 2 };
    assert!(validate_trash_target("/data", &file, Some("/home/a"), 1000, &good_facts("/data/big.bin", "/data")).is_ok());
    let root = TrashTarget { path: "/data".to_string(), ..file.clone() };
    assert_eq!(
        validate_trash_target("/data", &root, None, 1000, &good_facts("/data", "/data")).unwrap_err(),
        "The scan root itself and paths outside it are protected"
    );
    let home_parent = TrashTarget { path: "/data/home".to_string(), ..file.clone() };
    assert_eq!(
        validate_trash_target("/data", &home_parent, Some("/data/home/a"), 1000, &good_facts("/data/home", "/data")).unwrap_err(),
        "The home directory and its ancestors are protected"
    );
    let mut changed = good_facts("/data/big.bin", "/data");
    changed.metadata = Ok(TargetMetadata { is_symlink: false, is_dir: false, uid: 1000, device: 1, inode: 9 });
    assert_eq!(
        validate_trash_target("/data", &file, None, 1000, &changed).unwrap_err(),
        "The selected item changed after the scan; scan again first"
    );
    let mut foreign = good_facts("/data/big.bin", "/data");
    foreign.metadata = Ok(TargetMetadata { is_symlink: false, is_dir: false, uid: 0, device: 1, inode: 2 });
    assert!(validate_trash_target("/data", &file, None, 1000, &foreign).is_err());
}

#[test]
fn labels_are_truncated_on_character_boundaries() {
    // The chart allows one character per 7 pixels after an 18 pixel inset,
    // and at least three.
    let width = 40.0_f64;
    let maximum = ((width - 18.0) / 7.0).floor().max(3.0) as usize;
    assert_eq!(truncate_to("αβγδεζηθ", maximum), "αβ…");
}
