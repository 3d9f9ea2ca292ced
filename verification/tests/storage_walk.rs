use data_cleaner::analyzer::{StorageNodeKind, StorageScanOptions};
use data_cleaner::storage_walk::{StorageAnalysisError, StorageWalk, WalkEntry};

fn options(minimum_size: u64) -> StorageScanOptions {
    StorageScanOptions { minimum_size, stay_on_filesystem: true, max_children_per_directory: 500 }
}

fn file(path: &str, len: u64, links: u64, inode: u64) -> WalkEntry {
    WalkEntry::File { path: path.to_string(), blocks: 0, len, links, device: 1, inode, modified: None }
}

fn dir(path: &str, inode: u64) -> WalkEntry {
    WalkEntry::Directory { path: path.to_string(), blocks: 8, len: 4096, device: 1, inode, modified: None }
}

#[test]
fn cancellation_stops_before_scanning() {
    let mut walk = StorageWalk::start("/tmp/scan".to_string(), true, false, StorageScanOptions::default()).unwrap();
    let error = walk.visit(true, dir("/tmp/scan", 1)).unwrap_err();
    assert!(matches!(error, StorageAnalysisError::Cancelled));
}

#[test]
fn scan_aggregates_directories_and_filters_small_files() {
    let mut walk = StorageWalk::start("/tmp/scan".to_string(), true, false, options(8 * 1024)).unwrap();
    for entry in [
        file("/tmp/scan/nested/large.bin", 16 * 1024, 1, 10),
        file("/tmp/scan/nested/small.bin", 5, 1, 11),
        dir("/tmp/scan/nested", 2),
        dir("/tmp/scan", 1),
    ] {
        walk.visit(false, entry).unwrap();
    }
    let analysis = walk.finish().unwrap();
    let nested = analysis.root.find("/tmp/scan/nested").unwrap();
    // 16 KiB + 5 bytes of files + 4 KiB of the directory itself.
    assert_eq!(nested.size, 16 * 1024 + 5 + 4096);
    assert!(nested.find("/tmp/scan/nested/large.bin").is_some());
    assert!(nested.find("/tmp/scan/nested/small.bin").is_none());
    assert_eq!(analysis.files_scanned, 2);
    assert_eq!(analysis.directories_scanned, 2);
    assert_eq!(analysis.root.size, nested.size + 4096);
}

#[test]
fn scan_ignores_symlinks_and_duplicate_hard_links() {
    let mut walk = StorageWalk::start("/tmp/scan".to_string(), true, false, options(1)).unwrap();
    for entry in [
        file("/tmp/scan/original.bin", 8192, 2, 7),
        file("/tmp/scan/hard-link.bin", 8192, 2, 7),
        WalkEntry::Symlink,
        dir("/tmp/scan", 1),
    ] {
        walk.visit(false, entry).unwrap();
    }
    let analysis = walk.finish().unwrap();
    assert_eq!(analysis.files_scanned, 1);
    assert_eq!(analysis.root.children.len(), 1);
    assert_eq!(analysis.root.children[0].path, "/tmp/scan/original.bin");
    assert_eq!(analysis.root.children[0].kind, StorageNodeKind::File);
}

#[test]
fn children_are_largest_first_and_capped() {
    let opts = StorageScanOptions { minimum_size: 1, stay_on_filesystem: true, max_children_per_directory: 2 };
    let mut walk = StorageWalk::start("/r".to_string(), true, false, opts).unwrap();
    for entry in [file("/r/a", 10, 1, 2), file("/r/b", 30, 1, 3), file("/r/c", 20, 1, 4), file("/r/d", 30, 1, 5), dir("/r", 1)] {
        walk.visit(false, entry).unwrap();
    }
    let analysis = walk.finish().unwrap();
    let names: Vec<_> = analysis.root.children.iter().map(|c| c.path.as_str()).collect();
    assert_eq!(names, vec!["/r/b", "/r/d"]);
    assert_eq!(analysis.root.size, 10 + 30 + 20 + 30 + 4096);
}

#[test]
fn a_zero_child_limit_still_keeps_the_largest() {
    let opts = StorageScanOptions { minimum_size: 1, stay_on_filesystem: true, max_children_per_directory: 0 };
    let mut walk = StorageWalk::start("/r".to_string(), true, false, opts).unwrap();
    for entry in [file("/r/a", 10, 1, 2), file("/r/b", 30, 1, 3), dir("/r", 1)] {
        walk.visit(false, entry).unwrap();
    }
    let analysis = walk.finish().unwrap();
    assert_eq!(analysis.root.children.len(), 1);
    assert_eq!(analysis.root.children[0].path, "/r/b");
}

#[test]
fn problems_are_recorded_up_to_a_limit() {
    let mut walk = StorageWalk::start("/r".to_string(), true, false, options(1)).unwrap();
    walk.visit(false, WalkEntry::NoMetadata { path: "/r/x".to_string(), error: "denied".to_string() }).unwrap();
    for _ in 0..150 {
        walk.visit(false, WalkEntry::Unreadable("gone".to_string())).unwrap();
    }
    assert_eq!(walk.skipped.len(), 100);
    assert_eq!(walk.skipped[0], "/r/x: denied");
}

#[test]
fn a_walk_that_misses_the_root_has_no_tree() {
    let walk = StorageWalk::start("/r".to_string(), true, false, options(1)).unwrap();
    let error = walk.finish().unwrap_err();
    assert!(matches!(&error, StorageAnalysisError::InvalidRoot(p) if p == "/r"));
    assert_eq!(error.message(), "The selected location is not a local directory: /r");
}

#[test]
fn files_and_symlinks_are_not_valid_roots() {
    assert!(StorageWalk::start("/r".to_string(), false, false, options(1)).is_err());
    assert!(StorageWalk::start("/r".to_string(), true, true, options(1)).is_err());
    let io = StorageAnalysisError::Io { path: "/r".to_string(), source: "denied".to_string() };
    assert_eq!(io.message(), "Could not inspect /r: denied");
    assert_eq!(StorageAnalysisError::Cancelled.message(), "The storage scan was cancelled");
}
