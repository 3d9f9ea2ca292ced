use data_cleaner::analyzer::{StorageAnalysis, StorageNode, StorageNodeKind};
use data_cleaner::storage_view::{
    breadcrumb_trail, node_details, results_summary, scan_end, scanning_status, treemap_items, ScanEnd,
    DEFAULT_MINIMUM_SIZE, MAX_TREEMAP_ITEMS,
};
use data_cleaner::storage_walk::StorageAnalysisError;

fn node(path: &str, kind: StorageNodeKind, size: u64, children: Vec<StorageNode>) -> StorageNode {
    StorageNode { path: path.to_string(), kind, size, modified: None, device: 1, inode: 1, children }
}

#[test]
fn treemap_shows_nine_tiles_and_the_rest() {
    let children: Vec<StorageNode> =
        (0..12).map(|i| node(&format!("/r/f{i}"), StorageNodeKind::File, 10, vec![])).collect();
    let root = node("/r", StorageNodeKind::Directory, 200, children);
    let tiles = treemap_items(None, &root);
    assert_eq!(MAX_TREEMAP_ITEMS, 10);
    assert_eq!(tiles.len(), 10);
    assert_eq!(tiles[0].label, "f0");
    assert_eq!(tiles[0].color_index, 0);
    assert!(tiles[0].path.is_none());
    assert_eq!(tiles[9].label, "Other");
    assert_eq!(tiles[9].size, 110);
    assert_eq!(tiles[9].color_index, usize::MAX);
}

#[test]
fn treemap_folders_can_be_opened_and_nothing_left_means_no_other_tile() {
    let root = node(
        "/r",
        StorageNodeKind::Directory,
        30,
        vec![node("/r/d", StorageNodeKind::Directory, 20, vec![]), node("/r/f", StorageNodeKind::File, 10, vec![])],
    );
    let tiles = treemap_items(None, &root);
    assert_eq!(tiles.len(), 2);
    assert_eq!(tiles[0].path.as_deref(), Some("/r/d"));
    assert!(tiles[1].path.is_none());
}

#[test]
fn breadcrumbs_walk_down_from_the_root() {
    let trail = breadcrumb_trail("/home/u", "/home/u/a/b");
    let paths: Vec<&str> = trail.iter().map(|c| c.path.as_str()).collect();
    let names: Vec<&str> = trail.iter().map(|c| c.name.as_str()).collect();
    assert_eq!(paths, vec!["/home/u", "/home/u/a", "/home/u/a/b"]);
    assert_eq!(names, vec!["u", "a", "b"]);
    let outside = breadcrumb_trail("/home/u", "/srv");
    assert_eq!(outside.len(), 1);
    assert_eq!(outside[0].path, "/home/u");
}

#[test]
fn results_summary_reports_skipped_entries() {
    let analysis = StorageAnalysis {
        root: node("/r", StorageNodeKind::Directory, 4096, vec![]),
        files_scanned: 3,
        directories_scanned: 2,
        skipped: vec![],
    };
    let s = results_summary(None, &analysis);
    assert_eq!(s.item_count, "5 items");
    assert_eq!(s.total_size, bytesize::ByteSize(4096).to_string());
    assert_eq!(s.warning, "");
    assert_eq!(s.warning_tooltip, "All readable entries were scanned");
    let skipped = StorageAnalysis { skipped: vec!["/r/x: denied".to_string()], ..analysis };
    let s = results_summary(None, &skipped);
    assert_eq!(s.warning, "Some entries skipped");
    assert_eq!(s.warning_tooltip, "1 entries could not be read");
}

#[test]
fn node_details_name_kind_date_and_path() {
    let f = node("/r/f.bin", StorageNodeKind::File, 1, vec![]);
    assert_eq!(node_details(None, &f, Some("2024-05-01".to_string())), "File · Modified 2024-05-01 · /r/f.bin");
    let d = node("/r/d", StorageNodeKind::Directory, 1, vec![]);
    assert_eq!(node_details(None, &d, None), "Folder · Modified date unavailable · /r/d");
}

#[test]
fn scan_status_texts() {
    let (title, text) = scanning_status(None, "/home/u");
    assert_eq!(title, "Analyzing Storage…");
    assert_eq!(text, "Scanning /home/u without following symbolic links");
    assert_eq!(DEFAULT_MINIMUM_SIZE, 100 * 1024 * 1024);
}

#[test]
fn scan_end_shows_results_or_a_status() {
    assert!(matches!(scan_end(None, &Ok(()), false), ScanEnd::NewResults));
    assert!(matches!(scan_end(None, &Err(StorageAnalysisError::Cancelled), true), ScanEnd::PreviousResults));
    match scan_end(None, &Err(StorageAnalysisError::Cancelled), false) {
        ScanEnd::Status { icon, title, description } => {
            assert_eq!(icon, "drive-harddisk-symbolic");
            assert_eq!(title, "Scan Cancelled");
            assert_eq!(description, "Choose a folder when you are ready to analyze storage.");
        }
        _ => panic!("expected a status"),
    }
    match scan_end(None, &Err(StorageAnalysisError::InvalidRoot("/x".to_string())), true) {
        ScanEnd::Status { icon, title, description } => {
            assert_eq!(icon, "dialog-error-symbolic");
            assert_eq!(title, "Could Not Analyze Folder");
            assert_eq!(description, "The selected location is not a local directory: /x");
        }
        _ => panic!("expected a status"),
    }
}
