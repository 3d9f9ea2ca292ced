use data_cleaner::analyzer::{StorageNodeKind, TrashResult, TrashTarget};
use data_cleaner::selection::{trash_report, Selection, TrashRun};

fn target(path: &str, kind: StorageNodeKind, size: u64) -> TrashTarget {
    TrashTarget { path: path.to_string(), kind, size, device: 1, inode: 1 }
}

fn paths(s: &Selection) -> Vec<String> {
    s.items().iter().map(|t| t.path.clone()).collect()
}

#[test]
fn picked_items_are_kept_in_path_order() {
    let mut s = Selection::new();
    assert!(s.select(target("/r/b.bin", StorageNodeKind::File, 2), true));
    assert!(s.select(target("/r/a.bin", StorageNodeKind::File, 1), true));
    assert!(s.select(target("/r/c.bin", StorageNodeKind::File, 3), true));
    assert_eq!(paths(&s), vec!["/r/a.bin", "/r/b.bin", "/r/c.bin"]);
}

#[test]
fn paths_are_ordered_by_component() {
    // "/r/a/x" comes before "/r/a-b": the component "a" sorts before "a-b".
    let mut s = Selection::new();
    assert!(s.select(target("/r/a-b", StorageNodeKind::File, 1), true));
    assert!(s.select(target("/r/a/x", StorageNodeKind::File, 1), true));
    assert_eq!(paths(&s), vec!["/r/a/x", "/r/a-b"]);
}

#[test]
fn picking_inside_a_picked_folder_is_refused() {
    let mut s = Selection::new();
    assert!(s.select(target("/r/dir", StorageNodeKind::Directory, 10), true));
    assert!(!s.select(target("/r/dir/f.bin", StorageNodeKind::File, 4), true));
    assert_eq!(paths(&s), vec!["/r/dir"]);
}

#[test]
fn picking_a_folder_drops_what_lies_inside_it() {
    let mut s = Selection::new();
    assert!(s.select(target("/r/dir/f.bin", StorageNodeKind::File, 4), true));
    assert!(s.select(target("/r/dir2/g.bin", StorageNodeKind::File, 4), true));
    assert!(s.select(target("/r/dir", StorageNodeKind::Directory, 10), true));
    assert_eq!(paths(&s), vec!["/r/dir", "/r/dir2/g.bin"]);
}

#[test]
fn picking_a_path_again_replaces_it_and_unpicking_drops_it() {
    let mut s = Selection::new();
    assert!(s.select(target("/r/a.bin", StorageNodeKind::File, 1), true));
    assert!(s.select(target("/r/a.bin", StorageNodeKind::File, 7), true));
    assert_eq!(s.items().len(), 1);
    assert_eq!(s.items()[0].size, 7);
    assert!(s.select(target("/r/a.bin", StorageNodeKind::File, 7), false));
    assert!(s.items().is_empty());
}

#[test]
fn selection_summary_counts_and_sizes() {
    let mut s = Selection::new();
    let empty = s.summary(None, false);
    assert_eq!(empty.count_text, "Nothing selected");
    assert_eq!(empty.size_text, "Select files or folders to review before moving them to Trash");
    assert!(!empty.can_trash);
    s.select(target("/r/a.bin", StorageNodeKind::File, 1024), true);
    let one = s.summary(None, false);
    assert_eq!(one.count_text, "1 item selected");
    assert_eq!(one.size_text, format!("{} will be reviewed before moving", bytesize::ByteSize(1024)));
    assert!(one.can_trash);
    assert!(!s.summary(None, true).can_trash);
    s.select(target("/r/b.bin", StorageNodeKind::File, 1024), true);
    let two = s.summary(None, false);
    assert_eq!(two.count_text, "2 items selected");
    assert_eq!(two.size_text, format!("{} will be reviewed before moving", bytesize::ByteSize(2048)));
}

#[test]
fn confirmation_lists_five_paths_and_the_rest() {
    let mut s = Selection::new();
    assert!(s.trash_confirmation(None, false).is_none());
    for i in 0..7 {
        s.select(target(&format!("/r/f{i}.bin"), StorageNodeKind::File, 1), true);
    }
    assert!(s.trash_confirmation(None, true).is_none());
    let (title, message) = s.trash_confirmation(None, false).unwrap();
    assert_eq!(title, "Move Selected Items to Trash?");
    let expected = format!(
        "Move 7 selected items ({}) to Trash?\n\n• /r/f0.bin\n• /r/f1.bin\n• /r/f2.bin\n• /r/f3.bin\n• /r/f4.bin\n• and 2 more\n\nFolders include all contents, including smaller items grouped as Other. Items can be restored from Trash.",
        bytesize::ByteSize(7)
    );
    assert_eq!(message, expected);
}

#[test]
fn moved_items_leave_the_selection() {
    let mut s = Selection::new();
    s.select(target("/r/a.bin", StorageNodeKind::File, 1), true);
    s.select(target("/r/b.bin", StorageNodeKind::File, 1), true);
    s.forget_moved(&vec![("/r/a.bin".to_string(), 1)]);
    assert_eq!(paths(&s), vec!["/r/b.bin"]);
}

#[test]
fn trash_report_lists_three_failures() {
    let result = TrashResult {
        moved: vec![("/r/a.bin".to_string(), 2048)],
        failed: vec![
            ("/r/x".to_string(), "denied".to_string()),
            ("/r/y".to_string(), "busy".to_string()),
            ("/r/z".to_string(), "gone".to_string()),
            ("/r/w".to_string(), "late".to_string()),
        ],
    };
    let report = trash_report(None, &result);
    assert_eq!(report.title, "Items Moved to Trash");
    assert!(report.rescan);
    assert_eq!(
        report.message,
        format!(
            "Moved 1 item ({}) to Trash.\n4 items failed.\n/r/x: denied\n/r/y: busy\n/r/z: gone",
            bytesize::ByteSize(2048)
        )
    );
}

#[test]
fn trash_report_when_nothing_moved() {
    let result = TrashResult { moved: vec![], failed: vec![("/r/x".to_string(), "denied".to_string())] };
    let report = trash_report(None, &result);
    assert_eq!(report.title, "Nothing Was Moved");
    assert!(!report.rescan);
    assert_eq!(report.message, format!("Moved 0 items ({}) to Trash.\n1 items failed.\n/r/x: denied", bytesize::ByteSize(0)));
}

#[test]
fn trash_run_records_refusals_moves_and_failures() {
    let selected = vec![
        target("/r/a.bin", StorageNodeKind::File, 5),
        target("/r/b.bin", StorageNodeKind::File, 7),
        target("/r/c.bin", StorageNodeKind::File, 9),
    ];
    let mut run = TrashRun::start(&selected);
    assert_eq!(run.current().unwrap().path, "/r/a.bin");
    assert!(!run.check(Err("The filesystem root is protected".to_string())));
    assert_eq!(run.current().unwrap().path, "/r/b.bin");
    assert!(run.check(Ok(())));
    run.record(Ok(()));
    assert!(run.check(Ok(())));
    run.record(Err("busy".to_string()));
    assert!(run.current().is_none());
    let result = run.finish();
    assert_eq!(result.moved, vec![("/r/b.bin".to_string(), 7)]);
    assert_eq!(
        result.failed,
        vec![
            ("/r/a.bin".to_string(), "The filesystem root is protected".to_string()),
            ("/r/c.bin".to_string(), "busy".to_string()),
        ]
    );
}
