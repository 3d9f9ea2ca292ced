use data_cleaner::browser::BrowserType;
use data_cleaner::cleaner::{
    Awaiting, CleanAction, CleanEvent, CleanOptions, Cleaner, DeletionProbe, RemovalError,
};
use data_cleaner::scan_result::{FileEntry, ScanResult};
use data_cleaner::security::{EntryMetadata, EntryState, Ownership, PathFacts, SecurityAuditor};

const UID: u32 = 1000;

fn auditor() -> SecurityAuditor {
    SecurityAuditor::with_dirs(
        UID,
        "/home/alice",
        "/home/alice/.cache",
        "/home/alice/.local/share",
        "/home/alice/.config",
        "/home/alice/.local/state",
    )
}

fn cleaner_with(options: CleanOptions) -> Cleaner {
    Cleaner::with_auditor(options, std::sync::Arc::new(std::sync::atomic::AtomicBool::new(false)), auditor())
}

fn facts(path: &str) -> PathFacts {
    PathFacts { canonical: Ok(path.to_string()), mount_point: false, symlink: false }
}

fn inspected(path: &str, len: u64, empty: bool) -> CleanEvent {
    CleanEvent::Inspected {
        facts: facts(path),
        ownership: Ownership::Owner(UID),
        state: EntryState {
            components_check: Ok(()),
            metadata: Some(EntryMetadata { is_symlink: false, uid: UID, len }),
            link_target: String::new(),
        },
        empty,
    }
}

#[test]
fn test_cancellation() {
    let cleaner = Cleaner::new(UID);
    cleaner.cancel();

    let scan = ScanResult::new();
    let (run, action) = cleaner.start_clean(&scan, Vec::new());

    assert!(run.result.cancelled);
    assert!(run.result.blocked_reason.is_none());
    assert!(run.result.deleted_files.is_empty() && run.result.deleted_directories.is_empty());
    assert!(run.result.failed.is_empty());
    assert_eq!(run.result.bytes_freed, 0);
    assert!(matches!(action, CleanAction::Finished));
}

#[test]
fn cleanup_above_the_file_limit_is_blocked_before_anything_is_touched() {
    let cleaner = cleaner_with(CleanOptions { max_files_per_operation: 1, ..CleanOptions::default() });
    let mut scan = ScanResult::new();
    scan.add_file(FileEntry::new("/home/alice/.cache/app/test1.txt".to_string(), 14, false, false));
    scan.add_file(FileEntry::new("/home/alice/.cache/app/test2.log".to_string(), 21, false, false));
    let (run, action) = cleaner.start_clean(&scan, Vec::new());
    assert!(run.result.is_blocked());
    assert_eq!(
        run.result.blocked_reason.as_deref(),
        Some("Cleanup blocked by safety limit: 2 files found, limit is 1.")
    );
    assert!(matches!(action, CleanAction::Finished));
    assert!(run.result.deleted_files.is_empty());
}

#[test]
fn a_cleanup_run_inspects_removes_and_records() {
    let cleaner = cleaner_with(CleanOptions::default());
    let mut scan = ScanResult::new();
    scan.add_file(FileEntry::new("/home/alice/.cache/app/a.bin".to_string(), 10, false, false));
    scan.add_directory(FileEntry::new("/home/alice/.cache/app".to_string(), 0, true, false));
    scan.add_directory(FileEntry::new("/home/alice/.cache/app/sub".to_string(), 0, true, false));
    let (mut run, action) = cleaner.start_clean(&scan, Vec::new());
    match action {
        CleanAction::InspectFile(p) => assert_eq!(p, "/home/alice/.cache/app/a.bin"),
        _ => panic!("expected a file inspection"),
    }
    let action = cleaner.step(&mut run, inspected("/home/alice/.cache/app/a.bin", 12, false));
    assert!(matches!(run.awaiting(), Awaiting::Removal(12)));
    assert!(matches!(action, CleanAction::RemoveFile(ref p) if p == "/home/alice/.cache/app/a.bin"));
    let action = cleaner.step(&mut run, CleanEvent::Removed(Ok(())));
    // The deeper directory comes first.
    assert!(matches!(action, CleanAction::InspectDirectory(ref p) if p == "/home/alice/.cache/app/sub"));
    let action = cleaner.step(&mut run, inspected("/home/alice/.cache/app/sub", 0, true));
    assert!(matches!(action, CleanAction::RemoveDirectory(_)));
    let action = cleaner.step(&mut run, CleanEvent::Removed(Err(RemovalError::PermissionDenied)));
    assert!(matches!(action, CleanAction::InspectDirectory(ref p) if p == "/home/alice/.cache/app"));
    let action = cleaner.step(&mut run, inspected("/home/alice/.cache/app", 0, false));
    assert!(matches!(action, CleanAction::Finished));
    let r = run.result();
    assert_eq!(r.deleted_files, vec!["/home/alice/.cache/app/a.bin".to_string()]);
    assert_eq!(r.bytes_freed, 12);
    assert_eq!(
        r.failed,
        vec![(
            "/home/alice/.cache/app/sub".to_string(),
            "Permission denied: /home/alice/.cache/app/sub".to_string()
        )]
    );
    assert_eq!(
        r.skipped,
        vec![(
            "/home/alice/.cache/app".to_string(),
            "Directory was preserved because it is not empty".to_string()
        )]
    );
}

#[test]
fn unsafe_entries_fail_with_the_security_reason() {
    let cleaner = cleaner_with(CleanOptions::default());
    let mut scan = ScanResult::new();
    scan.add_file(FileEntry::new("/etc/passwd".to_string(), 10, false, false));
    let (mut run, _) = cleaner.start_clean(&scan, Vec::new());
    let action = cleaner.step(&mut run, inspected("/etc/passwd", 10, false));
    assert!(matches!(action, CleanAction::Finished));
    assert_eq!(
        run.result.failed,
        vec![(
            "/etc/passwd".to_string(),
            "Security violation: Path resolves to protected location: /etc/passwd".to_string()
        )]
    );
}

#[test]
fn files_of_a_running_browser_are_left_alone() {
    let cleaner = cleaner_with(CleanOptions::default());
    let cache = data_cleaner::browser::BrowserType::Chrome.cache_path_in("/home/alice/.cache");
    let table = data_cleaner::cleaner::browser_path_table_in(Some("/home/alice/.cache"), Some("/home/alice"), Some("/home/alice/.config"));
    assert_eq!(data_cleaner::cleaner::browser_for_path(&table, &format!("{cache}/Default/x")), Some(BrowserType::Chrome));
    assert_eq!(data_cleaner::cleaner::browser_for_path(&table, "/home/alice/other"), None);
}

#[test]
fn dry_run_counts_what_would_go() {
    let cleaner = cleaner_with(CleanOptions::default());
    let mut scan = ScanResult::new();
    scan.add_file(FileEntry::new("/home/alice/.cache/app/test1.txt".to_string(), 14, false, false));
    scan.add_file(FileEntry::new("/etc/passwd".to_string(), 3, false, false));
    let probes = vec![
        DeletionProbe { facts: facts("/home/alice/.cache/app/test1.txt"), ownership: Ownership::Owner(UID) },
        DeletionProbe { facts: facts("/etc/passwd"), ownership: Ownership::Owner(UID) },
    ];
    let result = cleaner.dry_run(&scan, probes, Vec::new());
    assert_eq!(result.files_deleted_count(), 1);
    assert_eq!(result.bytes_freed, 14);
    assert_eq!(result.skipped.len(), 1);
    assert!(!result.cancelled);
}

#[test]
fn validation_reports_the_size_limit() {
    let cleaner = cleaner_with(CleanOptions { max_size_per_operation: 10, ..CleanOptions::default() });
    let mut scan = ScanResult::new();
    scan.add_file(FileEntry::new("/home/alice/.cache/app/x".to_string(), 2048, false, false));
    let err = cleaner.validate_operation(&scan).unwrap_err();
    assert_eq!(
        err,
        format!(
            "Cleanup blocked by safety limit: {} selected, limit is {}.",
            bytesize::ByteSize(2048),
            bytesize::ByteSize(10)
        )
    );
    assert!(cleaner_with(CleanOptions::default()).validate_operation(&scan).is_ok());
}

#[test]
fn directories_are_ordered_deepest_first_keeping_ties() {
    let dirs = vec![
        FileEntry::new("/a/b".to_string(), 0, true, false),
        FileEntry::new("/a/b/c/d".to_string(), 0, true, false),
        FileEntry::new("/x/y".to_string(), 0, true, false),
        FileEntry::new("/a/b/c".to_string(), 0, true, false),
    ];
    let sorted = data_cleaner::cleaner::sort_deepest_first(&dirs);
    let paths: Vec<_> = sorted.iter().map(|e| e.path.as_str()).collect();
    assert_eq!(paths, vec!["/a/b/c/d", "/a/b/c", "/a/b", "/x/y"]);
}

#[test]
fn a_step_with_the_flag_set_ends_the_run_and_records_each_entry_once() {
    let cleaner = cleaner_with(CleanOptions::default());
    let mut scan = ScanResult::new();
    scan.add_file(FileEntry::new("/home/alice/.cache/app/a.bin".to_string(), 10, false, false));
    scan.add_file(FileEntry::new("/home/alice/.cache/app/b.bin".to_string(), 10, false, false));
    let (mut run, _) = cleaner.start_clean(&scan, Vec::new());
    let action = cleaner.step_with(&mut run, inspected("/home/alice/.cache/app/a.bin", 10, false), false);
    assert!(matches!(action, CleanAction::RemoveFile(_)));
    let action = cleaner.step_with(&mut run, CleanEvent::Removed(Ok(())), true);
    assert!(matches!(action, CleanAction::Finished));
    let r = run.result();
    assert!(r.cancelled);
    assert_eq!(r.deleted_files, vec!["/home/alice/.cache/app/a.bin".to_string()]);
    assert!(r.failed.is_empty() && r.skipped.is_empty());
}

#[test]
fn a_cleanup_started_after_a_stop_ends_at_once_with_nothing_done() {
    let cleaner = cleaner_with(CleanOptions::default());
    let mut scan = ScanResult::new();
    scan.add_file(FileEntry::new("/home/alice/.cache/app/a.bin".to_string(), 10, false, false));
    let (run, action) = cleaner.start_clean_with(&scan, Vec::new(), Vec::new(), true);
    assert!(matches!(action, CleanAction::Finished));
    let r = run.result();
    assert!(r.cancelled);
    assert!(r.blocked_reason.is_none());
    assert!(r.deleted_files.is_empty() && r.deleted_directories.is_empty());
    assert!(r.failed.is_empty() && r.skipped.is_empty());
    assert_eq!(r.bytes_freed, 0);
}

#[test]
fn the_limits_are_checked_before_the_stop_flag() {
    let cleaner = cleaner_with(CleanOptions { max_files_per_operation: 0, ..CleanOptions::default() });
    let mut scan = ScanResult::new();
    scan.add_file(FileEntry::new("/home/alice/.cache/app/a.bin".to_string(), 10, false, false));
    let (run, _) = cleaner.start_clean_with(&scan, Vec::new(), Vec::new(), true);
    assert!(run.result.is_blocked());
    assert!(!run.result.cancelled);
}

#[test]
fn a_running_browser_keeps_its_files_through_the_table() {
    let cleaner = cleaner_with(CleanOptions::default());
    let table = data_cleaner::cleaner::browser_path_table_in(
        Some("/home/alice/.cache"),
        Some("/home/alice"),
        Some("/home/alice/.config"),
    );
    let cache = BrowserType::Chrome.cache_path_in("/home/alice/.cache");
    let inside = format!("{cache}/Default/Cache/data_0");
    let mut scan = ScanResult::new();
    scan.add_file(FileEntry::new(inside.clone(), 10, false, false));
    scan.add_file(FileEntry::new("/home/alice/.cache/app/a.bin".to_string(), 10, false, false));
    let (run, action) = cleaner.start_clean_with(&scan, table, vec![BrowserType::Chrome], false);
    assert!(matches!(action, CleanAction::InspectFile(ref p) if p == "/home/alice/.cache/app/a.bin"));
    assert_eq!(
        run.result.skipped,
        vec![(
            inside,
            format!(
                "{} is currently running — close it before cleaning to avoid data corruption",
                BrowserType::Chrome.display_name()
            )
        )]
    );
    // With no table the same file is not recognised as the browser's.
    let (_, action) = cleaner.start_clean_with(&scan, Vec::new(), vec![BrowserType::Chrome], false);
    assert!(matches!(action, CleanAction::InspectFile(ref p) if p.ends_with("data_0")));
}

#[test]
fn a_dry_run_that_sees_no_stop_takes_every_entry() {
    let cleaner = cleaner_with(CleanOptions::default());
    let mut scan = ScanResult::new();
    scan.add_file(FileEntry::new("/home/alice/.cache/app/test1.txt".to_string(), 14, false, false));
    scan.add_file(FileEntry::new("/etc/passwd".to_string(), 3, false, false));
    scan.add_directory(FileEntry::new("/home/alice/.cache/app".to_string(), 0, true, false));
    let probes = || {
        vec![
            DeletionProbe { facts: facts("/home/alice/.cache/app/test1.txt"), ownership: Ownership::Owner(UID) },
            DeletionProbe { facts: facts("/etc/passwd"), ownership: Ownership::Owner(UID) },
        ]
    };
    let dir_probes = || {
        vec![DeletionProbe { facts: facts("/home/alice/.cache/app"), ownership: Ownership::Owner(UID) }]
    };
    let full = cleaner.dry_run_with(&scan, probes(), dir_probes(), false);
    assert_eq!(full.deleted_files, vec!["/home/alice/.cache/app/test1.txt".to_string()]);
    assert_eq!(full.deleted_directories, vec!["/home/alice/.cache/app".to_string()]);
    assert_eq!(full.bytes_freed, 14);
    assert_eq!(full.skipped.len(), 1);
    assert_eq!(full.skipped[0].0, "/etc/passwd");
    assert!(!full.cancelled);
    let stopped = cleaner.dry_run_with(&scan, probes(), dir_probes(), true);
    assert!(stopped.cancelled);
    assert!(stopped.deleted_files.is_empty() && stopped.deleted_directories.is_empty());
    assert!(stopped.skipped.is_empty());
    assert_eq!(stopped.bytes_freed, 0);
}
