use data_cleaner::scan_result::{CleanResult, FileEntry, ScanResult};

#[test]
fn merge_deduplicates_paths_and_totals() {
    let path = "/tmp/data-cleaner-test/cache.bin".to_string();
    let entry = FileEntry::new(path, 1_000, false, false);
    let mut first = ScanResult::new();
    first.add_file(entry.clone());
    let mut second = ScanResult::new();
    second.add_file(entry);

    first.merge(second);

    assert_eq!(first.file_count, 1);
    assert_eq!(first.total_size, 1_000);
    assert_eq!(first.files.len(), 1);
}

#[test]
fn merge_propagates_cancellation() {
    let mut first = ScanResult::new();
    let mut second = ScanResult::new();
    second.cancelled = true;
    first.merge(second);
    assert!(first.cancelled);
}

#[test]
fn merge_treats_equivalent_spellings_of_a_path_as_one() {
    let mut first = ScanResult::new();
    first.add_file(FileEntry::new("/tmp/a/b".to_string(), 10, false, false));
    let mut second = ScanResult::new();
    second.add_file(FileEntry::new("/tmp/a//b/".to_string(), 10, false, false));
    second.add_file(FileEntry::new("/tmp/a/c".to_string(), 5, false, false));
    second.add_directory(FileEntry::new("/tmp/a".to_string(), 0, true, false));
    second.add_skipped("/tmp/x".to_string(), "gone");
    second.add_error("oops");
    second.add_security_violation("denied");
    first.merge(second);
    assert_eq!(first.file_count, 2);
    assert_eq!(first.total_size, 15);
    assert_eq!(first.dir_count, 1);
    assert_eq!(first.skipped, vec![("/tmp/x".to_string(), "gone".to_string())]);
    assert_eq!(first.errors, vec!["oops".to_string()]);
    assert!(first.has_security_violations());
    assert!(!first.is_empty());
}

#[test]
fn clean_result_counts_and_blocking() {
    let mut r = CleanResult::new();
    assert!(!r.is_blocked());
    r.add_deleted_file("/tmp/a".to_string(), 7);
    r.add_deleted_file("/tmp/b".to_string(), 3);
    r.add_failed("/tmp/c".to_string(), "busy");
    r.add_deleted_directory("/tmp/d".to_string());
    r.add_skipped("/tmp/e".to_string(), "kept");
    assert_eq!(r.files_deleted_count(), 2);
    assert_eq!(r.bytes_freed, 10);
    assert_eq!(r.failed_count(), 1);
    r.blocked("limit");
    assert!(r.is_blocked());
    assert_eq!(r.blocked_reason.as_deref(), Some("limit"));
}

#[test]
fn sizes_are_formatted_by_bytesize() {
    let mut s = ScanResult::new();
    s.add_file(FileEntry::new("/tmp/a".to_string(), 1536, false, false));
    assert_eq!(s.formatted_size(), bytesize::ByteSize(1536).to_string());
    assert_ne!(s.formatted_size(), "1536");
    let mut r = CleanResult::new();
    r.add_deleted_file("/tmp/a".to_string(), 2048);
    assert_eq!(r.formatted_bytes_freed(), bytesize::ByteSize(2048).to_string());
}
