use data_cleaner::cleanup_log::{
    append_paths, cleanup_log_text, completed_label_text, log_summary, summary_label_text, LogText,
    MAX_LOG_DETAIL_BYTES, MAX_LOG_DETAIL_ITEMS,
};
use data_cleaner::scan_result::{CleanResult, ScanResult};

#[test]
fn detail_log_is_bounded_by_item_count() {
    let paths: Vec<_> = (0..MAX_LOG_DETAIL_ITEMS + 20)
        .map(|index| format!("/tmp/cache/{index}"))
        .collect();
    let mut log = LogText::new();
    let mut budget = MAX_LOG_DETAIL_ITEMS;

    append_paths(&mut log, None, "FILES", "DELETED", &paths, &mut budget);

    assert_eq!(budget, 0);
    let log = log.into_string();
    assert!(log.contains("20 additional entries omitted"));
    assert!(log.len() <= MAX_LOG_DETAIL_BYTES + 1_024);
}

#[test]
fn detail_log_is_bounded_by_bytes() {
    let long = "x".repeat(1024 * 1024);
    let paths = vec![long.clone(), long.clone(), long];
    let mut log = LogText::new();
    let mut budget = MAX_LOG_DETAIL_ITEMS;
    append_paths(&mut log, None, "FILES", "DELETED", &paths, &mut budget);
    assert_eq!(budget, 0, "a line over the byte limit uses up the budget");
    let log = log.into_string();
    assert!(log.len() <= MAX_LOG_DETAIL_BYTES);
    assert!(log.contains("2 additional entries omitted"));
}

#[test]
fn the_log_lists_what_happened() {
    let mut clean = CleanResult::new();
    clean.add_deleted_file("/tmp/a".to_string(), 10);
    clean.add_failed("/tmp/b".to_string(), "busy");
    let mut scan = ScanResult::new();
    scan.add_error("boom");
    let journal: Result<String, String> = Err("denied".to_string());
    let summary = log_summary(None, &clean, &scan, Some(&journal), true);
    assert_eq!(summary.issue_count, 3);
    assert_eq!(summary.status, "Completed with notices");
    assert_eq!(summary.mode, "Scheduled");
    assert_eq!(
        completed_label_text(None, &summary.mode, "2024-01-02 03:04:05"),
        "Scheduled cleanup · 2024-01-02 03:04:05"
    );
    assert_eq!(
        summary_label_text(None, &summary.status, &clean, summary.issue_count),
        format!(
            "Completed with notices · 1 files and 0 folders removed · {} freed · 3 notices",
            bytesize::ByteSize(10)
        )
    );
    let text = cleanup_log_text(
        None, &clean, &scan, Some(&journal), true, true, &summary.mode, &summary.status, "2024-01-02 03:04:05 +00:00",
    );
    assert!(text.starts_with("DATA CLEANER — CLEANUP LOG\nCompleted: 2024-01-02 03:04:05 +00:00\nMode: Scheduled\n"));
    assert!(text.contains("\nDELETED FILES (1)\n  [DELETED] /tmp/a\n"));
    assert!(text.contains("\nDELETED EMPTY FOLDERS (0)\n  None\n"));
    assert!(text.contains("\nFAILED (1)\n  [FAILED] /tmp/b\n    Reason: busy\n"));
    assert!(text.contains("\nSCAN ERRORS (1)\n  [ERROR] boom\n"));
    assert!(text.ends_with("\nSYSTEM JOURNAL\n  [FAILED] denied\n"));
}

#[test]
fn journal_line_explains_a_missing_result() {
    let clean = CleanResult::new();
    let scan = ScanResult::new();
    let text = cleanup_log_text(None, &clean, &scan, None, true, true, "Scheduled", "Completed successfully", "t");
    assert!(text.ends_with("  [SKIPPED] Scheduled cleanup cannot request administrator approval\n"));
    let text = cleanup_log_text(None, &clean, &scan, None, false, false, "Manual", "Completed successfully", "t");
    assert!(text.ends_with("  [DISABLED] System journal cleanup was not enabled\n"));
    let mut blocked = CleanResult::new();
    blocked.blocked("too many files");
    let text = cleanup_log_text(None, &blocked, &scan, None, false, true, "Manual", "Blocked", "t");
    assert!(text.contains("\nBLOCKED\n  too many files\n"));
    assert!(text.ends_with("  [SKIPPED] Cleanup was blocked\n"));
}
