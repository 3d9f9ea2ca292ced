use data_cleaner::dashboard::{
    automatic_step, blocked_report, clean_available, clean_report, clean_request, confirmation_message,
    disk_texts, home_disk_usage, journal_after_clean, last_cleanup_text, scan_outcome, scan_start, AutomaticStep,
    CleanRequest, DiskInfo,
};
use data_cleaner::scan_result::{CleanResult, FileEntry, ScanResult};
use data_cleaner::settings::AppSettings;

fn scan_with_one_file() -> ScanResult {
    let mut s = ScanResult::new();
    s.add_file(FileEntry::new("/home/a/.cache/x".to_string(), 2048, false, false));
    s
}

#[test]
fn a_scan_waits_for_other_operations() {
    assert!(scan_start(None, false, false, false).is_ok());
    let busy = scan_start(None, true, false, false).unwrap_err().unwrap();
    assert_eq!(busy.title, "Operation in Progress");
    assert!(busy.message.starts_with("Cancel the active scan"));
    let running = scan_start(None, false, true, false).unwrap_err().unwrap();
    assert!(running.message.starts_with("A scan or cleanup is already running"));
    assert!(scan_start(None, false, true, true).unwrap_err().is_none());
}

#[test]
fn a_cancelled_scan_is_dropped() {
    let mut s = scan_with_one_file();
    s.cancelled = true;
    let o = scan_outcome(&s, true);
    assert_eq!(o.label, "Scan cancelled");
    assert!(!o.keep_result && !o.enable_clean && !o.continue_to_clean);
    let done = scan_outcome(&scan_with_one_file(), true);
    assert!(done.keep_result && done.enable_clean && done.continue_to_clean);
    assert_eq!(done.label, "2.0 KiB");
}

#[test]
fn clean_asks_for_a_scan_then_for_confirmation() {
    let mut settings = AppSettings::default();
    settings.confirm_before_clean = true;
    settings.system_journal_cleanup_enabled = false;
    assert!(matches!(clean_request(None, None, &settings), CleanRequest::ScanFirst));
    let empty = ScanResult::new();
    assert!(matches!(clean_request(None, Some(&empty), &settings), CleanRequest::NothingToClean(_)));
    settings.system_journal_cleanup_enabled = true;
    assert!(matches!(clean_request(None, Some(&empty), &settings), CleanRequest::Confirm));
    settings.confirm_before_clean = false;
    assert!(matches!(clean_request(None, Some(&scan_with_one_file()), &settings), CleanRequest::Execute));
}

#[test]
fn scheduled_cleanups_skip_empty_scans() {
    assert!(matches!(automatic_step(None), AutomaticStep::Idle));
    assert!(matches!(automatic_step(Some(&ScanResult::new())), AutomaticStep::NothingFound));
    assert!(matches!(automatic_step(Some(&scan_with_one_file())), AutomaticStep::Execute));
}

#[test]
fn the_confirmation_names_files_size_and_journal() {
    let mut settings = AppSettings::default();
    settings.system_journal_cleanup_enabled = true;
    settings.log_retention_days = 14;
    let n = confirmation_message(None, &scan_with_one_file(), &settings);
    assert_eq!(n.title, "Confirm Cleanup");
    assert_eq!(
        n.message,
        "This will delete 1 files (2.0 KiB).\nThe archived system journal older than 14 days will also be vacuumed with administrator approval.\n\nThis action cannot be undone."
    );
    settings.system_journal_cleanup_enabled = false;
    let n = confirmation_message(None, &scan_with_one_file(), &settings);
    assert_eq!(n.message, "This will delete 1 files (2.0 KiB).\n\nThis action cannot be undone.");
}

#[test]
fn the_journal_is_only_vacuumed_interactively() {
    let mut settings = AppSettings::default();
    settings.system_journal_cleanup_enabled = true;
    assert!(journal_after_clean(true, &settings, false));
    assert!(!journal_after_clean(false, &settings, false));
    assert!(!journal_after_clean(true, &settings, true));
}

#[test]
fn reports_follow_failures_and_preferences() {
    let mut settings = AppSettings::default();
    settings.show_cleanup_summary = false;
    let mut result = CleanResult::new();
    result.add_deleted_file("/x".to_string(), 1024);
    assert!(clean_report(None, &result, None, true, &settings).is_none());
    let failed: Result<String, String> = Err("denied".to_string());
    let n = clean_report(None, &result, Some(&failed), true, &settings).unwrap();
    assert_eq!(n.title, "Cleanup Complete");
    assert_eq!(n.message, "Deleted 1 files and freed 1.0 KiB.\n1 items failed.\nSystem journal failed: denied");
    assert!(clean_report(None, &result, Some(&failed), false, &settings).is_none());
    let ok: Result<String, String> = Ok("Vacuumed".to_string());
    settings.show_cleanup_summary = true;
    let n = clean_report(None, &result, Some(&ok), true, &settings).unwrap();
    assert_eq!(n.message, "Deleted 1 files and freed 1.0 KiB.\n0 items failed.\nSystem journal: Vacuumed.");
    assert_eq!(blocked_report(None, "too many files", true).unwrap().message, "too many files");
    assert!(blocked_report(None, "too many files", false).is_none());
}

#[test]
fn status_labels() {
    let mut settings = AppSettings::default();
    assert_eq!(last_cleanup_text(&settings), "Never");
    settings.last_cleanup = Some(1431648000);
    assert_eq!(last_cleanup_text(&settings), "2015-05-15 00:00");
    assert!(clean_available(1, None));
    assert!(!clean_available(0, Some(&ScanResult::new())));
    assert!(clean_available(0, Some(&scan_with_one_file())));
}

fn disk(name: &str, mount: &str, total: u64, available: u64) -> DiskInfo {
    DiskInfo { name: name.to_string(), mount_point: mount.to_string(), total, available }
}

#[test]
fn the_home_disk_is_the_deepest_mount_above_home() {
    let disks = vec![disk("sda1", "/", 100, 50), disk("sda2", "/home", 200, 300), disk("sdb1", "/mnt", 10, 1)];
    let u = home_disk_usage(Some("/home/alice"), &disks).unwrap();
    assert_eq!(u.device_name, "sda2");
    assert_eq!(u.available, 200);
    let root = home_disk_usage(None, &disks).unwrap();
    assert_eq!(root.device_name, "sda1");
    let other = vec![disk("sdb1", "/mnt", 10, 1)];
    assert_eq!(home_disk_usage(Some("/home/alice"), &other).unwrap().device_name, "sdb1");
    assert!(home_disk_usage(Some("/home/alice"), &vec![]).is_none());
}

#[test]
fn disk_card_texts() {
    let disks = vec![disk("sda2", "/home", 4096, 1024)];
    let u = home_disk_usage(Some("/home/alice"), &disks).unwrap();
    let t = disk_texts(None, Some(&u));
    assert_eq!(t.summary, "3.0 KiB used");
    assert_eq!(t.context, "of 4.0 KiB total on sda2 (mounted at /home)");
    assert_eq!(t.available, "1.0 KiB");
    assert_eq!(t.tooltip.as_deref(), Some("3.0 KiB used, 1.0 KiB available"));
    let none = disk_texts(None, None);
    assert_eq!(none.summary, "Disk information unavailable");
    assert_eq!(none.context, "Home filesystem could not be detected");
    assert_eq!(none.available, "--");
    assert!(none.tooltip.is_none());
}
