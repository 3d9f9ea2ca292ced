use data_cleaner::navigation::NavItem;
use data_cleaner::release_notes::releases;
use data_cleaner::scan_result::CleanError;

#[test]
fn the_changelog_lists_the_first_release() {
    let r = releases();
    assert_eq!(r.len(), 1);
    assert_eq!(r[0].version, "1.0.0");
    assert_eq!(r[0].changes.len(), 12);
    assert_eq!(r[0].heading(None), "Version 1.0.0");
    assert_eq!(r[0].metadata(None), "Initial public release · 21 August 2026");
}

#[test]
fn clean_errors_read_as_messages() {
    assert_eq!(CleanError::PermissionDenied("/x".to_string()).message(), "Permission denied: /x");
    assert_eq!(CleanError::SecurityViolation("no".to_string()).message(), "Security violation: no");
    assert_eq!(CleanError::IoError("busy".to_string()).message(), "IO error: busy");
    assert_eq!(CleanError::DirectoryNotEmpty("/d".to_string()).message(), "Directory not empty: /d");
}

#[test]
fn sidebar_sections_have_distinct_pages() {
    let all = NavItem::all();
    assert_eq!(all.len(), 9);
    assert_eq!(all[0].title(), "Dashboard");
    assert_eq!(NavItem::CustomDirectories.stack_name(), "custom");
    assert_eq!(NavItem::Help.icon_name(), "help-about-symbolic");
    for (i, a) in all.iter().enumerate() {
        for b in &all[i + 1..] {
            assert_ne!(a.stack_name(), b.stack_name());
        }
    }
}
