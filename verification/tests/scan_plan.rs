use data_cleaner::rules::{AppRule, CustomRule, DeletionMode, SystemRule, SystemRuleType};
use data_cleaner::scan_plan::{
    age_cutoff, app_rule_plan, begin_directory_scan, begin_log_root, begin_subfolder_match,
    begin_subfolder_search, check_target, custom_rule_plan, expand_glob_pattern, file_name,
    finish_subfolder_match, log_cutoff, log_cutoff_missing, log_roots_in, no_subfolder_matches,
    record_unmatched_pattern, scan_directory_entry, scan_log_entry, system_rule_plan, EntryStat, LogEntry,
    RootStep, RulePlan, TargetStep, WalkedEntry,
};
use data_cleaner::scan_result::ScanResult;
use data_cleaner::security::{AuditResult, Ownership, PathFacts, SecurityAuditor};

const UID: u32 = 1000;

fn auditor() -> SecurityAuditor {
    SecurityAuditor::with_dirs(
        UID,
        "/home/alice",
        "/home/alice/.cache",
        "/home/alice/.local/share",
        "/home/alice/.config",
        "/home/alice/.local/state",
    )
}

fn found(path: &str) -> PathFacts {
    PathFacts { canonical: Ok(path.to_string()), mount_point: false, symlink: false }
}

fn scan_audit(path: &str) -> AuditResult {
    auditor().audit(path, found(path))
}

fn deletion_audit(path: &str) -> AuditResult {
    auditor().audit_for_deletion(path, found(path), Ownership::Owner(UID))
}

fn file_stat(len: u64, modified: Option<i64>) -> EntryStat {
    EntryStat { is_file: true, is_dir: false, is_symlink: false, len, modified }
}

fn dir_stat() -> EntryStat {
    EntryStat { is_file: false, is_dir: true, is_symlink: false, len: 4096, modified: None }
}

fn walked(path: &str, metadata: Result<EntryStat, String>) -> WalkedEntry {
    WalkedEntry { path: path.to_string(), deletion_audit: deletion_audit(path), metadata }
}

const ROOT: &str = "/home/alice/.cache/app";

#[test]
fn a_refused_or_missing_directory_is_not_walked() {
    let (r, walk) = begin_directory_scan("/etc", &scan_audit("/etc"), true);
    assert!(!walk);
    assert_eq!(r.security_violations.len(), 1);
    let (r, walk) = begin_directory_scan(ROOT, &scan_audit(ROOT), false);
    assert!(!walk);
    assert_eq!(r.skipped, vec![(ROOT.to_string(), "Path does not exist".to_string())]);
    let (r, walk) = begin_directory_scan(ROOT, &scan_audit(ROOT), true);
    assert!(walk && r.is_empty());
}

#[test]
fn walked_entries_are_filtered_and_listed() {
    let mut r = ScanResult::new();
    let cutoff = age_cutoff(1_000_000, 1);
    assert_eq!(cutoff, Some(1_000_000 - 86_400));
    // The walked directory itself is passed over.
    assert!(scan_directory_entry(&mut r, ROOT, &walked(ROOT, Ok(dir_stat())), true, Some("*.tmp"), cutoff, false));
    // A file matching the pattern and old enough is listed.
    let old_tmp = walked("/home/alice/.cache/app/a.tmp", Ok(file_stat(10, Some(0))));
    assert!(scan_directory_entry(&mut r, ROOT, &old_tmp, true, Some("*.tmp"), cutoff, false));
    // Other names and recent files stay.
    let other = walked("/home/alice/.cache/app/a.txt", Ok(file_stat(10, Some(0))));
    assert!(scan_directory_entry(&mut r, ROOT, &other, true, Some("*.tmp"), cutoff, false));
    let recent = walked("/home/alice/.cache/app/b.tmp", Ok(file_stat(10, Some(999_999))));
    assert!(scan_directory_entry(&mut r, ROOT, &recent, true, Some("*.tmp"), cutoff, false));
    // Directories are listed only when asked for.
    let sub = walked("/home/alice/.cache/app/sub", Ok(dir_stat()));
    assert!(scan_directory_entry(&mut r, ROOT, &sub, false, None, None, false));
    assert!(scan_directory_entry(&mut r, ROOT, &sub, true, None, None, false));
    // Unreadable metadata is an error.
    let broken = walked("/home/alice/.cache/app/c", Err("denied".to_string()));
    assert!(scan_directory_entry(&mut r, ROOT, &broken, true, None, None, false));
    assert_eq!(r.file_count, 1);
    assert_eq!(r.total_size, 10);
    assert_eq!(r.files[0].path, "/home/alice/.cache/app/a.tmp");
    assert_eq!(r.dir_count, 1);
    assert!(r.directories[0].is_directory);
    assert_eq!(r.errors, vec!["Cannot read metadata for /home/alice/.cache/app/c: denied".to_string()]);
    // Cancelling stops the walk.
    assert!(!scan_directory_entry(&mut r, ROOT, &old_tmp, true, None, None, true));
    assert!(r.cancelled);
}

#[test]
fn symbolic_links_are_listed_as_links_of_no_size() {
    let mut r = ScanResult::new();
    let link = walked(
        "/home/alice/.cache/app/link",
        Ok(EntryStat { is_file: false, is_dir: false, is_symlink: true, len: 30, modified: None }),
    );
    assert!(scan_directory_entry(&mut r, ROOT, &link, true, None, None, false));
    assert_eq!(r.files[0].size, 0);
    assert!(r.files[0].is_symlink);
}

#[test]
fn entries_refused_for_deletion_are_skipped_with_the_reason() {
    let mut r = ScanResult::new();
    let p = "/home/alice/.cache/app/foreign";
    let entry = WalkedEntry {
        path: p.to_string(),
        deletion_audit: auditor().audit_for_deletion(p, found(p), Ownership::Owner(0)),
        metadata: Ok(file_stat(5, None)),
    };
    assert!(scan_directory_entry(&mut r, ROOT, &entry, true, None, None, false));
    assert_eq!(r.file_count, 0);
    assert_eq!(r.skipped.len(), 1);
    assert_eq!(r.skipped[0].0, p);
}

#[test]
fn file_names_are_the_last_component() {
    assert_eq!(file_name("/a/b.log").as_deref(), Some("b.log"));
    assert_eq!(file_name("/a/b/."), Some("b".to_string()));
    assert!(file_name("/").is_none());
    assert!(file_name("/a/..").is_none());
}

#[test]
fn single_targets_are_checked_before_scanning() {
    let p = "/home/alice/.cache/app/data";
    let ok = scan_audit(p);
    let del = deletion_audit(p);
    assert!(matches!(check_target(p, &ok, true, &Ok(dir_stat()), &del, true), TargetStep::ScanDirectory(true)));
    match check_target(p, &ok, true, &Ok(file_stat(7, None)), &del, true) {
        TargetStep::Done(r) => {
            assert_eq!(r.file_count, 1);
            assert_eq!(r.total_size, 7);
        }
        _ => panic!("a file is listed directly"),
    }
    match check_target(p, &ok, true, &Err("denied".to_string()), &del, false) {
        TargetStep::Done(r) => assert_eq!(r.errors.len(), 1),
        _ => panic!("unreadable metadata is an error"),
    }
    match check_target(p, &ok, false, &Ok(file_stat(7, None)), &del, false) {
        TargetStep::Done(r) => assert_eq!(r.skipped[0].1, "Path does not exist"),
        _ => panic!("a missing target is skipped"),
    }
    let mut r = ScanResult::new();
    record_unmatched_pattern(&mut r, "/x/*");
    assert_eq!(r.skipped, vec![("/x/*".to_string(), "Path does not exist".to_string())]);
}

#[test]
fn glob_patterns_expand_home() {
    assert_eq!(expand_glob_pattern("~/.cache/*.log", Some("/home/alice")).unwrap(), "/home/alice/.cache/*.log");
    assert_eq!(expand_glob_pattern("/tmp/*", None).unwrap(), "/tmp/*");
    assert_eq!(expand_glob_pattern("~/x*", None).unwrap_err(), "Cannot expand home directory");
}

#[test]
fn subfolder_search_rejects_traversal_patterns() {
    let root = "/home/alice/dev";
    match begin_subfolder_search(root, "../etc", &scan_audit(root), true) {
        Err(r) => assert_eq!(r.errors, vec!["Invalid subfolder search pattern '../etc'".to_string()]),
        Ok(_) => panic!("traversal must be refused"),
    }
    assert_eq!(begin_subfolder_search(root, "target/debug", &scan_audit(root), true).unwrap(), vec!["target", "debug"]);
}

#[test]
fn subfolder_search_reports_when_nothing_matches() {
    let r = no_subfolder_matches("/home/alice/dev", "target");
    assert_eq!(r.skipped, vec![("/home/alice/dev".to_string(), "No subdirectories matching 'target' found".to_string())]);
}

#[test]
fn matched_folders_are_listed_in_files_and_folders_mode_only() {
    let m = "/home/alice/dev/app/target";
    assert!(begin_subfolder_match(m, &scan_audit(m)).is_none());
    let mut r = ScanResult::new();
    finish_subfolder_match(&mut r, m, false, false, &deletion_audit(m), false);
    assert_eq!(r.dir_count, 0);
    finish_subfolder_match(&mut r, m, true, true, &deletion_audit(m), false);
    assert_eq!(r.dir_count, 0);
    finish_subfolder_match(&mut r, m, true, false, &deletion_audit(m), false);
    assert_eq!(r.dir_count, 1);
    assert_eq!(r.directories[0].path, m);
}

#[test]
fn application_logs_must_be_old_log_files() {
    let root = "/home/alice/.local/state";
    let cutoff = log_cutoff(10 * 86_400, 0).unwrap();
    assert_eq!(cutoff, 9 * 86_400);
    assert_eq!(log_cutoff_missing().errors.len(), 1);
    let mut r = ScanResult::new();
    assert!(matches!(begin_log_root(&mut r, true, &scan_audit(root), false), RootStep::Walk));
    assert!(matches!(begin_log_root(&mut r, false, &scan_audit(root), false), RootStep::Skip));
    let entry = |name: &str, is_symlink: bool, metadata: Option<(u64, Option<i64>)>| {
        let path = format!("{root}/{name}");
        LogEntry { deletion_audit: deletion_audit(&path), path, is_file: true, is_symlink, metadata }
    };
    assert!(scan_log_entry(&mut r, root, &entry("app.log", false, Some((100, Some(0)))), cutoff, false));
    assert!(scan_log_entry(&mut r, root, &entry("app.LOG.1", false, Some((50, Some(0)))), cutoff, false));
    assert!(scan_log_entry(&mut r, root, &entry("new.log", false, Some((9, Some(cutoff + 1)))), cutoff, false));
    assert!(scan_log_entry(&mut r, root, &entry("notes.txt", false, Some((9, Some(0)))), cutoff, false));
    assert!(scan_log_entry(&mut r, root, &entry("link.log", true, Some((9, Some(0)))), cutoff, false));
    assert!(scan_log_entry(&mut r, root, &entry("odd.log", false, Some((9, None))), cutoff, false));
    assert!(scan_log_entry(&mut r, root, &entry("gone.log", false, None), cutoff, false));
    assert_eq!(r.file_count, 2);
    assert_eq!(r.total_size, 150);
    assert_eq!(r.skipped.len(), 2);
    assert_eq!(r.skipped[0].1, "Cannot determine file age; kept for safety");
    assert_eq!(r.skipped[1].1, "Cannot read file metadata");
    assert!(!scan_log_entry(&mut r, root, &entry("app.log", false, Some((1, Some(0)))), cutoff, true));
    assert!(r.cancelled);
    assert_eq!(log_roots_in(Some("/s"), None), vec!["/s".to_string()]);
}

#[test]
fn rule_plans() {
    let mut app = AppRule::new("Logs", "npm", "~/.npm/_logs/*.log");
    assert!(app_rule_plan(&app, false, Some("/home/alice")).is_none());
    app.enabled = true;
    assert!(matches!(app_rule_plan(&app, false, Some("/home/alice")), Some(RulePlan::Glob(g)) if g == "~/.npm/_logs/*.log"));
    match app_rule_plan(&app, false, None) {
        Some(RulePlan::Done(r)) => assert_eq!(r.errors, vec!["Cannot expand path for rule: Logs".to_string()]),
        _ => panic!("an unexpandable path is an error"),
    }
    match app_rule_plan(&app, true, Some("/home/alice")) {
        Some(RulePlan::Done(r)) => assert!(r.cancelled),
        _ => panic!("a cancelled scan ends the rule"),
    }

    let mut custom = CustomRule::new("Dev", "~/dev");
    custom.enabled = true;
    custom.deletion_mode = DeletionMode::FilesAndDirectories;
    custom.subfolder_name = Some(" target ".to_string());
    match custom_rule_plan(&custom, false, Some("/home/alice")) {
        Some(RulePlan::Subfolders { root, name, include_dirs, .. }) => {
            assert_eq!(root, "/home/alice/dev");
            assert_eq!(name, "target");
            assert!(include_dirs);
        }
        _ => panic!("a subfolder search is planned"),
    }
    custom.subfolder_name = None;
    assert!(matches!(custom_rule_plan(&custom, false, Some("/home/alice")), Some(RulePlan::Directory { .. })));

    let mut kernels = SystemRule::new(SystemRuleType::OldKernels);
    kernels.enabled = true;
    match system_rule_plan(&kernels, false, None, None, None) {
        Some(RulePlan::Done(r)) => assert!(r.skipped[0].1.starts_with("Requires root privileges")),
        _ => panic!("kernels need the administrator"),
    }
    let mut tmp = SystemRule::new(SystemRuleType::TmpDirectory);
    tmp.enabled = true;
    assert!(matches!(system_rule_plan(&tmp, false, None, None, None), Some(RulePlan::Directories(v)) if !v.is_empty()));
}
