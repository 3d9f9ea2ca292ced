use data_cleaner::browser::{BrowserDataType, BrowserRule, BrowserType};
use data_cleaner::scan_rules::{
    browser_rule_plan, directory_matches_pattern, is_glob_pattern, is_log_name, log_retention_seconds,
    matches_pattern, parse_subfolder_pattern, unsupported_browser_cleanup_reason, BrowserRulePlan,
};

#[test]
fn subfolder_patterns_are_trimmed_segments_without_traversal() {
    assert_eq!(parse_subfolder_pattern(" target / debug /"), Some(vec!["target".to_string(), "debug".to_string()]));
    assert_eq!(parse_subfolder_pattern("../escape"), None);
    assert_eq!(parse_subfolder_pattern("a/./b"), None);
    assert_eq!(parse_subfolder_pattern(" / "), None);
}

#[test]
fn matches_are_judged_by_their_last_components() {
    let segs = vec!["target".to_string(), "debug".to_string()];
    assert!(directory_matches_pattern("/p/x/target/debug", "/p", &segs));
    assert!(!directory_matches_pattern("/p/target", "/p", &segs));
    assert!(!directory_matches_pattern("/q/target/debug", "/p", &segs));
    assert!(!directory_matches_pattern("/p/target/debug/deps", "/p", &segs));
}

#[test]
fn file_patterns() {
    assert!(matches_pattern("app.log", "*.log"));
    assert!(!matches_pattern("app.txt", "*.log"));
    assert!(matches_pattern("cache-1", "cache*"));
    assert!(matches_pattern("my-tmp-file", "*tmp*"));
    assert!(matches_pattern("exact", "exact"));
    assert!(!matches_pattern("exactly", "exact"));
    assert!(is_log_name("Application.LOG"));
    assert!(is_log_name("application.log.1"));
    assert!(!is_log_name("keep.txt"));
    assert_eq!(log_retention_seconds(0), 86_400);
    assert_eq!(log_retention_seconds(30), 30 * 86_400);
    assert!(is_glob_pattern("/a/*.log"));
    assert!(!is_glob_pattern("/a/b"));
}

#[test]
fn firefox_history_is_skipped_as_unsafe() {
    assert!(unsupported_browser_cleanup_reason(BrowserType::Firefox, BrowserDataType::History)
        .unwrap()
        .contains("places"));
    assert!(unsupported_browser_cleanup_reason(BrowserType::Chrome, BrowserDataType::DownloadHistory).is_some());
    assert!(unsupported_browser_cleanup_reason(BrowserType::Chrome, BrowserDataType::History).is_none());
}

#[test]
fn browser_rule_plans() {
    let rule = BrowserRule::new(BrowserType::Chrome, BrowserDataType::Cache);
    match browser_rule_plan(&rule, &[], &[], Some("/c/google-chrome")) {
        BrowserRulePlan::Skip(p, r) => {
            assert_eq!(p, "/c/google-chrome");
            assert_eq!(r, "Google Chrome is not installed");
        }
        _ => panic!("expected a skip"),
    }
    let cookies = BrowserRule::new(BrowserType::Chrome, BrowserDataType::Cookies);
    match browser_rule_plan(&cookies, &[BrowserType::Chrome], &[BrowserType::Chrome], Some("/c")) {
        BrowserRulePlan::Skip(_, r) => assert!(r.contains("is currently running")),
        _ => panic!("expected a skip"),
    }
    assert!(matches!(
        browser_rule_plan(&rule, &[BrowserType::Chrome], &[], None),
        BrowserRulePlan::Fail(ref m) if m == "No path for browser rule: Google Chrome - Cache"
    ));
    match browser_rule_plan(&rule, &[BrowserType::Chrome], &[BrowserType::Chrome], Some("/c")) {
        BrowserRulePlan::Scan(targets, recurse) => {
            assert!(recurse);
            assert!(!targets.is_empty());
            assert!(targets.iter().all(|t| t.starts_with("/c/")));
        }
        _ => panic!("expected a scan"),
    }
}

#[test]
fn subfolder_search_keeps_outer_matches_only() {
    let segments = vec!["target".to_string()];
    let mut s = data_cleaner::scan_rules::SubfolderSearch::new("/p".to_string(), segments);
    assert!(!s.visit("/p/one", true));
    assert!(s.visit("/p/one/target", true));
    assert!(!s.visit("/p/one/target/deps/target", true));
    assert!(!s.visit("/p/three/target", false));
    assert!(s.visit("/p/two/target", true));
    assert_eq!(s.found, vec!["/p/one/target".to_string(), "/p/two/target".to_string()]);
}
