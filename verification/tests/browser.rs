use data_cleaner::browser::{running_browsers, BrowserDataType, BrowserRule, BrowserType};

#[test]
fn browser_names_and_catalogs() {
    assert_eq!(BrowserType::all().len(), 9);
    assert_eq!(BrowserDataType::all().len(), 6);
    assert_eq!(BrowserType::Firefox.display_name(), "Firefox");
    assert!(BrowserDataType::Cookies.is_sensitive());
    assert!(!BrowserDataType::Cache.is_sensitive());
    assert!(BrowserDataType::Cache.recurse_directories());
    assert!(!BrowserDataType::Cache.relative_paths(BrowserType::Chrome).is_empty());
}

#[test]
fn running_browsers_are_found_by_process_name() {
    let comms = vec!["bash".to_string(), "chrome".to_string(), "Firefox".to_string(), "chrome".to_string()];
    let running = running_browsers(&comms);
    assert!(running.contains(&BrowserType::Firefox));
    assert!(running.contains(&BrowserType::Chrome));
    assert!(!running.contains(&BrowserType::Opera));
    assert!(BrowserType::Chrome.is_running(&running));
}

#[test]
fn installed_browsers_are_found_by_executable_or_launcher() {
    let path_dirs = vec!["/usr/bin".to_string()];
    let data_roots = vec!["/usr/share".to_string()];
    let existing = vec!["/usr/bin/firefox".to_string()];
    assert!(BrowserType::Firefox.is_installed(&path_dirs, &data_roots, &existing));
    assert!(!BrowserType::Chrome.is_installed(&path_dirs, &data_roots, &existing));
    let launcher = vec!["/usr/share/applications/google-chrome.desktop".to_string()];
    assert!(BrowserType::Chrome.is_installed(&path_dirs, &data_roots, &launcher));
}

#[test]
fn default_browser_rules_enable_only_installed_caches() {
    let rules = BrowserRule::defaults(&[BrowserType::Firefox]);
    assert_eq!(rules.len(), 54);
    let enabled: Vec<_> = rules.iter().filter(|r| r.enabled).collect();
    assert_eq!(enabled.len(), 1);
    assert_eq!(enabled[0].browser, BrowserType::Firefox);
    assert_eq!(enabled[0].data_type, BrowserDataType::Cache);
    assert_eq!(rules[0].display_name(), "Firefox - Cache");
    let custom = BrowserRule { custom_path: Some("/x".to_string()), ..rules[0].clone() };
    assert_eq!(custom.effective_path_in("/h", "/c", "/g"), "/x");
}

#[test]
fn rule_patterns_stay_below_the_browser_directory_and_process_names_are_distinct() {
    for b in BrowserType::all() {
        for t in BrowserDataType::all() {
            for p in t.relative_paths(*b) {
                assert!(!p.is_empty() && !p.starts_with('/'));
                assert!(p.split('/').all(|seg| seg != "." && seg != ".."));
            }
        }
    }
    let mut names: Vec<&str> = Vec::new();
    for b in BrowserType::all() {
        for n in b.process_names() {
            assert!(!n.is_empty() && n.chars().all(|c| !c.is_ascii_uppercase()));
            assert!(!names.contains(n));
            names.push(n);
        }
    }
}
