use data_cleaner::browser::{BrowserDataType, BrowserRule, BrowserType};
use data_cleaner::rules::{AppRule, CustomRule};
use data_cleaner::settings::AppSettings;
use data_cleaner::store::{config_locations, count_enabled, reconcile_browser_rules, RuleSet};

#[test]
fn test_count_enabled_rules() {
    let mut set = RuleSet {
        settings: AppSettings::default(),
        browser_rules: Vec::new(),
        app_rules: Vec::new(),
        custom_rules: Vec::new(),
        system_rules: Vec::new(),
    };
    set.browser_rules.push(BrowserRule::defaults(&[]).into_iter().next().unwrap());
    if let Some(r) = set.browser_rules.first_mut() {
        r.enabled = true;
    }
    set.app_rules.push(AppRule::defaults().into_iter().next().unwrap());
    if let Some(r) = set.app_rules.first_mut() {
        r.enabled = true;
    }
    assert_eq!(set.count_enabled_rules(), 2);
}

#[test]
fn log_cleanups_count_as_rules() {
    let mut set = RuleSet {
        settings: AppSettings::default(),
        browser_rules: Vec::new(),
        app_rules: Vec::new(),
        custom_rules: vec![CustomRule::new("A", "/tmp/a")],
        system_rules: Vec::new(),
    };
    assert_eq!(set.count_enabled_rules(), 0);
    set.custom_rules[0].enabled = true;
    set.settings.application_log_cleanup_enabled = true;
    set.settings.system_journal_cleanup_enabled = true;
    assert_eq!(set.count_enabled_rules(), 3);
    assert_eq!(count_enabled(&set.custom_rules), 1);
}

#[test]
fn saved_browser_rules_are_brought_up_to_date() {
    let mut chrome_history = BrowserRule::new(BrowserType::Chrome, BrowserDataType::History);
    chrome_history.enabled = true;
    let mut firefox_cache = BrowserRule::new(BrowserType::Firefox, BrowserDataType::Cache);
    firefox_cache.enabled = true;
    let mut rules = vec![chrome_history, firefox_cache];
    let defaults = BrowserRule::defaults(&[BrowserType::Firefox]);
    let changed = reconcile_browser_rules(&mut rules, &[BrowserType::Firefox], defaults);
    assert!(changed);
    assert_eq!(rules.len(), 54);
    assert!(!rules[0].enabled, "rules of browsers no longer installed are switched off");
    assert!(rules[1].enabled);
    let again = reconcile_browser_rules(&mut rules, &[BrowserType::Firefox], BrowserRule::defaults(&[BrowserType::Firefox]));
    assert!(!again);
    assert_eq!(rules.len(), 54);
}

#[test]
fn configuration_lives_below_the_config_directory() {
    let (current, legacy) = config_locations(Some("/home/a/.config"), Some("/home/a"));
    assert_eq!(current, "/home/a/.config/data-cleaner");
    assert_eq!(legacy, "/home/a/.config/cleaner");
    let (current, legacy) = config_locations(None, Some("/home/a"));
    assert_eq!(current, "/home/a/.data-cleaner");
    assert_eq!(legacy, "/home/a/.cleaner");
    assert_eq!(config_locations(None, None).0, ".data-cleaner");
    assert!(data_cleaner::store::legacy_migration_needed(false, true));
    assert!(!data_cleaner::store::legacy_migration_needed(true, true));
}

#[test]
fn browser_switch_updates_or_adds_a_rule() {
    let mut rules = vec![BrowserRule::new(BrowserType::Firefox, BrowserDataType::Cache)];
    assert!(!data_cleaner::store::browser_rule_enabled(&rules, BrowserType::Firefox, BrowserDataType::Cache));
    data_cleaner::store::set_browser_rule_enabled(&mut rules, BrowserType::Firefox, BrowserDataType::Cache, true);
    assert_eq!(rules.len(), 1);
    assert!(data_cleaner::store::browser_rule_enabled(&rules, BrowserType::Firefox, BrowserDataType::Cache));
    data_cleaner::store::set_browser_rule_enabled(&mut rules, BrowserType::Chrome, BrowserDataType::Cookies, true);
    assert_eq!(rules.len(), 2);
    assert_eq!(rules[1].browser, BrowserType::Chrome);
    assert!(rules[1].enabled);
}

#[test]
fn rule_switches_find_rules_by_id_and_kind() {
    let mut apps = vec![AppRule::new("A", "a", "~/a"), AppRule::new("B", "b", "~/b")];
    let id = apps[1].id;
    data_cleaner::store::set_app_rule_enabled(&mut apps, &id, true);
    assert!(!apps[0].enabled && apps[1].enabled);
    let mut custom = vec![CustomRule::new("C", "/c")];
    let cid = custom[0].id;
    data_cleaner::store::set_custom_rule_enabled(&mut custom, &cid, true);
    assert!(custom[0].enabled);
    data_cleaner::store::set_custom_rule_enabled(&mut custom, &id, false);
    assert!(custom[0].enabled);
    let mut system = vec![data_cleaner::rules::SystemRule::new(data_cleaner::rules::SystemRuleType::Trash)];
    data_cleaner::store::set_system_rule_enabled(&mut system, data_cleaner::rules::SystemRuleType::Trash, true);
    assert!(system[0].enabled);
}
