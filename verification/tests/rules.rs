use data_cleaner::rules::{expand_home_in, AppRule, CustomRule, DeletionMode, SystemRule, SystemRuleType};

#[test]
fn blank_subfolder_names_do_not_enable_search_mode() {
    let mut rule = CustomRule::new("Rule", "/tmp/x");
    assert!(!rule.is_subfolder_search());

    rule.subfolder_name = Some("   ".to_string());
    assert!(!rule.is_subfolder_search());

    rule.subfolder_name = Some("target".to_string());
    assert!(rule.is_subfolder_search());
}

#[test]
fn home_relative_paths_expand_against_home() {
    assert_eq!(expand_home_in("~/.npm/_cacache", Some("/home/a")).as_deref(), Some("/home/a/.npm/_cacache"));
    assert_eq!(expand_home_in("~", Some("/home/a")).as_deref(), Some("/home/a"));
    assert_eq!(expand_home_in("~/x", None), None);
    assert_eq!(expand_home_in("/var/tmp/x", None).as_deref(), Some("/var/tmp/x"));
    assert_eq!(expand_home_in("~user/x", Some("/home/a")).as_deref(), Some("~user/x"));
    let rule = CustomRule::new("Tmp", "/tmp/cache");
    assert_eq!(rule.expanded_path().as_deref(), Some("/tmp/cache"));
}

#[test]
fn builtin_application_rules_are_listed_disabled() {
    let rules = AppRule::defaults();
    assert_eq!(rules.len(), 36);
    assert_eq!(rules[0].name, "NPM Cache");
    assert_eq!(rules[0].path, "~/.npm/_cacache");
    assert_eq!(rules[35].name, "User Journal Logs");
    assert!(rules.iter().all(|r| r.builtin && !r.enabled));
    let own = AppRule::new("Mine", "my cache", "/tmp/mine");
    assert!(!own.builtin);
}

#[test]
fn system_rules_and_their_locations() {
    assert_eq!(SystemRuleType::all().len(), 5);
    assert_eq!(SystemRuleType::root_rules(), &[SystemRuleType::OldKernels, SystemRuleType::PackageCache]);
    assert!(SystemRuleType::PackageCache.requires_root());
    assert!(!SystemRuleType::Trash.requires_root());
    assert_eq!(
        SystemRuleType::Trash.paths_in(None, Some("/home/a/.local/share"), None),
        vec!["/home/a/.local/share/Trash/files".to_string(), "/home/a/.local/share/Trash/info".to_string()]
    );
    assert!(SystemRuleType::Thumbnails.paths_in(None, None, None).is_empty());
    assert_eq!(SystemRuleType::TmpDirectory.paths_in(None, None, None), vec!["/tmp".to_string()]);
    let defaults = SystemRule::defaults();
    assert_eq!(defaults.len(), 5);
    assert!(defaults.iter().all(|r| !r.enabled));
    let mut r = SystemRule::new(SystemRuleType::UserCache);
    r.custom_paths = Some(vec!["/srv/x".to_string()]);
    assert_eq!(r.effective_paths_in(Some("/c"), None, None), vec!["/srv/x".to_string()]);
    assert_eq!(r.display_name(), "User Cache (~/.cache)");
    assert_eq!(DeletionMode::default(), DeletionMode::FilesOnly);
    assert_eq!(DeletionMode::FilesAndDirectories.display_name(), "Files and Directories");
}
