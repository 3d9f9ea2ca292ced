use data_cleaner::custom_form::{
    check_form, check_form_in, custom_rule_from_form, display_custom_path_in, expand_custom_path_in, form_next_step,
    high_risk_message, is_conventional_cleanup_path_in, queue_rule_creation_in, remove_custom_rule,
    search_pattern_error, search_preview, FormCheck, FormStep, RuleCreation,
};
use data_cleaner::rules::{CustomRule, DeletionMode};
use data_cleaner::security::{PathFacts, SecurityAuditor};

const HOME: &str = "/home/alice";
const CACHE: &str = "/home/alice/.cache";
const STATE: &str = "/home/alice/.local/state";

fn auditor() -> SecurityAuditor {
    SecurityAuditor::with_dirs(1000, HOME, CACHE, "/home/alice/.local/share", "/home/alice/.config", STATE)
}

fn found(path: &str) -> PathFacts {
    PathFacts { canonical: Ok(path.to_string()), mount_point: false, symlink: false }
}

#[test]
fn tilde_paths_expand_against_home() {
    assert_eq!(expand_custom_path_in("~/Projects", Some(HOME)).unwrap(), "/home/alice/Projects");
    assert_eq!(expand_custom_path_in("~", Some(HOME)).unwrap(), HOME);
    assert_eq!(expand_custom_path_in("/srv/data", None).unwrap(), "/srv/data");
    assert!(expand_custom_path_in("~/x", None).is_none());
}

#[test]
fn chosen_folders_are_shown_relative_to_home() {
    assert_eq!(display_custom_path_in("/home/alice", Some(HOME)), "~/");
    assert_eq!(display_custom_path_in("/home/alice/dev/app", Some(HOME)), "~/dev/app");
    assert_eq!(display_custom_path_in("/home/alicex/dev", Some(HOME)), "/home/alicex/dev");
    assert_eq!(display_custom_path_in("/srv", None), "/srv");
}

#[test]
fn only_locations_strictly_below_cache_state_or_tmp_are_conventional() {
    assert!(is_conventional_cleanup_path_in("/home/alice/.cache/thing", Some(CACHE), Some(STATE)));
    assert!(!is_conventional_cleanup_path_in("/home/alice/.cache", Some(CACHE), Some(STATE)));
    assert!(is_conventional_cleanup_path_in("/home/alice/.local/state/app", Some(CACHE), Some(STATE)));
    assert!(is_conventional_cleanup_path_in("/tmp/build", None, None));
    assert!(!is_conventional_cleanup_path_in("/tmp", None, None));
    assert!(!is_conventional_cleanup_path_in("/home/alice/Documents", Some(CACHE), Some(STATE)));
}

#[test]
fn new_rules_are_disabled_and_ignore_blank_searches() {
    let rule = custom_rule_from_form("Build", "~/dev", DeletionMode::FilesAndDirectories, Some("  ".to_string()));
    assert!(!rule.enabled);
    assert_eq!(rule.deletion_mode, DeletionMode::FilesAndDirectories);
    assert!(rule.subfolder_name.is_none());
    let rule = custom_rule_from_form("Build", "~/dev", DeletionMode::FilesOnly, Some("target".to_string()));
    assert_eq!(rule.subfolder_name.as_deref(), Some("target"));
}

#[test]
fn high_risk_locations_need_confirmation() {
    match queue_rule_creation_in("Docs", "~/Documents", DeletionMode::FilesOnly, None, "/home/alice/Documents", Some(CACHE), Some(STATE)) {
        RuleCreation::ConfirmHighRisk { message, rule } => {
            assert!(message.starts_with("~/Documents is outside the normal cache"));
            assert!(message.ends_with("The rule will be added disabled and must be enabled manually."));
            assert!(!rule.enabled);
        }
        RuleCreation::AddNow(_) => panic!("a documents folder is not a cache location"),
    }
    assert!(matches!(
        queue_rule_creation_in("C", "~/.cache/x", DeletionMode::FilesOnly, None, "/home/alice/.cache/x", Some(CACHE), Some(STATE)),
        RuleCreation::AddNow(_)
    ));
    let with_search = high_risk_message("~/dev", Some("target"));
    assert!(with_search.contains("The rule searches it for folders matching \"target\" and only those folders are cleaned."));
}

#[test]
fn the_form_needs_a_name_and_a_path() {
    assert!(matches!(check_form_in("", "~/x", Some(HOME)), FormCheck::Incomplete));
    assert!(matches!(check_form_in("a", "", Some(HOME)), FormCheck::Incomplete));
    assert!(matches!(check_form_in("a", "~/x", None), FormCheck::HomeUnknown));
    assert!(matches!(check_form_in("a", "~/x", Some(HOME)), FormCheck::Expanded(e) if e == "/home/alice/x"));
    assert!(matches!(check_form("a", "/opt/app/cache"), FormCheck::Expanded(e) if e == "/opt/app/cache"));
    assert!(matches!(check_form("", "/opt/app/cache"), FormCheck::Incomplete));
}

#[test]
fn a_refused_path_names_the_first_violation() {
    let a = auditor();
    let audit = a.audit("/etc", found("/etc"));
    match form_next_step("Etc", "/etc", "", false, "/etc", &audit, Some(CACHE), Some(STATE)) {
        FormStep::Refused(m) => assert!(m.starts_with("The path '/etc' is not allowed:\n")),
        _ => panic!("/etc must be refused"),
    }
}

#[test]
fn a_search_goes_to_the_preview_trimmed() {
    let a = auditor();
    let audit = a.audit("/home/alice/dev", found("/home/alice/dev"));
    assert!(audit.is_safe);
    assert!(matches!(
        form_next_step("Dev", "~/dev", "  target ", true, "/home/alice/dev", &audit, Some(CACHE), Some(STATE)),
        FormStep::PreviewSearch(s) if s == "target"
    ));
    match form_next_step("Dev", "~/dev", "", true, "/home/alice/dev", &audit, Some(CACHE), Some(STATE)) {
        FormStep::Create(RuleCreation::ConfirmHighRisk { rule, .. }) => {
            assert_eq!(rule.deletion_mode, DeletionMode::FilesAndDirectories)
        }
        _ => panic!("a project folder needs confirmation"),
    }
}

#[test]
fn search_patterns_are_checked_and_previewed() {
    assert!(search_pattern_error("target/debug").is_none());
    assert!(search_pattern_error("../x").unwrap().starts_with("'../x' is not a valid folder search pattern."));
    let none = search_preview("target", "~/dev", &vec![]);
    assert_eq!(none.heading, "No Matches Yet");
    assert!(none.body.starts_with("No folders matching \"target\" exist under ~/dev right now."));
    let one = search_preview("target", "~/dev", &vec!["/a/target".to_string()]);
    assert_eq!(one.heading, "Found 1 Match");
    assert!(one.more.is_none());
    let many: Vec<String> = (0..23).map(|i| format!("/p{i}/target")).collect();
    let p = search_preview("target", "~/dev", &many);
    assert_eq!(p.heading, "Found 23 Matches");
    assert_eq!(p.shown.len(), 20);
    assert_eq!(p.more.as_deref(), Some("\u{2026}and 3 more"));
    assert_eq!(p.body, "Folders matching \"target\" under ~/dev will be added to the cleanup list:");
}

#[test]
fn deleting_a_rule_keeps_the_others_in_order() {
    let a = CustomRule::new("a", "/a");
    let b = CustomRule::new("b", "/b");
    let c = CustomRule::new("c", "/c");
    let id = b.id;
    let mut rules = vec![a, b, c];
    remove_custom_rule(&mut rules, &id);
    let names: Vec<_> = rules.iter().map(|r| r.name.as_str()).collect();
    assert_eq!(names, vec!["a", "c"]);
}

#[test]
fn rule_rows_show_search_pattern_and_age() {
    let mut rule = data_cleaner::rules::CustomRule::new("Builds", "/home/u/src");
    let plain = data_cleaner::custom_form::rule_row_text(&rule);
    assert_eq!(plain.subtitle, "/home/u/src");
    assert_eq!(plain.deletion_mode, "Delete files but keep folder structure");
    assert!(plain.search.is_none() && plain.pattern.is_none() && plain.min_age.is_none());
    rule.subfolder_name = Some("  target ".to_string());
    rule.file_pattern = Some("*.o".to_string());
    rule.min_age_days = 7;
    let full = data_cleaner::custom_form::rule_row_text(&rule);
    assert_eq!(full.subtitle, "/home/u/src \u{2022} searching subfolders matching \"target\"");
    assert_eq!(full.search.as_deref(), Some("Rescans \"/home/u/src\" for folders matching \"target\" on every scan"));
    assert_eq!(full.pattern.as_deref(), Some("*.o"));
    assert_eq!(full.min_age.as_deref(), Some("7 days"));
    rule.subfolder_name = Some("   ".to_string());
    assert!(data_cleaner::custom_form::rule_row_text(&rule).search.is_none());
}
