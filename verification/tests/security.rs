use data_cleaner::security::{
    check_prefixes, PrefixState, EntryMetadata, EntryState, Ownership, PathFacts, SecurityAuditor, SecurityError,
};

const UID: u32 = 1000;

fn as_found(path: &str) -> PathFacts {
    PathFacts { canonical: Ok(path.to_string()), mount_point: false, symlink: false }
}

#[test]
fn test_hard_denylist() {
    let auditor = SecurityAuditor::new(UID);

    // These should all be rejected
    let denied = ["/", "/usr", "/bin", "/etc", "/boot", "/lib", "/var"];

    for path in denied {
        let result = auditor.audit(path, as_found(path));
        assert!(!result.is_safe, "Path should be denied: {}", path);
    }
}

#[test]
fn test_relative_path_rejected() {
    let auditor = SecurityAuditor::new(UID);

    let result = auditor.audit("./some/path", as_found("./some/path"));
    assert!(!result.is_safe);

    let result = auditor.audit("../etc/passwd", as_found("../etc/passwd"));
    assert!(!result.is_safe);
}

#[test]
fn test_empty_path_rejected() {
    let auditor = SecurityAuditor::new(UID);
    let result = auditor.audit("", as_found(""));
    assert!(!result.is_safe);
}

#[test]
fn test_path_traversal_rejected() {
    let auditor = SecurityAuditor::new(UID);

    let path = "/home/user/../../../etc/passwd";
    let result = auditor.audit(path, as_found(path));
    assert!(!result.is_safe);
}

#[test]
fn test_shallow_path_rejected() {
    let auditor = SecurityAuditor::new(UID);

    // Depth 2 should be rejected (default min is 3)
    let result = auditor.audit("/nonexistent", as_found("/nonexistent"));
    assert!(!result.is_safe);
}

#[test]
fn test_cache_paths_allowed() {
    let auditor = SecurityAuditor::new(UID);

    if let Some(cache) = dirs::cache_dir() {
        let test_path = cache.join("some-app/cache");
        if test_path.components().count() >= 3 {
            let p = test_path.to_string_lossy().into_owned();
            let result = auditor.audit(&p, as_found(&p));
            assert!(
                result.is_safe
                    || result
                        .violations
                        .iter()
                        .any(|v| matches!(v, SecurityError::CanonicalizationFailed(_))),
                "Cache path should be allowed or fail gracefully"
            );
        }
    }
}

#[test]
fn test_protected_home_paths() {
    let auditor = SecurityAuditor::new(UID);

    if let Some(home) = dirs::home_dir() {
        let ssh = home.join(".ssh").to_string_lossy().into_owned();
        let result = auditor.audit(&ssh, as_found(&ssh));
        assert!(!result.is_safe, ".ssh should be protected");

        let gnupg = home.join(".gnupg").to_string_lossy().into_owned();
        let result = auditor.audit(&gnupg, as_found(&gnupg));
        assert!(!result.is_safe, ".gnupg should be protected");

        let documents = home.join("Documents").to_string_lossy().into_owned();
        let result = auditor.audit(&documents, as_found(&documents));
        assert!(!result.is_safe, "Documents should be protected");
    }
}

#[test]
fn test_custom_rule_paths() {
    let auditor = SecurityAuditor::new(UID);

    let unsafe_system_paths = ["/etc/passwd", "/usr/bin", "/var/log", "/boot", "/", "/bin", "/lib"];

    for path in &unsafe_system_paths {
        let result = auditor.audit(path, as_found(path));
        assert!(!result.is_safe, "Path should be denied: {}", path);
    }

    if let Some(home) = dirs::home_dir() {
        let unsafe_home_paths = [home.join(".ssh"), home.join(".gnupg"), home.join("Documents")];

        for path in &unsafe_home_paths {
            let p = path.to_string_lossy().into_owned();
            let result = auditor.audit(&p, as_found(&p));
            assert!(!result.is_safe, "Path should be denied: {}", path.display());
        }

        let safe_paths = [
            home.join(".cache/myapp"),
            home.join(".local/share/myapp/tmp"),
            home.join(".config/myapp/old-data"),
        ];

        for path in &safe_paths {
            let p = path.to_string_lossy().into_owned();
            let result = auditor.audit(&p, as_found(&p));
            assert!(
                result.is_safe
                    || result
                        .violations
                        .iter()
                        .any(|v| matches!(v, SecurityError::CanonicalizationFailed(_))),
                "Path should be allowed or fail gracefully: {}",
                path.display()
            );
        }
    }

    let safe_system_paths = ["/tmp/myapp-cache"];
    for path in &safe_system_paths {
        let result = auditor.audit(path, as_found(path));
        assert!(
            result.is_safe
                || result
                    .violations
                    .iter()
                    .any(|v| matches!(v, SecurityError::CanonicalizationFailed(_))),
            "Path should be allowed or fail gracefully: {}",
            path
        );
    }
}

#[test]
fn protected_system_roots_reject_all_descendants() {
    let auditor = SecurityAuditor::new(UID);
    for path in [
        "/root/projects/file.txt",
        "/var/lib/example/cache.bin",
        "/opt/example/data",
        "/srv/example/data",
        "/mnt/backup/archive",
        "/media/usb/DCIM/photo.jpg",
    ] {
        let result = auditor.audit(path, as_found(path));
        assert!(!result.is_safe, "descendant should be denied: {path}");
    }
}

fn fixed_auditor() -> SecurityAuditor {
    SecurityAuditor::with_dirs(
        UID,
        "/home/alice",
        "/home/alice/.cache",
        "/home/alice/.local/share",
        "/home/alice/.config",
        "/home/alice/.local/state",
    )
}

#[test]
fn each_refusal_names_its_reason() {
    let a = fixed_auditor();
    let r = a.audit("", as_found(""));
    assert!(matches!(r.violations[0], SecurityError::EmptyPath));
    assert_eq!(r.violations[0].message(), "Empty path not allowed");
    let r = a.audit("relative/x", as_found("relative/x"));
    assert!(matches!(&r.violations[0], SecurityError::RelativePath(p) if p == "relative/x"));
    let r = a.audit("/home/alice/a..b/c", as_found("/home/alice/a..b/c"));
    assert!(matches!(r.violations[0], SecurityError::PathTraversal(_)));
    let r = a.audit("/home/alice", as_found("/home/alice"));
    assert!(matches!(r.violations[0], SecurityError::HardDenylist(_)));
    assert_eq!(r.violations[0].message(), "Path is in hard denylist: /home/alice");
    let r = a.audit("/etc/ssl/certs", as_found("/etc/ssl/certs"));
    assert!(matches!(r.violations[0], SecurityError::ProtectedPath(_)));
    let r = a.audit("/data", as_found("/data"));
    assert!(matches!(r.violations[0], SecurityError::PathTooShallow { depth: 2, min: 3, .. }));
    assert_eq!(
        r.violations[0].message(),
        "Path depth too shallow (depth 2, minimum 3): /data"
    );
    let r = a.audit(
        "/home/alice/link/x",
        PathFacts {
            canonical: Err(SecurityError::SymlinkEscape {
                original: "/home/alice/link/x".to_string(),
                resolved: "/etc/x".to_string(),
            }),
            mount_point: false,
            symlink: false,
        },
    );
    assert_eq!(r.violations[0].message(), "Symlink escape detected: /home/alice/link/x resolves to /etc/x");
    let r = a.audit("/home/alice/notes/x", as_found("/home/alice/.ssh/id"));
    assert!(matches!(&r.violations[0], SecurityError::ProtectedPath(p) if p == "/home/alice/.ssh/id"));
    let r = a.audit("/home/alice/.cache/gtk-4.0/x", as_found("/home/alice/.cache/gtk-4.0/x"));
    assert!(matches!(r.violations[0], SecurityError::ProtectedPath(_)));
    let r = a.audit(
        "/home/alice/mnt/disk",
        PathFacts { canonical: Ok("/home/alice/mnt/disk".to_string()), mount_point: true, symlink: false },
    );
    assert!(matches!(r.violations[0], SecurityError::MountPoint(_)));
}

#[test]
fn a_passed_audit_carries_the_resolved_path_and_warns_of_links() {
    let a = fixed_auditor();
    let r = a.audit(
        "/home/alice/.cache/app/x",
        PathFacts { canonical: Ok("/home/alice/.cache/app/y".to_string()), mount_point: false, symlink: true },
    );
    assert!(r.is_safe);
    assert_eq!(r.canonical_path, "/home/alice/.cache/app/y");
    assert_eq!(r.warnings, vec!["Path is a symlink: /home/alice/.cache/app/x".to_string()]);
    assert!(r.violations.is_empty());
}

#[test]
fn deletion_audit_adds_the_ownership_check() {
    let a = fixed_auditor();
    let p = "/home/alice/.cache/app/x";
    assert!(a.audit_for_deletion(p, as_found(p), Ownership::Owner(UID)).is_safe);
    assert!(a.audit_for_deletion(p, as_found(p), Ownership::Missing).is_safe);
    let r = a.audit_for_deletion(p, as_found(p), Ownership::Owner(0));
    assert!(!r.is_safe);
    assert!(matches!(&r.violations[0], SecurityError::NotOwned(q) if q == p));
    assert!(!a.audit_for_deletion(p, as_found(p), Ownership::Unreadable).is_safe);
}

#[test]
fn final_check_refuses_links_and_foreign_files() {
    let a = fixed_auditor();
    let p = "/home/alice/.cache/app/x";
    let ok = EntryMetadata { is_symlink: false, uid: UID, len: 42 };
    let state = |md: Option<EntryMetadata>| EntryState {
        components_check: Ok(()),
        metadata: md,
        link_target: "/etc/passwd".to_string(),
    };
    assert_eq!(a.verify_before_deletion(p, state(Some(ok))).unwrap().len, 42);
    let link = EntryMetadata { is_symlink: true, ..ok };
    assert!(matches!(a.verify_before_deletion(p, state(Some(link))), Err(SecurityError::SymlinkEscape { .. })));
    let foreign = EntryMetadata { uid: 0, ..ok };
    assert!(matches!(a.verify_before_deletion(p, state(Some(foreign))), Err(SecurityError::NotOwned(_))));
    assert!(matches!(a.verify_before_deletion(p, state(None)), Err(SecurityError::CanonicalizationFailed(_))));
}

#[test]
fn missing_directories_fall_back_below_home() {
    let a = SecurityAuditor::from_user_dirs(UID, Some("/home/bob"), None, None, None, None);
    let p = "/home/bob/.cache/app/x";
    assert!(a.audit(p, as_found(p)).is_safe);
    let none = SecurityAuditor::from_user_dirs(UID, None, None, None, None, None);
    let r = none.audit("/nonexistent", as_found("/nonexistent"));
    assert!(matches!(r.violations[0], SecurityError::HardDenylist(_)));
    assert_eq!(none.current_uid(), UID);
}

#[test]
fn a_link_among_the_existing_prefixes_is_an_escape() {
    let ok = vec![PrefixState::Present, PrefixState::Present, PrefixState::Missing, PrefixState::Symlink("/x".to_string())];
    assert!(check_prefixes("/home/alice/a/b", &ok).is_ok());
    let link = vec![PrefixState::Present, PrefixState::Symlink("/etc".to_string())];
    assert!(matches!(
        check_prefixes("/home/alice/a", &link),
        Err(SecurityError::SymlinkEscape { ref original, ref resolved }) if original == "/home/alice/a" && resolved == "/etc"
    ));
    let unreadable = vec![PrefixState::Unreadable];
    assert!(matches!(
        check_prefixes("/home/alice/a", &unreadable),
        Err(SecurityError::CanonicalizationFailed(ref p)) if p == "/home/alice/a"
    ));
}
