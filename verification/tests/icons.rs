use data_cleaner::icons::{DesktopEnvironment, DisplayServer, IconResolver, ResolutionType};

#[test]
fn test_fallback_chain() {
    assert!(!IconResolver::get_fallbacks("firefox").is_empty());
    assert!(!IconResolver::get_fallbacks("google-chrome").is_empty());
    assert!(!IconResolver::get_fallbacks("folder-symbolic").is_empty());
}

#[test]
fn test_bundled_resources() {
    assert!(IconResolver::get_bundled_resource("firefox").is_some());
    assert!(IconResolver::get_bundled_resource("google-chrome").is_some());
    assert!(IconResolver::get_bundled_resource("chromium").is_some());
    assert!(IconResolver::get_bundled_resource("folder-symbolic").is_none());
}

#[test]
fn test_desktop_environment_detection() {
    let de = DesktopEnvironment::detect_from(Some("ubuntu:GNOME"), None);
    assert!(!de.display_name().is_empty());
}

#[test]
fn test_display_server_detection() {
    let ds = DesktopEnvironment::display_server_from(false, Some("x11"), true);
    assert!(!ds.display_name().is_empty());
}

#[test]
fn test_generic_fallback() {
    let generic = IconResolver::generic_fallback_icon();
    assert!(!generic.is_empty());
    assert!(generic.contains("application") || generic.contains("system"));
}

#[test]
fn fallbacks_follow_the_table_and_the_symbolic_suffix() {
    assert_eq!(IconResolver::get_fallbacks("chrome"), vec!["google-chrome-symbolic", "chromium", "web-browser"]);
    assert_eq!(IconResolver::get_fallbacks("my-app-symbolic"), vec!["application-x-executable-symbolic"]);
    assert_eq!(IconResolver::get_fallbacks("my-app"), vec!["application-x-executable"]);
    assert_eq!(
        IconResolver::get_bundled_resource("brave-browser").as_deref(),
        Some("/com/chrisdaggas/datacleaner/icons/browsers/brave.svg")
    );
}

#[test]
fn resolution_walks_the_chain_and_is_counted() {
    let mut r = IconResolver::new();
    let themed = r.resolve("firefox", &vec!["firefox".to_string()], false);
    assert_eq!(themed.resolution_type, ResolutionType::ThemeIcon);
    assert_eq!(themed.icon_name, "firefox");
    let fallback = r.resolve("firefox", &vec!["web-browser".to_string(), "web-browser-symbolic".to_string()], false);
    assert_eq!(fallback.resolution_type, ResolutionType::FallbackIcon);
    assert_eq!(fallback.icon_name, "web-browser");
    let bundled = r.resolve("firefox", &vec![], true);
    assert_eq!(bundled.resolution_type, ResolutionType::BundledResource);
    assert_eq!(bundled.icon_name, "/com/chrisdaggas/datacleaner/icons/browsers/firefox.svg");
    let generic = r.resolve("firefox", &vec![], false);
    assert_eq!(generic.resolution_type, ResolutionType::GenericFallback);
    assert_eq!(generic.original_request, "firefox");
    let d = r.get_diagnostics_summary(Some("Adwaita".to_string()));
    assert_eq!(d.total_resolutions, 4);
    assert_eq!((d.theme_resolved, d.fallback_used, d.bundled_used, d.generic_used), (1, 1, 1, 1));
    assert!(!d.all_resolved());
    assert!(ResolutionType::BundledResource.is_fallback());
    assert!(!ResolutionType::ThemeIcon.is_fallback());
    assert_eq!(IconResolver::candidates("opera"), vec!["opera", "opera-symbolic", "web-browser"]);
}

#[test]
fn desktop_names_come_from_the_environment_in_order() {
    assert_eq!(DesktopEnvironment::detect_from(Some("ubuntu:GNOME"), None).display_name(), "GNOME");
    assert_eq!(DesktopEnvironment::detect_from(Some("KDE"), Some("gnome")).display_name(), "KDE Plasma");
    assert_eq!(DesktopEnvironment::detect_from(None, Some("plasmawayland")).display_name(), "KDE Plasma");
    assert_eq!(DesktopEnvironment::detect_from(Some("Hyprland"), None).display_name(), "Hyprland");
    assert_eq!(DesktopEnvironment::detect_from(None, None).display_name(), "Unknown");
    assert_eq!(DesktopEnvironment::detect_from(Some(""), None).display_name(), "Unknown");
    assert_eq!(DesktopEnvironment::detect_from(Some(""), Some("")).display_name(), "Unknown");
    assert_eq!(DesktopEnvironment::detect_from(Some(""), Some("gnome")).display_name(), "GNOME");
    assert_eq!(DesktopEnvironment::detect_from(None, Some("i3")).display_name(), "i3");
    assert_eq!(DesktopEnvironment::display_server_from(false, Some("wayland"), true), DisplayServer::Wayland);
    assert_eq!(DesktopEnvironment::display_server_from(false, Some("x11"), true), DisplayServer::X11);
    assert_eq!(DesktopEnvironment::display_server_from(false, None, false), DisplayServer::Unknown);
}

#[test]
fn resolution_counts_add_up_to_the_requests() {
    let mut r = IconResolver::new();
    r.resolve("firefox", &vec!["firefox".to_string()], false);
    r.resolve("firefox", &vec!["web-browser".to_string()], false);
    r.resolve("firefox", &vec![], true);
    r.resolve("no-such-icon", &vec![], false);
    let d = r.get_diagnostics_summary(None);
    assert_eq!(d.total_resolutions, 4);
    assert_eq!(d.theme_resolved + d.fallback_used + d.bundled_used + d.generic_used, 4);
}

#[test]
fn test_icon_diagnostics() {
    let resolver = IconResolver::new();
    let diags = resolver.get_diagnostics_summary(None);

    assert_eq!(diags.total_resolutions, 0);
    assert!(diags.all_resolved());
}
