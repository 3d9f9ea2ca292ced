use data_cleaner::diagnostics::{
    display_section, environment_section, paths_section, portals_section, DiagnosticPaths, DiagnosticSection,
    EnvironmentFacts, PathPresence,
};

fn facts() -> EnvironmentFacts {
    EnvironmentFacts {
        xdg_current_desktop: Some("ubuntu:GNOME".to_string()),
        desktop_session: None,
        xdg_session_type: Some("wayland".to_string()),
        wayland_display: Some("wayland-0".to_string()),
        display: Some(":0".to_string()),
        in_flatpak: false,
        gtk_use_portal: None,
        xdg_data_dirs: None,
        portal_data_installed: false,
    }
}

fn rows(s: &DiagnosticSection) -> Vec<(String, String, Option<bool>)> {
    s.rows.iter().map(|r| (r.title.clone(), r.value.clone(), r.status)).collect()
}

#[test]
fn environment_section_names_the_desktop() {
    let s = environment_section(None, &facts());
    assert_eq!(s.title, "Desktop Environment");
    assert_eq!(
        rows(&s),
        vec![
            ("Desktop Environment".to_string(), "GNOME".to_string(), Some(true)),
            ("XDG_CURRENT_DESKTOP".to_string(), "ubuntu:GNOME".to_string(), None),
            ("XDG_SESSION_TYPE".to_string(), "wayland".to_string(), None),
        ]
    );
    let bare = EnvironmentFacts { xdg_current_desktop: None, xdg_session_type: None, ..facts() };
    let s = environment_section(None, &bare);
    assert_eq!(s.rows[1].value, "Not set");
    assert_eq!(s.rows[2].value, "Unknown");
}

#[test]
fn display_section_follows_the_session() {
    let s = display_section(None, &facts());
    assert_eq!(s.rows[0].value, "Wayland");
    assert_eq!(s.rows[1].title, "WAYLAND_DISPLAY");
    assert_eq!(s.rows[1].value, "wayland-0");
    assert_eq!(s.rows[2].value, "Full Wayland support via GTK4");
    let x11 = EnvironmentFacts { wayland_display: None, xdg_session_type: Some("x11".to_string()), ..facts() };
    let s = display_section(None, &x11);
    assert_eq!(s.rows[0].value, "X11");
    assert_eq!(s.rows[1].title, "DISPLAY");
    assert_eq!(s.rows[1].value, ":0");
    assert_eq!(s.rows[2].value, "X11 mode - all features available");
}

#[test]
fn portals_section_reports_flatpak_and_portal_data() {
    let s = portals_section(None, &facts());
    assert_eq!(s.rows[0].value, "Native installation");
    assert_eq!(s.rows[1].value, "Default");
    assert_eq!(s.rows[2].value, "Not detected");
    assert_eq!(s.rows[2].status, Some(false));
    let sandboxed = EnvironmentFacts {
        in_flatpak: true,
        gtk_use_portal: Some("1".to_string()),
        xdg_data_dirs: Some("/app/share:/var/lib/flatpak/exports/share".to_string()),
        ..facts()
    };
    let s = portals_section(None, &sandboxed);
    assert_eq!(s.rows[0].value, "Running in Flatpak sandbox");
    assert_eq!(s.rows[1].value, "Enabled");
    assert_eq!(s.rows[2].value, "Available");
    assert_eq!(s.rows[2].status, Some(true));
    let off = EnvironmentFacts { gtk_use_portal: Some("0".to_string()), ..facts() };
    assert_eq!(portals_section(None, &off).rows[1].value, "Disabled");
}

#[test]
fn paths_section_marks_missing_directories() {
    let paths = DiagnosticPaths {
        config: Some("/home/u/.config".to_string()),
        cache: None,
        data: Some("/home/u/.local/share".to_string()),
        home: Some("/home/u".to_string()),
        app_config: "/home/u/.config/data-cleaner".to_string(),
    };
    let presence = PathPresence { config: true, cache: false, data: true, home: true, app_config: false };
    let s = paths_section(None, &paths, &presence);
    assert_eq!(s.title, "XDG Paths");
    assert_eq!(
        rows(&s),
        vec![
            ("Config".to_string(), "/home/u/.config".to_string(), Some(true)),
            ("Cache".to_string(), "Not available".to_string(), Some(false)),
            ("Data".to_string(), "/home/u/.local/share".to_string(), Some(true)),
            ("Home".to_string(), "/home/u".to_string(), Some(true)),
            ("App Config".to_string(), "/home/u/.config/data-cleaner".to_string(), Some(false)),
        ]
    );
}

#[test]
fn app_config_lies_below_the_config_directory() {
    let paths = data_cleaner::diagnostics::diagnostic_paths();
    match &paths.config {
        Some(c) => assert_eq!(paths.app_config, format!("{}/data-cleaner", c.trim_end_matches('/'))),
        None => assert_eq!(paths.app_config, ""),
    }
}
