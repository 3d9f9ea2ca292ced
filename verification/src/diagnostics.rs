//! The diagnostics report: what the application finds of the desktop
//! environment, the display server, desktop portals and the standard
//! directories, as titled sections of rows.
//!
//! The environment variables and file checks are read by the caller and
//! handed over as plain values.
use vstd::prelude::*;
use crate::cleanup_log::{catalog_view, trs};
use crate::i18n::{tr, Catalog};
use crate::icons::{spec_detect, DesktopEnvironment, DesktopView, DisplayServer};
use crate::outside::{cache_dir, config_dir, data_dir, home_dir};
use crate::paths::{join, join_path};
use crate::security::{borrowed, opt_view};
use crate::text::{contains, owned, text_contains, text_equal};

verus! {

/// The environment as the caller read it.
pub struct EnvironmentFacts {
    pub xdg_current_desktop: Option<String>,
    pub desktop_session: Option<String>,
    pub xdg_session_type: Option<String>,
    pub wayland_display: Option<String>,
    pub display: Option<String>,
    /// Whether `/.flatpak-info` exists.
    pub in_flatpak: bool,
    pub gtk_use_portal: Option<String>,
    pub xdg_data_dirs: Option<String>,
    /// Whether `/usr/share/xdg-desktop-portal` exists.
    pub portal_data_installed: bool,
}

/// A line of the report: its title, its value, and, for some, whether it
/// is shown as fine (`Some(true)`) or as a warning (`Some(false)`).
pub struct DiagnosticRow {
    pub title: String,
    pub value: String,
    pub status: Option<bool>,
}

pub struct DiagnosticSection {
    pub title: String,
    pub description: String,
    pub rows: Vec<DiagnosticRow>,
}

pub open spec fn rows_view(v: Seq<DiagnosticRow>) -> Seq<(Seq<char>, Seq<char>, Option<bool>)> {
    Seq::new(v.len(), |i: int| (v[i].title@, v[i].value@, v[i].status))
}

pub open spec fn section_view(s: DiagnosticSection) -> (Seq<char>, Seq<char>, Seq<(Seq<char>, Seq<char>, Option<bool>)>) {
    (s.title@, s.description@, rows_view(s.rows@))
}

pub open spec fn opt_string(o: Option<String>) -> Option<Seq<char>> {
    match o {
        Some(s) => Some(s@),
        None => None,
    }
}

/// The value of a variable, or `fallback` when it is not set.
pub open spec fn or_else(o: Option<String>, fallback: Seq<char>) -> Seq<char> {
    match o {
        Some(s) => s@,
        None => fallback,
    }
}

pub open spec fn desktop_name(v: DesktopView) -> Seq<char> {
    match v {
        DesktopView::Gnome => "GNOME"@,
        DesktopView::Kde => "KDE Plasma"@,
        DesktopView::Cosmic => "COSMIC"@,
        DesktopView::Xfce => "Xfce"@,
        DesktopView::Cinnamon => "Cinnamon"@,
        DesktopView::Mate => "MATE"@,
        DesktopView::Budgie => "Budgie"@,
        DesktopView::Pantheon => "Pantheon"@,
        DesktopView::Lxqt => "LXQt"@,
        DesktopView::Lxde => "LXDE"@,
        DesktopView::Unknown(n) => n,
    }
}

fn row(title: String, value: String, status: Option<bool>) -> (r: DiagnosticRow)
    ensures
        r.title == title,
        r.value == value,
        r.status == status,
{
    DiagnosticRow { title, value, status }
}

fn push_row(rows: &mut Vec<DiagnosticRow>, r: DiagnosticRow)
    ensures
        rows_view(final(rows)@) == rows_view(old(rows)@).push((r.title@, r.value@, r.status)),
{
    rows.push(r);
    assert(rows_view(rows@) =~= rows_view(old(rows)@).push((r.title@, r.value@, r.status)));
}

fn value_or(catalog: Option<&Catalog>, o: &Option<String>, fallback: &str) -> (r: String)
    ensures
        r@ == or_else(*o, trs(catalog_view(catalog), fallback@)),
{
    match o {
        Some(s) => s.clone(),
        None => tr(catalog, fallback),
    }
}

// ---------------------------------------------------------------------------
// Desktop environment
// ---------------------------------------------------------------------------
pub open spec fn environment_view(c: Option<Map<Seq<char>, Seq<char>>>, f: EnvironmentFacts) -> (Seq<char>, Seq<char>, Seq<
    (Seq<char>, Seq<char>, Option<bool>),
>) {
    (
        trs(c, "Desktop Environment"@),
        trs(c, "Information about your desktop environment"@),
        seq![
            (
                trs(c, "Desktop Environment"@),
                desktop_name(spec_detect(opt_string(f.xdg_current_desktop), opt_string(f.desktop_session))),
                Some(true),
            ),
            ("XDG_CURRENT_DESKTOP"@, or_else(f.xdg_current_desktop, trs(c, "Not set"@)), None),
            ("XDG_SESSION_TYPE"@, or_else(f.xdg_session_type, trs(c, "Unknown"@)), None),
        ],
    )
}

/// The desktop environment section.
pub fn environment_section(catalog: Option<&Catalog>, facts: &EnvironmentFacts) -> (r: DiagnosticSection)
    ensures
        section_view(r) == environment_view(catalog_view(catalog), *facts),
{
    let current = match &facts.xdg_current_desktop {
        Some(s) => Some(s.as_str()),
        None => None,
    };
    let session = match &facts.desktop_session {
        Some(s) => Some(s.as_str()),
        None => None,
    };
    let de = DesktopEnvironment::detect_from(current, session);
    let mut rows: Vec<DiagnosticRow> = Vec::new();
    push_row(&mut rows, row(tr(catalog, "Desktop Environment"), owned(de.display_name()), Some(true)));
    push_row(&mut rows, row(owned("XDG_CURRENT_DESKTOP"), value_or(catalog, &facts.xdg_current_desktop, "Not set"), None));
    push_row(&mut rows, row(owned("XDG_SESSION_TYPE"), value_or(catalog, &facts.xdg_session_type, "Unknown"), None));
    let r = DiagnosticSection {
        title: tr(catalog, "Desktop Environment"),
        description: tr(catalog, "Information about your desktop environment"),
        rows,
    };
    assert(rows_view(r.rows@) =~= environment_view(catalog_view(catalog), *facts).2);
    r
}

// ---------------------------------------------------------------------------
// Display server
// ---------------------------------------------------------------------------
pub open spec fn spec_server(f: EnvironmentFacts) -> DisplayServer {
    if f.wayland_display is Some || opt_string(f.xdg_session_type) == Some("wayland"@) {
        DisplayServer::Wayland
    } else if f.display is Some {
        DisplayServer::X11
    } else {
        DisplayServer::Unknown
    }
}

pub open spec fn server_name(d: DisplayServer) -> Seq<char> {
    match d {
        DisplayServer::Wayland => "Wayland"@,
        DisplayServer::X11 => "X11"@,
        DisplayServer::Unknown => "Unknown"@,
    }
}

pub open spec fn display_view(c: Option<Map<Seq<char>, Seq<char>>>, f: EnvironmentFacts) -> (Seq<char>, Seq<char>, Seq<
    (Seq<char>, Seq<char>, Option<bool>),
>) {
    let wayland = spec_server(f) == DisplayServer::Wayland;
    (
        trs(c, "Display Server"@),
        trs(c, "Information about the display server"@),
        seq![
            (trs(c, "Display Server"@), server_name(spec_server(f)), Some(true)),
            if wayland {
                ("WAYLAND_DISPLAY"@, or_else(f.wayland_display, trs(c, "Not set"@)), None)
            } else {
                ("DISPLAY"@, or_else(f.display, trs(c, "Not set"@)), None)
            },
            (
                trs(c, "Compatibility"@),
                if wayland {
                    trs(c, "Full Wayland support via GTK4"@)
                } else {
                    trs(c, "X11 mode - all features available"@)
                },
                Some(true),
            ),
        ],
    )
}

/// The display server section.
pub fn display_section(catalog: Option<&Catalog>, facts: &EnvironmentFacts) -> (r: DiagnosticSection)
    ensures
        section_view(r) == display_view(catalog_view(catalog), *facts),
{
    let session = match &facts.xdg_session_type {
        Some(s) => Some(s.as_str()),
        None => None,
    };
    let server = DesktopEnvironment::display_server_from(
        facts.wayland_display.is_some(),
        session,
        facts.display.is_some(),
    );
    assert(opt_view(session) == opt_string(facts.xdg_session_type));
    let wayland = server == DisplayServer::Wayland;
    let mut rows: Vec<DiagnosticRow> = Vec::new();
    push_row(&mut rows, row(tr(catalog, "Display Server"), owned(server.display_name()), Some(true)));
    if wayland {
        push_row(&mut rows, row(owned("WAYLAND_DISPLAY"), value_or(catalog, &facts.wayland_display, "Not set"), None));
    } else {
        push_row(&mut rows, row(owned("DISPLAY"), value_or(catalog, &facts.display, "Not set"), None));
    }
    let note = if wayland {
        tr(catalog, "Full Wayland support via GTK4")
    } else {
        tr(catalog, "X11 mode - all features available")
    };
    push_row(&mut rows, row(tr(catalog, "Compatibility"), note, Some(true)));
    let r = DiagnosticSection {
        title: tr(catalog, "Display Server"),
        description: tr(catalog, "Information about the display server"),
        rows,
    };
    assert(rows_view(r.rows@) =~= display_view(catalog_view(catalog), *facts).2);
    r
}

// ---------------------------------------------------------------------------
// Desktop portals
// ---------------------------------------------------------------------------
/// Portal data is found when the data directories mention Flatpak (the
/// default ones do not) or the portal's data is installed.
pub open spec fn portal_data(f: EnvironmentFacts) -> bool {
    contains(or_else(f.xdg_data_dirs, "/usr/share:/usr/local/share"@), "flatpak"@) || f.portal_data_installed
}

pub open spec fn portal_usage(c: Option<Map<Seq<char>, Seq<char>>>, v: Option<String>) -> Seq<char> {
    match v {
        Some(s) => if s@ == "1"@ {
            trs(c, "Enabled"@)
        } else {
            trs(c, "Disabled"@)
        },
        None => trs(c, "Default"@),
    }
}

pub open spec fn portals_view(c: Option<Map<Seq<char>, Seq<char>>>, f: EnvironmentFacts) -> (Seq<char>, Seq<char>, Seq<
    (Seq<char>, Seq<char>, Option<bool>),
>) {
    (
        trs(c, "XDG Portals"@),
        trs(c, "Desktop portal availability for sandboxed access"@),
        seq![
            (
                trs(c, "Flatpak Environment"@),
                if f.in_flatpak {
                    trs(c, "Running in Flatpak sandbox"@)
                } else {
                    trs(c, "Native installation"@)
                },
                Some(true),
            ),
            (trs(c, "GTK Portal Usage"@), portal_usage(c, f.gtk_use_portal), None),
            (
                trs(c, "Portal Service"@),
                if portal_data(f) {
                    trs(c, "Available"@)
                } else {
                    trs(c, "Not detected"@)
                },
                Some(portal_data(f)),
            ),
        ],
    )
}

/// The desktop portals section.
pub fn portals_section(catalog: Option<&Catalog>, facts: &EnvironmentFacts) -> (r: DiagnosticSection)
    ensures
        section_view(r) == portals_view(catalog_view(catalog), *facts),
{
    let mut rows: Vec<DiagnosticRow> = Vec::new();
    let flatpak = if facts.in_flatpak {
        tr(catalog, "Running in Flatpak sandbox")
    } else {
        tr(catalog, "Native installation")
    };
    push_row(&mut rows, row(tr(catalog, "Flatpak Environment"), flatpak, Some(true)));
    let usage = match &facts.gtk_use_portal {
        Some(v) => if text_equal(v.as_str(), "1") {
            tr(catalog, "Enabled")
        } else {
            tr(catalog, "Disabled")
        },
        None => tr(catalog, "Default"),
    };
    push_row(&mut rows, row(tr(catalog, "GTK Portal Usage"), usage, None));
    let dirs: &str = match &facts.xdg_data_dirs {
        Some(d) => d.as_str(),
        None => "/usr/share:/usr/local/share",
    };
    let has_data = text_contains(dirs, "flatpak") || facts.portal_data_installed;
    let service = if has_data {
        tr(catalog, "Available")
    } else {
        tr(catalog, "Not detected")
    };
    push_row(&mut rows, row(tr(catalog, "Portal Service"), service, Some(has_data)));
    let r = DiagnosticSection {
        title: tr(catalog, "XDG Portals"),
        description: tr(catalog, "Desktop portal availability for sandboxed access"),
        rows,
    };
    assert(rows_view(r.rows@) =~= portals_view(catalog_view(catalog), *facts).2);
    r
}

// ---------------------------------------------------------------------------
// Standard directories
// ---------------------------------------------------------------------------
/// The standard directories the report lists, and the application's
/// configuration directory below the configuration directory (empty when
/// that one is unknown).
pub struct DiagnosticPaths {
    pub config: Option<String>,
    pub cache: Option<String>,
    pub data: Option<String>,
    pub home: Option<String>,
    pub app_config: String,
}

pub open spec fn app_config_of(config: Option<String>) -> Seq<char> {
    match config {
        Some(c) => join(c@, "data-cleaner"@),
        None => Seq::<char>::empty(),
    }
}

/// The current user's standard directories, whichever the environment
/// gives, with the application's configuration directory below the first.
pub fn diagnostic_paths() -> (r: DiagnosticPaths)
    ensures
        r.app_config@ == app_config_of(r.config),
{
    let config = config_dir();
    let app_config = match &config {
        Some(c) => join_path(c.as_str(), "data-cleaner"),
        None => String::new(),
    };
    DiagnosticPaths { config, cache: cache_dir(), data: data_dir(), home: home_dir(), app_config }
}

/// Which of the listed directories exist, in the order of
/// `DiagnosticPaths`.
pub struct PathPresence {
    pub config: bool,
    pub cache: bool,
    pub data: bool,
    pub home: bool,
    pub app_config: bool,
}

pub open spec fn paths_view(c: Option<Map<Seq<char>, Seq<char>>>, p: DiagnosticPaths, e: PathPresence) -> (Seq<char>, Seq<
    char,
>, Seq<(Seq<char>, Seq<char>, Option<bool>)>) {
    let na = trs(c, "Not available"@);
    (
        trs(c, "XDG Paths"@),
        trs(c, "Standard directory locations being used"@),
        seq![
            (trs(c, "Config"@), or_else(p.config, na), Some(e.config)),
            (trs(c, "Cache"@), or_else(p.cache, na), Some(e.cache)),
            (trs(c, "Data"@), or_else(p.data, na), Some(e.data)),
            (trs(c, "Home"@), or_else(p.home, na), Some(e.home)),
            (trs(c, "App Config"@), p.app_config@, Some(e.app_config)),
        ],
    )
}

/// The standard directories section.
pub fn paths_section(catalog: Option<&Catalog>, paths: &DiagnosticPaths, exists: &PathPresence) -> (r: DiagnosticSection)
    ensures
        section_view(r) == paths_view(catalog_view(catalog), *paths, *exists),
{
    let mut rows: Vec<DiagnosticRow> = Vec::new();
    push_row(&mut rows, row(tr(catalog, "Config"), value_or(catalog, &paths.config, "Not available"), Some(exists.config)));
    push_row(&mut rows, row(tr(catalog, "Cache"), value_or(catalog, &paths.cache, "Not available"), Some(exists.cache)));
    push_row(&mut rows, row(tr(catalog, "Data"), value_or(catalog, &paths.data, "Not available"), Some(exists.data)));
    push_row(&mut rows, row(tr(catalog, "Home"), value_or(catalog, &paths.home, "Not available"), Some(exists.home)));
    push_row(&mut rows, row(tr(catalog, "App Config"), paths.app_config.clone(), Some(exists.app_config)));
    let r = DiagnosticSection {
        title: tr(catalog, "XDG Paths"),
        description: tr(catalog, "Standard directory locations being used"),
        rows,
    };
    assert(rows_view(r.rows@) =~= paths_view(catalog_view(catalog), *paths, *exists).2);
    r
}

} // verus!
