//! Integration with the desktop: the login autostart entry, the tray icon's
//! name, menu and artwork colours.
use vstd::prelude::*;
use crate::i18n::{replace_all, replace_text};
use crate::paths::{join, join_path};
use crate::text::{concat, owned};

verus! {

/// The application's identifier.
pub open spec fn app_id() -> Seq<char> {
    "com.chrisdaggas.datacleaner"@
}

// ---------------------------------------------------------------------------
// Autostart
// ---------------------------------------------------------------------------
/// The autostart entry below `home`.
pub open spec fn spec_autostart_path(home: Seq<char>) -> Seq<char> {
    join(join(join(home, ".config"@), "autostart"@), "com.chrisdaggas.datacleaner.desktop"@)
}

/// The autostart entry of earlier releases below `home`.
pub open spec fn spec_legacy_autostart_path(home: Seq<char>) -> Seq<char> {
    join(join(join(home, ".config"@), "autostart"@), "com.chrisdaggas.cleaner.desktop"@)
}

pub fn autostart_path_in_home(home: &str) -> (r: String)
    ensures
        r@ == spec_autostart_path(home@),
{
    let a = join_path(home, ".config");
    let b = join_path(a.as_str(), "autostart");
    join_path(b.as_str(), "com.chrisdaggas.datacleaner.desktop")
}

pub fn legacy_autostart_path_in_home(home: &str) -> (r: String)
    ensures
        r@ == spec_legacy_autostart_path(home@),
{
    let a = join_path(home, ".config");
    let b = join_path(a.as_str(), "autostart");
    join_path(b.as_str(), "com.chrisdaggas.cleaner.desktop")
}

/// The command the autostart entry runs.
pub open spec fn spec_autostart_exec(flatpak: bool) -> Seq<char> {
    if flatpak {
        "flatpak run com.chrisdaggas.datacleaner --background"@
    } else {
        "data-cleaner --background"@
    }
}

/// The autostart entry's contents.
pub open spec fn spec_desktop_entry(flatpak: bool) -> Seq<char> {
    "[Desktop Entry]\nType=Application\nName=Data Cleaner\nComment=Start Data Cleaner at login for scheduled cleanup\nExec="@
        + spec_autostart_exec(flatpak)
        + "\nIcon=com.chrisdaggas.datacleaner\nTerminal=false\nNoDisplay=true\nX-GNOME-Autostart-enabled=true\n"@
}

pub fn desktop_entry(flatpak: bool) -> (r: String)
    ensures
        r@ == spec_desktop_entry(flatpak),
{
    let exec = if flatpak {
        "flatpak run com.chrisdaggas.datacleaner --background"
    } else {
        "data-cleaner --background"
    };
    let a = concat(
        "[Desktop Entry]\nType=Application\nName=Data Cleaner\nComment=Start Data Cleaner at login for scheduled cleanup\nExec=",
        exec,
    );
    concat(
        a.as_str(),
        "\nIcon=com.chrisdaggas.datacleaner\nTerminal=false\nNoDisplay=true\nX-GNOME-Autostart-enabled=true\n",
    )
}

/// What turning autostart on or off does to the files below home.
pub struct AutostartPlan {
    /// Entries to remove (a missing one is fine).
    pub remove: Vec<String>,
    /// The entry to write, with its contents (written to a temporary file
    /// beside it, then moved into place).
    pub write: Option<(String, String)>,
    /// Entries to remove once the new one is in place, ignoring failures.
    pub remove_after_write: Vec<String>,
}

/// The plan for turning autostart on or off below `home`.
pub open spec fn plan_for(home: Seq<char>, enabled: bool, flatpak: bool, r: AutostartPlan) -> bool {
    &&& (enabled ==> (r.remove@.len() == 0 && r.write is Some && (r.write->0).0@ == spec_autostart_path(home)
        && (r.write->0).1@ == spec_desktop_entry(flatpak) && crate::strings::strs(r.remove_after_write@)
        == seq![spec_legacy_autostart_path(home)]))
    &&& (!enabled ==> crate::strings::strs(r.remove@) == seq![
        spec_autostart_path(home),
        spec_legacy_autostart_path(home),
    ] && r.write is None && r.remove_after_write@.len() == 0)
}

/// Turning autostart off removes both entries; turning it on writes the
/// current entry and then removes the legacy one.
pub fn autostart_plan(home: &str, enabled: bool, flatpak: bool) -> (r: AutostartPlan)
    ensures
        plan_for(home@, enabled, flatpak, r),
{
    let path = autostart_path_in_home(home);
    let legacy = legacy_autostart_path_in_home(home);
    if !enabled {
        let mut remove: Vec<String> = Vec::new();
        crate::strings::push_str(&mut remove, path.as_str());
        crate::strings::push_str(&mut remove, legacy.as_str());
        assert(crate::strings::strs(remove@) =~= seq![spec_autostart_path(home@), spec_legacy_autostart_path(home@)]);
        return AutostartPlan { remove, write: None, remove_after_write: Vec::new() };
    }
    let mut after: Vec<String> = Vec::new();
    crate::strings::push_str(&mut after, legacy.as_str());
    assert(crate::strings::strs(after@) =~= seq![spec_legacy_autostart_path(home@)]);
    AutostartPlan {
        remove: Vec::new(),
        write: Some((path, desktop_entry(flatpak))),
        remove_after_write: after,
    }
}

/// `autostart_plan` below the current user's home directory; none when the
/// home directory is unknown.
pub fn user_autostart_plan(enabled: bool, flatpak: bool) -> (r: Option<AutostartPlan>)
    ensures
        r matches Some(p) ==> exists|h: Seq<char>| #[trigger] plan_for(h, enabled, flatpak, p),
{
    match crate::outside::home_dir() {
        Some(home) => {
            let p = autostart_plan(home.as_str(), enabled, flatpak);
            assert(plan_for(home@, enabled, flatpak, p));
            Some(p)
        },
        None => None,
    }
}

/// Whether autostart is on, given which entries exist: the current one, or
/// a legacy one (which is then to be migrated: the second value).
pub fn autostart_state(current_exists: bool, legacy_exists: bool) -> (r: (bool, bool))
    ensures
        r == (current_exists || legacy_exists, !current_exists && legacy_exists),
{
    if current_exists {
        return (true, false);
    }
    if !legacy_exists {
        return (false, false);
    }
    (true, true)
}

// ---------------------------------------------------------------------------
// Tray
// ---------------------------------------------------------------------------
#[derive(Clone, Copy, Debug, PartialEq, Eq, Structural)]
pub enum TrayAction {
    Open,
    Clean,
    Close,
}

#[derive(Clone, Copy, Debug, PartialEq, Eq, Structural)]
pub enum TrayStatus {
    Available,
    Unavailable,
}

/// The themed icon name the tray announces.
pub fn tray_icon_name() -> (r: String)
    ensures
        r@ == app_id() + "-symbolic"@,
{
    concat("com.chrisdaggas.datacleaner", "-symbolic")
}

/// The colour the symbolic artwork is drawn with.
pub open spec fn svg_placeholder() -> Seq<char> {
    "#ffffff"@
}

/// The glyph colour for a dark or a light panel.
pub open spec fn panel_foreground(dark: bool) -> Seq<char> {
    if dark {
        "#ffffff"@
    } else {
        "#2e3436"@
    }
}

/// The symbolic artwork `svg` with its colour swapped for the panel's.
pub fn themed_svg(svg: &str, dark: bool) -> (r: String)
    ensures
        r@ == replace_all(svg@, svg_placeholder(), panel_foreground(dark)),
{
    let foreground = if dark {
        "#ffffff"
    } else {
        "#2e3436"
    };
    replace_text(svg, "#ffffff", foreground)
}

/// An entry of the tray's menu: a label and its action, or a separator.
pub enum TrayMenuEntry {
    Item(String, TrayAction),
    Separator,
}

/// The tray's menu, with its labels as given (already translated): open,
/// clean, a separator, close.
pub fn tray_menu(open_label: &str, clean_label: &str, close_label: &str) -> (r: Vec<TrayMenuEntry>)
    ensures
        r@.len() == 4,
        r@[0] matches TrayMenuEntry::Item(l, a) && l@ == open_label@ && a == TrayAction::Open,
        r@[1] matches TrayMenuEntry::Item(l, a) && l@ == clean_label@ && a == TrayAction::Clean,
        r@[2] is Separator,
        r@[3] matches TrayMenuEntry::Item(l, a) && l@ == close_label@ && a == TrayAction::Close,
{
    let mut v: Vec<TrayMenuEntry> = Vec::new();
    v.push(TrayMenuEntry::Item(owned(open_label), TrayAction::Open));
    v.push(TrayMenuEntry::Item(owned(clean_label), TrayAction::Clean));
    v.push(TrayMenuEntry::Separator);
    v.push(TrayMenuEntry::Item(owned(close_label), TrayAction::Close));
    v
}

} // verus!
