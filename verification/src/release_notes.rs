//! The in-app changelog and how its entries are headed.
use vstd::prelude::*;
use crate::cleanup_log::{catalog_view, trs};
use crate::i18n::{tr, Catalog};
use crate::strings::str_views;
use crate::text::concat;

verus! {

/// One release in the changelog.
pub struct ReleaseNotes {
    pub version: &'static str,
    pub date: &'static str,
    pub title: &'static str,
    pub changes: &'static [&'static str],
}

pub open spec fn first_release_changes() -> Seq<Seq<char>> {
    seq![
        "A modern GNOME interface with unified light and dark surfaces, system accent colors, high contrast, and reduced motion support."@,
        "A dashboard storage overview for used, available, total, and reclaimable disk space."@,
        "Safe browser cleanup with installed-browser detection and unavailable browsers clearly disabled."@,
        "Application cache, system, custom directory, application log, and system journal cleanup with configurable retention."@,
        "Scheduled automatic cleanup with multiple cleanup days, a chosen local time, and optional start at login."@,
        "A lightweight visual Storage Analyzer for finding large files and folders and moving selected items to Trash."@,
        "An in-app cleanup log showing deleted, skipped, and failed items after every cleanup."@,
        "System tray integration with an adaptive symbolic icon and quick cleanup actions."@,
        "A startup update check with direct access to the latest verified GitHub release."@,
        "Safety limits, critical-path protection, symlink traversal prevention, previews, and running-browser checks."@,
        "Consistent Data Cleaner application, executable, package, desktop, and configuration naming."@,
        "English, Greek, Italian, Spanish, German, and French interface languages with automatic system-language detection."@,
    ]
}

/// The releases, newest first (new releases are added at the front).
pub fn releases() -> (r: Vec<ReleaseNotes>)
    ensures
        r@.len() == 1,
        r@[0].version@ == "1.0.0"@,
        r@[0].date@ == "21 August 2026"@,
        r@[0].title@ == "Initial public release"@,
        str_views(r@[0].changes@) == first_release_changes(),
{
    let changes: &'static [&'static str] = &[
        "A modern GNOME interface with unified light and dark surfaces, system accent colors, high contrast, and reduced motion support.",
        "A dashboard storage overview for used, available, total, and reclaimable disk space.",
        "Safe browser cleanup with installed-browser detection and unavailable browsers clearly disabled.",
        "Application cache, system, custom directory, application log, and system journal cleanup with configurable retention.",
        "Scheduled automatic cleanup with multiple cleanup days, a chosen local time, and optional start at login.",
        "A lightweight visual Storage Analyzer for finding large files and folders and moving selected items to Trash.",
        "An in-app cleanup log showing deleted, skipped, and failed items after every cleanup.",
        "System tray integration with an adaptive symbolic icon and quick cleanup actions.",
        "A startup update check with direct access to the latest verified GitHub release.",
        "Safety limits, critical-path protection, symlink traversal prevention, previews, and running-browser checks.",
        "Consistent Data Cleaner application, executable, package, desktop, and configuration naming.",
        "English, Greek, Italian, Spanish, German, and French interface languages with automatic system-language detection.",
    ];
    assert(str_views(changes@) =~= first_release_changes());
    let mut r: Vec<ReleaseNotes> = Vec::new();
    r.push(
        ReleaseNotes {
            version: "1.0.0",
            date: "21 August 2026",
            title: "Initial public release",
            changes,
        },
    );
    r
}

impl ReleaseNotes {
    /// The heading of a release: the translated word "Version" and its number.
    pub fn heading(&self, catalog: Option<&Catalog>) -> (r: String)
        ensures
            r@ == trs(catalog_view(catalog), "Version"@) + " "@ + self.version@,
    {
        let word = tr(catalog, "Version");
        let a = concat(word.as_str(), " ");
        concat(a.as_str(), self.version)
    }

    /// The line under the heading: the translated title and the date.
    pub fn metadata(&self, catalog: Option<&Catalog>) -> (r: String)
        ensures
            r@ == trs(catalog_view(catalog), self.title@) + " · "@ + self.date@,
    {
        let title = tr(catalog, self.title);
        let a = concat(title.as_str(), " · ");
        concat(a.as_str(), self.date)
    }
}

} // verus!
