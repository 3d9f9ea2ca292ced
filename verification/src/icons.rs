//! Choosing an icon that the desktop can show: the theme's own icon, a
//! fallback name, an icon bundled with the application, or a generic one;
//! and naming the desktop environment and display server.
use vstd::prelude::*;
use crate::outside::{lowercase, unicode_lowercase};
use crate::strings::str_views;
use crate::text::{contains, ends_with, owned, starts_with, text_contains, text_ends_with, text_equal, text_nonempty, text_starts_with};

verus! {

#[derive(Clone, Copy, Debug, PartialEq, Eq, Structural)]
pub enum ResolutionType {
    ThemeIcon,
    FallbackIcon,
    BundledResource,
    GenericFallback,
}

impl ResolutionType {
    pub fn display_name(&self) -> (r: &'static str)
        ensures
            r@ == match self {
                ResolutionType::ThemeIcon => "Theme Icon"@,
                ResolutionType::FallbackIcon => "Fallback Icon"@,
                ResolutionType::BundledResource => "Bundled Resource"@,
                ResolutionType::GenericFallback => "Generic Fallback"@,
            },
    {
        match self {
            ResolutionType::ThemeIcon => "Theme Icon",
            ResolutionType::FallbackIcon => "Fallback Icon",
            ResolutionType::BundledResource => "Bundled Resource",
            ResolutionType::GenericFallback => "Generic Fallback",
        }
    }

    pub fn is_fallback(&self) -> (r: bool)
        ensures
            r == (*self != ResolutionType::ThemeIcon),
    {
        match self {
            ResolutionType::ThemeIcon => false,
            _ => true,
        }
    }
}

pub struct IconResolution {
    pub icon_name: String,
    pub resolution_type: ResolutionType,
    pub original_request: String,
}

/// The names tried, in order, when the theme lacks an icon.
pub open spec fn spec_fallbacks(name: Seq<char>) -> Seq<Seq<char>> {
    if name == "firefox"@ || name == "firefox-esr"@ {
        seq!["firefox-symbolic"@, "web-browser"@, "web-browser-symbolic"@]
    } else if name == "google-chrome"@ || name == "chrome"@ {
        seq!["google-chrome-symbolic"@, "chromium"@, "web-browser"@]
    } else if name == "chromium"@ || name == "chromium-browser"@ {
        seq!["chromium-symbolic"@, "google-chrome"@, "web-browser"@]
    } else if name == "brave"@ || name == "brave-browser"@ {
        seq!["brave-symbolic"@, "web-browser"@]
    } else if name == "microsoft-edge"@ {
        seq!["microsoft-edge-symbolic"@, "web-browser"@]
    } else if name == "opera"@ {
        seq!["opera-symbolic"@, "web-browser"@]
    } else if name == "vivaldi"@ {
        seq!["vivaldi-symbolic"@, "web-browser"@]
    } else if name == "folder-symbolic"@ {
        seq!["folder"@, "inode-directory"@]
    } else if name == "user-trash-symbolic"@ {
        seq!["user-trash"@, "trash-empty"@]
    } else if name == "dialog-error-symbolic"@ {
        seq!["dialog-error"@, "error"@]
    } else if name == "computer-symbolic"@ {
        seq!["computer"@, "system"@]
    } else if name == "package-x-generic-symbolic"@ {
        seq!["package-x-generic"@, "package"@]
    } else if name == "image-x-generic-symbolic"@ {
        seq!["image-x-generic"@, "image"@]
    } else if name == "folder-documents-symbolic"@ {
        seq!["folder-documents"@, "folder"@]
    } else if name == "security-high-symbolic"@ {
        seq!["security-high"@, "dialog-password"@, "system-lock-screen"@]
    } else if name == "security-medium-symbolic"@ {
        seq!["security-medium"@, "dialog-warning"@]
    } else if name == "security-low-symbolic"@ {
        seq!["security-low"@, "dialog-error"@]
    } else if name == "edit-delete-symbolic"@ {
        seq!["edit-delete"@, "user-trash"@]
    } else if name == "view-refresh-symbolic"@ {
        seq!["view-refresh"@, "reload"@]
    } else if name == "document-save-symbolic"@ {
        seq!["document-save"@, "save"@]
    } else if ends_with(name, "-symbolic"@) {
        seq!["application-x-executable-symbolic"@]
    } else {
        seq!["application-x-executable"@]
    }
}

/// The bundled browser icons: the icon-name prefix each serves, and its
/// resource path.
pub open spec fn spec_bundled_icons() -> Seq<(Seq<char>, Seq<char>)> {
    seq![
        ("firefox"@, "/com/chrisdaggas/datacleaner/icons/browsers/firefox.svg"@),
        ("google-chrome"@, "/com/chrisdaggas/datacleaner/icons/browsers/chrome.svg"@),
        ("chromium"@, "/com/chrisdaggas/datacleaner/icons/browsers/chromium.svg"@),
        ("brave"@, "/com/chrisdaggas/datacleaner/icons/browsers/brave.svg"@),
        ("microsoft-edge"@, "/com/chrisdaggas/datacleaner/icons/browsers/edge.svg"@),
        ("opera"@, "/com/chrisdaggas/datacleaner/icons/browsers/opera.svg"@),
        ("vivaldi"@, "/com/chrisdaggas/datacleaner/icons/browsers/vivaldi.svg"@),
        ("yandex-browser"@, "/com/chrisdaggas/datacleaner/icons/browsers/yandex.svg"@),
    ]
}

/// The resource of the first bundled icon whose name `name` equals or starts
/// with.
pub open spec fn spec_bundled_from(t: Seq<(Seq<char>, Seq<char>)>, name: Seq<char>) -> Option<
    Seq<char>,
>
    decreases t.len(),
{
    if t.len() == 0 {
        None
    } else if name == t[0].0 || starts_with(name, t[0].0) {
        Some(t[0].1)
    } else {
        spec_bundled_from(t.drop_first(), name)
    }
}

pub open spec fn pair_views(v: Seq<(&str, &str)>) -> Seq<(Seq<char>, Seq<char>)> {
    Seq::new(v.len(), |i: int| (v[i].0@, v[i].1@))
}

fn bundled_icons() -> (r: &'static [(&'static str, &'static str)])
    ensures
        pair_views(r@) == spec_bundled_icons(),
{
    let r: &'static [(&'static str, &'static str)] = &[
        ("firefox", "/com/chrisdaggas/datacleaner/icons/browsers/firefox.svg"),
        ("google-chrome", "/com/chrisdaggas/datacleaner/icons/browsers/chrome.svg"),
        ("chromium", "/com/chrisdaggas/datacleaner/icons/browsers/chromium.svg"),
        ("brave", "/com/chrisdaggas/datacleaner/icons/browsers/brave.svg"),
        ("microsoft-edge", "/com/chrisdaggas/datacleaner/icons/browsers/edge.svg"),
        ("opera", "/com/chrisdaggas/datacleaner/icons/browsers/opera.svg"),
        ("vivaldi", "/com/chrisdaggas/datacleaner/icons/browsers/vivaldi.svg"),
        ("yandex-browser", "/com/chrisdaggas/datacleaner/icons/browsers/yandex.svg"),
    ];
    assert(pair_views(r@) =~= spec_bundled_icons());
    r
}

/// The icon every other choice falls back to.
pub open spec fn spec_generic_icon() -> Seq<char> {
    "application-x-executable"@
}

/// How a request was answered: the theme's icon, the first fallback name the
/// theme has, the bundled resource when it is registered, or the generic icon.
/// `in_theme` tells which names the theme has; `bundled_registered` whether
/// the bundled resource for the name is registered.
pub open spec fn spec_resolve(
    name: Seq<char>,
    in_theme: spec_fn(Seq<char>) -> bool,
    bundled_registered: bool,
) -> (Seq<char>, ResolutionType) {
    let fb = spec_fallbacks(name);
    if in_theme(name) {
        (name, ResolutionType::ThemeIcon)
    } else if exists|i: int| 0 <= i < fb.len() && in_theme(#[trigger] fb[i]) {
        let k = choose|k: int|
            0 <= k < fb.len() && in_theme(#[trigger] fb[k]) && forall|j: int|
                0 <= j < k ==> !in_theme(#[trigger] fb[j]);
        (fb[k], ResolutionType::FallbackIcon)
    } else if spec_bundled_from(spec_bundled_icons(), name) is Some && bundled_registered {
        (spec_bundled_from(spec_bundled_icons(), name)->0, ResolutionType::BundledResource)
    } else {
        (spec_generic_icon(), ResolutionType::GenericFallback)
    }
}

/// The names of `names` that the theme has, as a predicate.
pub open spec fn listed_names(names: Seq<Seq<char>>) -> spec_fn(Seq<char>) -> bool {
    |n: Seq<char>| exists|i: int| 0 <= i < names.len() && names[i] == n
}

fn name_listed(names: &Vec<String>, n: &str) -> (r: bool)
    ensures
        r == listed_names(crate::strings::strs(names@))(n@),
{
    let ghost v = crate::strings::strs(names@);
    let mut i: usize = 0;
    while i < names.len()
        invariant
            0 <= i <= names@.len(),
            v == crate::strings::strs(names@),
            forall|k: int| 0 <= k < i ==> v[k] != n@,
        decreases names@.len() - i,
    {
        if text_equal(names[i].as_str(), n) {
            assert(v[i as int] == n@);
            return true;
        }
        i += 1;
    }
    false
}

/// Resolves icons through the fallback chain, remembering each answer.
pub struct IconResolver {
    resolutions: Vec<IconResolution>,
}

pub struct IconDiagnostics {
    pub total_resolutions: usize,
    pub theme_resolved: usize,
    pub fallback_used: usize,
    pub bundled_used: usize,
    pub generic_used: usize,
    pub current_theme: Option<String>,
}

impl IconDiagnostics {
    /// Whether no request fell back to the generic icon.
    pub fn all_resolved(&self) -> (r: bool)
        ensures
            r == (self.generic_used == 0),
    {
        self.generic_used == 0
    }
}

/// How many of `v` were answered in the way `t`.
pub open spec fn count_type(v: Seq<IconResolution>, t: ResolutionType) -> nat
    decreases v.len(),
{
    if v.len() == 0 {
        0
    } else {
        count_type(v.drop_last(), t) + if v.last().resolution_type == t {
            1nat
        } else {
            0nat
        }
    }
}

proof fn lemma_count_type_bounded(v: Seq<IconResolution>, t: ResolutionType)
    ensures
        count_type(v, t) <= v.len(),
    decreases v.len(),
{
    if v.len() > 0 {
        lemma_count_type_bounded(v.drop_last(), t);
    }
}

/// Every answer is of exactly one kind, so the counts by kind add up to the
/// number of answers given, that is to the number of `resolve` calls.
pub proof fn lemma_counts_add_up(v: Seq<IconResolution>)
    ensures
        count_type(v, ResolutionType::ThemeIcon) + count_type(v, ResolutionType::FallbackIcon) + count_type(
            v,
            ResolutionType::BundledResource,
        ) + count_type(v, ResolutionType::GenericFallback) == v.len(),
    decreases v.len(),
{
    if v.len() > 0 {
        lemma_counts_add_up(v.drop_last());
    }
}

fn count_of(v: &Vec<IconResolution>, t: ResolutionType) -> (r: usize)
    ensures
        r == count_type(v@, t),
{
    let mut n: usize = 0;
    let mut i: usize = 0;
    while i < v.len()
        invariant
            0 <= i <= v@.len(),
            n == count_type(v@.take(i as int), t),
        decreases v@.len() - i,
    {
        assert(v@.take(i + 1).drop_last() =~= v@.take(i as int));
        proof {
            lemma_count_type_bounded(v@.take(i as int), t);
        }
        if v[i].resolution_type == t {
            n = n + 1;
        }
        i += 1;
    }
    assert(v@.take(v@.len() as int) =~= v@);
    n
}

impl IconResolver {
    /// The answers given so far.
    pub closed spec fn history(&self) -> Seq<IconResolution> {
        self.resolutions@
    }

    pub fn new() -> (r: Self)
        ensures
            r.history().len() == 0,
    {
        IconResolver { resolutions: Vec::new() }
    }

    /// The names to look up in the theme for a request: the name itself,
    /// then its fallbacks in order.
    pub fn candidates(icon_name: &str) -> (r: Vec<String>)
        ensures
            crate::strings::strs(r@) == seq![icon_name@] + spec_fallbacks(icon_name@),
    {
        let mut out: Vec<String> = Vec::new();
        crate::strings::push_str(&mut out, icon_name);
        let fb = Self::get_fallbacks(icon_name);
        crate::strings::push_strs(&mut out, fb.as_slice());
        out
    }

    /// Resolves `icon_name`, given the names of `candidates(icon_name)` that
    /// the theme has and whether the bundled resource is registered, and
    /// remembers the answer.
    pub fn resolve(&mut self, icon_name: &str, in_theme: &Vec<String>, bundled_registered: bool) -> (r:
        IconResolution)
        ensures
            (r.icon_name@, r.resolution_type) == spec_resolve(
                icon_name@,
                listed_names(crate::strings::strs(in_theme@)),
                bundled_registered,
            ),
            r.original_request@ == icon_name@,
            final(self).history() == old(self).history().push(r),
    {
        let r = Self::resolve_internal(icon_name, in_theme, bundled_registered);
        let copy = IconResolution {
            icon_name: r.icon_name.clone(),
            resolution_type: r.resolution_type,
            original_request: r.original_request.clone(),
        };
        self.resolutions.push(copy);
        r
    }

    fn resolve_internal(icon_name: &str, in_theme: &Vec<String>, bundled_registered: bool) -> (r:
        IconResolution)
        ensures
            (r.icon_name@, r.resolution_type) == spec_resolve(
                icon_name@,
                listed_names(crate::strings::strs(in_theme@)),
                bundled_registered,
            ),
            r.original_request@ == icon_name@,
    {
        let ghost pred = listed_names(crate::strings::strs(in_theme@));
        if name_listed(in_theme, icon_name) {
            return IconResolution {
                icon_name: owned(icon_name),
                resolution_type: ResolutionType::ThemeIcon,
                original_request: owned(icon_name),
            };
        }
        let fallbacks = Self::get_fallbacks(icon_name);
        let ghost fb = spec_fallbacks(icon_name@);
        let mut i: usize = 0;
        while i < fallbacks.len()
            invariant
                0 <= i <= fallbacks@.len(),
                str_views(fallbacks@) == fb,
                fb == spec_fallbacks(icon_name@),
                pred == listed_names(crate::strings::strs(in_theme@)),
                !pred(icon_name@),
                forall|j: int| 0 <= j < i ==> !pred(#[trigger] fb[j]),
            decreases fallbacks@.len() - i,
        {
            if name_listed(in_theme, fallbacks[i]) {
                assert(fb[i as int] == fallbacks@[i as int]@);
                assert(pred(fb[i as int]));
                assert(0 <= i < fb.len() && pred(fb[i as int]) && forall|j: int|
                    0 <= j < i ==> !pred(#[trigger] fb[j]));
                assert(exists|k: int|
                    0 <= k < fb.len() && pred(#[trigger] fb[k]) && forall|j: int|
                        0 <= j < k ==> !pred(#[trigger] fb[j]));
                let ghost k = choose|k: int|
                    0 <= k < fb.len() && pred(#[trigger] fb[k]) && forall|j: int|
                        0 <= j < k ==> !pred(#[trigger] fb[j]);
                assert(k == i) by {
                    if k < i {
                        assert(!pred(fb[k]));
                    } else if k > i {
                        assert(!pred(fb[i as int]));
                    }
                }
                return IconResolution {
                    icon_name: owned(fallbacks[i]),
                    resolution_type: ResolutionType::FallbackIcon,
                    original_request: owned(icon_name),
                };
            }
            i += 1;
        }
        assert(!exists|j: int| 0 <= j < fb.len() && pred(#[trigger] fb[j]));
        match Self::get_bundled_resource(icon_name) {
            Some(resource) => {
                if bundled_registered {
                    return IconResolution {
                        icon_name: resource,
                        resolution_type: ResolutionType::BundledResource,
                        original_request: owned(icon_name),
                    };
                }
            },
            None => {},
        }
        IconResolution {
            icon_name: Self::generic_fallback_icon(),
            resolution_type: ResolutionType::GenericFallback,
            original_request: owned(icon_name),
        }
    }

    /// The names tried, in order, when the theme lacks `icon_name`.
    pub fn get_fallbacks(icon_name: &str) -> (r: Vec<&'static str>)
        ensures
            str_views(r@) == spec_fallbacks(icon_name@),
    {
        let mut v: Vec<&'static str> = Vec::new();
        if text_equal(icon_name, "firefox") || text_equal(icon_name, "firefox-esr") {
            v.push("firefox-symbolic");
            v.push("web-browser");
            v.push("web-browser-symbolic");
        } else if text_equal(icon_name, "google-chrome") || text_equal(icon_name, "chrome") {
            v.push("google-chrome-symbolic");
            v.push("chromium");
            v.push("web-browser");
        } else if text_equal(icon_name, "chromium") || text_equal(icon_name, "chromium-browser") {
            v.push("chromium-symbolic");
            v.push("google-chrome");
            v.push("web-browser");
        } else if text_equal(icon_name, "brave") || text_equal(icon_name, "brave-browser") {
            v.push("brave-symbolic");
            v.push("web-browser");
        } else if text_equal(icon_name, "microsoft-edge") {
            v.push("microsoft-edge-symbolic");
            v.push("web-browser");
        } else if text_equal(icon_name, "opera") {
            v.push("opera-symbolic");
            v.push("web-browser");
        } else if text_equal(icon_name, "vivaldi") {
            v.push("vivaldi-symbolic");
            v.push("web-browser");
        } else if text_equal(icon_name, "folder-symbolic") {
            v.push("folder");
            v.push("inode-directory");
        } else if text_equal(icon_name, "user-trash-symbolic") {
            v.push("user-trash");
            v.push("trash-empty");
        } else if text_equal(icon_name, "dialog-error-symbolic") {
            v.push("dialog-error");
            v.push("error");
        } else if text_equal(icon_name, "computer-symbolic") {
            v.push("computer");
            v.push("system");
        } else if text_equal(icon_name, "package-x-generic-symbolic") {
            v.push("package-x-generic");
            v.push("package");
        } else if text_equal(icon_name, "image-x-generic-symbolic") {
            v.push("image-x-generic");
            v.push("image");
        } else if text_equal(icon_name, "folder-documents-symbolic") {
            v.push("folder-documents");
            v.push("folder");
        } else if text_equal(icon_name, "security-high-symbolic") {
            v.push("security-high");
            v.push("dialog-password");
            v.push("system-lock-screen");
        } else if text_equal(icon_name, "security-medium-symbolic") {
            v.push("security-medium");
            v.push("dialog-warning");
        } else if text_equal(icon_name, "security-low-symbolic") {
            v.push("security-low");
            v.push("dialog-error");
        } else if text_equal(icon_name, "edit-delete-symbolic") {
            v.push("edit-delete");
            v.push("user-trash");
        } else if text_equal(icon_name, "view-refresh-symbolic") {
            v.push("view-refresh");
            v.push("reload");
        } else if text_equal(icon_name, "document-save-symbolic") {
            v.push("document-save");
            v.push("save");
        } else if text_ends_with(icon_name, "-symbolic") {
            v.push("application-x-executable-symbolic");
        } else {
            v.push("application-x-executable");
        }
        assert(str_views(v@) =~= spec_fallbacks(icon_name@));
        v
    }

    /// The bundled resource for `icon_name`: that of the first bundled
    /// browser icon whose name it equals or starts with.
    pub fn get_bundled_resource(icon_name: &str) -> (r: Option<String>)
        ensures
            match r {
                Some(p) => spec_bundled_from(spec_bundled_icons(), icon_name@) == Some(p@),
                None => spec_bundled_from(spec_bundled_icons(), icon_name@) is None,
            },
    {
        let table = bundled_icons();
        let ghost t = spec_bundled_icons();
        assert(t.skip(0) =~= t);
        let mut i: usize = 0;
        while i < table.len()
            invariant
                0 <= i <= table@.len(),
                pair_views(table@) == t,
                t == spec_bundled_icons(),
                spec_bundled_from(t, icon_name@) == spec_bundled_from(t.skip(i as int), icon_name@),
            decreases table@.len() - i,
        {
            let (name, path) = table[i];
            assert(t.skip(i as int)[0] == t[i as int]);
            assert(t[i as int] == (name@, path@));
            assert(t.skip(i as int).drop_first() =~= t.skip(i + 1));
            if text_equal(icon_name, name) || text_starts_with(icon_name, name) {
                return Some(owned(path));
            }
            i += 1;
        }
        None
    }

    /// The icon every other choice falls back to.
    pub fn generic_fallback_icon() -> (r: String)
        ensures
            r@ == spec_generic_icon(),
    {
        owned("application-x-executable")
    }

    /// Counts of the answers given so far, by kind, with the theme's name.
    pub fn get_diagnostics_summary(&self, current_theme: Option<String>) -> (r: IconDiagnostics)
        ensures
            r.total_resolutions == self.history().len(),
            r.theme_resolved == count_type(self.history(), ResolutionType::ThemeIcon),
            r.fallback_used == count_type(self.history(), ResolutionType::FallbackIcon),
            r.bundled_used == count_type(self.history(), ResolutionType::BundledResource),
            r.generic_used == count_type(self.history(), ResolutionType::GenericFallback),
            r.current_theme == current_theme,
    {
        IconDiagnostics {
            total_resolutions: self.resolutions.len(),
            theme_resolved: count_of(&self.resolutions, ResolutionType::ThemeIcon),
            fallback_used: count_of(&self.resolutions, ResolutionType::FallbackIcon),
            bundled_used: count_of(&self.resolutions, ResolutionType::BundledResource),
            generic_used: count_of(&self.resolutions, ResolutionType::GenericFallback),
            current_theme,
        }
    }
}

impl Default for IconResolver {
    fn default() -> (r: Self)
        ensures
            r.history().len() == 0,
    {
        Self::new()
    }
}

// ---------------------------------------------------------------------------
// Desktop environment and display server
// ---------------------------------------------------------------------------
pub enum DesktopEnvironment {
    Gnome,
    Kde,
    Cosmic,
    Xfce,
    Cinnamon,
    Mate,
    Budgie,
    Pantheon,
    Lxqt,
    Lxde,
    Unknown(String),
}

/// The model of a `DesktopEnvironment`.
pub enum DesktopView {
    Gnome,
    Kde,
    Cosmic,
    Xfce,
    Cinnamon,
    Mate,
    Budgie,
    Pantheon,
    Lxqt,
    Lxde,
    Unknown(Seq<char>),
}

impl View for DesktopEnvironment {
    type V = DesktopView;

    open spec fn view(&self) -> DesktopView {
        match self {
            DesktopEnvironment::Gnome => DesktopView::Gnome,
            DesktopEnvironment::Kde => DesktopView::Kde,
            DesktopEnvironment::Cosmic => DesktopView::Cosmic,
            DesktopEnvironment::Xfce => DesktopView::Xfce,
            DesktopEnvironment::Cinnamon => DesktopView::Cinnamon,
            DesktopEnvironment::Mate => DesktopView::Mate,
            DesktopEnvironment::Budgie => DesktopView::Budgie,
            DesktopEnvironment::Pantheon => DesktopView::Pantheon,
            DesktopEnvironment::Lxqt => DesktopView::Lxqt,
            DesktopEnvironment::Lxde => DesktopView::Lxde,
            DesktopEnvironment::Unknown(s) => DesktopView::Unknown(s@),
        }
    }
}

/// A variable's value, with an empty one counted as unset.
pub open spec fn set_value(o: Option<Seq<char>>) -> Option<Seq<char>> {
    match o {
        Some(v) => if v.len() > 0 {
            Some(v)
        } else {
            None
        },
        None => None,
    }
}

/// The desktop named by `XDG_CURRENT_DESKTOP` (matched in lower case), else
/// by `DESKTOP_SESSION`, else unknown; an empty variable counts as unset, so
/// the name of an unknown desktop is never empty.
pub open spec fn spec_detect(current: Option<Seq<char>>, session: Option<Seq<char>>) -> DesktopView {
    match set_value(current) {
        Some(d) => {
            let l = unicode_lowercase(d);
            if contains(l, "gnome"@) {
                DesktopView::Gnome
            } else if contains(l, "kde"@) || contains(l, "plasma"@) {
                DesktopView::Kde
            } else if contains(l, "cosmic"@) {
                DesktopView::Cosmic
            } else if contains(l, "xfce"@) {
                DesktopView::Xfce
            } else if contains(l, "cinnamon"@) {
                DesktopView::Cinnamon
            } else if contains(l, "mate"@) {
                DesktopView::Mate
            } else if contains(l, "budgie"@) {
                DesktopView::Budgie
            } else if contains(l, "pantheon"@) {
                DesktopView::Pantheon
            } else if contains(l, "lxqt"@) {
                DesktopView::Lxqt
            } else if contains(l, "lxde"@) {
                DesktopView::Lxde
            } else {
                DesktopView::Unknown(d)
            }
        },
        None => match set_value(session) {
            Some(s) => {
                let l = unicode_lowercase(s);
                if contains(l, "gnome"@) {
                    DesktopView::Gnome
                } else if contains(l, "plasma"@) || contains(l, "kde"@) {
                    DesktopView::Kde
                } else if contains(l, "cosmic"@) {
                    DesktopView::Cosmic
                } else {
                    DesktopView::Unknown(s)
                }
            },
            None => DesktopView::Unknown("Unknown"@),
        },
    }
}

#[derive(Clone, Copy, Debug, PartialEq, Eq, Structural)]
pub enum DisplayServer {
    Wayland,
    X11,
    Unknown,
}

impl DisplayServer {
    pub fn display_name(&self) -> (r: &'static str)
        ensures
            r@ == match self {
                DisplayServer::Wayland => "Wayland"@,
                DisplayServer::X11 => "X11"@,
                DisplayServer::Unknown => "Unknown"@,
            },
    {
        match self {
            DisplayServer::Wayland => "Wayland",
            DisplayServer::X11 => "X11",
            DisplayServer::Unknown => "Unknown",
        }
    }
}

/// A variable's text, with an empty one counted as unset (see `set_value`).
fn set_text(o: Option<&str>) -> (r: Option<&str>)
    ensures
        crate::security::opt_view(r) == set_value(crate::security::opt_view(o)),
{
    match o {
        Some(v) => if text_nonempty(v) {
            Some(v)
        } else {
            None
        },
        None => None,
    }
}

impl DesktopEnvironment {
    /// The desktop environment, given the values of `XDG_CURRENT_DESKTOP`
    /// and `DESKTOP_SESSION` (see `spec_detect`).
    pub fn detect_from(current: Option<&str>, session: Option<&str>) -> (r: Self)
        ensures
            r@ == spec_detect(crate::security::opt_view(current), crate::security::opt_view(session)),
            r@ matches DesktopView::Unknown(n) ==> n.len() > 0,
    {
        let current = set_text(current);
        let session = set_text(session);
        proof {
            reveal_strlit("Unknown");
        }
        match current {
            Some(d) => {
                let l = lowercase(d);
                let l = l.as_str();
                if text_contains(l, "gnome") {
                    DesktopEnvironment::Gnome
                } else if text_contains(l, "kde") || text_contains(l, "plasma") {
                    DesktopEnvironment::Kde
                } else if text_contains(l, "cosmic") {
                    DesktopEnvironment::Cosmic
                } else if text_contains(l, "xfce") {
                    DesktopEnvironment::Xfce
                } else if text_contains(l, "cinnamon") {
                    DesktopEnvironment::Cinnamon
                } else if text_contains(l, "mate") {
                    DesktopEnvironment::Mate
                } else if text_contains(l, "budgie") {
                    DesktopEnvironment::Budgie
                } else if text_contains(l, "pantheon") {
                    DesktopEnvironment::Pantheon
                } else if text_contains(l, "lxqt") {
                    DesktopEnvironment::Lxqt
                } else if text_contains(l, "lxde") {
                    DesktopEnvironment::Lxde
                } else {
                    DesktopEnvironment::Unknown(owned(d))
                }
            },
            None => match session {
                Some(s) => {
                    let l = lowercase(s);
                    let l = l.as_str();
                    if text_contains(l, "gnome") {
                        DesktopEnvironment::Gnome
                    } else if text_contains(l, "plasma") || text_contains(l, "kde") {
                        DesktopEnvironment::Kde
                    } else if text_contains(l, "cosmic") {
                        DesktopEnvironment::Cosmic
                    } else {
                        DesktopEnvironment::Unknown(owned(s))
                    }
                },
                None => DesktopEnvironment::Unknown(owned("Unknown")),
            },
        }
    }

    pub fn display_name(&self) -> (r: &str)
        ensures
            (self@ matches DesktopView::Unknown(n) ==> n.len() > 0) ==> r@.len() > 0,
            r@ == match self@ {
                DesktopView::Gnome => "GNOME"@,
                DesktopView::Kde => "KDE Plasma"@,
                DesktopView::Cosmic => "COSMIC"@,
                DesktopView::Xfce => "Xfce"@,
                DesktopView::Cinnamon => "Cinnamon"@,
                DesktopView::Mate => "MATE"@,
                DesktopView::Budgie => "Budgie"@,
                DesktopView::Pantheon => "Pantheon"@,
                DesktopView::Lxqt => "LXQt"@,
                DesktopView::Lxde => "LXDE"@,
                DesktopView::Unknown(n) => n,
            },
    {
        proof {
            reveal_strlit("GNOME");
            reveal_strlit("KDE Plasma");
            reveal_strlit("COSMIC");
            reveal_strlit("Xfce");
            reveal_strlit("Cinnamon");
            reveal_strlit("MATE");
            reveal_strlit("Budgie");
            reveal_strlit("Pantheon");
            reveal_strlit("LXQt");
            reveal_strlit("LXDE");
        }
        match self {
            DesktopEnvironment::Gnome => "GNOME",
            DesktopEnvironment::Kde => "KDE Plasma",
            DesktopEnvironment::Cosmic => "COSMIC",
            DesktopEnvironment::Xfce => "Xfce",
            DesktopEnvironment::Cinnamon => "Cinnamon",
            DesktopEnvironment::Mate => "MATE",
            DesktopEnvironment::Budgie => "Budgie",
            DesktopEnvironment::Pantheon => "Pantheon",
            DesktopEnvironment::Lxqt => "LXQt",
            DesktopEnvironment::Lxde => "LXDE",
            DesktopEnvironment::Unknown(name) => name.as_str(),
        }
    }

    /// Whether the session is a Wayland one, given whether `WAYLAND_DISPLAY`
    /// is set and the value of `XDG_SESSION_TYPE`.
    pub fn is_wayland_from(wayland_display_set: bool, session_type: Option<&str>) -> (r: bool)
        ensures
            r == (wayland_display_set || crate::security::opt_view(session_type) == Some(
                "wayland"@,
            )),
    {
        if wayland_display_set {
            return true;
        }
        match session_type {
            Some(t) => text_equal(t, "wayland"),
            None => false,
        }
    }

    /// The display server, given whether `WAYLAND_DISPLAY` and `DISPLAY` are
    /// set and the value of `XDG_SESSION_TYPE`.
    pub fn display_server_from(
        wayland_display_set: bool,
        session_type: Option<&str>,
        display_set: bool,
    ) -> (r: DisplayServer)
        ensures
            r == (if wayland_display_set || crate::security::opt_view(session_type) == Some(
                "wayland"@,
            ) {
                DisplayServer::Wayland
            } else if display_set {
                DisplayServer::X11
            } else {
                DisplayServer::Unknown
            }),
    {
        if Self::is_wayland_from(wayland_display_set, session_type) {
            DisplayServer::Wayland
        } else if display_set {
            DisplayServer::X11
        } else {
            DisplayServer::Unknown
        }
    }
}

} // verus!
