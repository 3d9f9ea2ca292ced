//! Supported browsers, the kinds of browser data that can be cleaned, and the
//! per-browser cleanup rules.
use vstd::prelude::*;
use crate::outside::{cache_dir, config_dir, data_dir, home_dir, new_rule_id};
use crate::paths::{join, join_path};
use crate::strings::{push_joined, push_str, str_views, strs};
use crate::text::{ascii_lower_seq, chars_equal, chars_of, concat, lower_ascii, trim, trim_chars};

verus! {

#[derive(Clone, Copy, Debug, PartialEq, Eq, Hash, Structural)]
pub enum BrowserType {
    Firefox,
    Chrome,
    Chromium,
    Brave,
    Edge,
    Opera,
    Vivaldi,
    Yandex,
    DuckDuckGo,
}

/// The text views of a list of string slices.
pub open spec fn all_browsers() -> Seq<BrowserType> {
    seq![
        BrowserType::Firefox,
        BrowserType::Chrome,
        BrowserType::Chromium,
        BrowserType::Brave,
        BrowserType::Edge,
        BrowserType::Opera,
        BrowserType::Vivaldi,
        BrowserType::Yandex,
        BrowserType::DuckDuckGo,
    ]
}

impl BrowserType {
    pub open spec fn spec_display_name(self) -> Seq<char> {
        match self {
            BrowserType::Firefox => "Firefox"@,
            BrowserType::Chrome => "Google Chrome"@,
            BrowserType::Chromium => "Chromium"@,
            BrowserType::Brave => "Brave"@,
            BrowserType::Edge => "Microsoft Edge"@,
            BrowserType::Opera => "Opera"@,
            BrowserType::Vivaldi => "Vivaldi"@,
            BrowserType::Yandex => "Yandex Browser"@,
            BrowserType::DuckDuckGo => "DuckDuckGo"@,
        }
    }

    pub fn display_name(&self) -> (r: &'static str)
        ensures
            r@ == self.spec_display_name(),
    {
        match self {
            BrowserType::Firefox => "Firefox",
            BrowserType::Chrome => "Google Chrome",
            BrowserType::Chromium => "Chromium",
            BrowserType::Brave => "Brave",
            BrowserType::Edge => "Microsoft Edge",
            BrowserType::Opera => "Opera",
            BrowserType::Vivaldi => "Vivaldi",
            BrowserType::Yandex => "Yandex Browser",
            BrowserType::DuckDuckGo => "DuckDuckGo",
        }
    }

    pub open spec fn spec_icon_resource(self) -> Seq<char> {
        match self {
            BrowserType::Firefox => "/com/chrisdaggas/datacleaner/icons/browsers/firefox.svg"@,
            BrowserType::Chrome => "/com/chrisdaggas/datacleaner/icons/browsers/chrome.svg"@,
            BrowserType::Chromium => "/com/chrisdaggas/datacleaner/icons/browsers/chromium.svg"@,
            BrowserType::Brave => "/com/chrisdaggas/datacleaner/icons/browsers/brave.svg"@,
            BrowserType::Edge => "/com/chrisdaggas/datacleaner/icons/browsers/edge.svg"@,
            BrowserType::Opera => "/com/chrisdaggas/datacleaner/icons/browsers/opera.svg"@,
            BrowserType::Vivaldi => "/com/chrisdaggas/datacleaner/icons/browsers/vivaldi.svg"@,
            BrowserType::Yandex => "/com/chrisdaggas/datacleaner/icons/browsers/yandex.svg"@,
            BrowserType::DuckDuckGo => "/com/chrisdaggas/datacleaner/icons/browsers/duckduckgo.svg"@,
        }
    }

    pub fn icon_resource(&self) -> (r: &'static str)
        ensures
            r@ == self.spec_icon_resource(),
    {
        match self {
            BrowserType::Firefox => "/com/chrisdaggas/datacleaner/icons/browsers/firefox.svg",
            BrowserType::Chrome => "/com/chrisdaggas/datacleaner/icons/browsers/chrome.svg",
            BrowserType::Chromium => "/com/chrisdaggas/datacleaner/icons/browsers/chromium.svg",
            BrowserType::Brave => "/com/chrisdaggas/datacleaner/icons/browsers/brave.svg",
            BrowserType::Edge => "/com/chrisdaggas/datacleaner/icons/browsers/edge.svg",
            BrowserType::Opera => "/com/chrisdaggas/datacleaner/icons/browsers/opera.svg",
            BrowserType::Vivaldi => "/com/chrisdaggas/datacleaner/icons/browsers/vivaldi.svg",
            BrowserType::Yandex => "/com/chrisdaggas/datacleaner/icons/browsers/yandex.svg",
            BrowserType::DuckDuckGo => "/com/chrisdaggas/datacleaner/icons/browsers/duckduckgo.svg",
        }
    }

    pub open spec fn spec_icon_name(self) -> Seq<char> {
        match self {
            BrowserType::Firefox => "firefox"@,
            BrowserType::Chrome => "google-chrome"@,
            BrowserType::Chromium => "chromium"@,
            BrowserType::Brave => "brave"@,
            BrowserType::Edge => "microsoft-edge"@,
            BrowserType::Opera => "opera"@,
            BrowserType::Vivaldi => "vivaldi"@,
            BrowserType::Yandex => "yandex-browser"@,
            BrowserType::DuckDuckGo => "web-browser"@,
        }
    }

    pub fn icon_name(&self) -> (r: &'static str)
        ensures
            r@ == self.spec_icon_name(),
    {
        match self {
            BrowserType::Firefox => "firefox",
            BrowserType::Chrome => "google-chrome",
            BrowserType::Chromium => "chromium",
            BrowserType::Brave => "brave",
            BrowserType::Edge => "microsoft-edge",
            BrowserType::Opera => "opera",
            BrowserType::Vivaldi => "vivaldi",
            BrowserType::Yandex => "yandex-browser",
            BrowserType::DuckDuckGo => "web-browser",
        }
    }

    pub open spec fn spec_executable_names(self) -> Seq<Seq<char>> {
        match self {
            BrowserType::Firefox => seq!["firefox"@, "firefox-esr"@],
            BrowserType::Chrome => seq!["google-chrome"@, "google-chrome-stable"@],
            BrowserType::Chromium => seq!["chromium"@, "chromium-browser"@],
            BrowserType::Brave => seq!["brave-browser"@, "brave-browser-stable"@],
            BrowserType::Edge => seq!["microsoft-edge"@, "microsoft-edge-stable"@],
            BrowserType::Opera => seq!["opera"@],
            BrowserType::Vivaldi => seq!["vivaldi"@, "vivaldi-stable"@],
            BrowserType::Yandex => seq!["yandex-browser"@, "yandex-browser-stable"@],
            BrowserType::DuckDuckGo => seq!["duckduckgo"@],
        }
    }

    /// Names of the browser's executable on `PATH`.
    pub fn executable_names(&self) -> (r: &'static [&'static str])
        ensures
            str_views(r@) == self.spec_executable_names(),
    {
        let r: &'static [&'static str] = match self {
            BrowserType::Firefox => &["firefox", "firefox-esr"],
            BrowserType::Chrome => &["google-chrome", "google-chrome-stable"],
            BrowserType::Chromium => &["chromium", "chromium-browser"],
            BrowserType::Brave => &["brave-browser", "brave-browser-stable"],
            BrowserType::Edge => &["microsoft-edge", "microsoft-edge-stable"],
            BrowserType::Opera => &["opera"],
            BrowserType::Vivaldi => &["vivaldi", "vivaldi-stable"],
            BrowserType::Yandex => &["yandex-browser", "yandex-browser-stable"],
            BrowserType::DuckDuckGo => &["duckduckgo"],
        };
        assert(str_views(r@) =~= self.spec_executable_names());
        r
    }

    pub open spec fn spec_desktop_file_names(self) -> Seq<Seq<char>> {
        match self {
            BrowserType::Firefox => seq![
                "firefox.desktop"@,
                "firefox_firefox.desktop"@,
                "org.mozilla.firefox.desktop"@,
            ],
            BrowserType::Chrome => seq![
                "google-chrome.desktop"@,
                "google-chrome-stable.desktop"@,
                "com.google.Chrome.desktop"@,
            ],
            BrowserType::Chromium => seq![
                "chromium.desktop"@,
                "chromium-browser.desktop"@,
                "chromium_chromium.desktop"@,
                "org.chromium.Chromium.desktop"@,
            ],
            BrowserType::Brave => seq![
                "brave-browser.desktop"@,
                "brave-browser-stable.desktop"@,
                "com.brave.Browser.desktop"@,
            ],
            BrowserType::Edge => seq![
                "microsoft-edge.desktop"@,
                "microsoft-edge-stable.desktop"@,
                "com.microsoft.Edge.desktop"@,
            ],
            BrowserType::Opera => seq!["opera.desktop"@, "com.opera.Opera.desktop"@],
            BrowserType::Vivaldi => seq![
                "vivaldi.desktop"@,
                "vivaldi-stable.desktop"@,
                "com.vivaldi.Vivaldi.desktop"@,
            ],
            BrowserType::Yandex => seq![
                "yandex-browser.desktop"@,
                "yandex-browser-stable.desktop"@,
                "ru.yandex.Browser.desktop"@,
            ],
            BrowserType::DuckDuckGo => seq![
                "duckduckgo.desktop"@,
                "com.duckduckgo.DesktopBrowser.desktop"@,
            ],
        }
    }

    /// File names of the browser's desktop launchers.
    pub fn desktop_file_names(&self) -> (r: &'static [&'static str])
        ensures
            str_views(r@) == self.spec_desktop_file_names(),
    {
        let r: &'static [&'static str] = match self {
            BrowserType::Firefox => &[
                "firefox.desktop",
                "firefox_firefox.desktop",
                "org.mozilla.firefox.desktop",
            ],
            BrowserType::Chrome => &[
                "google-chrome.desktop",
                "google-chrome-stable.desktop",
                "com.google.Chrome.desktop",
            ],
            BrowserType::Chromium => &[
                "chromium.desktop",
                "chromium-browser.desktop",
                "chromium_chromium.desktop",
                "org.chromium.Chromium.desktop",
            ],
            BrowserType::Brave => &[
                "brave-browser.desktop",
                "brave-browser-stable.desktop",
                "com.brave.Browser.desktop",
            ],
            BrowserType::Edge => &[
                "microsoft-edge.desktop",
                "microsoft-edge-stable.desktop",
                "com.microsoft.Edge.desktop",
            ],
            BrowserType::Opera => &["opera.desktop", "com.opera.Opera.desktop"],
            BrowserType::Vivaldi => &[
                "vivaldi.desktop",
                "vivaldi-stable.desktop",
                "com.vivaldi.Vivaldi.desktop",
            ],
            BrowserType::Yandex => &[
                "yandex-browser.desktop",
                "yandex-browser-stable.desktop",
                "ru.yandex.Browser.desktop",
            ],
            BrowserType::DuckDuckGo => &[
                "duckduckgo.desktop",
                "com.duckduckgo.DesktopBrowser.desktop",
            ],
        };
        assert(str_views(r@) =~= self.spec_desktop_file_names());
        r
    }

    pub open spec fn spec_cache_subdir(self) -> Seq<char> {
        match self {
            BrowserType::Firefox => "mozilla/firefox"@,
            BrowserType::Chrome => "google-chrome"@,
            BrowserType::Chromium => "chromium"@,
            BrowserType::Brave => "BraveSoftware/Brave-Browser"@,
            BrowserType::Edge => "microsoft-edge"@,
            BrowserType::Opera => "opera"@,
            BrowserType::Vivaldi => "vivaldi"@,
            BrowserType::Yandex => "yandex-browser"@,
            BrowserType::DuckDuckGo => "duckduckgo"@,
        }
    }

    /// The browser's cache directory below the user cache directory `cache`.
    pub fn cache_path_in(&self, cache: &str) -> (r: String)
        ensures
            r@ == join(cache@, self.spec_cache_subdir()),
    {
        let sub = match self {
            BrowserType::Firefox => "mozilla/firefox",
            BrowserType::Chrome => "google-chrome",
            BrowserType::Chromium => "chromium",
            BrowserType::Brave => "BraveSoftware/Brave-Browser",
            BrowserType::Edge => "microsoft-edge",
            BrowserType::Opera => "opera",
            BrowserType::Vivaldi => "vivaldi",
            BrowserType::Yandex => "yandex-browser",
            BrowserType::DuckDuckGo => "duckduckgo",
        };
        join_path(cache, sub)
    }

    /// The browser's cache directory, below the user cache directory when
    /// that one is known.
    pub fn cache_path(&self) -> (r: Option<String>)
        ensures
            r matches Some(p) ==> exists|cache: Seq<char>| p@ == join(cache, self.spec_cache_subdir()),
    {
        match cache_dir() {
            Some(cache) => {
                let p = self.cache_path_in(cache.as_str());
                Some(p)
            },
            None => None,
        }
    }

    pub open spec fn spec_config_path(self, home: Seq<char>, config: Seq<char>) -> Seq<char> {
        match self {
            BrowserType::Firefox => join(home, ".mozilla/firefox"@),
            BrowserType::Chrome => join(config, "google-chrome"@),
            BrowserType::Chromium => join(config, "chromium"@),
            BrowserType::Brave => join(config, "BraveSoftware/Brave-Browser"@),
            BrowserType::Edge => join(config, "microsoft-edge"@),
            BrowserType::Opera => join(config, "opera"@),
            BrowserType::Vivaldi => join(config, "vivaldi"@),
            BrowserType::Yandex => join(config, "yandex-browser"@),
            BrowserType::DuckDuckGo => join(config, "duckduckgo"@),
        }
    }

    /// The browser's profile directory, given the home and configuration
    /// directories.
    pub fn config_path_in(&self, home: &str, config: &str) -> (r: String)
        ensures
            r@ == self.spec_config_path(home@, config@),
    {
        match self {
            BrowserType::Firefox => join_path(home, ".mozilla/firefox"),
            BrowserType::Chrome => join_path(config, "google-chrome"),
            BrowserType::Chromium => join_path(config, "chromium"),
            BrowserType::Brave => join_path(config, "BraveSoftware/Brave-Browser"),
            BrowserType::Edge => join_path(config, "microsoft-edge"),
            BrowserType::Opera => join_path(config, "opera"),
            BrowserType::Vivaldi => join_path(config, "vivaldi"),
            BrowserType::Yandex => join_path(config, "yandex-browser"),
            BrowserType::DuckDuckGo => join_path(config, "duckduckgo"),
        }
    }

    /// The browser's profile directory, when both the home and the
    /// configuration directories are known.
    pub fn config_path(&self) -> (r: Option<String>)
        ensures
            r matches Some(p) ==> exists|home: Seq<char>, config: Seq<char>| p@
                == self.spec_config_path(home, config),
    {
        let home = match home_dir() {
            Some(h) => h,
            None => {
                return None;
            },
        };
        let config = match config_dir() {
            Some(c) => c,
            None => {
                return None;
            },
        };
        Some(self.config_path_in(home.as_str(), config.as_str()))
    }

    pub fn all() -> (r: &'static [BrowserType])
        ensures
            r@ == all_browsers(),
    {
        let r: &'static [BrowserType] = &[
            BrowserType::Firefox,
            BrowserType::Chrome,
            BrowserType::Chromium,
            BrowserType::Brave,
            BrowserType::Edge,
            BrowserType::Opera,
            BrowserType::Vivaldi,
            BrowserType::Yandex,
            BrowserType::DuckDuckGo,
        ];
        assert(r@ =~= all_browsers());
        r
    }

    pub open spec fn spec_process_names(self) -> Seq<Seq<char>> {
        match self {
            BrowserType::Firefox => seq!["firefox"@],
            BrowserType::Chrome => seq!["chrome"@],
            BrowserType::Chromium => seq!["chromium"@],
            BrowserType::Brave => seq!["brave"@],
            BrowserType::Edge => seq!["msedge"@],
            BrowserType::Opera => seq!["opera"@],
            BrowserType::Vivaldi => seq!["vivaldi"@],
            BrowserType::Yandex => seq!["yandex_browser"@],
            BrowserType::DuckDuckGo => seq!["duckduckgo"@],
        }
    }

    /// Process names used to detect whether this browser is running.
    pub fn process_names(&self) -> (r: &'static [&'static str])
        ensures
            str_views(r@) == self.spec_process_names(),
    {
        let r: &'static [&'static str] = match self {
            BrowserType::Firefox => &["firefox"],
            BrowserType::Chrome => &["chrome"],
            BrowserType::Chromium => &["chromium"],
            BrowserType::Brave => &["brave"],
            BrowserType::Edge => &["msedge"],
            BrowserType::Opera => &["opera"],
            BrowserType::Vivaldi => &["vivaldi"],
            BrowserType::Yandex => &["yandex_browser"],
            BrowserType::DuckDuckGo => &["duckduckgo"],
        };
        assert(str_views(r@) =~= self.spec_process_names());
        r
    }
}

// ---------------------------------------------------------------------------
// Installation and running state
// ---------------------------------------------------------------------------
pub open spec fn executable_candidates_spec(names: Seq<Seq<char>>, dirs: Seq<Seq<char>>) -> Seq<Seq<char>>
    decreases dirs.len(),
{
    if dirs.len() == 0 {
        Seq::<Seq<char>>::empty()
    } else {
        executable_candidates_spec(names, dirs.drop_last()) + names.map_values(
            |n: Seq<char>| join(dirs.last(), n),
        )
    }
}

pub open spec fn desktop_candidates_spec(names: Seq<Seq<char>>, roots: Seq<Seq<char>>) -> Seq<Seq<char>>
    decreases roots.len(),
{
    if roots.len() == 0 {
        Seq::<Seq<char>>::empty()
    } else {
        desktop_candidates_spec(names, roots.drop_last()) + names.map_values(
            |n: Seq<char>| join(join(roots.last(), "applications"@), n),
        )
    }
}

/// The roots searched for desktop launchers: the user data directory and its
/// Flatpak exports, the host-user locations below home, `XDG_DATA_DIRS` (or
/// its default), then the system-wide Flatpak, Snap and host locations.
pub open spec fn data_roots_spec(
    data_home: Option<Seq<char>>,
    home: Option<Seq<char>>,
    xdg_data_dirs: Option<Seq<Seq<char>>>,
) -> Seq<Seq<char>> {
    let a = match data_home {
        Some(d) => seq![d, join(d, "flatpak/exports/share"@)],
        None => Seq::<Seq<char>>::empty(),
    };
    let b = match home {
        Some(h) => seq![join(h, ".local/share"@), join(h, ".local/share/flatpak/exports/share"@)],
        None => Seq::<Seq<char>>::empty(),
    };
    let c = match xdg_data_dirs {
        Some(dirs) => dirs,
        None => seq!["/usr/local/share"@, "/usr/share"@],
    };
    a + b + c + seq![
        "/var/lib/flatpak/exports/share"@,
        "/var/lib/snapd/desktop"@,
        "/run/host/usr/local/share"@,
        "/run/host/usr/share"@,
        "/run/host/var/lib/flatpak/exports/share"@,
        "/run/host/var/lib/snapd/desktop"@,
    ]
}

/// Roots to search for desktop launchers (see `data_roots_spec`).
pub fn desktop_data_roots(
    data_home: Option<&str>,
    home: Option<&str>,
    xdg_data_dirs: Option<&Vec<String>>,
) -> (r: Vec<String>)
    ensures
        strs(r@) == data_roots_spec(
            match data_home {
                Some(d) => Some(d@),
                None => None,
            },
            match home {
                Some(h) => Some(h@),
                None => None,
            },
            match xdg_data_dirs {
                Some(v) => Some(strs(v@)),
                None => None,
            },
        ),
{
    let mut out: Vec<String> = Vec::new();
    if let Some(d) = data_home {
        push_str(&mut out, d);
        let f = join_path(d, "flatpak/exports/share");
        push_str(&mut out, f.as_str());
    }
    if let Some(h) = home {
        let a = join_path(h, ".local/share");
        push_str(&mut out, a.as_str());
        let b = join_path(h, ".local/share/flatpak/exports/share");
        push_str(&mut out, b.as_str());
    }
    match xdg_data_dirs {
        Some(v) => {
            let mut i: usize = 0;
            let ghost start = strs(out@);
            while i < v.len()
                invariant
                    0 <= i <= v@.len(),
                    strs(out@) == start + strs(v@).take(i as int),
                decreases v@.len() - i,
            {
                push_str(&mut out, v[i].as_str());
                i += 1;
                assert(strs(v@).take(i as int) =~= strs(v@).take(i - 1).push(v@[i - 1]@));
            }
            assert(strs(v@).take(v@.len() as int) =~= strs(v@));
        },
        None => {
            push_str(&mut out, "/usr/local/share");
            push_str(&mut out, "/usr/share");
        },
    }
    push_str(&mut out, "/var/lib/flatpak/exports/share");
    push_str(&mut out, "/var/lib/snapd/desktop");
    push_str(&mut out, "/run/host/usr/local/share");
    push_str(&mut out, "/run/host/usr/share");
    push_str(&mut out, "/run/host/var/lib/flatpak/exports/share");
    push_str(&mut out, "/run/host/var/lib/snapd/desktop");
    assert(strs(out@) =~= data_roots_spec(
        match data_home {
            Some(d) => Some(d@),
            None => None,
        },
        match home {
            Some(h) => Some(h@),
            None => None,
        },
        match xdg_data_dirs {
            Some(v) => Some(strs(v@)),
            None => None,
        },
    ));
    out
}

/// The texts of an optional list.
pub open spec fn opt_strs(v: Option<&Vec<String>>) -> Option<Seq<Seq<char>>> {
    match v {
        Some(v) => Some(strs(v@)),
        None => None,
    }
}

/// `desktop_data_roots` for the current user: the data and home
/// directories come from `dirs`, `XDG_DATA_DIRS` (split at `:`) from the
/// caller. The roots are those of some data and home directory, whichever
/// the environment gave.
pub fn user_desktop_data_roots(xdg_data_dirs: Option<&Vec<String>>) -> (r: Vec<String>)
    ensures
        exists|d: Option<Seq<char>>, h: Option<Seq<char>>|
            strs(r@) == #[trigger] data_roots_spec(d, h, opt_strs(xdg_data_dirs)),
{
    let data_home = data_dir();
    let home = home_dir();
    let d = match &data_home {
        Some(s) => Some(s.as_str()),
        None => None,
    };
    let h = match &home {
        Some(s) => Some(s.as_str()),
        None => None,
    };
    let r = desktop_data_roots(d, h, xdg_data_dirs);
    let ghost dv: Option<Seq<char>> = match d {
        Some(x) => Some(x@),
        None => None,
    };
    let ghost hv: Option<Seq<char>> = match h {
        Some(x) => Some(x@),
        None => None,
    };
    assert(strs(r@) == data_roots_spec(dv, hv, opt_strs(xdg_data_dirs)));
    r
}

impl BrowserType {
    /// Every file whose presence shows the browser is installed: its
    /// executables in each `PATH` directory, then its launchers in each data
    /// root's `applications` directory.
    pub open spec fn install_candidates(self, path_dirs: Seq<Seq<char>>, data_roots: Seq<Seq<char>>) -> Seq<Seq<char>> {
        executable_candidates_spec(self.spec_executable_names(), path_dirs) + desktop_candidates_spec(
            self.spec_desktop_file_names(),
            data_roots,
        )
    }

    /// The files to probe for `is_installed`, in probing order.
    pub fn installation_candidates(&self, path_dirs: &Vec<String>, data_roots: &Vec<String>) -> (r: Vec<String>)
        ensures
            strs(r@) == self.install_candidates(strs(path_dirs@), strs(data_roots@)),
    {
        let names = self.executable_names();
        let launchers = self.desktop_file_names();
        let mut out: Vec<String> = Vec::new();
        let mut i: usize = 0;
        while i < path_dirs.len()
            invariant
                0 <= i <= path_dirs@.len(),
                str_views(names@) == self.spec_executable_names(),
                strs(out@) == executable_candidates_spec(
                    self.spec_executable_names(),
                    strs(path_dirs@).take(i as int),
                ),
            decreases path_dirs@.len() - i,
        {
            push_joined(&mut out, path_dirs[i].as_str(), names);
            assert(strs(path_dirs@).take(i + 1).drop_last() =~= strs(path_dirs@).take(i as int));
            i += 1;
        }
        assert(strs(path_dirs@).take(path_dirs@.len() as int) =~= strs(path_dirs@));
        let ghost exec_part = strs(out@);
        let mut j: usize = 0;
        while j < data_roots.len()
            invariant
                0 <= j <= data_roots@.len(),
                str_views(launchers@) == self.spec_desktop_file_names(),
                strs(out@) == exec_part + desktop_candidates_spec(
                    self.spec_desktop_file_names(),
                    strs(data_roots@).take(j as int),
                ),
            decreases data_roots@.len() - j,
        {
            let apps = join_path(data_roots[j].as_str(), "applications");
            push_joined(&mut out, apps.as_str(), launchers);
            assert(strs(data_roots@).take(j + 1).drop_last() =~= strs(data_roots@).take(j as int));
            j += 1;
        }
        assert(strs(data_roots@).take(data_roots@.len() as int) =~= strs(data_roots@));
        out
    }

    /// Whether the browser is installed: some executable on `PATH` or some
    /// desktop launcher is among `existing`, the candidate files found to be
    /// regular files. A stale profile alone does not count.
    pub fn is_installed(&self, path_dirs: &Vec<String>, data_roots: &Vec<String>, existing: &Vec<String>) -> (r: bool)
        ensures
            r == exists|i: int, j: int|
                0 <= i < self.install_candidates(strs(path_dirs@), strs(data_roots@)).len() && 0 <= j
                    < existing@.len() && existing@[j]@ == self.install_candidates(
                    strs(path_dirs@),
                    strs(data_roots@),
                )[i],
    {
        let cands = self.installation_candidates(path_dirs, data_roots);
        let ghost c = strs(cands@);
        let mut i: usize = 0;
        while i < cands.len()
            invariant
                0 <= i <= cands@.len(),
                c == strs(cands@),
                c == self.install_candidates(strs(path_dirs@), strs(data_roots@)),
                forall|a: int, b: int| 0 <= a < i && 0 <= b < existing@.len() ==> existing@[b]@ != c[a],
            decreases cands@.len() - i,
        {
            let mut j: usize = 0;
            while j < existing.len()
                invariant
                    0 <= j <= existing@.len(),
                    0 <= i < cands@.len(),
                    c == strs(cands@),
                    c == self.install_candidates(strs(path_dirs@), strs(data_roots@)),
                    forall|b: int| 0 <= b < j ==> existing@[b]@ != c[i as int],
                decreases existing@.len() - j,
            {
                if crate::paths::paths_text_equal(existing[j].as_str(), cands[i].as_str()) {
                    assert(existing@[j as int]@ == c[i as int]);
                    return true;
                }
                j += 1;
            }
            i += 1;
        }
        false
    }

    /// The browser a process belongs to, from the contents of its `comm`
    /// file: trimmed and compared case-insensitively with the known process
    /// names.
    pub open spec fn spec_owner_of(key: Seq<char>) -> Option<BrowserType> {
        if key == "firefox"@ {
            Some(BrowserType::Firefox)
        } else if key == "chrome"@ {
            Some(BrowserType::Chrome)
        } else if key == "chromium"@ {
            Some(BrowserType::Chromium)
        } else if key == "brave"@ {
            Some(BrowserType::Brave)
        } else if key == "msedge"@ {
            Some(BrowserType::Edge)
        } else if key == "opera"@ {
            Some(BrowserType::Opera)
        } else if key == "vivaldi"@ {
            Some(BrowserType::Vivaldi)
        } else if key == "yandex_browser"@ {
            Some(BrowserType::Yandex)
        } else if key == "duckduckgo"@ {
            Some(BrowserType::DuckDuckGo)
        } else {
            None
        }
    }

    /// The browser whose process has the name `comm` (trimmed, ASCII
    /// case-insensitive).
    pub fn for_process_name(comm: &str) -> (r: Option<BrowserType>)
        ensures
            r == Self::spec_owner_of(ascii_lower_seq(trim(comm@))),
    {
        let c = chars_of(comm);
        let t = trim_chars(c.as_slice());
        let key = lower_ascii(t.as_slice());
        let k = key.as_slice();
        if text_is(k, "firefox") {
            Some(BrowserType::Firefox)
        } else if text_is(k, "chrome") {
            Some(BrowserType::Chrome)
        } else if text_is(k, "chromium") {
            Some(BrowserType::Chromium)
        } else if text_is(k, "brave") {
            Some(BrowserType::Brave)
        } else if text_is(k, "msedge") {
            Some(BrowserType::Edge)
        } else if text_is(k, "opera") {
            Some(BrowserType::Opera)
        } else if text_is(k, "vivaldi") {
            Some(BrowserType::Vivaldi)
        } else if text_is(k, "yandex_browser") {
            Some(BrowserType::Yandex)
        } else if text_is(k, "duckduckgo") {
            Some(BrowserType::DuckDuckGo)
        } else {
            None
        }
    }

    /// Whether this browser is among the running ones.
    pub fn is_running(&self, running: &[BrowserType]) -> (r: bool)
        ensures
            r == running@.contains(*self),
    {
        let mut i: usize = 0;
        while i < running.len()
            invariant
                0 <= i <= running@.len(),
                forall|k: int| 0 <= k < i ==> running@[k] != *self,
            decreases running@.len() - i,
        {
            if running[i] == *self {
                assert(running@[i as int] == *self);
                return true;
            }
            i += 1;
        }
        false
    }
}

/// Whether the characters `k` spell `lit`.
pub fn text_is(k: &[char], lit: &str) -> (r: bool)
    ensures
        r == (k@ == lit@),
{
    let l = chars_of(lit);
    chars_equal(k, l.as_slice())
}

/// `/proc` entries named by process IDs: all ASCII digits.
pub open spec fn spec_is_process_directory(name: Seq<char>) -> bool {
    forall|i: int| 0 <= i < name.len() ==> crate::text::is_digit(#[trigger] name[i])
}

pub fn is_process_directory(name: &str) -> (r: bool)
    ensures
        r == spec_is_process_directory(name@),
{
    let c = chars_of(name);
    let mut i: usize = 0;
    while i < c.len()
        invariant
            0 <= i <= c@.len(),
            c@ == name@,
            forall|k: int| 0 <= k < i ==> crate::text::is_digit(#[trigger] c@[k]),
        decreases c@.len() - i,
    {
        if !crate::text::digit(c[i]) {
            return false;
        }
        i += 1;
    }
    true
}

pub open spec fn process_runs(b: BrowserType, comms: Seq<Seq<char>>) -> bool {
    exists|k: int| 0 <= k < comms.len() && BrowserType::spec_owner_of(ascii_lower_seq(trim(#[trigger] comms[k]))) == Some(b)
}

/// The browsers among `bs` that own one of the process names, in order.
pub open spec fn running_among(bs: Seq<BrowserType>, comms: Seq<Seq<char>>) -> Seq<BrowserType>
    decreases bs.len(),
{
    if bs.len() == 0 {
        bs
    } else if process_runs(bs.last(), comms) {
        running_among(bs.drop_last(), comms).push(bs.last())
    } else {
        running_among(bs.drop_last(), comms)
    }
}

/// The browsers running, given the `comm` names of all processes, each
/// browser once, in `BrowserType::all` order.
pub fn running_browsers(comms: &Vec<String>) -> (r: Vec<BrowserType>)
    ensures
        r@ == running_among(all_browsers(), strs(comms@)),
{
    let mut owners: Vec<Option<BrowserType>> = Vec::new();
    let mut k: usize = 0;
    while k < comms.len()
        invariant
            0 <= k <= comms@.len(),
            owners@.len() == k,
            forall|a: int| 0 <= a < k ==> #[trigger] owners@[a] == BrowserType::spec_owner_of(ascii_lower_seq(trim(comms@[a]@))),
        decreases comms@.len() - k,
    {
        owners.push(BrowserType::for_process_name(comms[k].as_str()));
        k += 1;
    }
    let all = BrowserType::all();
    let mut out: Vec<BrowserType> = Vec::new();
    let mut i: usize = 0;
    while i < all.len()
        invariant
            0 <= i <= all@.len(),
            all@ == all_browsers(),
            owners@.len() == comms@.len(),
            forall|a: int| 0 <= a < comms@.len() ==> #[trigger] owners@[a] == BrowserType::spec_owner_of(ascii_lower_seq(trim(comms@[a]@))),
            out@ == running_among(all_browsers().take(i as int), strs(comms@)),
        decreases all@.len() - i,
    {
        let b = all[i];
        let mut found = false;
        let mut j: usize = 0;
        while j < owners.len()
            invariant
                0 <= j <= owners@.len(),
                owners@.len() == comms@.len(),
                forall|a: int| 0 <= a < comms@.len() ==> #[trigger] owners@[a] == BrowserType::spec_owner_of(ascii_lower_seq(trim(comms@[a]@))),
                found == exists|a: int| 0 <= a < j && owners@[a] == Some(b),
            decreases owners@.len() - j,
        {
            if owners[j] == Some(b) {
                found = true;
            }
            j += 1;
        }
        assert(found == process_runs(b, strs(comms@))) by {
            if found {
                let a = choose|a: int| 0 <= a < owners@.len() && owners@[a] == Some(b);
                assert(strs(comms@)[a] == comms@[a]@);
            }
            if process_runs(b, strs(comms@)) {
                let a = choose|a: int| 0 <= a < strs(comms@).len() && BrowserType::spec_owner_of(ascii_lower_seq(trim(#[trigger] strs(comms@)[a]))) == Some(b);
                assert(strs(comms@)[a] == comms@[a]@);
                assert(owners@[a] == Some(b));
            }
        }
        assert(all_browsers().take(i + 1).drop_last() =~= all_browsers().take(i as int));
        assert(all_browsers().take(i + 1).last() == b);
        if found {
            out.push(b);
        }
        i += 1;
    }
    assert(all_browsers().take(9) =~= all_browsers());
    out
}

// ---------------------------------------------------------------------------
// Kinds of browser data
// ---------------------------------------------------------------------------
#[derive(Clone, Copy, Debug, PartialEq, Eq, Structural)]
pub enum BrowserDataType {
    Cache,
    SiteData,
    CrashReports,
    History,
    Cookies,
    DownloadHistory,
}

pub open spec fn all_data_types() -> Seq<BrowserDataType> {
    seq![
        BrowserDataType::Cache,
        BrowserDataType::SiteData,
        BrowserDataType::CrashReports,
        BrowserDataType::History,
        BrowserDataType::Cookies,
        BrowserDataType::DownloadHistory,
    ]
}

impl BrowserDataType {
    pub open spec fn spec_display_name(self) -> Seq<char> {
        match self {
            BrowserDataType::Cache => "Cache"@,
            BrowserDataType::SiteData => "Website Storage"@,
            BrowserDataType::CrashReports => "Crash Reports"@,
            BrowserDataType::History => "History"@,
            BrowserDataType::Cookies => "Cookies"@,
            BrowserDataType::DownloadHistory => "Download History"@,
        }
    }

    pub fn display_name(&self) -> (r: &'static str)
        ensures
            r@ == self.spec_display_name(),
    {
        match self {
            BrowserDataType::Cache => "Cache",
            BrowserDataType::SiteData => "Website Storage",
            BrowserDataType::CrashReports => "Crash Reports",
            BrowserDataType::History => "History",
            BrowserDataType::Cookies => "Cookies",
            BrowserDataType::DownloadHistory => "Download History",
        }
    }

    pub open spec fn spec_description(self) -> Seq<char> {
        match self {
            BrowserDataType::Cache => "Temporary files stored locally. Safe to delete."@,
            BrowserDataType::SiteData => "Offline website data and local storage. May sign you out of some sites."@,
            BrowserDataType::CrashReports => "Diagnostic crash files. Safe to delete."@,
            BrowserDataType::History => "Record of visited websites. Cannot be recovered."@,
            BrowserDataType::Cookies => "Login sessions and preferences. Will log you out of websites."@,
            BrowserDataType::DownloadHistory => "List of downloaded files. Does not delete the files themselves."@,
        }
    }

    pub fn description(&self) -> (r: &'static str)
        ensures
            r@ == self.spec_description(),
    {
        match self {
            BrowserDataType::Cache => "Temporary files stored locally. Safe to delete.",
            BrowserDataType::SiteData => "Offline website data and local storage. May sign you out of some sites.",
            BrowserDataType::CrashReports => "Diagnostic crash files. Safe to delete.",
            BrowserDataType::History => "Record of visited websites. Cannot be recovered.",
            BrowserDataType::Cookies => "Login sessions and preferences. Will log you out of websites.",
            BrowserDataType::DownloadHistory => "List of downloaded files. Does not delete the files themselves.",
        }
    }

    /// Data whose removal signs the user out or loses history.
    pub fn is_sensitive(&self) -> (r: bool)
        ensures
            r == (*self == BrowserDataType::Cookies || *self == BrowserDataType::History || *self
                == BrowserDataType::SiteData),
    {
        match self {
            BrowserDataType::Cookies | BrowserDataType::History | BrowserDataType::SiteData => true,
            _ => false,
        }
    }

    /// Data kept in directory trees whose contents are scanned recursively.
    pub fn recurse_directories(&self) -> (r: bool)
        ensures
            r == (*self == BrowserDataType::Cache || *self == BrowserDataType::SiteData || *self
                == BrowserDataType::CrashReports),
    {
        match self {
            BrowserDataType::Cache | BrowserDataType::SiteData | BrowserDataType::CrashReports => true,
            _ => false,
        }
    }

    pub open spec fn spec_relative_paths(self, browser: BrowserType) -> Seq<Seq<char>> {
        if browser == BrowserType::Firefox {
            match self {
                BrowserDataType::Cache => seq!["*/cache2"@, "*/startupCache"@],
                BrowserDataType::SiteData => seq!["*/storage/default"@, "*/storage/temporary"@],
                BrowserDataType::CrashReports => seq!["Crash Reports/pending"@, "*/minidumps"@],
                BrowserDataType::History => seq!["*/places.sqlite"@],
                BrowserDataType::Cookies => seq!["*/cookies.sqlite"@],
                BrowserDataType::DownloadHistory => seq!["*/downloads.sqlite"@],
            }
        } else {
            match self {
                BrowserDataType::Cache => seq![
                    "Cache"@,
                    "*/Cache"@,
                    "Code Cache"@,
                    "*/Code Cache"@,
                    "GPUCache"@,
                    "*/GPUCache"@,
                    "GrShaderCache"@,
                    "*/GrShaderCache"@,
                    "GraphiteDawnCache"@,
                    "*/GraphiteDawnCache"@,
                ],
                BrowserDataType::SiteData => seq![
                    "Local Storage"@,
                    "Session Storage"@,
                    "IndexedDB"@,
                    "Service Worker"@,
                    "WebStorage"@,
                    "*/Local Storage"@,
                    "*/Session Storage"@,
                    "*/IndexedDB"@,
                    "*/Service Worker"@,
                    "*/WebStorage"@,
                ],
                BrowserDataType::CrashReports => seq![
                    "Crash Reports"@,
                    "Crashpad"@,
                    "*/Crash Reports"@,
                    "*/Crashpad"@,
                ],
                BrowserDataType::History => seq!["History"@, "*/History"@],
                BrowserDataType::Cookies => seq![
                    "Cookies"@,
                    "Network/Cookies"@,
                    "*/Cookies"@,
                    "*/Network/Cookies"@,
                ],
                BrowserDataType::DownloadHistory => seq!["History"@, "*/History"@],
            }
        }
    }

    /// Glob patterns, relative to the browser's cache or profile directory,
    /// of the files holding this kind of data.
    pub fn relative_paths(&self, browser: BrowserType) -> (r: &'static [&'static str])
        ensures
            str_views(r@) == self.spec_relative_paths(browser),
    {
        let r: &'static [&'static str] = if browser == BrowserType::Firefox {
            match self {
                BrowserDataType::Cache => &["*/cache2", "*/startupCache"],
                BrowserDataType::SiteData => &["*/storage/default", "*/storage/temporary"],
                BrowserDataType::CrashReports => &["Crash Reports/pending", "*/minidumps"],
                BrowserDataType::History => &["*/places.sqlite"],
                BrowserDataType::Cookies => &["*/cookies.sqlite"],
                BrowserDataType::DownloadHistory => &["*/downloads.sqlite"],
            }
        } else {
            match self {
                BrowserDataType::Cache => &[
                    "Cache",
                    "*/Cache",
                    "Code Cache",
                    "*/Code Cache",
                    "GPUCache",
                    "*/GPUCache",
                    "GrShaderCache",
                    "*/GrShaderCache",
                    "GraphiteDawnCache",
                    "*/GraphiteDawnCache",
                ],
                BrowserDataType::SiteData => &[
                    "Local Storage",
                    "Session Storage",
                    "IndexedDB",
                    "Service Worker",
                    "WebStorage",
                    "*/Local Storage",
                    "*/Session Storage",
                    "*/IndexedDB",
                    "*/Service Worker",
                    "*/WebStorage",
                ],
                BrowserDataType::CrashReports => &[
                    "Crash Reports",
                    "Crashpad",
                    "*/Crash Reports",
                    "*/Crashpad",
                ],
                BrowserDataType::History => &["History", "*/History"],
                BrowserDataType::Cookies => &[
                    "Cookies",
                    "Network/Cookies",
                    "*/Cookies",
                    "*/Network/Cookies",
                ],
                BrowserDataType::DownloadHistory => &["History", "*/History"],
            }
        };
        assert(str_views(r@) =~= self.spec_relative_paths(browser));
        r
    }

    pub fn all() -> (r: &'static [BrowserDataType])
        ensures
            r@ == all_data_types(),
    {
        let r: &'static [BrowserDataType] = &[
            BrowserDataType::Cache,
            BrowserDataType::SiteData,
            BrowserDataType::CrashReports,
            BrowserDataType::History,
            BrowserDataType::Cookies,
            BrowserDataType::DownloadHistory,
        ];
        assert(r@ =~= all_data_types());
        r
    }
}

// ---------------------------------------------------------------------------
// Browser rules
// ---------------------------------------------------------------------------
#[derive(Clone, Debug)]
pub struct BrowserRule {
    pub id: uuid::Uuid,
    pub browser: BrowserType,
    pub data_type: BrowserDataType,
    pub enabled: bool,
    pub custom_path: Option<String>,
}

impl BrowserRule {
    /// A disabled rule for one browser and kind of data, with a fresh id.
    pub fn new(browser: BrowserType, data_type: BrowserDataType) -> (r: Self)
        ensures
            r.browser == browser,
            r.data_type == data_type,
            !r.enabled,
            r.custom_path is None,
    {
        BrowserRule {
            id: new_rule_id(),
            browser,
            data_type,
            enabled: false,
            custom_path: None,
        }
    }

    /// The directory the rule cleans, given the user's directories: its custom
    /// path if set, else the browser's cache directory for cache data and its
    /// profile directory for everything else.
    pub fn effective_path_in(&self, home: &str, cache: &str, config: &str) -> (r: String)
        ensures
            r@ == match self.custom_path {
                Some(p) => p@,
                None => if self.data_type == BrowserDataType::Cache {
                    join(cache@, self.browser.spec_cache_subdir())
                } else {
                    self.browser.spec_config_path(home@, config@)
                },
            },
    {
        match &self.custom_path {
            Some(p) => p.clone(),
            None => {
                if self.data_type == BrowserDataType::Cache {
                    self.browser.cache_path_in(cache)
                } else {
                    self.browser.config_path_in(home, config)
                }
            },
        }
    }

    /// The directory the rule cleans, when it can be determined.
    pub fn effective_path(&self) -> (r: Option<String>)
        ensures
            self.custom_path matches Some(p) ==> r == Some(p),
            self.custom_path is None && self.data_type == BrowserDataType::Cache && r is Some
                ==> exists|c: Seq<char>| r->0@ == join(c, self.browser.spec_cache_subdir()),
            self.custom_path is None && self.data_type != BrowserDataType::Cache && r is Some
                ==> exists|h: Seq<char>, g: Seq<char>| r->0@ == self.browser.spec_config_path(h, g),
    {
        match &self.custom_path {
            Some(p) => Some(p.clone()),
            None => {
                if self.data_type == BrowserDataType::Cache {
                    self.browser.cache_path()
                } else {
                    self.browser.config_path()
                }
            },
        }
    }

    /// One rule per browser and kind of data; only the cache rules of the
    /// installed browsers start enabled.
    pub fn defaults(installed: &[BrowserType]) -> (r: Vec<BrowserRule>)
        ensures
            r@.len() == 54,
            forall|b: int, d: int|
                0 <= b < 9 && 0 <= d < 6 ==> {
                    let rule = #[trigger] r@[b * 6 + d];
                    &&& rule.browser == all_browsers()[b]
                    &&& rule.data_type == all_data_types()[d]
                    &&& rule.custom_path is None
                    &&& rule.enabled == (installed@.contains(all_browsers()[b]) && all_data_types()[d]
                        == BrowserDataType::Cache)
                },
    {
        let browsers = BrowserType::all();
        let kinds = BrowserDataType::all();
        let mut rules: Vec<BrowserRule> = Vec::new();
        let mut b: usize = 0;
        while b < browsers.len()
            invariant
                0 <= b <= 9,
                browsers@ == all_browsers(),
                kinds@ == all_data_types(),
                rules@.len() == b * 6,
                forall|x: int, d: int|
                    0 <= x < b && 0 <= d < 6 ==> {
                        let rule = #[trigger] rules@[x * 6 + d];
                        &&& rule.browser == all_browsers()[x]
                        &&& rule.data_type == all_data_types()[d]
                        &&& rule.custom_path is None
                        &&& rule.enabled == (installed@.contains(all_browsers()[x])
                            && all_data_types()[d] == BrowserDataType::Cache)
                    },
            decreases 9 - b,
        {
            let browser = browsers[b];
            let is_installed = browser.is_running(installed);
            let mut d: usize = 0;
            while d < kinds.len()
                invariant
                    0 <= b < 9,
                    0 <= d <= 6,
                    browsers@ == all_browsers(),
                    kinds@ == all_data_types(),
                    browser == all_browsers()[b as int],
                    is_installed == installed@.contains(browser),
                    rules@.len() == b * 6 + d,
                    forall|x: int, d2: int|
                        0 <= x < b && 0 <= d2 < 6 ==> {
                            let rule = #[trigger] rules@[x * 6 + d2];
                            &&& rule.browser == all_browsers()[x]
                            &&& rule.data_type == all_data_types()[d2]
                            &&& rule.custom_path is None
                            &&& rule.enabled == (installed@.contains(all_browsers()[x])
                                && all_data_types()[d2] == BrowserDataType::Cache)
                        },
                    forall|d2: int|
                        0 <= d2 < d ==> {
                            let rule = #[trigger] rules@[b * 6 + d2];
                            &&& rule.browser == browser
                            &&& rule.data_type == all_data_types()[d2]
                            &&& rule.custom_path is None
                            &&& rule.enabled == (is_installed && all_data_types()[d2]
                                == BrowserDataType::Cache)
                        },
                decreases 6 - d,
            {
                let kind = kinds[d];
                let mut rule = BrowserRule::new(browser, kind);
                rule.enabled = is_installed && kind == BrowserDataType::Cache;
                rules.push(rule);
                d += 1;
            }
            assert forall|x: int, d2: int| 0 <= x < b + 1 && 0 <= d2 < 6 implies {
                let rule = #[trigger] rules@[x * 6 + d2];
                &&& rule.browser == all_browsers()[x]
                &&& rule.data_type == all_data_types()[d2]
                &&& rule.custom_path is None
                &&& rule.enabled == (installed@.contains(all_browsers()[x]) && all_data_types()[d2]
                    == BrowserDataType::Cache)
            } by {
                if x == b {
                    assert(rules@[b * 6 + d2] == rules@[x * 6 + d2]);
                }
            }
            b += 1;
        }
        rules
    }

    /// "Browser - Kind", for lists and logs.
    pub fn display_name(&self) -> (r: String)
        ensures
            r@ == self.browser.spec_display_name() + " - "@ + self.data_type.spec_display_name(),
    {
        let a = concat(self.browser.display_name(), " - ");
        concat(a.as_str(), self.data_type.display_name())
    }
}

} // verus!
