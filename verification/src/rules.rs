//! The cleanup rules besides the browser ones: system locations, the
//! built-in application caches, and the user's own rules.
use vstd::prelude::*;
use crate::outside::{cache_dir, data_local_dir, home_dir, new_rule_id};
use crate::paths::{join, join_path};
use crate::security::{borrowed, opt_view};
use crate::strings::{push_str, push_strs, strs};
use crate::text::{chars_of, owned, starts_with, sub_chars, trim, trim_chars};
use crate::outside::string_from_chars;

verus! {

// ---------------------------------------------------------------------------
// System rules
// ---------------------------------------------------------------------------
#[derive(Clone, Copy, Debug, PartialEq, Eq, Structural)]
pub enum SystemRuleType {
    /// System temporary directory (/tmp)
    TmpDirectory,
    /// User cache directory (~/.cache)
    UserCache,
    /// Thumbnail cache
    Thumbnails,
    /// Trash
    Trash,
    /// Crash reports
    CrashReports,
    /// Old kernel versions (requires root)
    OldKernels,
    /// Package manager cache
    PackageCache,
}

impl SystemRuleType {
    pub open spec fn spec_display_name(self) -> Seq<char> {
        match self {
            SystemRuleType::TmpDirectory => "Temporary Files (/tmp)"@,
            SystemRuleType::UserCache => "User Cache (~/.cache)"@,
            SystemRuleType::Thumbnails => "Thumbnail Cache"@,
            SystemRuleType::Trash => "Trash"@,
            SystemRuleType::CrashReports => "Crash Reports"@,
            SystemRuleType::OldKernels => "Old Kernels"@,
            SystemRuleType::PackageCache => "Package Manager Cache"@,
        }
    }

    pub fn display_name(&self) -> (r: &'static str)
        ensures
            r@ == self.spec_display_name(),
    {
        match self {
            SystemRuleType::TmpDirectory => "Temporary Files (/tmp)",
            SystemRuleType::UserCache => "User Cache (~/.cache)",
            SystemRuleType::Thumbnails => "Thumbnail Cache",
            SystemRuleType::Trash => "Trash",
            SystemRuleType::CrashReports => "Crash Reports",
            SystemRuleType::OldKernels => "Old Kernels",
            SystemRuleType::PackageCache => "Package Manager Cache",
        }
    }

    pub open spec fn spec_description(self) -> Seq<char> {
        match self {
            SystemRuleType::TmpDirectory => "Temporary files in /tmp owned by current user"@,
            SystemRuleType::UserCache => "Application caches in ~/.cache"@,
            SystemRuleType::Thumbnails => "Cached image thumbnails"@,
            SystemRuleType::Trash => "Files in the trash bin"@,
            SystemRuleType::CrashReports => "User-session crash reports and logs"@,
            SystemRuleType::OldKernels => "Old Linux kernel versions (requires root)"@,
            SystemRuleType::PackageCache => "Downloaded package files (apt, dnf, pacman, zypper)"@,
        }
    }

    pub fn description(&self) -> (r: &'static str)
        ensures
            r@ == self.spec_description(),
    {
        match self {
            SystemRuleType::TmpDirectory => "Temporary files in /tmp owned by current user",
            SystemRuleType::UserCache => "Application caches in ~/.cache",
            SystemRuleType::Thumbnails => "Cached image thumbnails",
            SystemRuleType::Trash => "Files in the trash bin",
            SystemRuleType::CrashReports => "User-session crash reports and logs",
            SystemRuleType::OldKernels => "Old Linux kernel versions (requires root)",
            SystemRuleType::PackageCache => "Downloaded package files (apt, dnf, pacman, zypper)",
        }
    }

    pub open spec fn spec_icon_name(self) -> Seq<char> {
        match self {
            SystemRuleType::TmpDirectory => "folder-documents-symbolic"@,
            SystemRuleType::UserCache => "folder-symbolic"@,
            SystemRuleType::Thumbnails => "image-x-generic-symbolic"@,
            SystemRuleType::Trash => "user-trash-symbolic"@,
            SystemRuleType::CrashReports => "dialog-error-symbolic"@,
            SystemRuleType::OldKernels => "computer-symbolic"@,
            SystemRuleType::PackageCache => "package-x-generic-symbolic"@,
        }
    }

    pub fn icon_name(&self) -> (r: &'static str)
        ensures
            r@ == self.spec_icon_name(),
    {
        match self {
            SystemRuleType::TmpDirectory => "folder-documents-symbolic",
            SystemRuleType::UserCache => "folder-symbolic",
            SystemRuleType::Thumbnails => "image-x-generic-symbolic",
            SystemRuleType::Trash => "user-trash-symbolic",
            SystemRuleType::CrashReports => "dialog-error-symbolic",
            SystemRuleType::OldKernels => "computer-symbolic",
            SystemRuleType::PackageCache => "package-x-generic-symbolic",
        }
    }

    pub fn requires_root(&self) -> (r: bool)
        ensures
            r == (*self == SystemRuleType::OldKernels || *self == SystemRuleType::PackageCache),
    {
        match self {
            SystemRuleType::OldKernels | SystemRuleType::PackageCache => true,
            _ => false,
        }
    }

    /// The locations the rule cleans, given the user's cache, data and home
    /// directories (each may be unknown; a location below an unknown
    /// directory is left out).
    pub open spec fn spec_paths(
        self,
        cache: Option<Seq<char>>,
        data_local: Option<Seq<char>>,
        home: Option<Seq<char>>,
    ) -> Seq<Seq<char>> {
        match self {
            SystemRuleType::TmpDirectory => seq!["/tmp"@],
            SystemRuleType::UserCache => match cache {
                Some(c) => seq![c],
                None => seq![],
            },
            SystemRuleType::Thumbnails => match cache {
                Some(c) => seq![join(c, "thumbnails"@)],
                None => seq![],
            },
            SystemRuleType::Trash => match data_local {
                Some(d) => seq![join(d, "Trash/files"@), join(d, "Trash/info"@)],
                None => seq![],
            },
            SystemRuleType::CrashReports => match home {
                Some(h) => seq![join(h, ".xsession-errors"@)],
                None => seq![],
            },
            SystemRuleType::OldKernels => seq![],
            SystemRuleType::PackageCache => seq![
                "/var/cache/apt/archives"@,
                "/var/cache/dnf"@,
                "/var/cache/pacman/pkg"@,
                "/var/cache/zypp/packages"@,
            ],
        }
    }

    /// The locations the rule cleans, given the user's directories.
    pub fn paths_in(&self, cache: Option<&str>, data_local: Option<&str>, home: Option<&str>) -> (r:
        Vec<String>)
        ensures
            strs(r@) == self.spec_paths(opt_view(cache), opt_view(data_local), opt_view(home)),
    {
        let mut out: Vec<String> = Vec::new();
        match self {
            SystemRuleType::TmpDirectory => {
                push_str(&mut out, "/tmp");
            },
            SystemRuleType::UserCache => {
                if let Some(c) = cache {
                    push_str(&mut out, c);
                }
            },
            SystemRuleType::Thumbnails => {
                if let Some(c) = cache {
                    let p = join_path(c, "thumbnails");
                    push_str(&mut out, p.as_str());
                }
            },
            SystemRuleType::Trash => {
                if let Some(d) = data_local {
                    let a = join_path(d, "Trash/files");
                    push_str(&mut out, a.as_str());
                    let b = join_path(d, "Trash/info");
                    push_str(&mut out, b.as_str());
                }
            },
            SystemRuleType::CrashReports => {
                if let Some(h) = home {
                    let p = join_path(h, ".xsession-errors");
                    push_str(&mut out, p.as_str());
                }
            },
            SystemRuleType::OldKernels => {},
            SystemRuleType::PackageCache => {
                push_str(&mut out, "/var/cache/apt/archives");
                push_str(&mut out, "/var/cache/dnf");
                push_str(&mut out, "/var/cache/pacman/pkg");
                push_str(&mut out, "/var/cache/zypp/packages");
            },
        }
        assert(strs(out@) =~= self.spec_paths(opt_view(cache), opt_view(data_local), opt_view(home)));
        out
    }

    /// The locations the rule cleans, for the current user.
    pub fn paths(&self) -> (r: Vec<String>)
        ensures
            exists|cache: Option<Seq<char>>, data_local: Option<Seq<char>>, home: Option<Seq<char>>|
                strs(r@) == #[trigger] self.spec_paths(cache, data_local, home),
    {
        let cache = cache_dir();
        let data_local = data_local_dir();
        let home = home_dir();
        self.paths_in(borrowed(&cache), borrowed(&data_local), borrowed(&home))
    }

    /// The rules offered to every user.
    pub fn all() -> (r: &'static [SystemRuleType])
        ensures
            r@ == seq![
                SystemRuleType::TmpDirectory,
                SystemRuleType::UserCache,
                SystemRuleType::Thumbnails,
                SystemRuleType::Trash,
                SystemRuleType::CrashReports,
            ],
    {
        let r: &'static [SystemRuleType] = &[
            SystemRuleType::TmpDirectory,
            SystemRuleType::UserCache,
            SystemRuleType::Thumbnails,
            SystemRuleType::Trash,
            SystemRuleType::CrashReports,
        ];
        assert(r@ =~= seq![
            SystemRuleType::TmpDirectory,
            SystemRuleType::UserCache,
            SystemRuleType::Thumbnails,
            SystemRuleType::Trash,
            SystemRuleType::CrashReports,
        ]);
        r
    }

    /// The rules that need administrator rights.
    pub fn root_rules() -> (r: &'static [SystemRuleType])
        ensures
            r@ == seq![SystemRuleType::OldKernels, SystemRuleType::PackageCache],
    {
        let r: &'static [SystemRuleType] = &[
            SystemRuleType::OldKernels,
            SystemRuleType::PackageCache,
        ];
        assert(r@ =~= seq![SystemRuleType::OldKernels, SystemRuleType::PackageCache]);
        r
    }
}

/// A copy of a list of strings.
pub fn copy_strings(v: &Vec<String>) -> (r: Vec<String>)
    ensures
        r@ == v@,
{
    let mut out: Vec<String> = Vec::new();
    let mut i: usize = 0;
    while i < v.len()
        invariant
            0 <= i <= v@.len(),
            out@ == v@.take(i as int),
        decreases v@.len() - i,
    {
        out.push(v[i].clone());
        i += 1;
        assert(out@ =~= v@.take(i as int));
    }
    assert(v@.take(v@.len() as int) =~= v@);
    out
}

pub struct SystemRule {
    pub id: uuid::Uuid,
    pub rule_type: SystemRuleType,
    pub enabled: bool,
    pub custom_paths: Option<Vec<String>>,
}

impl SystemRule {
    /// A disabled rule of the given kind, with a fresh id.
    pub fn new(rule_type: SystemRuleType) -> (r: Self)
        ensures
            r.rule_type == rule_type,
            !r.enabled,
            r.custom_paths is None,
    {
        SystemRule { id: new_rule_id(), rule_type, enabled: false, custom_paths: None }
    }

    /// The locations the rule cleans: its custom paths when set, otherwise
    /// those of its kind for the given user directories.
    pub fn effective_paths_in(&self, cache: Option<&str>, data_local: Option<&str>, home: Option<&str>) -> (r:
        Vec<String>)
        ensures
            strs(r@) == match self.custom_paths {
                Some(p) => strs(p@),
                None => self.rule_type.spec_paths(opt_view(cache), opt_view(data_local), opt_view(home)),
            },
    {
        match &self.custom_paths {
            Some(p) => copy_strings(p),
            None => self.rule_type.paths_in(cache, data_local, home),
        }
    }

    /// The locations the rule cleans, for the current user.
    pub fn effective_paths(&self) -> (r: Vec<String>)
        ensures
            self.custom_paths matches Some(p) ==> r@ == p@,
            self.custom_paths is None ==> exists|
                cache: Option<Seq<char>>,
                data_local: Option<Seq<char>>,
                home: Option<Seq<char>>,
            | strs(r@) == #[trigger] self.rule_type.spec_paths(cache, data_local, home),
    {
        match &self.custom_paths {
            Some(p) => copy_strings(p),
            None => self.rule_type.paths(),
        }
    }

    pub fn display_name(&self) -> (r: &'static str)
        ensures
            r@ == self.rule_type.spec_display_name(),
    {
        self.rule_type.display_name()
    }

    pub fn description(&self) -> (r: &'static str)
        ensures
            r@ == self.rule_type.spec_description(),
    {
        self.rule_type.description()
    }

    pub fn requires_root(&self) -> (r: bool)
        ensures
            r == (self.rule_type == SystemRuleType::OldKernels || self.rule_type
                == SystemRuleType::PackageCache),
    {
        self.rule_type.requires_root()
    }

    /// One disabled rule for each kind offered to every user, in order.
    pub fn defaults() -> (r: Vec<Self>)
        ensures
            r@.len() == 5,
            forall|i: int|
                0 <= i < 5 ==> (#[trigger] r@[i]).rule_type == seq![
                    SystemRuleType::TmpDirectory,
                    SystemRuleType::UserCache,
                    SystemRuleType::Thumbnails,
                    SystemRuleType::Trash,
                    SystemRuleType::CrashReports,
                ][i] && !r@[i].enabled && r@[i].custom_paths is None,
    {
        let kinds = SystemRuleType::all();
        let mut out: Vec<SystemRule> = Vec::new();
        let mut i: usize = 0;
        while i < kinds.len()
            invariant
                0 <= i <= kinds@.len(),
                kinds@.len() == 5,
                out@.len() == i,
                forall|k: int|
                    0 <= k < i ==> (#[trigger] out@[k]).rule_type == kinds@[k] && !out@[k].enabled
                        && out@[k].custom_paths is None,
            decreases kinds@.len() - i,
        {
            out.push(SystemRule::new(kinds[i]));
            i += 1;
        }
        out
    }
}

// ---------------------------------------------------------------------------
// Home-relative paths
// ---------------------------------------------------------------------------
/// A path with a leading `~` resolved against `home`: `~/rest` becomes `rest`
/// below home and `~` home itself (unknown when home is); any other path is
/// kept.
pub open spec fn expand_home(path: Seq<char>, home: Option<Seq<char>>) -> Option<Seq<char>> {
    if starts_with(path, seq!['~', '/']) {
        match home {
            Some(h) => Some(join(h, path.skip(2))),
            None => None,
        }
    } else if path == seq!['~'] {
        home
    } else {
        Some(path)
    }
}

/// `expand_home` of `path`, given the home directory.
pub fn expand_home_in(path: &str, home: Option<&str>) -> (r: Option<String>)
    ensures
        match r {
            Some(s) => expand_home(path@, opt_view(home)) == Some(s@),
            None => expand_home(path@, opt_view(home)) is None,
        },
{
    let pc = chars_of(path);
    if pc.len() >= 2 && pc[0] == '~' && pc[1] == '/' {
        assert(pc@.subrange(0, 2) =~= seq!['~', '/']);
        match home {
            Some(h) => {
                let rest = sub_chars(pc.as_slice(), 2, pc.len());
                let rs = string_from_chars(rest.as_slice());
                assert(rs@ =~= path@.skip(2));
                Some(join_path(h, rs.as_str()))
            },
            None => None,
        }
    } else if pc.len() == 1 && pc[0] == '~' {
        assert(!starts_with(path@, seq!['~', '/']));
        assert(pc@ =~= seq!['~']);
        match home {
            Some(h) => Some(owned(h)),
            None => None,
        }
    } else {
        assert(!starts_with(path@, seq!['~', '/'])) by {
            if pc@.len() >= 2 {
                assert(pc@.subrange(0, 2)[0] == pc@[0]);
                assert(pc@.subrange(0, 2)[1] == pc@[1]);
            }
        }
        assert(path@ != seq!['~']) by {
            if pc@.len() == 1 {
                assert(pc@[0] != '~');
            }
        }
        Some(owned(path))
    }
}

/// `expand_home` of `path`, for the current user: the home directory is
/// asked for only when the path starts with `~`.
pub fn expand_home_path(path: &str) -> (r: Option<String>)
    ensures
        (!starts_with(path@, seq!['~', '/']) && path@ != seq!['~']) ==> (r is Some && r->0@
            == path@),
        r matches Some(s) ==> exists|home: Option<Seq<char>>|
            expand_home(path@, home) == Some(s@),
{
    let pc = chars_of(path);
    let tilde = (pc.len() >= 2 && pc[0] == '~' && pc[1] == '/') || (pc.len() == 1 && pc[0] == '~');
    if tilde {
        let home = home_dir();
        let r = expand_home_in(path, borrowed(&home));
        proof {
            if r is Some {
                let hv = match home {
                    Some(h) => Some(h@),
                    None => None::<Seq<char>>,
                };
                assert(expand_home(path@, hv) == Some(r->0@));
            }
        }
        r
    } else {
        let r = expand_home_in(path, None);
        proof {
            assert(expand_home(path@, None) == Some(r->0@));
        }
        r
    }
}

// ---------------------------------------------------------------------------
// Custom rules
// ---------------------------------------------------------------------------
#[derive(Clone, Copy, Debug, PartialEq, Eq, Structural)]
pub enum DeletionMode {
    FilesOnly,
    FilesAndDirectories,
}

impl Default for DeletionMode {
    fn default() -> (r: Self)
        ensures
            r == DeletionMode::FilesOnly,
    {
        DeletionMode::FilesOnly
    }
}

impl DeletionMode {
    pub fn display_name(&self) -> (r: &'static str)
        ensures
            r@ == match self {
                DeletionMode::FilesOnly => "Files Only"@,
                DeletionMode::FilesAndDirectories => "Files and Directories"@,
            },
    {
        match self {
            DeletionMode::FilesOnly => "Files Only",
            DeletionMode::FilesAndDirectories => "Files and Directories",
        }
    }

    pub fn description(&self) -> (r: &'static str)
        ensures
            r@ == match self {
                DeletionMode::FilesOnly => "Delete files but keep folder structure"@,
                DeletionMode::FilesAndDirectories => "Delete everything including folders"@,
            },
    {
        match self {
            DeletionMode::FilesOnly => "Delete files but keep folder structure",
            DeletionMode::FilesAndDirectories => "Delete everything including folders",
        }
    }
}

pub struct CustomRule {
    pub id: uuid::Uuid,
    pub name: String,
    pub description: String,
    pub path: String,
    pub deletion_mode: DeletionMode,
    pub enabled: bool,
    /// Optional file pattern filter (e.g. "*.log").
    pub file_pattern: Option<String>,
    /// Minimum file age in days (0: no restriction).
    pub min_age_days: u32,
    /// When set, every subdirectory of `path` with this exact name is a
    /// cleanup target instead of `path` itself.
    pub subfolder_name: Option<String>,
}

impl CustomRule {
    /// A disabled rule for `path`, with a fresh id and no filters.
    pub fn new(name: &str, path: &str) -> (r: Self)
        ensures
            r.name@ == name@,
            r.description@ == Seq::<char>::empty(),
            r.path@ == path@,
            r.deletion_mode == DeletionMode::FilesOnly,
            !r.enabled,
            r.file_pattern is None,
            r.min_age_days == 0,
            r.subfolder_name is None,
    {
        CustomRule {
            id: new_rule_id(),
            name: owned(name),
            description: String::new(),
            path: owned(path),
            deletion_mode: DeletionMode::FilesOnly,
            enabled: false,
            file_pattern: None,
            min_age_days: 0,
            subfolder_name: None,
        }
    }

    /// Whether the rule searches below its path for folders named
    /// `subfolder_name` (set and not blank).
    pub fn is_subfolder_search(&self) -> (r: bool)
        ensures
            r == (self.subfolder_name matches Some(n) && trim(n@).len() > 0),
    {
        match &self.subfolder_name {
            Some(n) => {
                let c = chars_of(n.as_str());
                let t = trim_chars(c.as_slice());
                t.len() > 0
            },
            None => false,
        }
    }

    /// The rule's path with a leading `~` resolved (see `expand_home_path`).
    pub fn expanded_path(&self) -> (r: Option<String>)
        ensures
            (!starts_with(self.path@, seq!['~', '/']) && self.path@ != seq!['~']) ==> (r is Some
                && r->0@ == self.path@),
            r matches Some(s) ==> exists|home: Option<Seq<char>>|
                expand_home(self.path@, home) == Some(s@),
    {
        expand_home_path(self.path.as_str())
    }
}

// ---------------------------------------------------------------------------
// Application rules
// ---------------------------------------------------------------------------
pub struct AppRule {
    pub id: uuid::Uuid,
    pub name: String,
    pub description: String,
    /// Path to clean (may start with `~`).
    pub path: String,
    pub enabled: bool,
    pub builtin: bool,
}

pub open spec fn triple_views(v: Seq<(&str, &str, &str)>) -> Seq<(Seq<char>, Seq<char>, Seq<char>)> {
    Seq::new(v.len(), |i: int| (v[i].0@, v[i].1@, v[i].2@))
}

/// The built-in application rules: name, description and path of each.
pub open spec fn spec_app_defaults() -> Seq<(Seq<char>, Seq<char>, Seq<char>)> {
    seq![
        ("NPM Cache"@, "Node.js package manager cache"@, "~/.npm/_cacache"@),
        ("NPM Logs"@, "Node.js package manager logs"@, "~/.npm/_logs"@),
        ("Yarn Cache"@, "Yarn package manager cache"@, "~/.cache/yarn"@),
        ("Yarn Logs"@, "Yarn package manager logs"@, "~/.cache/yarn/logs"@),
        ("pnpm Cache"@, "pnpm package manager cache"@, "~/.cache/pnpm"@),
        ("pip Cache"@, "Python package manager cache"@, "~/.cache/pip"@),
        ("Poetry Cache"@, "Python Poetry cache"@, "~/.cache/pypoetry"@),
        ("Cargo Cache"@, "Rust package manager cache (registry only)"@, "~/.cargo/registry/cache"@),
        ("Maven Cache"@, "Java Maven repository cache"@, "~/.m2/repository"@),
        ("Gradle Cache"@, "Java Gradle build cache"@, "~/.gradle/caches"@),
        ("Go Mod Cache"@, "Go module cache"@, "~/go/pkg/mod/cache"@),
        ("Go Build Cache"@, "Go compiler build cache"@, "~/.cache/go-build"@),
        ("Bun Cache"@, "Bun package manager cache"@, "~/.bun/install/cache"@),
        ("pre-commit Cache"@, "pre-commit hook environment cache"@, "~/.cache/pre-commit"@),
        ("VS Code Cache"@, "Visual Studio Code cache"@, "~/.config/Code/Cache"@),
        ("VS Code CachedData"@, "Visual Studio Code cached data"@, "~/.config/Code/CachedData"@),
        ("JetBrains Cache"@, "JetBrains IDE caches"@, "~/.cache/JetBrains"@),
        ("Spotify Cache"@, "Spotify streaming cache"@, "~/.cache/spotify"@),
        ("Discord Cache"@, "Discord application cache"@, "~/.config/discord/Cache"@),
        ("Discord Code Cache"@, "Discord JavaScript bundle cache"@, "~/.config/discord/Code Cache"@),
        ("Discord GPU Cache"@, "Discord GPU shader cache"@, "~/.config/discord/GPUCache"@),
        ("Slack Cache"@, "Slack application cache"@, "~/.config/Slack/Cache"@),
        ("Slack Code Cache"@, "Slack JavaScript bundle cache"@, "~/.config/Slack/Code Cache"@),
        ("Slack GPU Cache"@, "Slack GPU shader cache"@, "~/.config/Slack/GPUCache"@),
        ("Teams Cache"@, "Microsoft Teams cache"@, "~/.config/Microsoft/Microsoft Teams/Cache"@),
        (
            "Teams Code Cache"@,
            "Microsoft Teams JavaScript bundle cache"@,
            "~/.config/Microsoft/Microsoft Teams/Code Cache"@,
        ),
        (
            "Teams GPU Cache"@,
            "Microsoft Teams GPU shader cache"@,
            "~/.config/Microsoft/Microsoft Teams/GPUCache"@,
        ),
        (
            "Flatpak VS Code Cache"@,
            "Visual Studio Code Flatpak cache"@,
            "~/.var/app/com.visualstudio.code/cache"@,
        ),
        (
            "Flatpak Discord Cache"@,
            "Discord Flatpak cache"@,
            "~/.var/app/com.discordapp.Discord/cache"@,
        ),
        ("Flatpak Slack Cache"@, "Slack Flatpak cache"@, "~/.var/app/com.slack.Slack/cache"@),
        (
            "Flatpak Spotify Cache"@,
            "Spotify Flatpak cache"@,
            "~/.var/app/com.spotify.Client/cache"@,
        ),
        (
            "Flatpak Firefox Cache"@,
            "Firefox Flatpak cache"@,
            "~/.var/app/org.mozilla.firefox/cache"@,
        ),
        (
            "Flatpak Chromium Cache"@,
            "Chromium Flatpak cache"@,
            "~/.var/app/org.chromium.Chromium/cache"@,
        ),
        ("User State Logs"@, "Top-level XDG state log files"@, "~/.local/state/*.log"@),
        (
            "Application State Logs"@,
            "Per-application XDG state log files"@,
            "~/.local/state/*/*.log"@,
        ),
        ("User Journal Logs"@, "Systemd user journal logs"@, "~/.local/share/systemd/journal"@),
    ]
}

fn app_default_table() -> (r: &'static [(&'static str, &'static str, &'static str)])
    ensures
        triple_views(r@) == spec_app_defaults(),
{
    let r: &'static [(&'static str, &'static str, &'static str)] = &[
        ("NPM Cache", "Node.js package manager cache", "~/.npm/_cacache"),
        ("NPM Logs", "Node.js package manager logs", "~/.npm/_logs"),
        ("Yarn Cache", "Yarn package manager cache", "~/.cache/yarn"),
        ("Yarn Logs", "Yarn package manager logs", "~/.cache/yarn/logs"),
        ("pnpm Cache", "pnpm package manager cache", "~/.cache/pnpm"),
        ("pip Cache", "Python package manager cache", "~/.cache/pip"),
        ("Poetry Cache", "Python Poetry cache", "~/.cache/pypoetry"),
        ("Cargo Cache", "Rust package manager cache (registry only)", "~/.cargo/registry/cache"),
        ("Maven Cache", "Java Maven repository cache", "~/.m2/repository"),
        ("Gradle Cache", "Java Gradle build cache", "~/.gradle/caches"),
        ("Go Mod Cache", "Go module cache", "~/go/pkg/mod/cache"),
        ("Go Build Cache", "Go compiler build cache", "~/.cache/go-build"),
        ("Bun Cache", "Bun package manager cache", "~/.bun/install/cache"),
        ("pre-commit Cache", "pre-commit hook environment cache", "~/.cache/pre-commit"),
        ("VS Code Cache", "Visual Studio Code cache", "~/.config/Code/Cache"),
        ("VS Code CachedData", "Visual Studio Code cached data", "~/.config/Code/CachedData"),
        ("JetBrains Cache", "JetBrains IDE caches", "~/.cache/JetBrains"),
        ("Spotify Cache", "Spotify streaming cache", "~/.cache/spotify"),
        ("Discord Cache", "Discord application cache", "~/.config/discord/Cache"),
        ("Discord Code Cache", "Discord JavaScript bundle cache", "~/.config/discord/Code Cache"),
        ("Discord GPU Cache", "Discord GPU shader cache", "~/.config/discord/GPUCache"),
        ("Slack Cache", "Slack application cache", "~/.config/Slack/Cache"),
        ("Slack Code Cache", "Slack JavaScript bundle cache", "~/.config/Slack/Code Cache"),
        ("Slack GPU Cache", "Slack GPU shader cache", "~/.config/Slack/GPUCache"),
        ("Teams Cache", "Microsoft Teams cache", "~/.config/Microsoft/Microsoft Teams/Cache"),
        (
            "Teams Code Cache",
            "Microsoft Teams JavaScript bundle cache",
            "~/.config/Microsoft/Microsoft Teams/Code Cache",
        ),
        (
            "Teams GPU Cache",
            "Microsoft Teams GPU shader cache",
            "~/.config/Microsoft/Microsoft Teams/GPUCache",
        ),
        (
            "Flatpak VS Code Cache",
            "Visual Studio Code Flatpak cache",
            "~/.var/app/com.visualstudio.code/cache",
        ),
        (
            "Flatpak Discord Cache",
            "Discord Flatpak cache",
            "~/.var/app/com.discordapp.Discord/cache",
        ),
        ("Flatpak Slack Cache", "Slack Flatpak cache", "~/.var/app/com.slack.Slack/cache"),
        ("Flatpak Spotify Cache", "Spotify Flatpak cache", "~/.var/app/com.spotify.Client/cache"),
        ("Flatpak Firefox Cache", "Firefox Flatpak cache", "~/.var/app/org.mozilla.firefox/cache"),
        (
            "Flatpak Chromium Cache",
            "Chromium Flatpak cache",
            "~/.var/app/org.chromium.Chromium/cache",
        ),
        ("User State Logs", "Top-level XDG state log files", "~/.local/state/*.log"),
        ("Application State Logs", "Per-application XDG state log files", "~/.local/state/*/*.log"),
        ("User Journal Logs", "Systemd user journal logs", "~/.local/share/systemd/journal"),
    ];
    assert(triple_views(r@) =~= spec_app_defaults());
    r
}

impl AppRule {
    /// A disabled, user-made rule with a fresh id.
    pub fn new(name: &str, description: &str, path: &str) -> (r: Self)
        ensures
            r.name@ == name@,
            r.description@ == description@,
            r.path@ == path@,
            !r.enabled,
            !r.builtin,
    {
        AppRule {
            id: new_rule_id(),
            name: owned(name),
            description: owned(description),
            path: owned(path),
            enabled: false,
            builtin: false,
        }
    }

    /// A disabled, built-in rule with a fresh id.
    pub fn builtin(name: &str, description: &str, path: &str) -> (r: Self)
        ensures
            r.name@ == name@,
            r.description@ == description@,
            r.path@ == path@,
            !r.enabled,
            r.builtin,
    {
        let mut rule = Self::new(name, description, path);
        rule.builtin = true;
        rule
    }

    /// The rule's path with a leading `~` resolved (see `expand_home_path`).
    pub fn expanded_path(&self) -> (r: Option<String>)
        ensures
            (!starts_with(self.path@, seq!['~', '/']) && self.path@ != seq!['~']) ==> (r is Some
                && r->0@ == self.path@),
            r matches Some(s) ==> exists|home: Option<Seq<char>>|
                expand_home(self.path@, home) == Some(s@),
    {
        expand_home_path(self.path.as_str())
    }

    /// The built-in rules, all disabled, in the order of `spec_app_defaults`.
    pub fn defaults() -> (r: Vec<Self>)
        ensures
            r@.len() == spec_app_defaults().len(),
            forall|i: int|
                0 <= i < r@.len() ==> {
                    &&& (#[trigger] r@[i]).name@ == spec_app_defaults()[i].0
                    &&& r@[i].description@ == spec_app_defaults()[i].1
                    &&& r@[i].path@ == spec_app_defaults()[i].2
                    &&& !r@[i].enabled
                    &&& r@[i].builtin
                },
    {
        let table = app_default_table();
        let mut out: Vec<AppRule> = Vec::new();
        let mut i: usize = 0;
        while i < table.len()
            invariant
                0 <= i <= table@.len(),
                triple_views(table@) == spec_app_defaults(),
                out@.len() == i,
                forall|k: int|
                    0 <= k < i ==> {
                        &&& (#[trigger] out@[k]).name@ == spec_app_defaults()[k].0
                        &&& out@[k].description@ == spec_app_defaults()[k].1
                        &&& out@[k].path@ == spec_app_defaults()[k].2
                        &&& !out@[k].enabled
                        &&& out@[k].builtin
                    },
            decreases table@.len() - i,
        {
            let (n, d, p) = table[i];
            assert(triple_views(table@)[i as int] == (n@, d@, p@));
            out.push(AppRule::builtin(n, d, p));
            i += 1;
        }
        out
    }
}

} // verus!
