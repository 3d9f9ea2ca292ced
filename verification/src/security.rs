//! The safety audit every path goes through before anything below it is
//! deleted: lexical checks on the path as given, then checks on its canonical
//! form and on the facts the file system reports about it.
use vstd::prelude::*;
use crate::outside::{cache_dir, config_dir, data_local_dir, home_dir, state_dir};
use crate::paths::{
    absolute, component_count, components, is_absolute, join, join_path, path_has_prefix,
    path_starts_with, paths_equal, same_path,
};
use crate::strings::{push_joined, push_str, push_strs, str_views, strs};
use crate::text::{chars_of, concat, contains, contains_chars, decimal, decimal_string, owned};

verus! {

/// Why a path was refused.
#[derive(Debug)]
pub enum SecurityError {
    HardDenylist(String),
    ProtectedPath(String),
    RelativePath(String),
    EmptyPath,
    SymlinkEscape { original: String, resolved: String },
    PathTooShallow { path: String, depth: usize, min: usize },
    NotOwned(String),
    MountPoint(String),
    PathTraversal(String),
    CanonicalizationFailed(String),
}

/// The model of a `SecurityError`: its kind, with the paths it names as text.
pub enum Violation {
    HardDenylist(Seq<char>),
    ProtectedPath(Seq<char>),
    RelativePath(Seq<char>),
    EmptyPath,
    SymlinkEscape(Seq<char>, Seq<char>),
    PathTooShallow(Seq<char>, nat, nat),
    NotOwned(Seq<char>),
    MountPoint(Seq<char>),
    PathTraversal(Seq<char>),
    CanonicalizationFailed(Seq<char>),
}

impl View for SecurityError {
    type V = Violation;

    open spec fn view(&self) -> Violation {
        match self {
            SecurityError::HardDenylist(p) => Violation::HardDenylist(p@),
            SecurityError::ProtectedPath(p) => Violation::ProtectedPath(p@),
            SecurityError::RelativePath(p) => Violation::RelativePath(p@),
            SecurityError::EmptyPath => Violation::EmptyPath,
            SecurityError::SymlinkEscape { original, resolved } => Violation::SymlinkEscape(
                original@,
                resolved@,
            ),
            SecurityError::PathTooShallow { path, depth, min } => Violation::PathTooShallow(
                path@,
                *depth as nat,
                *min as nat,
            ),
            SecurityError::NotOwned(p) => Violation::NotOwned(p@),
            SecurityError::MountPoint(p) => Violation::MountPoint(p@),
            SecurityError::PathTraversal(p) => Violation::PathTraversal(p@),
            SecurityError::CanonicalizationFailed(p) => Violation::CanonicalizationFailed(p@),
        }
    }
}

/// The message shown for a violation.
pub open spec fn violation_text(v: Violation) -> Seq<char> {
    match v {
        Violation::HardDenylist(p) => "Path is in hard denylist: "@ + p,
        Violation::ProtectedPath(p) => "Path resolves to protected location: "@ + p,
        Violation::RelativePath(p) => "Relative path not allowed: "@ + p,
        Violation::EmptyPath => "Empty path not allowed"@,
        Violation::SymlinkEscape(o, r) => "Symlink escape detected: "@ + o + " resolves to "@ + r,
        Violation::PathTooShallow(p, d, m) => "Path depth too shallow (depth "@ + decimal(d)
            + ", minimum "@ + decimal(m) + "): "@ + p,
        Violation::NotOwned(p) => "Path not owned by current user: "@ + p,
        Violation::MountPoint(p) => "Path is a mount point: "@ + p,
        Violation::PathTraversal(p) => "Path traversal detected: "@ + p,
        Violation::CanonicalizationFailed(p) => "Failed to canonicalize path: "@ + p,
    }
}

impl SecurityError {
    /// The error's message.
    pub fn message(&self) -> (r: String)
        ensures
            r@ == violation_text(self@),
    {
        match self {
            SecurityError::HardDenylist(p) => concat("Path is in hard denylist: ", p.as_str()),
            SecurityError::ProtectedPath(p) => concat(
                "Path resolves to protected location: ",
                p.as_str(),
            ),
            SecurityError::RelativePath(p) => concat("Relative path not allowed: ", p.as_str()),
            SecurityError::EmptyPath => owned("Empty path not allowed"),
            SecurityError::SymlinkEscape { original, resolved } => {
                let a = concat("Symlink escape detected: ", original.as_str());
                let b = concat(a.as_str(), " resolves to ");
                concat(b.as_str(), resolved.as_str())
            },
            SecurityError::PathTooShallow { path, depth, min } => {
                let d = decimal_string(*depth as u64);
                let m = decimal_string(*min as u64);
                let a = concat("Path depth too shallow (depth ", d.as_str());
                let b = concat(a.as_str(), ", minimum ");
                let c = concat(b.as_str(), m.as_str());
                let e = concat(c.as_str(), "): ");
                concat(e.as_str(), path.as_str())
            },
            SecurityError::NotOwned(p) => concat("Path not owned by current user: ", p.as_str()),
            SecurityError::MountPoint(p) => concat("Path is a mount point: ", p.as_str()),
            SecurityError::PathTraversal(p) => concat("Path traversal detected: ", p.as_str()),
            SecurityError::CanonicalizationFailed(p) => concat(
                "Failed to canonicalize path: ",
                p.as_str(),
            ),
        }
    }

    /// A copy of the error.
    pub fn duplicate(&self) -> (r: SecurityError)
        ensures
            r@ == self@,
    {
        match self {
            SecurityError::HardDenylist(p) => SecurityError::HardDenylist(p.clone()),
            SecurityError::ProtectedPath(p) => SecurityError::ProtectedPath(p.clone()),
            SecurityError::RelativePath(p) => SecurityError::RelativePath(p.clone()),
            SecurityError::EmptyPath => SecurityError::EmptyPath,
            SecurityError::SymlinkEscape { original, resolved } => SecurityError::SymlinkEscape {
                original: original.clone(),
                resolved: resolved.clone(),
            },
            SecurityError::PathTooShallow { path, depth, min } => SecurityError::PathTooShallow {
                path: path.clone(),
                depth: *depth,
                min: *min,
            },
            SecurityError::NotOwned(p) => SecurityError::NotOwned(p.clone()),
            SecurityError::MountPoint(p) => SecurityError::MountPoint(p.clone()),
            SecurityError::PathTraversal(p) => SecurityError::PathTraversal(p.clone()),
            SecurityError::CanonicalizationFailed(p) => SecurityError::CanonicalizationFailed(
                p.clone(),
            ),
        }
    }
}

/// The outcome of an audit.
pub struct AuditResult {
    pub canonical_path: String,
    pub is_safe: bool,
    pub violations: Vec<SecurityError>,
    pub warnings: Vec<String>,
}

/// The model of an `AuditResult`.
pub struct AuditView {
    pub canonical: Seq<char>,
    pub safe: bool,
    pub violations: Seq<Violation>,
    pub warnings: Seq<Seq<char>>,
}

pub open spec fn violation_views(v: Seq<SecurityError>) -> Seq<Violation> {
    Seq::new(v.len(), |i: int| v[i]@)
}

impl View for AuditResult {
    type V = AuditView;

    open spec fn view(&self) -> AuditView {
        AuditView {
            canonical: self.canonical_path@,
            safe: self.is_safe,
            violations: violation_views(self.violations@),
            warnings: strs(self.warnings@),
        }
    }
}

/// A refusal of `path` for the one reason `v`.
pub open spec fn refused(path: Seq<char>, v: Violation) -> AuditView {
    AuditView { canonical: path, safe: false, violations: seq![v], warnings: seq![] }
}

impl AuditResult {
    pub fn safe(canonical_path: String) -> (r: Self)
        ensures
            r@ == (AuditView {
                canonical: canonical_path@,
                safe: true,
                violations: seq![],
                warnings: seq![],
            }),
    {
        let r = AuditResult {
            canonical_path,
            is_safe: true,
            violations: Vec::new(),
            warnings: Vec::new(),
        };
        assert(violation_views(r.violations@) =~= seq![]);
        assert(strs(r.warnings@) =~= seq![]);
        r
    }

    pub fn unsafe_path(path: String, error: SecurityError) -> (r: Self)
        ensures
            r@ == refused(path@, error@),
    {
        let ghost e = error@;
        let mut violations = Vec::new();
        violations.push(error);
        let r = AuditResult { canonical_path: path, is_safe: false, violations, warnings: Vec::new() };
        assert(violation_views(r.violations@) =~= seq![e]);
        assert(strs(r.warnings@) =~= seq![]);
        r
    }
}

/// What the file system reports about a path under audit: the result of
/// resolving it safely (symbolic links refused, missing tails appended to
/// their nearest existing ancestor), whether that resolved path is a mount
/// point, and whether the path itself is a symbolic link.
pub struct PathFacts {
    pub canonical: Result<String, SecurityError>,
    pub mount_point: bool,
    pub symlink: bool,
}

pub open spec fn canonical_view(c: Result<String, SecurityError>) -> Result<Seq<char>, Violation> {
    match c {
        Ok(s) => Ok(s@),
        Err(e) => Err(e@),
    }
}

/// Who owns a path, as far as the file system tells.
#[derive(Clone, Copy, Debug, PartialEq, Eq, Structural)]
pub enum Ownership {
    Missing,
    Unreadable,
    Owner(u32),
}

/// A path's metadata, read without following a final symbolic link.
#[derive(Clone, Copy, Debug, PartialEq, Eq, Structural)]
pub struct EntryMetadata {
    pub is_symlink: bool,
    pub uid: u32,
    pub len: u64,
}

/// What the file system reports about a path right before it is deleted:
/// whether walking its components met a symbolic link (or failed), its
/// metadata when it could be read, and where it points if it is a link.
pub struct EntryState {
    pub components_check: Result<(), SecurityError>,
    pub metadata: Option<EntryMetadata>,
    pub link_target: String,
}

/// The lists an auditor checks against.
pub struct AuditorModel {
    pub hard: Seq<Seq<char>>,
    pub prefixes: Seq<Seq<char>>,
    pub allowed: Seq<Seq<char>>,
    pub protected_home: Seq<Seq<char>>,
    pub protected_cache: Seq<Seq<char>>,
    pub uid: u32,
    pub min_depth: nat,
}

/// `p` equals (component-wise) one of `list`.
pub open spec fn listed(list: Seq<Seq<char>>, p: Seq<char>) -> bool {
    exists|i: int| 0 <= i < list.len() && same_path(#[trigger] list[i], p)
}

/// `p` is one of `list` or lies below one of them.
pub open spec fn below_any(list: Seq<Seq<char>>, p: Seq<char>) -> bool {
    exists|i: int| 0 <= i < list.len() && path_starts_with(p, #[trigger] list[i])
}

/// `p` lies strictly below one of `list`.
pub open spec fn strictly_below_any(list: Seq<Seq<char>>, p: Seq<char>) -> bool {
    exists|i: int|
        0 <= i < list.len() && path_starts_with(p, #[trigger] list[i]) && !same_path(p, list[i])
}

/// The checks on the path as given, before the file system is asked.
pub open spec fn lexical_verdict(m: AuditorModel, p: Seq<char>) -> Option<Violation> {
    if p.len() == 0 {
        Some(Violation::EmptyPath)
    } else if !is_absolute(p) {
        Some(Violation::RelativePath(p))
    } else if contains(p, seq!['.', '.']) {
        Some(Violation::PathTraversal(p))
    } else if listed(m.hard, p) {
        Some(Violation::HardDenylist(p))
    } else if strictly_below_any(m.prefixes, p) && !below_any(m.allowed, p) {
        Some(Violation::ProtectedPath(p))
    } else if components(p).len() < m.min_depth {
        Some(Violation::PathTooShallow(p, components(p).len(), m.min_depth))
    } else {
        None
    }
}

/// The audit of `p`, given what the file system reports about it.
pub open spec fn audit_view(
    m: AuditorModel,
    p: Seq<char>,
    canonical: Result<Seq<char>, Violation>,
    mount_point: bool,
    symlink: bool,
) -> AuditView {
    match lexical_verdict(m, p) {
        Some(v) => refused(p, v),
        None => match canonical {
            Err(v) => refused(p, v),
            Ok(c) => if listed(m.hard, c) {
                refused(p, Violation::HardDenylist(c))
            } else if below_any(m.protected_home, c) {
                refused(p, Violation::ProtectedPath(c))
            } else if below_any(m.protected_cache, c) {
                refused(p, Violation::ProtectedPath(c))
            } else if mount_point {
                refused(p, Violation::MountPoint(c))
            } else {
                AuditView {
                    canonical: c,
                    safe: true,
                    violations: seq![],
                    warnings: if symlink {
                        seq!["Path is a symlink: "@ + p]
                    } else {
                        seq![]
                    },
                }
            },
        },
    }
}

/// The ownership check: a missing path passes, an unreadable one or one
/// owned by someone else is refused.
pub open spec fn ownership_verdict(uid: u32, path: Seq<char>, o: Ownership) -> Option<Violation> {
    match o {
        Ownership::Missing => None,
        Ownership::Unreadable => Some(Violation::NotOwned(path)),
        Ownership::Owner(u) => if u == uid {
            None
        } else {
            Some(Violation::NotOwned(path))
        },
    }
}

/// The audit for deletion: the audit, then, when it passed, the ownership
/// check on the canonical path.
pub open spec fn deletion_audit_view(a: AuditView, uid: u32, o: Ownership) -> AuditView {
    if !a.safe {
        a
    } else {
        match ownership_verdict(uid, a.canonical, o) {
            None => a,
            Some(v) => AuditView { safe: false, violations: a.violations.push(v), ..a },
        }
    }
}

/// The check right before a deletion.
pub open spec fn final_check(
    uid: u32,
    path: Seq<char>,
    components_check: Result<(), Violation>,
    metadata: Option<EntryMetadata>,
    link_target: Seq<char>,
) -> Result<EntryMetadata, Violation> {
    match components_check {
        Err(v) => Err(v),
        Ok(()) => match metadata {
            None => Err(Violation::CanonicalizationFailed(path)),
            Some(md) => if md.is_symlink {
                Err(Violation::SymlinkEscape(path, link_target))
            } else if md.uid != uid {
                Err(Violation::NotOwned(path))
            } else {
                Ok(md)
            },
        },
    }
}

pub open spec fn spec_hard_deny_names() -> Seq<Seq<char>> {
    seq![
        "/"@,
        "/bin"@,
        "/sbin"@,
        "/usr"@,
        "/usr/bin"@,
        "/usr/sbin"@,
        "/usr/lib"@,
        "/usr/lib64"@,
        "/usr/lib32"@,
        "/usr/libexec"@,
        "/usr/share"@,
        "/usr/local"@,
        "/lib"@,
        "/lib64"@,
        "/lib32"@,
        "/etc"@,
        "/boot"@,
        "/dev"@,
        "/proc"@,
        "/sys"@,
        "/run"@,
        "/var"@,
        "/var/lib"@,
        "/var/log"@,
        "/var/run"@,
        "/root"@,
        "/home"@,
        "/opt"@,
        "/srv"@,
        "/mnt"@,
        "/media"@,
    ]
}

fn hard_deny_names() -> (r: &'static [&'static str])
    ensures
        str_views(r@) == spec_hard_deny_names(),
{
    let r: &'static [&'static str] = &[
        "/",
        "/bin",
        "/sbin",
        "/usr",
        "/usr/bin",
        "/usr/sbin",
        "/usr/lib",
        "/usr/lib64",
        "/usr/lib32",
        "/usr/libexec",
        "/usr/share",
        "/usr/local",
        "/lib",
        "/lib64",
        "/lib32",
        "/etc",
        "/boot",
        "/dev",
        "/proc",
        "/sys",
        "/run",
        "/var",
        "/var/lib",
        "/var/log",
        "/var/run",
        "/root",
        "/home",
        "/opt",
        "/srv",
        "/mnt",
        "/media",
    ];
    assert(str_views(r@) =~= spec_hard_deny_names());
    r
}

pub open spec fn spec_prefix_names() -> Seq<Seq<char>> {
    seq![
        "/usr"@,
        "/lib"@,
        "/bin"@,
        "/sbin"@,
        "/etc"@,
        "/boot"@,
        "/dev"@,
        "/proc"@,
        "/sys"@,
        "/run"@,
        "/var"@,
        "/root"@,
        "/opt"@,
        "/srv"@,
        "/mnt"@,
        "/media"@,
    ]
}

fn prefix_names() -> (r: &'static [&'static str])
    ensures
        str_views(r@) == spec_prefix_names(),
{
    let r: &'static [&'static str] = &[
        "/usr",
        "/lib",
        "/bin",
        "/sbin",
        "/etc",
        "/boot",
        "/dev",
        "/proc",
        "/sys",
        "/run",
        "/var",
        "/root",
        "/opt",
        "/srv",
        "/mnt",
        "/media",
    ];
    assert(str_views(r@) =~= spec_prefix_names());
    r
}

pub open spec fn spec_protected_home_names() -> Seq<Seq<char>> {
    seq![
        ".ssh"@,
        ".gnupg"@,
        ".gpg"@,
        ".pki"@,
        ".password-store"@,
        ".local/share/keyrings"@,
        "Documents"@,
        "Pictures"@,
        "Videos"@,
        "Music"@,
        "Downloads"@,
        "Desktop"@,
        "Templates"@,
        "Public"@,
        ".bashrc"@,
        ".bash_profile"@,
        ".profile"@,
        ".zshrc"@,
        ".config/autostart"@,
        ".config/systemd"@,
    ]
}

fn protected_home_names() -> (r: &'static [&'static str])
    ensures
        str_views(r@) == spec_protected_home_names(),
{
    let r: &'static [&'static str] = &[
        ".ssh",
        ".gnupg",
        ".gpg",
        ".pki",
        ".password-store",
        ".local/share/keyrings",
        "Documents",
        "Pictures",
        "Videos",
        "Music",
        "Downloads",
        "Desktop",
        "Templates",
        "Public",
        ".bashrc",
        ".bash_profile",
        ".profile",
        ".zshrc",
        ".config/autostart",
        ".config/systemd",
    ];
    assert(str_views(r@) =~= spec_protected_home_names());
    r
}

pub open spec fn spec_protected_cache_names() -> Seq<Seq<char>> {
    seq![
        "gtk-4.0"@,
        "gtk-3.0"@,
        "icon-cache"@,
        "icons"@,
        "gnome-shell"@,
        "gnome-software"@,
        "gnome-settings-daemon"@,
        "fontconfig"@,
        "mesa_shader_cache"@,
        "radv_builtin_shaders"@,
        "gstreamer-1.0"@,
        "evolution"@,
        "ibus"@,
        "session"@,
        "tracker3"@,
        "folks"@,
        "samba"@,
    ]
}

fn protected_cache_names() -> (r: &'static [&'static str])
    ensures
        str_views(r@) == spec_protected_cache_names(),
{
    let r: &'static [&'static str] = &[
        "gtk-4.0",
        "gtk-3.0",
        "icon-cache",
        "icons",
        "gnome-shell",
        "gnome-software",
        "gnome-settings-daemon",
        "fontconfig",
        "mesa_shader_cache",
        "radv_builtin_shaders",
        "gstreamer-1.0",
        "evolution",
        "ibus",
        "session",
        "tracker3",
        "folks",
        "samba",
    ];
    assert(str_views(r@) =~= spec_protected_cache_names());
    r
}

pub open spec fn spec_protected_share_names() -> Seq<Seq<char>> {
    seq![
        "icons"@,
        "gnome-shell"@,
        "gnome-settings-daemon"@,
        "gnome-software"@,
        "keyrings"@,
        "fonts"@,
        "mime"@,
        "applications"@,
        "gvfs-metadata"@,
        "recently-used.xbel"@,
    ]
}

fn protected_share_names() -> (r: &'static [&'static str])
    ensures
        str_views(r@) == spec_protected_share_names(),
{
    let r: &'static [&'static str] = &[
        "icons",
        "gnome-shell",
        "gnome-settings-daemon",
        "gnome-software",
        "keyrings",
        "fonts",
        "mime",
        "applications",
        "gvfs-metadata",
        "recently-used.xbel",
    ];
    assert(str_views(r@) =~= spec_protected_share_names());
    r
}

/// Each of `names` below `base`.
pub open spec fn all_below(base: Seq<char>, names: Seq<Seq<char>>) -> Seq<Seq<char>> {
    names.map_values(|n: Seq<char>| join(base, n))
}

/// The lists of an auditor for the given user and directories.
pub open spec fn auditor_model(
    uid: u32,
    home: Seq<char>,
    cache: Seq<char>,
    data_local: Seq<char>,
    config: Seq<char>,
    state: Seq<char>,
) -> AuditorModel {
    AuditorModel {
        hard: spec_hard_deny_names().push(home),
        prefixes: spec_prefix_names(),
        allowed: seq![
            cache,
            data_local,
            config,
            join(home, ".mozilla"@),
            join(home, ".local"@),
            join(home, ".var"@),
            state,
            "/tmp"@,
        ],
        protected_home: all_below(home, spec_protected_home_names()),
        protected_cache: all_below(cache, spec_protected_cache_names()) + all_below(
            data_local,
            spec_protected_share_names(),
        ),
        uid,
        min_depth: 3,
    }
}

/// The directories an auditor is built from, with the fallbacks used when
/// the system does not report one: `/nonexistent` for home, and the usual
/// locations below home for the others.
pub open spec fn resolved_home(home: Option<Seq<char>>) -> Seq<char> {
    match home {
        Some(h) => h,
        None => "/nonexistent"@,
    }
}

pub open spec fn resolved_below(dir: Option<Seq<char>>, home: Seq<char>, rel: Seq<char>) -> Seq<char> {
    match dir {
        Some(d) => d,
        None => join(home, rel),
    }
}

/// The lists of an auditor for the user `uid`, given the directories the
/// system reports.
pub open spec fn user_model(
    uid: u32,
    home: Option<Seq<char>>,
    cache: Option<Seq<char>>,
    data_local: Option<Seq<char>>,
    config: Option<Seq<char>>,
    state: Option<Seq<char>>,
) -> AuditorModel {
    let h = resolved_home(home);
    auditor_model(
        uid,
        h,
        resolved_below(cache, h, ".cache"@),
        resolved_below(data_local, h, ".local/share"@),
        resolved_below(config, h, ".config"@),
        resolved_below(state, h, ".local/state"@),
    )
}

pub open spec fn opt_view(o: Option<&str>) -> Option<Seq<char>> {
    match o {
        Some(s) => Some(s@),
        None => None,
    }
}

/// The text of an optional string, borrowed.
pub fn borrowed(o: &Option<String>) -> (r: Option<&str>)
    ensures
        opt_view(r) == match o {
            Some(s) => Some(s@),
            None => None::<Seq<char>>,
        },
{
    match o {
        Some(s) => Some(s.as_str()),
        None => None,
    }
}

fn resolve_below(dir: Option<&str>, home: &str, rel: &str) -> (r: String)
    ensures
        r@ == resolved_below(opt_view(dir), home@, rel@),
{
    match dir {
        Some(d) => owned(d),
        None => join_path(home, rel),
    }
}

/// Guards paths against deletion.
pub struct SecurityAuditor {
    hard_denylist: Vec<String>,
    prefix_denylist: Vec<String>,
    allowed_user_bases: Vec<String>,
    protected_home_paths: Vec<String>,
    protected_cache_paths: Vec<String>,
    current_uid: u32,
    min_path_depth: usize,
}

impl View for SecurityAuditor {
    type V = AuditorModel;

    closed spec fn view(&self) -> AuditorModel {
        AuditorModel {
            hard: strs(self.hard_denylist@),
            prefixes: strs(self.prefix_denylist@),
            allowed: strs(self.allowed_user_bases@),
            protected_home: strs(self.protected_home_paths@),
            protected_cache: strs(self.protected_cache_paths@),
            uid: self.current_uid,
            min_depth: self.min_path_depth as nat,
        }
    }
}

/// Whether `p` equals one of `list`.
fn find_listed(list: &Vec<String>, p: &str) -> (r: bool)
    ensures
        r == listed(strs(list@), p@),
{
    let ghost l = strs(list@);
    let mut i: usize = 0;
    while i < list.len()
        invariant
            0 <= i <= list@.len(),
            l == strs(list@),
            forall|k: int| 0 <= k < i ==> !same_path(#[trigger] l[k], p@),
        decreases list@.len() - i,
    {
        if paths_equal(list[i].as_str(), p) {
            assert(same_path(l[i as int], p@));
            return true;
        }
        i += 1;
    }
    false
}

/// Whether `p` is one of `list` or lies below one of them.
fn find_below(list: &Vec<String>, p: &str) -> (r: bool)
    ensures
        r == below_any(strs(list@), p@),
{
    let ghost l = strs(list@);
    let mut i: usize = 0;
    while i < list.len()
        invariant
            0 <= i <= list@.len(),
            l == strs(list@),
            forall|k: int| 0 <= k < i ==> !path_starts_with(p@, #[trigger] l[k]),
        decreases list@.len() - i,
    {
        if path_has_prefix(p, list[i].as_str()) {
            assert(path_starts_with(p@, l[i as int]));
            return true;
        }
        i += 1;
    }
    false
}

/// Whether `p` lies strictly below one of `list`.
fn find_strictly_below(list: &Vec<String>, p: &str) -> (r: bool)
    ensures
        r == strictly_below_any(strs(list@), p@),
{
    let ghost l = strs(list@);
    let mut i: usize = 0;
    while i < list.len()
        invariant
            0 <= i <= list@.len(),
            l == strs(list@),
            forall|k: int|
                0 <= k < i ==> !(path_starts_with(p@, #[trigger] l[k]) && !same_path(p@, l[k])),
        decreases list@.len() - i,
    {
        if path_has_prefix(p, list[i].as_str()) && !paths_equal(p, list[i].as_str()) {
            assert(path_starts_with(p@, l[i as int]) && !same_path(p@, l[i as int]));
            return true;
        }
        i += 1;
    }
    false
}

pub open spec fn error_option_view(o: Option<SecurityError>) -> Option<Violation> {
    match o {
        Some(e) => Some(e@),
        None => None,
    }
}

impl SecurityAuditor {
    /// An auditor for the user `current_uid` with the given directories.
    pub fn with_dirs(
        current_uid: u32,
        home: &str,
        cache: &str,
        data_local: &str,
        config: &str,
        state: &str,
    ) -> (r: Self)
        ensures
            r@ == auditor_model(current_uid, home@, cache@, data_local@, config@, state@),
    {
        let mut hard: Vec<String> = Vec::new();
        push_strs(&mut hard, hard_deny_names());
        push_str(&mut hard, home);
        let mut prefixes: Vec<String> = Vec::new();
        push_strs(&mut prefixes, prefix_names());
        let mut allowed: Vec<String> = Vec::new();
        push_str(&mut allowed, cache);
        push_str(&mut allowed, data_local);
        push_str(&mut allowed, config);
        let a = join_path(home, ".mozilla");
        push_str(&mut allowed, a.as_str());
        let b = join_path(home, ".local");
        push_str(&mut allowed, b.as_str());
        let c = join_path(home, ".var");
        push_str(&mut allowed, c.as_str());
        push_str(&mut allowed, state);
        push_str(&mut allowed, "/tmp");
        let mut protected_home: Vec<String> = Vec::new();
        push_joined(&mut protected_home, home, protected_home_names());
        let mut protected_cache: Vec<String> = Vec::new();
        push_joined(&mut protected_cache, cache, protected_cache_names());
        push_joined(&mut protected_cache, data_local, protected_share_names());
        let r = SecurityAuditor {
            hard_denylist: hard,
            prefix_denylist: prefixes,
            allowed_user_bases: allowed,
            protected_home_paths: protected_home,
            protected_cache_paths: protected_cache,
            current_uid,
            min_path_depth: 3,
        };
        proof {
            let m = auditor_model(current_uid, home@, cache@, data_local@, config@, state@);
            assert(r@.hard =~= m.hard);
            assert(r@.prefixes =~= m.prefixes);
            assert(r@.allowed =~= m.allowed);
            assert(r@.protected_home =~= m.protected_home);
            assert(r@.protected_cache =~= m.protected_cache);
        }
        r
    }

    /// An auditor for the user `current_uid`, given the directories the
    /// system reports (any of them may be unknown).
    pub fn from_user_dirs(
        current_uid: u32,
        home: Option<&str>,
        cache: Option<&str>,
        data_local: Option<&str>,
        config: Option<&str>,
        state: Option<&str>,
    ) -> (r: Self)
        ensures
            r@ == user_model(
                current_uid,
                opt_view(home),
                opt_view(cache),
                opt_view(data_local),
                opt_view(config),
                opt_view(state),
            ),
    {
        let h = match home {
            Some(h) => owned(h),
            None => owned("/nonexistent"),
        };
        let c = resolve_below(cache, h.as_str(), ".cache");
        let d = resolve_below(data_local, h.as_str(), ".local/share");
        let g = resolve_below(config, h.as_str(), ".config");
        let s = resolve_below(state, h.as_str(), ".local/state");
        Self::with_dirs(current_uid, h.as_str(), c.as_str(), d.as_str(), g.as_str(), s.as_str())
    }

    /// An auditor for the user `current_uid` with the directories of the
    /// current environment.
    pub fn new(current_uid: u32) -> (r: Self)
        ensures
            exists|
                home: Option<Seq<char>>,
                cache: Option<Seq<char>>,
                data_local: Option<Seq<char>>,
                config: Option<Seq<char>>,
                state: Option<Seq<char>>,
            | r@ == #[trigger] user_model(current_uid, home, cache, data_local, config, state),
    {
        let home = home_dir();
        let cache = cache_dir();
        let data_local = data_local_dir();
        let config = config_dir();
        let state = state_dir();
        Self::from_user_dirs(
            current_uid,
            borrowed(&home),
            borrowed(&cache),
            borrowed(&data_local),
            borrowed(&config),
            borrowed(&state),
        )
    }

    /// The user whose files may be deleted.
    pub fn current_uid(&self) -> (r: u32)
        ensures
            r == self@.uid,
    {
        self.current_uid
    }

    /// The checks on the path as given.
    fn lexical_check(&self, path: &str) -> (r: Option<SecurityError>)
        ensures
            error_option_view(r) == lexical_verdict(self@, path@),
    {
        let pc = chars_of(path);
        if pc.len() == 0 {
            return Some(SecurityError::EmptyPath);
        }
        if !absolute(path) {
            return Some(SecurityError::RelativePath(owned(path)));
        }
        let mut dots: Vec<char> = Vec::new();
        dots.push('.');
        dots.push('.');
        assert(dots@ =~= seq!['.', '.']);
        if contains_chars(pc.as_slice(), dots.as_slice()) {
            return Some(SecurityError::PathTraversal(owned(path)));
        }
        if find_listed(&self.hard_denylist, path) {
            return Some(SecurityError::HardDenylist(owned(path)));
        }
        if find_strictly_below(&self.prefix_denylist, path) && !find_below(
            &self.allowed_user_bases,
            path,
        ) {
            return Some(SecurityError::ProtectedPath(owned(path)));
        }
        let depth = component_count(path);
        if depth < self.min_path_depth {
            return Some(
                SecurityError::PathTooShallow {
                    path: owned(path),
                    depth,
                    min: self.min_path_depth,
                },
            );
        }
        None
    }

    /// Audits `path`, given what the file system reports about it.
    pub fn audit(&self, path: &str, facts: PathFacts) -> (r: AuditResult)
        ensures
            r@ == audit_view(
                self@,
                path@,
                canonical_view(facts.canonical),
                facts.mount_point,
                facts.symlink,
            ),
    {
        if let Some(e) = self.lexical_check(path) {
            return AuditResult::unsafe_path(owned(path), e);
        }
        let PathFacts { canonical, mount_point, symlink } = facts;
        let canonical = match canonical {
            Ok(c) => c,
            Err(e) => {
                return AuditResult::unsafe_path(owned(path), e);
            },
        };
        if find_listed(&self.hard_denylist, canonical.as_str()) {
            return AuditResult::unsafe_path(owned(path), SecurityError::HardDenylist(canonical));
        }
        if find_below(&self.protected_home_paths, canonical.as_str()) {
            return AuditResult::unsafe_path(owned(path), SecurityError::ProtectedPath(canonical));
        }
        if find_below(&self.protected_cache_paths, canonical.as_str()) {
            return AuditResult::unsafe_path(owned(path), SecurityError::ProtectedPath(canonical));
        }
        if mount_point {
            return AuditResult::unsafe_path(owned(path), SecurityError::MountPoint(canonical));
        }
        let mut result = AuditResult::safe(canonical);
        if symlink {
            let w = concat("Path is a symlink: ", path);
            let ghost before = strs(result.warnings@);
            result.warnings.push(w);
            assert(strs(result.warnings@) =~= before.push("Path is a symlink: "@ + path@));
        }
        result
    }

    /// Audits `path` for deletion: the audit, then, when it passed, the
    /// ownership check on the canonical path (`ownership` is what the file
    /// system reports about that path).
    pub fn audit_for_deletion(&self, path: &str, facts: PathFacts, ownership: Ownership) -> (r:
        AuditResult)
        ensures
            r@ == deletion_audit_view(
                audit_view(
                    self@,
                    path@,
                    canonical_view(facts.canonical),
                    facts.mount_point,
                    facts.symlink,
                ),
                self@.uid,
                ownership,
            ),
    {
        let mut result = self.audit(path, facts);
        if !result.is_safe {
            return result;
        }
        let refused = match ownership {
            Ownership::Missing => false,
            Ownership::Unreadable => true,
            Ownership::Owner(u) => u != self.current_uid,
        };
        if refused {
            let ghost before = violation_views(result.violations@);
            let e = SecurityError::NotOwned(result.canonical_path.clone());
            result.is_safe = false;
            result.violations.push(e);
            assert(violation_views(result.violations@) =~= before.push(
                Violation::NotOwned(result.canonical_path@),
            ));
        }
        result
    }

    /// The check right before a deletion, against what the file system
    /// reports at that moment: no symbolic link on the way or at the end,
    /// and still owned by the current user. Gives the metadata on success.
    pub fn verify_before_deletion(&self, path: &str, state: EntryState) -> (r: Result<
        EntryMetadata,
        SecurityError,
    >)
        ensures
            match r {
                Ok(md) => final_check(
                    self@.uid,
                    path@,
                    match state.components_check {
                        Ok(()) => Ok(()),
                        Err(e) => Err(e@),
                    },
                    state.metadata,
                    state.link_target@,
                ) == Ok::<EntryMetadata, Violation>(md),
                Err(e) => final_check(
                    self@.uid,
                    path@,
                    match state.components_check {
                        Ok(()) => Ok(()),
                        Err(e) => Err(e@),
                    },
                    state.metadata,
                    state.link_target@,
                ) == Err::<EntryMetadata, Violation>(e@),
            },
    {
        let EntryState { components_check, metadata, link_target } = state;
        if let Err(e) = components_check {
            return Err(e);
        }
        match metadata {
            None => Err(SecurityError::CanonicalizationFailed(owned(path))),
            Some(md) => {
                if md.is_symlink {
                    Err(SecurityError::SymlinkEscape { original: owned(path), resolved: link_target })
                } else if md.uid != self.current_uid {
                    Err(SecurityError::NotOwned(owned(path)))
                } else {
                    Ok(md)
                }
            },
        }
    }
}

/// What reading one prefix of a path (its first component, its first two,
/// and so on) without following a final link found.
pub enum PrefixState {
    /// A symbolic link, with where it leads as far as it could be resolved.
    Symlink(String),
    /// Present and not a link.
    Present,
    /// Missing: the prefixes after it are not read.
    Missing,
    /// Its metadata could not be read.
    Unreadable,
}

/// The verdict on a path's prefixes read in order: the first link found
/// before a missing prefix is an escape, an unreadable one is a failure to
/// resolve; otherwise the path has no link among its existing prefixes.
pub open spec fn prefix_verdict(path: Seq<char>, states: Seq<PrefixState>, i: int) -> Result<(), Violation>
    decreases states.len() - i,
{
    if i < 0 || i >= states.len() {
        Ok(())
    } else {
        match states[i] {
            PrefixState::Symlink(resolved) => Err(Violation::SymlinkEscape(path, resolved@)),
            PrefixState::Present => prefix_verdict(path, states, i + 1),
            PrefixState::Missing => Ok(()),
            PrefixState::Unreadable => Err(Violation::CanonicalizationFailed(path)),
        }
    }
}

/// No link lies among the prefixes read before the first missing one.
pub open spec fn no_link_before_missing(states: Seq<PrefixState>, i: int) -> bool {
    forall|k: int|
        i <= k < states.len() && (#[trigger] states[k]) is Symlink ==> exists|j: int|
            i <= j < k && #[trigger] states[j] is Missing
}

/// Checks the prefixes of `path`, as read in order (see `prefix_verdict`).
pub fn check_prefixes(path: &str, states: &Vec<PrefixState>) -> (r: Result<(), SecurityError>)
    ensures
        match r {
            Ok(()) => prefix_verdict(path@, states@, 0) is Ok,
            Err(e) => prefix_verdict(path@, states@, 0) == Err::<(), Violation>(e@),
        },
{
    let mut i: usize = 0;
    while i < states.len()
        invariant
            0 <= i <= states@.len(),
            prefix_verdict(path@, states@, 0) == prefix_verdict(path@, states@, i as int),
        decreases states@.len() - i,
    {
        match &states[i] {
            PrefixState::Symlink(resolved) => {
                return Err(SecurityError::SymlinkEscape { original: owned(path), resolved: resolved.clone() });
            },
            PrefixState::Present => {},
            PrefixState::Missing => {
                return Ok(());
            },
            PrefixState::Unreadable => {
                return Err(SecurityError::CanonicalizationFailed(owned(path)));
            },
        }
        i += 1;
    }
    Ok(())
}

/// A path whose prefixes pass the check has no symbolic link among the
/// prefixes that exist (those before the first missing one).
pub proof fn lemma_passed_prefixes_hold_no_link(path: Seq<char>, states: Seq<PrefixState>, i: int)
    requires
        0 <= i,
        prefix_verdict(path, states, i) is Ok,
    ensures
        no_link_before_missing(states, i),
    decreases states.len() - i,
{
    if i < states.len() {
        match states[i] {
            PrefixState::Present => {
                lemma_passed_prefixes_hold_no_link(path, states, i + 1);
                assert forall|k: int|
                    i <= k < states.len() && (#[trigger] states[k]) is Symlink implies exists|j: int|
                        i <= j < k && #[trigger] states[j] is Missing by {
                    if k > i {
                        let j = choose|j: int| i + 1 <= j < k && #[trigger] states[j] is Missing;
                    }
                }
            },
            PrefixState::Missing => {
                assert forall|k: int|
                    i <= k < states.len() && (#[trigger] states[k]) is Symlink implies exists|j: int|
                        i <= j < k && #[trigger] states[j] is Missing by {
                    assert(states[i] is Missing);
                }
            },
            _ => {},
        }
    }
}

/// What a passed audit guarantees: the path is absolute, free of `..`, not
/// denied, not a protected system location outside the user's data
/// directories, deep enough; it resolved (the resolution is refused with a
/// symbolic-link escape when a link lies among the path's existing prefixes,
/// so a passed audit met no such link), and its resolved form is neither
/// denied, nor protected, nor a mount point, and is what the result carries.
pub proof fn lemma_passed_audit_is_sound(
    m: AuditorModel,
    p: Seq<char>,
    canonical: Result<Seq<char>, Violation>,
    mount_point: bool,
    symlink: bool,
)
    ensures
        audit_view(m, p, canonical, mount_point, symlink).safe ==> {
            &&& p.len() > 0
            &&& is_absolute(p)
            &&& !contains(p, seq!['.', '.'])
            &&& !listed(m.hard, p)
            &&& !(strictly_below_any(m.prefixes, p) && !below_any(m.allowed, p))
            &&& components(p).len() >= m.min_depth
            &&& !(canonical matches Err(Violation::SymlinkEscape(_, _)))
            &&& canonical matches Ok(c) && {
                &&& !listed(m.hard, c)
                &&& !below_any(m.protected_home, c)
                &&& !below_any(m.protected_cache, c)
                &&& !mount_point
                &&& audit_view(m, p, canonical, mount_point, symlink).canonical == c
                &&& audit_view(m, p, canonical, mount_point, symlink).violations.len() == 0
            }
        },
{
}

/// A refused audit names exactly one violation.
pub proof fn lemma_refusal_names_one_violation(
    m: AuditorModel,
    p: Seq<char>,
    canonical: Result<Seq<char>, Violation>,
    mount_point: bool,
    symlink: bool,
)
    ensures
        !audit_view(m, p, canonical, mount_point, symlink).safe ==> audit_view(
            m,
            p,
            canonical,
            mount_point,
            symlink,
        ).violations.len() == 1,
{
}

/// The audit for deletion is at least as strict as the audit, and what it
/// passes is owned by the current user or does not exist.
pub proof fn lemma_deletion_audit_is_stricter(a: AuditView, uid: u32, o: Ownership)
    ensures
        deletion_audit_view(a, uid, o).safe ==> a.safe,
        deletion_audit_view(a, uid, o).safe ==> (o == Ownership::Missing || o
            == Ownership::Owner(uid)),
        !a.safe ==> deletion_audit_view(a, uid, o) == a,
{
}

/// The user's home directory itself is never passed.
pub proof fn lemma_home_is_never_passed(
    uid: u32,
    home: Seq<char>,
    cache: Seq<char>,
    data_local: Seq<char>,
    config: Seq<char>,
    state: Seq<char>,
    canonical: Result<Seq<char>, Violation>,
    mount_point: bool,
    symlink: bool,
)
    ensures
        !audit_view(
            auditor_model(uid, home, cache, data_local, config, state),
            home,
            canonical,
            mount_point,
            symlink,
        ).safe,
{
    let m = auditor_model(uid, home, cache, data_local, config, state);
    let n = spec_hard_deny_names().len() as int;
    assert(m.hard[n] == home);
    assert(same_path(m.hard[n], home));
    assert(listed(m.hard, home));
}

/// The user's keys, documents, media, downloads, desktop, templates, shell
/// start-up files and autostart/systemd settings are protected: no path whose
/// canonical form is one of `home/name` for these names, or lies below it, is
/// ever passed by the audit, whatever the path, the other directories or the
/// mount and link facts.
pub proof fn lemma_protected_home_is_never_passed(
    uid: u32,
    home: Seq<char>,
    cache: Seq<char>,
    data_local: Seq<char>,
    config: Seq<char>,
    state: Seq<char>,
    path: Seq<char>,
    canonical: Seq<char>,
    mount_point: bool,
    symlink: bool,
    name: Seq<char>,
)
    requires
        seq![
            ".ssh"@, ".gnupg"@, ".gpg"@, ".pki"@, ".password-store"@, ".local/share/keyrings"@,
            "Documents"@, "Pictures"@, "Videos"@, "Music"@, "Downloads"@, "Desktop"@,
            "Templates"@, "Public"@, ".bashrc"@, ".bash_profile"@, ".profile"@, ".zshrc"@,
            ".config/autostart"@, ".config/systemd"@,
        ].contains(name),
        path_starts_with(canonical, join(home, name)),
    ensures
        !audit_view(
            auditor_model(uid, home, cache, data_local, config, state),
            path,
            Ok(canonical),
            mount_point,
            symlink,
        ).safe,
{
    let names = seq![
        ".ssh"@, ".gnupg"@, ".gpg"@, ".pki"@, ".password-store"@, ".local/share/keyrings"@,
        "Documents"@, "Pictures"@, "Videos"@, "Music"@, "Downloads"@, "Desktop"@,
        "Templates"@, "Public"@, ".bashrc"@, ".bash_profile"@, ".profile"@, ".zshrc"@,
        ".config/autostart"@, ".config/systemd"@,
    ];
    let m = auditor_model(uid, home, cache, data_local, config, state);
    let i = choose|i: int| 0 <= i < names.len() && names[i] == name;
    assert(spec_protected_home_names()[i] == names[i]);
    assert(m.protected_home[i] == join(home, name));
    assert(below_any(m.protected_home, canonical));
}

/// Nothing is passed before deletion that is a symbolic link, or that
/// another user owns.
pub proof fn lemma_final_check_is_sound(
    uid: u32,
    path: Seq<char>,
    components_check: Result<(), Violation>,
    metadata: Option<EntryMetadata>,
    link_target: Seq<char>,
)
    ensures
        final_check(uid, path, components_check, metadata, link_target) matches Ok(md) ==> {
            &&& components_check is Ok
            &&& metadata == Some(md)
            &&& !md.is_symlink
            &&& md.uid == uid
        },
{
}

} // verus!
