//! The decisions a scan makes about what it finds: which browser rules can
//! run, which names match a rule's pattern, which directories a subfolder
//! search targets, and which log files are old enough to go.
use vstd::prelude::*;
use crate::browser::{BrowserDataType, BrowserRule, BrowserType};
use crate::paths::{components, components_of, path_starts_with, path_has_prefix, join, join_path};
use crate::split::{split_chars, split_on, views};
use crate::strings::{str_views, strs};
use crate::text::{ascii_lower_seq, chars_of, concat, contains, ends_with, occurs_at, lower_ascii, owned, starts_with, sub_chars, text_contains, text_ends_with, text_equal, text_starts_with, trim, trim_chars};
use crate::outside::string_from_chars;

verus! {

// ---------------------------------------------------------------------------
// Subfolder search patterns
// ---------------------------------------------------------------------------
/// The trimmed pieces that are not empty, in order.
pub open spec fn kept_segments(pieces: Seq<Seq<char>>) -> Seq<Seq<char>>
    decreases pieces.len(),
{
    if pieces.len() == 0 {
        pieces
    } else {
        let r = kept_segments(pieces.drop_last());
        let t = trim(pieces.last());
        if t.len() == 0 {
            r
        } else {
            r.push(t)
        }
    }
}

/// The segments of a subfolder search pattern such as `target/debug`: the
/// trimmed, non-empty pieces between slashes; none when there is no such
/// piece or one of them is `.` or `..`.
pub open spec fn spec_parse_subfolder_pattern(pattern: Seq<char>) -> Option<Seq<Seq<char>>> {
    let segs = kept_segments(split_on(pattern, '/'));
    if segs.len() == 0 || exists|i: int|
        0 <= i < segs.len() && (#[trigger] segs[i] == seq!['.'] || segs[i] == seq!['.', '.']) {
        None
    } else {
        Some(segs)
    }
}

/// The segments of a subfolder search pattern (see
/// `spec_parse_subfolder_pattern`).
pub fn parse_subfolder_pattern(pattern: &str) -> (r: Option<Vec<String>>)
    ensures
        match r {
            Some(v) => spec_parse_subfolder_pattern(pattern@) == Some(strs(v@)),
            None => spec_parse_subfolder_pattern(pattern@) is None,
        },
{
    let pc = chars_of(pattern);
    let pieces = split_chars(pc.as_slice(), '/');
    let ghost pv = views(pieces@);
    let mut segs: Vec<String> = Vec::new();
    let mut bad = false;
    let mut i: usize = 0;
    while i < pieces.len()
        invariant
            0 <= i <= pieces@.len(),
            pv == views(pieces@),
            pv == split_on(pc@, '/'),
            strs(segs@) == kept_segments(pv.take(i as int)),
            bad == exists|k: int|
                0 <= k < segs@.len() && (#[trigger] strs(segs@)[k] == seq!['.'] || strs(segs@)[k]
                    == seq!['.', '.']),
        decreases pieces@.len() - i,
    {
        assert(pv.take(i + 1).drop_last() =~= pv.take(i as int));
        assert(pv.take(i + 1).last() == pieces@[i as int]@);
        let t = trim_chars(pieces[i].as_slice());
        if t.len() > 0 {
            let is_dot = t.len() == 1 && t[0] == '.';
            let is_dotdot = t.len() == 2 && t[0] == '.' && t[1] == '.';
            proof {
                if is_dot {
                    assert(t@ =~= seq!['.']);
                }
                if is_dotdot {
                    assert(t@ =~= seq!['.', '.']);
                }
                if !is_dot {
                    assert(t@ != seq!['.']) by {
                        if t@.len() == 1 {
                            assert(t@[0] != '.');
                        }
                    }
                }
                if !is_dotdot {
                    assert(t@ != seq!['.', '.']) by {
                        if t@.len() == 2 {
                            assert(t@[0] != '.' || t@[1] != '.');
                        }
                    }
                }
            }
            let s = string_from_chars(t.as_slice());
            let ghost before = strs(segs@);
            segs.push(s);
            assert(strs(segs@) =~= before.push(t@));
            if is_dot || is_dotdot {
                bad = true;
            }
            proof {
                let sv = strs(segs@);
                if !(is_dot || is_dotdot) && !bad {
                    assert forall|k: int| 0 <= k < sv.len() implies !(#[trigger] sv[k] == seq!['.']
                        || sv[k] == seq!['.', '.']) by {
                        if k < before.len() {
                            assert(sv[k] == before[k]);
                        }
                    }
                }
                if bad {
                    if is_dot || is_dotdot {
                        assert(sv[before.len() as int] == t@);
                    } else {
                        let k = choose|k: int|
                            0 <= k < before.len() && (#[trigger] before[k] == seq!['.'] || before[k]
                                == seq!['.', '.']);
                        assert(sv[k] == before[k]);
                    }
                }
            }
        }
        i += 1;
    }
    assert(pv.take(pieces@.len() as int) =~= pv);
    if segs.len() == 0 || bad {
        None
    } else {
        Some(segs)
    }
}

/// Whether `path` lies below `root` and its last components below `root`
/// are `segments`.
pub open spec fn spec_directory_matches(path: Seq<char>, root: Seq<char>, segments: Seq<Seq<char>>) -> bool {
    let rel = components(path).skip(components(root).len() as int);
    &&& path_starts_with(path, root)
    &&& rel.len() >= segments.len()
    &&& rel.skip(rel.len() - segments.len()) == segments
}

/// Whether a directory found below `root` is a match of a subfolder search
/// for `segments` (see `spec_directory_matches`).
pub fn directory_matches_pattern(path: &str, root: &str, segments: &Vec<String>) -> (r: bool)
    ensures
        r == spec_directory_matches(path@, root@, strs(segments@)),
{
    if !path_has_prefix(path, root) {
        return false;
    }
    let pc = chars_of(path);
    let rc = chars_of(root);
    let p = components_of(pc.as_slice());
    let q = components_of(rc.as_slice());
    let ghost pv = views(p@);
    let ghost rel = components(path@).skip(components(root@).len() as int);
    let ghost sv = strs(segments@);
    assert(views(q@) == components(root@));
    assert(p@.len() == pv.len());
    assert(q@.len() == views(q@).len());
    if p.len() - q.len() < segments.len() {
        return false;
    }
    let start = p.len() - segments.len();
    let mut k: usize = 0;
    while k < segments.len()
        invariant
            0 <= k <= segments@.len(),
            start + segments@.len() == p@.len(),
            pv == views(p@),
            pv == components(path@),
            sv == strs(segments@),
            q@.len() <= p@.len(),
            p@.len() <= usize::MAX,
            rel == pv.skip(q@.len() as int),
            p@.len() - q@.len() >= sv.len(),
            forall|j: int| 0 <= j < k ==> pv[start + j] == sv[j],
        decreases segments@.len() - k,
    {
        let seg = chars_of(segments[k].as_str());
        if !crate::text::chars_equal(p[start + k].as_slice(), seg.as_slice()) {
            proof {
                let tail = rel.skip(rel.len() - sv.len());
                assert(tail[k as int] == pv[start + k]);
                assert(pv[start + k] == p@[start + k]@);
                assert(sv[k as int] == seg@);
                assert(tail[k as int] != sv[k as int]);
                assert(tail != sv);
            }
            return false;
        }
        k += 1;
    }
    assert(rel.skip(rel.len() - sv.len()) =~= sv);
    true
}

/// `path` lies strictly inside one of `found`.
pub open spec fn inside_found(found: Seq<Seq<char>>, path: Seq<char>) -> bool {
    exists|k: int| 0 <= k < found.len() && path_starts_with(path, #[trigger] found[k]) && components(path)
        != components(found[k])
}

/// No match lies inside another: an outer match is searched no further.
pub open spec fn outermost_only(found: Seq<Seq<char>>) -> bool {
    forall|a: int, b: int|
        0 <= a < found.len() && 0 <= b < found.len() && a != b ==> !(path_starts_with(#[trigger] found[a], #[trigger] found[b])
            && components(found[a]) != components(found[b]))
}

/// A subfolder search over a walk of the folders below `root` (symbolic
/// links are entries of their own and never directories): each directory
/// that matches is recorded and not searched further.
pub struct SubfolderSearch {
    pub root: String,
    pub segments: Vec<String>,
    pub found: Vec<String>,
}

impl SubfolderSearch {
    pub fn new(root: String, segments: Vec<String>) -> (r: Self)
        ensures
            r.root == root,
            r.segments == segments,
            r.found@.len() == 0,
    {
        SubfolderSearch { root, segments, found: Vec::new() }
    }

    /// One entry of the walk, given whether it is itself a directory: a
    /// matching directory (that no earlier match holds) is recorded, and the
    /// answer `true` asks the walk not to descend into it.
    pub fn visit(&mut self, path: &str, is_dir: bool) -> (prune: bool)
        ensures
            final(self).root == old(self).root,
            final(self).segments == old(self).segments,
            prune == (is_dir && spec_directory_matches(path@, old(self).root@, strs(old(self).segments@))
                && !inside_found(strs(old(self).found@), path@)),
            prune ==> strs(final(self).found@) == strs(old(self).found@).push(path@),
            !prune ==> final(self).found@ == old(self).found@,
    {
        if !is_dir || !directory_matches_pattern(path, self.root.as_str(), &self.segments) {
            return false;
        }
        let mut k: usize = 0;
        let ghost f = strs(self.found@);
        while k < self.found.len()
            invariant
                0 <= k <= self.found@.len(),
                f == strs(self.found@),
                forall|m: int| 0 <= m < k ==> !(path_starts_with(path@, #[trigger] f[m]) && components(path@) != components(f[m])),
            decreases self.found@.len() - k,
        {
            let inside = path_has_prefix(path, self.found[k].as_str()) && !crate::paths::paths_equal(
                path,
                self.found[k].as_str(),
            );
            assert(f[k as int] == self.found@[k as int]@);
            if inside {
                return false;
            }
            k += 1;
        }
        let ghost before = strs(self.found@);
        self.found.push(owned(path));
        assert(strs(self.found@) =~= before.push(path@));
        true
    }
}

/// A search that only records what `visit` accepts keeps its matches
/// outermost when the walk never enters a recorded match again: a path is
/// accepted only if no earlier match holds it, and no earlier match lies
/// inside a later one because the walk reaches a folder before its contents.
pub proof fn lemma_found_stays_outermost(found: Seq<Seq<char>>, path: Seq<char>)
    requires
        outermost_only(found),
        !inside_found(found, path),
        forall|k: int| 0 <= k < found.len() ==> !(path_starts_with(#[trigger] found[k], path) && components(found[k]) != components(path)),
    ensures
        outermost_only(found.push(path)),
{
    let g = found.push(path);
    assert forall|a: int, b: int|
        0 <= a < g.len() && 0 <= b < g.len() && a != b implies !(path_starts_with(#[trigger] g[a], #[trigger] g[b])
            && components(g[a]) != components(g[b])) by {
        if a == found.len() {
            assert(g[b] == found[b]);
            if path_starts_with(path, found[b]) && components(path) != components(found[b]) {
                assert(inside_found(found, path));
            }
        } else if b == found.len() {
            assert(g[a] == found[a]);
        } else {
            assert(g[a] == found[a] && g[b] == found[b]);
        }
    }
}

// ---------------------------------------------------------------------------
// File name patterns
// ---------------------------------------------------------------------------
/// Whether `name` matches a rule's file pattern: `*x*` contains `x`, `*x`
/// ends with `x`, `x*` starts with `x`, anything else is the exact name.
pub open spec fn spec_matches_pattern(name: Seq<char>, pattern: Seq<char>) -> bool {
    if pattern.len() >= 2 && pattern[0] == '*' && pattern.last() == '*' {
        contains(name, pattern.subrange(1, pattern.len() - 1))
    } else if pattern.len() >= 1 && pattern[0] == '*' {
        ends_with(name, pattern.skip(1))
    } else if pattern.len() >= 1 && pattern.last() == '*' {
        starts_with(name, pattern.drop_last())
    } else {
        name == pattern
    }
}

pub fn matches_pattern(name: &str, pattern: &str) -> (r: bool)
    ensures
        r == spec_matches_pattern(name@, pattern@),
{
    let pc = chars_of(pattern);
    let nc = chars_of(name);
    let n = pc.len();
    if n >= 2 && pc[0] == '*' && pc[n - 1] == '*' {
        let mid = sub_chars(pc.as_slice(), 1, n - 1);
        crate::text::contains_chars(nc.as_slice(), mid.as_slice())
    } else if n >= 1 && pc[0] == '*' {
        let suffix = sub_chars(pc.as_slice(), 1, n);
        assert(suffix@ =~= pc@.skip(1));
        crate::text::ends_with_chars(nc.as_slice(), suffix.as_slice())
    } else if n >= 1 && pc[n - 1] == '*' {
        let prefix = sub_chars(pc.as_slice(), 0, n - 1);
        assert(prefix@ =~= pc@.drop_last());
        crate::text::starts_with_chars(nc.as_slice(), prefix.as_slice())
    } else {
        crate::text::chars_equal(nc.as_slice(), pc.as_slice())
    }
}

/// Whether a file name is a log file: in ASCII lower case it ends with
/// `.log` or holds `.log.` (a rotated log).
pub open spec fn spec_is_log_name(name: Seq<char>) -> bool {
    let l = ascii_lower_seq(name);
    ends_with(l, ".log"@) || contains(l, ".log."@)
}

pub fn is_log_name(name: &str) -> (r: bool)
    ensures
        r == spec_is_log_name(name@),
{
    let nc = chars_of(name);
    let l = lower_ascii(nc.as_slice());
    let ls = string_from_chars(l.as_slice());
    text_ends_with(ls.as_str(), ".log") || text_contains(ls.as_str(), ".log.")
}

/// The age, in seconds, beyond which application logs go: the retention
/// period, at least one day.
pub fn log_retention_seconds(retention_days: u32) -> (r: u64)
    ensures
        r == (if retention_days < 1 {
            1
        } else {
            retention_days as int
        }) * 86400,
{
    let d: u64 = if retention_days < 1 {
        1
    } else {
        retention_days as u64
    };
    d * 86400
}

// ---------------------------------------------------------------------------
// Browser rules
// ---------------------------------------------------------------------------
/// Why a browser's data cannot be cleaned by deleting whole files, if so.
pub open spec fn spec_unsupported_reason(b: BrowserType, d: BrowserDataType) -> Option<Seq<char>> {
    if b == BrowserType::Firefox && (d == BrowserDataType::History || d
        == BrowserDataType::DownloadHistory) {
        Some(
            "Firefox stores history, downloads, and bookmarks in places.sqlite; whole-file deletion is disabled until SQLite-level cleanup is implemented"@,
        )
    } else if b != BrowserType::Firefox && d == BrowserDataType::DownloadHistory {
        Some(
            "Chromium-based browsers store download history inside the History database; download-only cleanup is disabled until SQLite-level cleanup is implemented"@,
        )
    } else {
        None
    }
}

pub fn unsupported_browser_cleanup_reason(browser: BrowserType, data_type: BrowserDataType) -> (r:
    Option<&'static str>)
    ensures
        match r {
            Some(s) => spec_unsupported_reason(browser, data_type) == Some(s@),
            None => spec_unsupported_reason(browser, data_type) is None,
        },
{
    match (browser, data_type) {
        (BrowserType::Firefox, BrowserDataType::History) | (
            BrowserType::Firefox,
            BrowserDataType::DownloadHistory,
        ) => Some(
            "Firefox stores history, downloads, and bookmarks in places.sqlite; whole-file deletion is disabled until SQLite-level cleanup is implemented",
        ),
        (BrowserType::Firefox, _) => None,
        (_, BrowserDataType::DownloadHistory) => Some(
            "Chromium-based browsers store download history inside the History database; download-only cleanup is disabled until SQLite-level cleanup is implemented",
        ),
        _ => None,
    }
}

/// What scanning one enabled browser rule comes to, before the file system
/// is looked at.
pub enum BrowserRulePlan {
    /// Leave the rule's directory alone, for this reason.
    Skip(String, String),
    /// The rule cannot run; report this error.
    Fail(String),
    /// Scan these locations (below the rule's directory), recursing into
    /// directories or not.
    Scan(Vec<String>, bool),
    /// Nothing to report.
    Nothing,
}

pub enum PlanView {
    Skip(Seq<char>, Seq<char>),
    Fail(Seq<char>),
    Scan(Seq<Seq<char>>, bool),
    Nothing,
}

impl View for BrowserRulePlan {
    type V = PlanView;

    open spec fn view(&self) -> PlanView {
        match self {
            BrowserRulePlan::Skip(p, r) => PlanView::Skip(p@, r@),
            BrowserRulePlan::Fail(m) => PlanView::Fail(m@),
            BrowserRulePlan::Scan(v, rec) => PlanView::Scan(strs(v@), *rec),
            BrowserRulePlan::Nothing => PlanView::Nothing,
        }
    }
}

/// The plan for an enabled browser rule, given the installed and running
/// browsers and the rule's directory (when known): a rule without a custom
/// path for a browser not installed is skipped; data other than the cache of
/// a running browser is skipped; unsupported data is skipped; without a
/// directory the rule fails; otherwise each location of the data kind below
/// the directory is scanned.
pub open spec fn spec_browser_rule_plan(
    rule: BrowserRule,
    installed: Seq<BrowserType>,
    running: Seq<BrowserType>,
    path: Option<Seq<char>>,
) -> PlanView {
    if rule.custom_path is None && !installed.contains(rule.browser) {
        match path {
            Some(p) => PlanView::Skip(p, rule.browser.spec_display_name() + " is not installed"@),
            None => PlanView::Nothing,
        }
    } else if rule.data_type != BrowserDataType::Cache && running.contains(rule.browser) {
        match path {
            Some(p) => PlanView::Skip(
                p,
                rule.browser.spec_display_name() + " is currently running — close it before cleaning "@
                    + rule.data_type.spec_display_name() + " to avoid data corruption"@,
            ),
            None => PlanView::Nothing,
        }
    } else if spec_unsupported_reason(rule.browser, rule.data_type) is Some {
        PlanView::Skip(
            rule.browser.spec_display_name() + " - "@ + rule.data_type.spec_display_name(),
            spec_unsupported_reason(rule.browser, rule.data_type)->0,
        )
    } else {
        match path {
            None => PlanView::Fail(
                "No path for browser rule: "@ + rule.browser.spec_display_name() + " - "@
                    + rule.data_type.spec_display_name(),
            ),
            Some(p) => PlanView::Scan(
                rule.data_type.spec_relative_paths(rule.browser).map_values(
                    |r: Seq<char>| join(p, r),
                ),
                rule.data_type == BrowserDataType::Cache || rule.data_type == BrowserDataType::SiteData
                    || rule.data_type == BrowserDataType::CrashReports,
            ),
        }
    }
}

/// The plan for an enabled browser rule (see `spec_browser_rule_plan`).
pub fn browser_rule_plan(
    rule: &BrowserRule,
    installed: &[BrowserType],
    running: &[BrowserType],
    path: Option<&str>,
) -> (r: BrowserRulePlan)
    ensures
        r@ == spec_browser_rule_plan(*rule, installed@, running@, crate::security::opt_view(path)),
{
    if rule.custom_path.is_none() && !rule.browser.is_running(installed) {
        return match path {
            Some(p) => BrowserRulePlan::Skip(
                owned(p),
                concat(rule.browser.display_name(), " is not installed"),
            ),
            None => BrowserRulePlan::Nothing,
        };
    }
    if rule.data_type != BrowserDataType::Cache && rule.browser.is_running(running) {
        return match path {
            Some(p) => {
                let a = concat(
                    rule.browser.display_name(),
                    " is currently running — close it before cleaning ",
                );
                let b = concat(a.as_str(), rule.data_type.display_name());
                BrowserRulePlan::Skip(owned(p), concat(b.as_str(), " to avoid data corruption"))
            },
            None => BrowserRulePlan::Nothing,
        };
    }
    if let Some(reason) = unsupported_browser_cleanup_reason(rule.browser, rule.data_type) {
        return BrowserRulePlan::Skip(rule.display_name(), owned(reason));
    }
    match path {
        None => {
            let n = rule.display_name();
            let msg = concat("No path for browser rule: ", n.as_str());
            assert(msg@ =~= "No path for browser rule: "@ + rule.browser.spec_display_name() + " - "@
                + rule.data_type.spec_display_name());
            BrowserRulePlan::Fail(msg)
        },
        Some(p) => {
            let rel = rule.data_type.relative_paths(rule.browser);
            let mut targets: Vec<String> = Vec::new();
            crate::strings::push_joined(&mut targets, p, rel);
            assert(strs(targets@) =~= rule.data_type.spec_relative_paths(rule.browser).map_values(
                |r: Seq<char>| join(p@, r),
            ));
            BrowserRulePlan::Scan(targets, rule.data_type.recurse_directories())
        },
    }
}

/// Whether a browser location is a pattern to expand (holds `*`, `?` or `[`).
pub fn is_glob_pattern(pattern: &str) -> (r: bool)
    ensures
        r == (contains(pattern@, seq!['*']) || contains(pattern@, seq!['?']) || contains(
            pattern@,
            seq!['['],
        )),
{
    let pc = chars_of(pattern);
    let mut a: Vec<char> = Vec::new();
    a.push('*');
    let mut b: Vec<char> = Vec::new();
    b.push('?');
    let mut c: Vec<char> = Vec::new();
    c.push('[');
    assert(a@ =~= seq!['*']);
    assert(b@ =~= seq!['?']);
    assert(c@ =~= seq!['[']);
    crate::text::contains_chars(pc.as_slice(), a.as_slice()) || crate::text::contains_chars(
        pc.as_slice(),
        b.as_slice(),
    ) || crate::text::contains_chars(pc.as_slice(), c.as_slice())
}

// ---------------------------------------------------------------------------
// Laws of file name patterns
// ---------------------------------------------------------------------------
/// `*s` (with no other `*`) matches exactly the names that end with `s`:
/// the names made of any text followed by `s`.
pub proof fn lemma_star_suffix_pattern(name: Seq<char>, s: Seq<char>)
    requires
        !s.contains('*'),
    ensures
        spec_matches_pattern(name, seq!['*'] + s) <==> exists|pre: Seq<char>| name == pre + s,
{
    let p = seq!['*'] + s;
    if s.len() > 0 {
        assert(p.last() == s.last());
        assert(s.contains(s.last()));
    }
    assert(p.skip(1) =~= s);
    if spec_matches_pattern(name, p) {
        let pre = name.subrange(0, name.len() - s.len());
        assert(name =~= pre + s);
    }
    if exists|pre: Seq<char>| name == pre + s {
        let pre = choose|pre: Seq<char>| name == pre + s;
        assert(name.subrange(name.len() - s.len(), name.len() as int) =~= s);
    }
}

/// `s*` (with no other `*`) matches exactly the names that start with `s`:
/// the names made of `s` followed by any text.
pub proof fn lemma_prefix_star_pattern(name: Seq<char>, s: Seq<char>)
    requires
        !s.contains('*'),
    ensures
        spec_matches_pattern(name, s + seq!['*']) <==> exists|post: Seq<char>| name == s + post,
{
    let p = s + seq!['*'];
    if s.len() > 0 {
        assert(p[0] == s[0]);
        assert(s.contains(s[0]));
        assert(p.drop_last() =~= s);
    } else {
        assert(p =~= seq!['*']);
        assert(p.skip(1) =~= s);
        assert(name =~= s + name);
        assert(name.subrange(name.len() as int, name.len() as int) =~= s);
        assert(name.subrange(0, 0) =~= s);
    }
    assert(p.last() == '*');
    if spec_matches_pattern(name, p) {
        let post = name.subrange(s.len() as int, name.len() as int);
        assert(name =~= s + post);
    }
    if exists|post: Seq<char>| name == s + post {
        let post = choose|post: Seq<char>| name == s + post;
        assert(name.subrange(0, s.len() as int) =~= s);
    }
}

/// `*s*` (with no other `*`) matches exactly the names that hold `s`: the
/// names made of any text, then `s`, then any text.
pub proof fn lemma_star_infix_star_pattern(name: Seq<char>, s: Seq<char>)
    requires
        !s.contains('*'),
    ensures
        spec_matches_pattern(name, seq!['*'] + s + seq!['*']) <==> exists|
            pre: Seq<char>,
            post: Seq<char>,
        | name == pre + s + post,
{
    let p = seq!['*'] + s + seq!['*'];
    assert(p.subrange(1, p.len() - 1) =~= s);
    if spec_matches_pattern(name, p) {
        let i = choose|i: int| occurs_at(name, s, i);
        let pre = name.subrange(0, i);
        let post = name.subrange(i + s.len(), name.len() as int);
        assert(name =~= pre + s + post);
    }
    if exists|pre: Seq<char>, post: Seq<char>| name == pre + s + post {
        let (pre, post) = choose|pre: Seq<char>, post: Seq<char>| name == pre + s + post;
        assert(name.subrange(pre.len() as int, (pre.len() + s.len()) as int) =~= s);
        assert(occurs_at(name, s, pre.len() as int));
    }
}

/// A pattern with no `*` matches only the name it spells.
pub proof fn lemma_plain_pattern(name: Seq<char>, s: Seq<char>)
    requires
        !s.contains('*'),
    ensures
        spec_matches_pattern(name, s) <==> name == s,
{
    if s.len() > 0 {
        assert(s.contains(s[0]));
        assert(s.contains(s.last()));
    }
}

} // verus!
