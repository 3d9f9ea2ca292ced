//! The scanner's decisions: which rules are scanned and how, what is done
//! with each path and each entry of a walked directory, and what is
//! recorded when a path is refused, missing or unreadable.
//!
//! The walking and the metadata reads are the caller's; each function here
//! takes what was read and says what enters the scan result.
use vstd::prelude::*;
use crate::outside::{cache_dir, data_local_dir, home_dir, state_dir};
use crate::paths::{components, same_path, paths_equal, join, join_path};
use crate::rules::{expand_home, AppRule, CustomRule, DeletionMode, SystemRule, SystemRuleType};
use crate::scan_result::{pair_texts, FileEntry, ScanResult};
use crate::scan_rules::{
    matches_pattern, is_log_name, parse_subfolder_pattern, spec_is_log_name, spec_matches_pattern,
    spec_parse_subfolder_pattern,
};
use crate::security::{borrowed, opt_view, violation_text, AuditResult, AuditView, SecurityError, Violation};
use crate::strings::strs;
use crate::text::{chars_of, concat, contains, owned, starts_with, text_contains, trim, trim_chars, sub_chars};
use crate::outside::string_from_chars;

verus! {

/// A scan result as plain values.
pub struct ScanModel {
    pub files: Seq<FileEntry>,
    pub directories: Seq<FileEntry>,
    pub total_size: u64,
    pub file_count: usize,
    pub dir_count: usize,
    pub skipped: Seq<(Seq<char>, Seq<char>)>,
    pub violations: Seq<Seq<char>>,
    pub errors: Seq<Seq<char>>,
    pub cancelled: bool,
}

pub open spec fn model(r: ScanResult) -> ScanModel {
    ScanModel {
        files: r.files@,
        directories: r.directories@,
        total_size: r.total_size,
        file_count: r.file_count,
        dir_count: r.dir_count,
        skipped: pair_texts(r.skipped@),
        violations: strs(r.security_violations@),
        errors: strs(r.errors@),
        cancelled: r.cancelled,
    }
}

/// The model of an empty result.
pub open spec fn empty_model() -> ScanModel {
    ScanModel {
        files: seq![],
        directories: seq![],
        total_size: 0,
        file_count: 0,
        dir_count: 0,
        skipped: seq![],
        violations: seq![],
        errors: seq![],
        cancelled: false,
    }
}

pub open spec fn violation_texts(a: AuditView) -> Seq<Seq<char>> {
    a.violations.map_values(|v: Violation| violation_text(v))
}

pub open spec fn violation_pairs(path: Seq<char>, a: AuditView) -> Seq<(Seq<char>, Seq<char>)> {
    a.violations.map_values(|v: Violation| (path, violation_text(v)))
}

fn new_result() -> (r: ScanResult)
    ensures
        model(r) == empty_model(),
{
    let r = ScanResult::new();
    assert(r.files@ =~= seq![]);
    assert(r.directories@ =~= seq![]);
    assert(pair_texts(r.skipped@) =~= seq![]);
    assert(strs(r.security_violations@) =~= seq![]);
    assert(strs(r.errors@) =~= seq![]);
    r
}

/// Records each violation of a refused audit as a security notice.
fn add_security_violations(result: &mut ScanResult, audit: &AuditResult)
    ensures
        model(*final(result)) == (ScanModel {
            violations: model(*old(result)).violations + violation_texts(audit@),
            ..model(*old(result))
        }),
{
    let ghost start = model(*result);
    let mut i: usize = 0;
    while i < audit.violations.len()
        invariant
            0 <= i <= audit.violations@.len(),
            model(*result) == (ScanModel {
                violations: start.violations + violation_texts(audit@).take(i as int),
                ..start
            }),
        decreases audit.violations@.len() - i,
    {
        let m = audit.violations[i].message();
        result.add_security_violation(m.as_str());
        assert(violation_texts(audit@).take(i + 1) =~= violation_texts(audit@).take(i as int).push(m@));
        i += 1;
    }
    assert(violation_texts(audit@).take(i as int) =~= violation_texts(audit@));
}

/// Records each violation of a refused audit as a reason to skip `path`.
fn add_skipped_violations(result: &mut ScanResult, path: &str, audit: &AuditResult)
    ensures
        model(*final(result)) == (ScanModel {
            skipped: model(*old(result)).skipped + violation_pairs(path@, audit@),
            ..model(*old(result))
        }),
{
    let ghost start = model(*result);
    let mut i: usize = 0;
    while i < audit.violations.len()
        invariant
            0 <= i <= audit.violations@.len(),
            model(*result) == (ScanModel {
                skipped: start.skipped + violation_pairs(path@, audit@).take(i as int),
                ..start
            }),
        decreases audit.violations@.len() - i,
    {
        let m = audit.violations[i].message();
        result.add_skipped(owned(path), m.as_str());
        assert(violation_pairs(path@, audit@).take(i + 1) =~= violation_pairs(path@, audit@).take(i as int).push((path@, m@)));
        i += 1;
    }
    assert(violation_pairs(path@, audit@).take(i as int) =~= violation_pairs(path@, audit@));
}

// ---------------------------------------------------------------------------
// Entries
// ---------------------------------------------------------------------------
/// What the metadata of a path says.
pub struct EntryStat {
    pub is_file: bool,
    pub is_dir: bool,
    pub is_symlink: bool,
    pub len: u64,
    /// Last modification, in seconds since the Unix epoch, when known.
    pub modified: Option<i64>,
}

pub open spec fn is_entry(e: FileEntry, path: Seq<char>, size: u64, dir: bool, link: bool) -> bool {
    e.path@ == path && e.size == size && e.is_directory == dir && e.is_symlink == link
}

/// `new` is `old` with one more file of `size`.
pub open spec fn with_file(old: ScanModel, new: ScanModel, path: Seq<char>, size: u64, link: bool) -> bool {
    &&& new.files.len() == old.files.len() + 1
    &&& new.files.drop_last() == old.files
    &&& is_entry(new.files.last(), path, size, false, link)
    &&& new.total_size == old.total_size + size
    &&& new.file_count == old.file_count + 1
    &&& new == (ScanModel { files: new.files, total_size: new.total_size, file_count: new.file_count, ..old })
}

/// `new` is `old` with one more directory.
pub open spec fn with_dir(old: ScanModel, new: ScanModel, path: Seq<char>, link: bool) -> bool {
    &&& new.directories.len() == old.directories.len() + 1
    &&& new.directories.drop_last() == old.directories
    &&& is_entry(new.directories.last(), path, 0, true, link)
    &&& new.dir_count == old.dir_count + 1
    &&& new == (ScanModel { directories: new.directories, dir_count: new.dir_count, ..old })
}

fn push_file(result: &mut ScanResult, path: &str, size: u64, is_directory: bool, link: bool)
    requires
        old(result).total_size + size <= u64::MAX,
        old(result).file_count < usize::MAX,
    ensures
        model(*final(result)).files.drop_last() == model(*old(result)).files,
        model(*final(result)).files.len() == model(*old(result)).files.len() + 1,
        is_entry(model(*final(result)).files.last(), path@, size, is_directory, link),
        model(*final(result)) == (ScanModel {
            files: model(*final(result)).files,
            total_size: (old(result).total_size + size) as u64,
            file_count: (old(result).file_count + 1) as usize,
            ..model(*old(result))
        }),
{
    let e = FileEntry::new(owned(path), size, is_directory, link);
    result.add_file(e);
    assert(result.files@.drop_last() =~= old(result).files@);
}

fn push_dir(result: &mut ScanResult, path: &str, link: bool)
    requires
        old(result).dir_count < usize::MAX,
    ensures
        with_dir(model(*old(result)), model(*final(result)), path@, link),
{
    let e = FileEntry::new(owned(path), 0, true, link);
    result.add_directory(e);
    assert(result.directories@.drop_last() =~= old(result).directories@);
}

/// The last component of a path when it is a name (`Path::file_name`).
pub open spec fn file_name_of(path: Seq<char>) -> Option<Seq<char>> {
    let cs = components(path);
    if cs.len() > 0 && cs.last() != seq!['/'] && cs.last() != seq!['.'] && cs.last() != seq!['.', '.'] {
        Some(cs.last())
    } else {
        None
    }
}

pub fn file_name(path: &str) -> (r: Option<String>)
    ensures
        match r {
            Some(n) => file_name_of(path@) == Some(n@),
            None => file_name_of(path@) is None,
        },
{
    let pc = chars_of(path);
    let cs = crate::paths::components_of(pc.as_slice());
    let ghost cv = crate::split::views(cs@);
    let n = cs.len();
    if n == 0 {
        return None;
    }
    let last = &cs[n - 1];
    assert(cv.last() == last@);
    let is_root = last.len() == 1 && last[0] == '/';
    let is_dot = last.len() == 1 && last[0] == '.';
    let is_dotdot = last.len() == 2 && last[0] == '.' && last[1] == '.';
    proof {
        if is_root {
            assert(last@ =~= seq!['/']);
        }
        if is_dot {
            assert(last@ =~= seq!['.']);
        }
        if is_dotdot {
            assert(last@ =~= seq!['.', '.']);
        }
        if !is_root && last@.len() == 1 {
            assert(last@ != seq!['/']) by {
                assert(last@[0] != '/');
            }
        }
        if !is_dot && last@.len() == 1 {
            assert(last@ != seq!['.']) by {
                assert(last@[0] != '.');
            }
        }
        if !is_dotdot && last@.len() == 2 {
            assert(last@ != seq!['.', '.']) by {
                assert(last@[0] != '.' || last@[1] != '.');
            }
        }
    }
    if is_root || is_dot || is_dotdot {
        None
    } else {
        Some(string_from_chars(last.as_slice()))
    }
}

// ---------------------------------------------------------------------------
// Scanning a directory
// ---------------------------------------------------------------------------
/// The moment before which files count as old enough: `min_age_days` days
/// before `now`; none when no minimum age is set (or it cannot be stated).
pub open spec fn spec_age_cutoff(now: i64, days: u32) -> Option<i64> {
    if days == 0 || now - days * 86400 < i64::MIN {
        None
    } else {
        Some((now - days * 86400) as i64)
    }
}

pub fn age_cutoff(now: i64, min_age_days: u32) -> (r: Option<i64>)
    ensures
        r == spec_age_cutoff(now, min_age_days),
{
    if min_age_days == 0 {
        return None;
    }
    let span: i64 = min_age_days as i64 * 86400;
    now.checked_sub(span)
}

pub open spec fn missing_text() -> Seq<char> {
    "Path does not exist"@
}

/// The start of a directory scan: a refused audit records its violations as
/// security notices and a missing path is skipped, both ending the scan;
/// otherwise the walk begins (`true`) with an empty result.
pub fn begin_directory_scan(path: &str, audit: &AuditResult, exists: bool) -> (r: (ScanResult, bool))
    ensures
        r.1 <==> (audit.is_safe && exists),
        !audit.is_safe ==> model(r.0) == (ScanModel { violations: violation_texts(audit@), ..empty_model() }),
        audit.is_safe && !exists ==> model(r.0) == (ScanModel {
            skipped: seq![(path@, missing_text())],
            ..empty_model()
        }),
        r.1 ==> model(r.0) == empty_model(),
{
    let mut result = new_result();
    if !audit.is_safe {
        add_security_violations(&mut result, audit);
        assert(seq![] + violation_texts(audit@) =~= violation_texts(audit@));
        return (result, false);
    }
    if !exists {
        result.add_skipped(owned(path), "Path does not exist");
        assert(pair_texts(result.skipped@) =~= seq![(path@, missing_text())]);
        return (result, false);
    }
    (result, true)
}

/// One entry of a walked directory, with what was read about it.
pub struct WalkedEntry {
    pub path: String,
    /// The audit of the entry for deletion.
    pub deletion_audit: AuditResult,
    /// The entry's metadata, or why it could not be read.
    pub metadata: Result<EntryStat, String>,
}

pub open spec fn metadata_error_text(path: Seq<char>, e: Seq<char>) -> Seq<char> {
    "Cannot read metadata for "@ + path + ": "@ + e
}

/// An entry is filtered out by the name pattern (files only) or by being
/// newer than the age cutoff.
pub open spec fn filtered_out(path: Seq<char>, st: EntryStat, pattern: Option<Seq<char>>, cutoff: Option<i64>) -> bool {
    ||| (pattern matches Some(p) && st.is_file && (file_name_of(path) matches Some(n) && !spec_matches_pattern(n, p)))
    ||| (cutoff matches Some(t) && st.modified matches Some(m) && m > t)
}

/// What one entry does to the scan: a cancelled scan stops and says so; the
/// walked directory itself is passed over; an entry refused for deletion is
/// skipped with each reason; unreadable metadata is an error; entries
/// filtered out are passed over; a directory is listed when directories
/// are included; anything else is a file (of its length when it is a
/// regular file, of no size otherwise).
pub open spec fn entry_scanned(
    old: ScanModel,
    new: ScanModel,
    root: Seq<char>,
    entry: WalkedEntry,
    include_dirs: bool,
    pattern: Option<Seq<char>>,
    cutoff: Option<i64>,
    cancelled: bool,
    go_on: bool,
) -> bool {
    if cancelled {
        !go_on && new == (ScanModel { cancelled: true, ..old })
    } else {
        &&& go_on
        &&& if same_path(entry.path@, root) {
            new == old
        } else if !entry.deletion_audit.is_safe {
            new == (ScanModel { skipped: old.skipped + violation_pairs(entry.path@, entry.deletion_audit@), ..old })
        } else {
            match entry.metadata {
                Err(e) => new == (ScanModel {
                    errors: old.errors.push(metadata_error_text(entry.path@, e@)),
                    ..old
                }),
                Ok(st) => if filtered_out(entry.path@, st, pattern, cutoff) {
                    new == old
                } else if st.is_dir {
                    if include_dirs {
                        with_dir(old, new, entry.path@, st.is_symlink)
                    } else {
                        new == old
                    }
                } else {
                    with_file(old, new, entry.path@, if st.is_file { st.len } else { 0 }, st.is_symlink)
                },
            }
        }
    }
}

/// Takes one walked entry into the scan (see `entry_scanned`); `false`
/// ends the walk.
pub fn scan_directory_entry(
    result: &mut ScanResult,
    root: &str,
    entry: &WalkedEntry,
    include_dirs: bool,
    file_pattern: Option<&str>,
    cutoff: Option<i64>,
    cancelled: bool,
) -> (go_on: bool)
    requires
        old(result).file_count < usize::MAX,
        old(result).dir_count < usize::MAX,
        entry.metadata matches Ok(st) ==> old(result).total_size + st.len <= u64::MAX,
    ensures
        entry_scanned(
            model(*old(result)),
            model(*final(result)),
            root@,
            *entry,
            include_dirs,
            opt_view(file_pattern),
            cutoff,
            cancelled,
            go_on,
        ),
{
    if cancelled {
        result.cancelled = true;
        return false;
    }
    if paths_equal(entry.path.as_str(), root) {
        return true;
    }
    if !entry.deletion_audit.is_safe {
        add_skipped_violations(result, entry.path.as_str(), &entry.deletion_audit);
        return true;
    }
    match &entry.metadata {
        Err(e) => {
            let a = concat("Cannot read metadata for ", entry.path.as_str());
            let b = concat(a.as_str(), ": ");
            let m = concat(b.as_str(), e.as_str());
            result.add_error(m.as_str());
            true
        },
        Ok(st) => {
            let mut skip = false;
            match file_pattern {
                Some(p) => {
                    if st.is_file {
                        match file_name(entry.path.as_str()) {
                            Some(n) => {
                                if !matches_pattern(n.as_str(), p) {
                                    skip = true;
                                }
                            },
                            None => {},
                        }
                    }
                },
                None => {},
            }
            match cutoff {
                Some(t) => match st.modified {
                    Some(m) => {
                        if m > t {
                            skip = true;
                        }
                    },
                    None => {},
                },
                None => {},
            }
            if skip {
                return true;
            }
            if st.is_dir {
                if include_dirs {
                    push_dir(result, entry.path.as_str(), st.is_symlink);
                }
            } else {
                let size = if st.is_file {
                    st.len
                } else {
                    0
                };
                push_file(result, entry.path.as_str(), size, false, st.is_symlink);
            }
            true
        },
    }
}

// ---------------------------------------------------------------------------
// Single targets (browser data, glob matches)
// ---------------------------------------------------------------------------
/// What follows the check of a single target path.
pub enum TargetStep {
    /// The target is settled: this is its whole result.
    Done(ScanResult),
    /// The target is a directory: scan it, listing subdirectories when the
    /// flag says so.
    ScanDirectory(bool),
}

/// The check of one target: a refused audit gives security notices, a
/// missing path is skipped, unreadable metadata is an error, a target
/// refused for deletion is skipped with each reason; a directory is
/// scanned (listing subdirectories when `recurse_dirs`), anything else is
/// one file of its length.
pub fn check_target(
    path: &str,
    audit: &AuditResult,
    exists: bool,
    metadata: &Result<EntryStat, String>,
    deletion_audit: &AuditResult,
    recurse_dirs: bool,
) -> (r: TargetStep)
    ensures
        !audit.is_safe ==> (r matches TargetStep::Done(x) && model(x) == (ScanModel {
            violations: violation_texts(audit@),
            ..empty_model()
        })),
        audit.is_safe && !exists ==> (r matches TargetStep::Done(x) && model(x) == (ScanModel {
            skipped: seq![(path@, missing_text())],
            ..empty_model()
        })),
        audit.is_safe && exists ==> match metadata {
            Err(e) => r matches TargetStep::Done(x) && model(x) == (ScanModel {
                errors: seq![metadata_error_text(path@, e@)],
                ..empty_model()
            }),
            Ok(st) => if !deletion_audit.is_safe {
                r matches TargetStep::Done(x) && model(x) == (ScanModel {
                    skipped: violation_pairs(path@, deletion_audit@),
                    ..empty_model()
                })
            } else if st.is_dir {
                r == TargetStep::ScanDirectory(recurse_dirs)
            } else {
                r matches TargetStep::Done(x) && with_file(empty_model(), model(x), path@, st.len, st.is_symlink)
            },
        },
{
    let (mut result, go_on) = begin_directory_scan(path, audit, exists);
    if !go_on {
        return TargetStep::Done(result);
    }
    match metadata {
        Err(e) => {
            let a = concat("Cannot read metadata for ", path);
            let b = concat(a.as_str(), ": ");
            let m = concat(b.as_str(), e.as_str());
            result.add_error(m.as_str());
            assert(strs(result.errors@) =~= seq![metadata_error_text(path@, e@)]);
            TargetStep::Done(result)
        },
        Ok(st) => {
            if !deletion_audit.is_safe {
                add_skipped_violations(&mut result, path, deletion_audit);
                assert(seq![] + violation_pairs(path@, deletion_audit@) =~= violation_pairs(path@, deletion_audit@));
                return TargetStep::Done(result);
            }
            if st.is_dir {
                TargetStep::ScanDirectory(recurse_dirs)
            } else {
                push_file(&mut result, path, st.len, false, st.is_symlink);
                TargetStep::Done(result)
            }
        },
    }
}

/// A glob that matched nothing leaves its pattern skipped as missing.
pub fn record_unmatched_pattern(result: &mut ScanResult, pattern: &str)
    ensures
        model(*final(result)) == (ScanModel {
            skipped: model(*old(result)).skipped.push((pattern@, missing_text())),
            ..model(*old(result))
        }),
{
    result.add_skipped(owned(pattern), "Path does not exist");
}

/// The glob of an application rule with a leading `~/` resolved against
/// `home`; `Err` with the message when home is unknown.
pub fn expand_glob_pattern(pattern: &str, home: Option<&str>) -> (r: Result<String, String>)
    ensures
        starts_with(pattern@, "~/"@) ==> match home {
            Some(h) => r matches Ok(p) && p@ == join(h@, pattern@.skip(2)),
            None => r matches Err(e) && e@ == "Cannot expand home directory"@,
        },
        !starts_with(pattern@, "~/"@) ==> (r matches Ok(p) && p@ == pattern@),
{
    proof {
        reveal_strlit("~/");
    }
    let pc = chars_of(pattern);
    if pc.len() >= 2 && pc[0] == '~' && pc[1] == '/' {
        assert(pc@.subrange(0, 2) =~= "~/"@);
        match home {
            Some(h) => {
                let rest = sub_chars(pc.as_slice(), 2, pc.len());
                let rs = string_from_chars(rest.as_slice());
                assert(rs@ =~= pattern@.skip(2));
                Ok(join_path(h, rs.as_str()))
            },
            None => Err(owned("Cannot expand home directory")),
        }
    } else {
        proof {
            reveal_strlit("~/");
            if starts_with(pattern@, "~/"@) {
                assert("~/"@ =~= seq!['~', '/']);
                assert(pattern@.subrange(0, 2) == "~/"@);
                assert(pattern@.subrange(0, 2)[0] == pattern@[0]);
                assert(pattern@.subrange(0, 2)[1] == pattern@[1]);
                assert(pattern@[0] == '~' && pattern@[1] == '/');
            }
        }
        Ok(owned(pattern))
    }
}

// ---------------------------------------------------------------------------
// Subfolder searches
// ---------------------------------------------------------------------------
pub open spec fn invalid_search_text(name: Seq<char>) -> Seq<char> {
    "Invalid subfolder search pattern '"@ + name + "'"@
}

pub open spec fn no_matches_text(name: Seq<char>) -> Seq<char> {
    "No subdirectories matching '"@ + name + "' found"@
}

/// `expand_glob_pattern` with the current user's home directory, whichever
/// the environment gives.
pub fn expand_user_glob_pattern(pattern: &str) -> (r: Result<String, String>)
    ensures
        !starts_with(pattern@, "~/"@) ==> (r matches Ok(p) && p@ == pattern@),
        starts_with(pattern@, "~/"@) ==> match r {
            Ok(p) => exists|h: Seq<char>| p@ == #[trigger] join(h, pattern@.skip(2)),
            Err(e) => e@ == "Cannot expand home directory"@,
        },
{
    let home = home_dir();
    let h = borrowed(&home);
    let r = expand_glob_pattern(pattern, h);
    proof {
        if starts_with(pattern@, "~/"@) {
            if let Some(hv) = h {
                assert(r matches Ok(p) && p@ == join(hv@, pattern@.skip(2)));
            }
        }
    }
    r
}

/// The start of a search below `root` for folders matching `name`: refused,
/// missing or invalid searches end with their result; otherwise the
/// pattern's segments start the search.
pub fn begin_subfolder_search(root: &str, name: &str, audit: &AuditResult, exists: bool) -> (r: Result<Vec<String>, ScanResult>)
    ensures
        !audit.is_safe ==> (r matches Err(x) && model(x) == (ScanModel {
            violations: violation_texts(audit@),
            ..empty_model()
        })),
        audit.is_safe && !exists ==> (r matches Err(x) && model(x) == (ScanModel {
            skipped: seq![(root@, missing_text())],
            ..empty_model()
        })),
        audit.is_safe && exists ==> match spec_parse_subfolder_pattern(name@) {
            None => r matches Err(x) && model(x) == (ScanModel {
                errors: seq![invalid_search_text(name@)],
                ..empty_model()
            }),
            Some(segs) => r matches Ok(v) && strs(v@) == segs,
        },
{
    let (mut result, go_on) = begin_directory_scan(root, audit, exists);
    if !go_on {
        return Err(result);
    }
    match parse_subfolder_pattern(name) {
        Some(segs) => Ok(segs),
        None => {
            let a = concat("Invalid subfolder search pattern '", name);
            let m = concat(a.as_str(), "'");
            result.add_error(m.as_str());
            assert(strs(result.errors@) =~= seq![invalid_search_text(name@)]);
            Err(result)
        },
    }
}

/// The result of a search that found no matching folder.
pub fn no_subfolder_matches(root: &str, name: &str) -> (r: ScanResult)
    ensures
        model(r) == (ScanModel { skipped: seq![(root@, no_matches_text(name@))], ..empty_model() }),
{
    let mut result = new_result();
    let a = concat("No subdirectories matching '", name);
    let m = concat(a.as_str(), "' found");
    result.add_skipped(owned(root), m.as_str());
    assert(pair_texts(result.skipped@) =~= seq![(root@, no_matches_text(name@))]);
    result
}

/// A matched folder refused by the audit is skipped with each reason
/// (`Some`); otherwise (`None`) it is scanned.
pub fn begin_subfolder_match(match_path: &str, audit: &AuditResult) -> (r: Option<ScanResult>)
    ensures
        r is Some <==> !audit.is_safe,
        r matches Some(x) ==> model(x) == (ScanModel {
            skipped: violation_pairs(match_path@, audit@),
            ..empty_model()
        }),
{
    if audit.is_safe {
        return None;
    }
    let mut result = new_result();
    add_skipped_violations(&mut result, match_path, audit);
    assert(seq![] + violation_pairs(match_path@, audit@) =~= violation_pairs(match_path@, audit@));
    Some(result)
}

/// After a matched folder's contents: when folders are deleted too, the
/// folder itself is listed (the cleaner removes it after its contents), or
/// skipped with each reason if refused for deletion; a cancelled scan adds
/// nothing.
pub fn finish_subfolder_match(
    result: &mut ScanResult,
    match_path: &str,
    include_dirs: bool,
    cancelled: bool,
    deletion_audit: &AuditResult,
    is_symlink: bool,
)
    requires
        old(result).dir_count < usize::MAX,
    ensures
        !(include_dirs && !cancelled) ==> model(*final(result)) == model(*old(result)),
        include_dirs && !cancelled && deletion_audit.is_safe ==> with_dir(
            model(*old(result)),
            model(*final(result)),
            match_path@,
            is_symlink,
        ),
        include_dirs && !cancelled && !deletion_audit.is_safe ==> model(*final(result)) == (ScanModel {
            skipped: model(*old(result)).skipped + violation_pairs(match_path@, deletion_audit@),
            ..model(*old(result))
        }),
{
    if include_dirs && !cancelled {
        if deletion_audit.is_safe {
            push_dir(result, match_path, is_symlink);
        } else {
            add_skipped_violations(result, match_path, deletion_audit);
        }
    }
}

// ---------------------------------------------------------------------------
// Application logs
// ---------------------------------------------------------------------------
/// The moment before which application logs go: the retention period (at
/// least a day) before `now`; none when it cannot be stated.
pub open spec fn spec_log_cutoff(now: i64, retention_days: u32) -> Option<i64> {
    let days = if retention_days == 0 { 1 } else { retention_days as int };
    if now - days * 86400 < i64::MIN {
        None
    } else {
        Some((now - days * 86400) as i64)
    }
}

pub fn log_cutoff(now: i64, retention_days: u32) -> (r: Option<i64>)
    ensures
        r == spec_log_cutoff(now, retention_days),
{
    let days: i64 = if retention_days == 0 {
        1
    } else {
        retention_days as i64
    };
    now.checked_sub(days * 86400)
}

/// The result when no retention cutoff can be stated.
pub fn log_cutoff_missing() -> (r: ScanResult)
    ensures
        model(r) == (ScanModel {
            errors: seq!["Could not calculate the application-log retention cutoff"@],
            ..empty_model()
        }),
{
    let mut result = new_result();
    result.add_error("Could not calculate the application-log retention cutoff");
    assert(strs(result.errors@) =~= seq!["Could not calculate the application-log retention cutoff"@]);
    result
}

/// What is done with one root of the log search.
pub enum RootStep {
    /// The scan was cancelled: stop.
    Stop,
    /// Nothing to search here.
    Skip,
    /// Walk the root.
    Walk,
}

/// A cancelled search stops and says so; a missing root is passed over; a
/// root refused by the audit records its violations as security notices.
pub fn begin_log_root(result: &mut ScanResult, exists: bool, audit: &AuditResult, cancelled: bool) -> (r: RootStep)
    ensures
        cancelled ==> r is Stop && model(*final(result)) == (ScanModel { cancelled: true, ..model(*old(result)) }),
        !cancelled && !exists ==> r is Skip && model(*final(result)) == model(*old(result)),
        !cancelled && exists && !audit.is_safe ==> r is Skip && model(*final(result)) == (ScanModel {
            violations: model(*old(result)).violations + violation_texts(audit@),
            ..model(*old(result))
        }),
        !cancelled && exists && audit.is_safe ==> r is Walk && model(*final(result)) == model(*old(result)),
{
    if cancelled {
        result.cancelled = true;
        return RootStep::Stop;
    }
    if !exists {
        return RootStep::Skip;
    }
    if !audit.is_safe {
        add_security_violations(result, audit);
        return RootStep::Skip;
    }
    RootStep::Walk
}

/// One entry found below a log root.
pub struct LogEntry {
    pub path: String,
    /// The entry's file type as the walk saw it.
    pub is_file: bool,
    pub is_symlink: bool,
    /// The length and modification time; `None` when unreadable.
    pub metadata: Option<(u64, Option<i64>)>,
    /// The audit of the entry for deletion.
    pub deletion_audit: AuditResult,
}

/// A log file by name: `.log` or a rotated `.log.N`, in any case.
pub open spec fn log_named(path: Seq<char>) -> bool {
    file_name_of(path) matches Some(n) && spec_is_log_name(n)
}

/// What one entry does to the log search: a cancelled search stops and
/// says so; the root, anything but a regular file, links and files not
/// named like logs are passed over; a file whose metadata or age cannot be
/// read is kept and noted; files newer than the cutoff stay; a file
/// refused for deletion is skipped with each reason; every other file goes.
pub open spec fn log_entry_scanned(
    old: ScanModel,
    new: ScanModel,
    root: Seq<char>,
    entry: LogEntry,
    cutoff: i64,
    cancelled: bool,
    go_on: bool,
) -> bool {
    if cancelled {
        !go_on && new == (ScanModel { cancelled: true, ..old })
    } else {
        &&& go_on
        &&& if same_path(entry.path@, root) || !entry.is_file || entry.is_symlink || !log_named(entry.path@) {
            new == old
        } else {
            match entry.metadata {
                None => new == (ScanModel {
                    skipped: old.skipped.push((entry.path@, "Cannot read file metadata"@)),
                    ..old
                }),
                Some((len, modified)) => match modified {
                    None => new == (ScanModel {
                        skipped: old.skipped.push((entry.path@, "Cannot determine file age; kept for safety"@)),
                        ..old
                    }),
                    Some(m) => if m > cutoff {
                        new == old
                    } else if !entry.deletion_audit.is_safe {
                        new == (ScanModel {
                            skipped: old.skipped + violation_pairs(entry.path@, entry.deletion_audit@),
                            ..old
                        })
                    } else {
                        with_file(old, new, entry.path@, len, false)
                    },
                },
            }
        }
    }
}

/// Takes one entry below a log root (see `log_entry_scanned`); `false` ends
/// the walk.
pub fn scan_log_entry(result: &mut ScanResult, root: &str, entry: &LogEntry, cutoff: i64, cancelled: bool) -> (go_on: bool)
    requires
        old(result).file_count < usize::MAX,
        entry.metadata matches Some((len, _)) ==> old(result).total_size + len <= u64::MAX,
    ensures
        log_entry_scanned(model(*old(result)), model(*final(result)), root@, *entry, cutoff, cancelled, go_on),
{
    if cancelled {
        result.cancelled = true;
        return false;
    }
    if paths_equal(entry.path.as_str(), root) || !entry.is_file || entry.is_symlink {
        return true;
    }
    let named = match file_name(entry.path.as_str()) {
        Some(n) => is_log_name(n.as_str()),
        None => false,
    };
    if !named {
        return true;
    }
    match entry.metadata {
        None => {
            result.add_skipped(owned(entry.path.as_str()), "Cannot read file metadata");
            true
        },
        Some((len, modified)) => match modified {
            None => {
                result.add_skipped(owned(entry.path.as_str()), "Cannot determine file age; kept for safety");
                true
            },
            Some(m) => {
                if m > cutoff {
                    return true;
                }
                if !entry.deletion_audit.is_safe {
                    add_skipped_violations(result, entry.path.as_str(), &entry.deletion_audit);
                    return true;
                }
                push_file(result, entry.path.as_str(), len, false, false);
                true
            },
        },
    }
}

// ---------------------------------------------------------------------------
// Rules
// ---------------------------------------------------------------------------
/// How one enabled rule is scanned.
pub enum RulePlan {
    /// Nothing to walk: this is the rule's whole result.
    Done(ScanResult),
    /// Scan every match of a glob pattern.
    Glob(String),
    /// Scan one directory.
    Directory { path: String, include_dirs: bool, file_pattern: Option<String>, min_age_days: u32 },
    /// Search a directory for folders matching `name` and scan each match.
    Subfolders { root: String, name: String, include_dirs: bool, file_pattern: Option<String>, min_age_days: u32 },
    /// Scan each of these directories in turn.
    Directories(Vec<String>),
}

pub open spec fn opt_text(o: Option<String>) -> Option<Seq<char>> {
    match o {
        Some(s) => Some(s@),
        None => None,
    }
}

pub open spec fn cancelled_model() -> ScanModel {
    ScanModel { cancelled: true, ..empty_model() }
}

pub open spec fn unexpandable_text(name: Seq<char>) -> Seq<char> {
    "Cannot expand path for rule: "@ + name
}

fn cancelled_result() -> (r: ScanResult)
    ensures
        model(r) == cancelled_model(),
{
    let mut r = new_result();
    r.cancelled = true;
    r
}

fn failed_result(message: &str) -> (r: ScanResult)
    ensures
        model(r) == (ScanModel { errors: seq![message@], ..empty_model() }),
{
    let mut r = new_result();
    r.add_error(message);
    assert(strs(r.errors@) =~= seq![message@]);
    r
}

fn unexpandable(name: &str) -> (r: ScanResult)
    ensures
        model(r) == (ScanModel { errors: seq![unexpandable_text(name@)], ..empty_model() }),
{
    let m = concat("Cannot expand path for rule: ", name);
    failed_result(m.as_str())
}

/// What the plan for an application rule is, given the home directory.
pub open spec fn app_plan(rule: &AppRule, cancelled: bool, home: Option<Seq<char>>, r: Option<RulePlan>) -> bool {
    &&& (r is None <==> !rule.enabled)
    &&& (rule.enabled && cancelled ==> (r matches Some(RulePlan::Done(x)) && model(x) == cancelled_model()))
    &&& (rule.enabled && !cancelled ==> match expand_home(rule.path@, home) {
            None => r matches Some(RulePlan::Done(x)) && model(x) == (ScanModel {
                errors: seq![unexpandable_text(rule.name@)],
                ..empty_model()
            }),
            Some(p) => if contains(rule.path@, "*"@) {
                r matches Some(RulePlan::Glob(g)) && g@ == rule.path@
            } else {
                r matches Some(RulePlan::Directory { path, include_dirs, file_pattern, min_age_days })
                    && path@ == p && !include_dirs && file_pattern is None && min_age_days == 0
            }
        })
}

/// The plan for an application rule (given the home directory): none when
/// disabled; a cancelled or unexpandable rule ends at once; a path with
/// `*` is a glob; any other path is one directory, files only.
pub fn app_rule_plan(rule: &AppRule, cancelled: bool, home: Option<&str>) -> (r: Option<RulePlan>)
    ensures
        app_plan(rule, cancelled, opt_view(home), r),
{
    if !rule.enabled {
        return None;
    }
    if cancelled {
        return Some(RulePlan::Done(cancelled_result()));
    }
    let path = match crate::rules::expand_home_in(rule.path.as_str(), home) {
        Some(p) => p,
        None => {
            return Some(RulePlan::Done(unexpandable(rule.name.as_str())));
        },
    };
    if text_contains(rule.path.as_str(), "*") {
        Some(RulePlan::Glob(owned(rule.path.as_str())))
    } else {
        Some(RulePlan::Directory { path, include_dirs: false, file_pattern: None, min_age_days: 0 })
    }
}

/// What the plan for a custom rule is, given the home directory.
pub open spec fn custom_plan(rule: &CustomRule, cancelled: bool, home: Option<Seq<char>>, r: Option<RulePlan>) -> bool {
    &&& (r is None <==> !rule.enabled)
    &&& (rule.enabled && cancelled ==> (r matches Some(RulePlan::Done(x)) && model(x) == cancelled_model()))
    &&& (rule.enabled && !cancelled ==> match expand_home(rule.path@, home) {
            None => r matches Some(RulePlan::Done(x)) && model(x) == (ScanModel {
                errors: seq![unexpandable_text(rule.name@)],
                ..empty_model()
            }),
            Some(p) => match rule.subfolder_name {
                Some(n) => if trim(n@).len() > 0 {
                    r matches Some(RulePlan::Subfolders { root, name, include_dirs, file_pattern, min_age_days })
                        && root@ == p && name@ == trim(n@)
                        && include_dirs == (rule.deletion_mode == DeletionMode::FilesAndDirectories)
                        && opt_text(file_pattern) == opt_text(rule.file_pattern) && min_age_days == rule.min_age_days
                } else {
                    r matches Some(RulePlan::Directory { path, include_dirs, file_pattern, min_age_days })
                        && path@ == p && include_dirs == (rule.deletion_mode == DeletionMode::FilesAndDirectories)
                        && opt_text(file_pattern) == opt_text(rule.file_pattern) && min_age_days == rule.min_age_days
                },
                None => r matches Some(RulePlan::Directory { path, include_dirs, file_pattern, min_age_days })
                    && path@ == p && include_dirs == (rule.deletion_mode == DeletionMode::FilesAndDirectories)
                    && opt_text(file_pattern) == opt_text(rule.file_pattern) && min_age_days == rule.min_age_days,
            }
        })
}

/// The plan for a custom rule (given the home directory): none when
/// disabled; a cancelled or unexpandable rule ends at once; a rule with a
/// subfolder search searches its path for the trimmed name; any other
/// scans its path. Folders are listed in files-and-folders mode, and the
/// rule's name pattern and minimum age apply.
pub fn custom_rule_plan(rule: &CustomRule, cancelled: bool, home: Option<&str>) -> (r: Option<RulePlan>)
    ensures
        custom_plan(rule, cancelled, opt_view(home), r),
{
    if !rule.enabled {
        return None;
    }
    if cancelled {
        return Some(RulePlan::Done(cancelled_result()));
    }
    let path = match crate::rules::expand_home_in(rule.path.as_str(), home) {
        Some(p) => p,
        None => {
            return Some(RulePlan::Done(unexpandable(rule.name.as_str())));
        },
    };
    let include_dirs = match rule.deletion_mode {
        DeletionMode::FilesAndDirectories => true,
        DeletionMode::FilesOnly => false,
    };
    let file_pattern = match &rule.file_pattern {
        Some(p) => Some(owned(p.as_str())),
        None => None,
    };
    match &rule.subfolder_name {
        Some(n) => {
            let c = chars_of(n.as_str());
            let t = trim_chars(c.as_slice());
            if t.len() > 0 {
                return Some(
                    RulePlan::Subfolders {
                        root: path,
                        name: string_from_chars(t.as_slice()),
                        include_dirs,
                        file_pattern,
                        min_age_days: rule.min_age_days,
                    },
                );
            }
        },
        None => {},
    }
    Some(RulePlan::Directory { path, include_dirs, file_pattern, min_age_days: rule.min_age_days })
}

/// Old kernels and package caches are the administrator's.
pub open spec fn needs_root(t: SystemRuleType) -> bool {
    t == SystemRuleType::OldKernels || t == SystemRuleType::PackageCache
}

pub open spec fn needs_root_text() -> Seq<char> {
    "Requires root privileges \u{2014} use the System page to run with administrator access"@
}

/// What the plan for a system rule is, given the user's directories.
pub open spec fn system_plan(
    rule: &SystemRule,
    cancelled: bool,
    cache: Option<Seq<char>>,
    data_local: Option<Seq<char>>,
    home: Option<Seq<char>>,
    r: Option<RulePlan>,
) -> bool {
    &&& (r is None <==> !rule.enabled)
    &&& (rule.enabled && cancelled ==> (r matches Some(RulePlan::Done(x)) && model(x) == cancelled_model()))
    &&& (rule.enabled && !cancelled && needs_root(rule.rule_type) ==> (r matches Some(RulePlan::Done(x))
        && model(x) == (ScanModel {
        skipped: seq![(rule.rule_type.spec_display_name(), needs_root_text())],
        ..empty_model()
    })))
    &&& (rule.enabled && !cancelled && !needs_root(rule.rule_type) ==> (r matches Some(RulePlan::Directories(v))
        && strs(v@) == match rule.custom_paths {
        Some(p) => strs(p@),
        None => rule.rule_type.spec_paths(cache, data_local, home),
    }))
}

/// The plan for a system rule (given the user's directories): none when
/// disabled; a cancelled rule ends at once; a rule that needs
/// administrator rights is skipped under its name; any other scans each of
/// its locations.
pub fn system_rule_plan(
    rule: &SystemRule,
    cancelled: bool,
    cache: Option<&str>,
    data_local: Option<&str>,
    home: Option<&str>,
) -> (r: Option<RulePlan>)
    ensures
        system_plan(rule, cancelled, opt_view(cache), opt_view(data_local), opt_view(home), r),
{
    if !rule.enabled {
        return None;
    }
    if cancelled {
        return Some(RulePlan::Done(cancelled_result()));
    }
    if rule.requires_root() {
        let mut r = new_result();
        r.add_skipped(
            owned(rule.display_name()),
            "Requires root privileges \u{2014} use the System page to run with administrator access",
        );
        assert(pair_texts(r.skipped@) =~= seq![(rule.rule_type.spec_display_name(), needs_root_text())]);
        return Some(RulePlan::Done(r));
    }
    Some(RulePlan::Directories(rule.effective_paths_in(cache, data_local, home)))
}

/// `app_rule_plan` for the current user.
pub fn plan_app_rule(rule: &AppRule, cancelled: bool) -> (r: Option<RulePlan>)
    ensures
        exists|h: Option<Seq<char>>| #[trigger] app_plan(rule, cancelled, h, r),
{
    let home = home_dir();
    app_rule_plan(rule, cancelled, borrowed(&home))
}

/// `custom_rule_plan` for the current user.
pub fn plan_custom_rule(rule: &CustomRule, cancelled: bool) -> (r: Option<RulePlan>)
    ensures
        exists|h: Option<Seq<char>>| #[trigger] custom_plan(rule, cancelled, h, r),
{
    let home = home_dir();
    custom_rule_plan(rule, cancelled, borrowed(&home))
}

/// `system_rule_plan` for the current user.
pub fn plan_system_rule(rule: &SystemRule, cancelled: bool) -> (r: Option<RulePlan>)
    ensures
        exists|c: Option<Seq<char>>, d: Option<Seq<char>>, h: Option<Seq<char>>|
            #[trigger] system_plan(rule, cancelled, c, d, h, r),
{
    let cache = cache_dir();
    let data_local = data_local_dir();
    let home = home_dir();
    system_rule_plan(rule, cancelled, borrowed(&cache), borrowed(&data_local), borrowed(&home))
}

/// The state directory, then the cache directory, each when known.
pub open spec fn roots_of(state: Option<Seq<char>>, cache: Option<Seq<char>>) -> Seq<Seq<char>> {
    (match state {
        Some(s) => seq![s],
        None => Seq::<Seq<char>>::empty(),
    }) + (match cache {
        Some(c) => seq![c],
        None => Seq::<Seq<char>>::empty(),
    })
}

/// The roots searched for application logs: the state directory, then the
/// cache directory, each when known.
pub fn log_roots_in(state: Option<&str>, cache: Option<&str>) -> (r: Vec<String>)
    ensures
        strs(r@) == roots_of(opt_view(state), opt_view(cache)),
{
    let mut r: Vec<String> = Vec::new();
    match state {
        Some(s) => crate::strings::push_str(&mut r, s),
        None => {},
    }
    match cache {
        Some(c) => crate::strings::push_str(&mut r, c),
        None => {},
    }
    assert(strs(r@) =~= (match state {
        Some(s) => seq![s@],
        None => Seq::<Seq<char>>::empty(),
    }) + (match cache {
        Some(c) => seq![c@],
        None => Seq::<Seq<char>>::empty(),
    }));
    r
}

/// `log_roots_in` for the current user.
pub fn log_roots() -> (r: Vec<String>)
    ensures
        exists|st: Option<Seq<char>>, ca: Option<Seq<char>>| strs(r@) == #[trigger] roots_of(st, ca),
{
    let state = state_dir();
    let cache = cache_dir();
    let s = borrowed(&state);
    let c = borrowed(&cache);
    let r = log_roots_in(s, c);
    assert(strs(r@) == roots_of(opt_view(s), opt_view(c)));
    r
}

} // verus!
