//! The rules behind the form that adds a custom cleanup location: how the
//! typed path is expanded and shown, when a location counts as high-risk,
//! and which step follows a submission.
//!
//! The form itself (entries, dialogs, the folder picker) is the desktop
//! shell's; it asks these functions what to do and shows what they return.
use vstd::prelude::*;
use crate::outside::{cache_dir, home_dir, same_rule_id, state_dir};
use crate::paths::{components, components_of, path_has_prefix, path_starts_with, paths_equal, same_path};
use crate::rules::{expand_home, expand_home_in, CustomRule, DeletionMode};
use crate::scan_rules::{parse_subfolder_pattern, spec_parse_subfolder_pattern};
use crate::security::{borrowed, opt_view, violation_text, AuditResult};
use crate::split::views;
use crate::strings::{join, strs};
use crate::text::{chars_of, concat, decimal, decimal_string, owned, push_all, trim, trim_chars};
use crate::outside::string_from_chars;

verus! {

// ---------------------------------------------------------------------------
// Expanding and showing a path
// ---------------------------------------------------------------------------
/// The typed path with a leading `~` resolved against `home` (see
/// `expand_home`); `None` when it starts with `~` and no home is known.
pub fn expand_custom_path_in(path: &str, home: Option<&str>) -> (r: Option<String>)
    ensures
        match r {
            Some(s) => expand_home(path@, opt_view(home)) == Some(s@),
            None => expand_home(path@, opt_view(home)) is None,
        },
{
    expand_home_in(path, home)
}

/// `expand_custom_path_in` for the current user.
pub fn expand_custom_path(path: &str) -> (r: Option<String>)
    ensures
        r matches Some(s) ==> exists|home: Option<Seq<char>>| expand_home(path@, home) == Some(s@),
        r is None ==> exists|home: Option<Seq<char>>| expand_home(path@, home) is None,
{
    let home = home_dir();
    expand_custom_path_in(path, borrowed(&home))
}

/// How a chosen folder is written back into the form: the home directory
/// itself as `~/`, a folder below it as `~/` and the rest of its components
/// (joined by single separators), anything else as it is.
pub open spec fn displayed_path(path: Seq<char>, home: Option<Seq<char>>) -> Seq<char> {
    match home {
        Some(h) => if same_path(path, h) {
            "~/"@
        } else if path_starts_with(path, h) {
            "~/"@ + join(components(path).skip(components(h).len() as int), "/"@)
        } else {
            path
        },
        None => path,
    }
}

fn join_parts(parts: &Vec<Vec<char>>, from: usize) -> (r: String)
    requires
        from <= parts@.len(),
    ensures
        r@ == join(views(parts@).skip(from as int), "/"@),
{
    let mut out: Vec<char> = Vec::new();
    let mut i: usize = from;
    proof {
        reveal_strlit("/");
    }
    while i < parts.len()
        invariant
            from <= i <= parts@.len(),
            out@ == join(views(parts@).subrange(from as int, i as int), "/"@),
        decreases parts@.len() - i,
    {
        proof {
            reveal_strlit("/");
        }
        let ghost before = views(parts@).subrange(from as int, i as int);
        if i > from {
            out.push('/');
        }
        push_all(&mut out, parts[i].as_slice());
        i += 1;
        proof {
            let now = views(parts@).subrange(from as int, i as int);
            assert(now.drop_last() =~= before);
            assert(now.last() == parts@[i - 1]@);
            if before.len() == 0 {
                assert(now =~= seq![parts@[i - 1]@]);
            }
        }
    }
    assert(views(parts@).subrange(from as int, parts@.len() as int) =~= views(parts@).skip(from as int));
    string_from_chars(out.as_slice())
}

/// `displayed_path` of `path`, given the home directory.
pub fn display_custom_path_in(path: &str, home: Option<&str>) -> (r: String)
    ensures
        r@ == displayed_path(path@, opt_view(home)),
{
    proof {
        reveal_strlit("~/");
    }
    match home {
        Some(h) => {
            if paths_equal(path, h) {
                owned("~/")
            } else if path_has_prefix(path, h) {
                let pc = chars_of(path);
                let hc = chars_of(h);
                let p = components_of(pc.as_slice());
                let hp = components_of(hc.as_slice());
                let rest = join_parts(&p, hp.len());
                concat("~/", rest.as_str())
            } else {
                owned(path)
            }
        },
        None => owned(path),
    }
}

/// `displayed_path` of `path` for the current user.
pub fn display_custom_path(path: &str) -> (r: String)
    ensures
        exists|home: Option<Seq<char>>| r@ == displayed_path(path@, home),
{
    let home = home_dir();
    display_custom_path_in(path, borrowed(&home))
}

// ---------------------------------------------------------------------------
// High-risk locations
// ---------------------------------------------------------------------------
/// Strictly below `base`.
pub open spec fn strictly_within(path: Seq<char>, base: Seq<char>) -> bool {
    path_starts_with(path, base) && !same_path(path, base)
}

/// A location is conventional for cleanup when it lies strictly below the
/// cache directory, the state directory or `/tmp`; anything else is
/// high-risk and must be confirmed.
pub open spec fn conventional_location(path: Seq<char>, cache: Option<Seq<char>>, state: Option<Seq<char>>) -> bool {
    ||| (cache matches Some(c) && strictly_within(path, c))
    ||| (state matches Some(s) && strictly_within(path, s))
    ||| strictly_within(path, "/tmp"@)
}

fn within(path: &str, base: &str) -> (r: bool)
    ensures
        r == strictly_within(path@, base@),
{
    path_has_prefix(path, base) && !paths_equal(path, base)
}

/// `conventional_location` of `path`, given the cache and state directories.
pub fn is_conventional_cleanup_path_in(path: &str, cache: Option<&str>, state: Option<&str>) -> (r: bool)
    ensures
        r == conventional_location(path@, opt_view(cache), opt_view(state)),
{
    let in_cache = match cache {
        Some(c) => within(path, c),
        None => false,
    };
    let in_state = match state {
        Some(s) => within(path, s),
        None => false,
    };
    in_cache || in_state || within(path, "/tmp")
}

/// `conventional_location` of `path` for the current user.
pub fn is_conventional_cleanup_path(path: &str) -> (r: bool)
    ensures
        exists|cache: Option<Seq<char>>, state: Option<Seq<char>>|
            r == conventional_location(path@, cache, state),
{
    let cache = cache_dir();
    let state = state_dir();
    is_conventional_cleanup_path_in(path, borrowed(&cache), borrowed(&state))
}

// ---------------------------------------------------------------------------
// Building the rule
// ---------------------------------------------------------------------------
/// A new custom rule from the form: disabled, with the chosen deletion mode,
/// searching for `subfolder` only when it is not blank.
pub fn custom_rule_from_form(name: &str, path: &str, mode: DeletionMode, subfolder: Option<String>) -> (r: CustomRule)
    ensures
        r.name@ == name@,
        r.description@ == Seq::<char>::empty(),
        r.path@ == path@,
        r.deletion_mode == mode,
        !r.enabled,
        r.file_pattern is None,
        r.min_age_days == 0,
        r.subfolder_name == (match subfolder {
            Some(s) => if trim(s@).len() > 0 {
                Some(s)
            } else {
                None
            },
            None => None,
        }),
{
    let mut rule = CustomRule::new(name, path);
    rule.deletion_mode = mode;
    rule.subfolder_name = match subfolder {
        Some(s) => {
            let c = chars_of(s.as_str());
            let t = trim_chars(c.as_slice());
            if t.len() > 0 {
                Some(s)
            } else {
                None
            }
        },
        None => None,
    };
    rule
}

/// The warning shown before a rule for a high-risk location is added.
pub open spec fn high_risk_text(path: Seq<char>, subfolder: Option<Seq<char>>) -> Seq<char> {
    let scope = match subfolder {
        Some(s) => "The rule searches it for folders matching \""@ + s
            + "\" and only those folders are cleaned."@,
        None => Seq::<char>::empty(),
    };
    path + " is outside the normal cache and temporary-data locations. It may contain projects, documents, virtual machines, or other personal data. "@
        + scope + "\n\nThe rule will be added disabled and must be enabled manually."@
}

/// `high_risk_text` of a path and optional subfolder search.
pub fn high_risk_message(path: &str, subfolder: Option<&str>) -> (r: String)
    ensures
        r@ == high_risk_text(path@, opt_view(subfolder)),
{
    let scope = match subfolder {
        Some(s) => {
            let a = concat("The rule searches it for folders matching \"", s);
            concat(a.as_str(), "\" and only those folders are cleaned.")
        },
        None => String::new(),
    };
    let a = concat(
        path,
        " is outside the normal cache and temporary-data locations. It may contain projects, documents, virtual machines, or other personal data. ",
    );
    let b = concat(a.as_str(), scope.as_str());
    concat(b.as_str(), "\n\nThe rule will be added disabled and must be enabled manually.")
}

/// What happens to a validated rule: a rule for a conventional location is
/// stored at once; any other needs the high-risk confirmation first.
pub enum RuleCreation {
    AddNow(CustomRule),
    ConfirmHighRisk { message: String, rule: CustomRule },
}

/// What routing a validated rule gives, given the cache and state
/// directories (see `queue_rule_creation_in`).
pub open spec fn queued(
    name: Seq<char>,
    path: Seq<char>,
    mode: DeletionMode,
    subfolder: Option<String>,
    expanded: Seq<char>,
    cache: Option<Seq<char>>,
    state: Option<Seq<char>>,
    r: RuleCreation,
) -> bool {
    &&& (match r {
        RuleCreation::AddNow(rule) => conventional_location(expanded, cache, state),
        RuleCreation::ConfirmHighRisk { message, rule } => !conventional_location(
            expanded,
            cache,
            state,
        ) && message@ == high_risk_text(
            path,
            match subfolder {
                Some(s) => Some(s@),
                None => None,
            },
        ),
    })
    &&& ({
        let rule = match r {
            RuleCreation::AddNow(rule) => rule,
            RuleCreation::ConfirmHighRisk { message, rule } => rule,
        };
        &&& rule.name@ == name
        &&& rule.path@ == path
        &&& rule.deletion_mode == mode
        &&& !rule.enabled
        &&& rule.file_pattern is None
        &&& rule.min_age_days == 0
        &&& rule.subfolder_name == (match subfolder {
            Some(s) => if trim(s@).len() > 0 {
                Some(s)
            } else {
                None
            },
            None => None,
        })
    })
}

/// Route a validated rule: straight to storage for a conventional location
/// of `expanded` (given the cache and state directories), through the
/// high-risk confirmation otherwise. The rule is the one
/// `custom_rule_from_form` builds in either case.
pub fn queue_rule_creation_in(
    name: &str,
    path: &str,
    mode: DeletionMode,
    subfolder: Option<String>,
    expanded: &str,
    cache: Option<&str>,
    state: Option<&str>,
) -> (r: RuleCreation)
    ensures
        queued(name@, path@, mode, subfolder, expanded@, opt_view(cache), opt_view(state), r),
{
    if is_conventional_cleanup_path_in(expanded, cache, state) {
        RuleCreation::AddNow(custom_rule_from_form(name, path, mode, subfolder))
    } else {
        let message = match &subfolder {
            Some(s) => high_risk_message(path, Some(s.as_str())),
            None => high_risk_message(path, None),
        };
        RuleCreation::ConfirmHighRisk { message, rule: custom_rule_from_form(name, path, mode, subfolder) }
    }
}

/// The rules without the one whose id is `id`.
pub open spec fn without_rule(rules: Seq<CustomRule>, id: uuid::Uuid) -> Seq<CustomRule> {
    rules.filter(|r: CustomRule| r.id != id)
}

/// Delete the rule with identifier `id`; the others keep their order.
pub fn remove_custom_rule(rules: &mut Vec<CustomRule>, id: &uuid::Uuid)
    ensures
        final(rules)@ == without_rule(old(rules)@, *id),
{
    let ghost orig = rules@;
    let mut kept: Vec<CustomRule> = Vec::new();
    let mut i: usize = 0;
    let n = rules.len();
    while rules.len() > 0
        invariant
            n == orig.len(),
            i + rules@.len() == n,
            rules@ == orig.skip(i as int),
            kept@ == without_rule(orig.take(i as int), *id),
        decreases rules@.len(),
    {
        let rule = rules.remove(0);
        assert(orig.take(i + 1).drop_last() =~= orig.take(i as int));
        assert(orig.take(i + 1).last() == rule);
        let keep = !same_rule_id(&rule.id, id);
        if keep {
            kept.push(rule);
        }
        proof {
            reveal(Seq::filter);
            let t = orig.take(i + 1);
            assert(t.filter(|r: CustomRule| r.id != *id) == if t.last().id != *id {
                t.drop_last().filter(|r: CustomRule| r.id != *id).push(t.last())
            } else {
                t.drop_last().filter(|r: CustomRule| r.id != *id)
            });
        }
        i += 1;
        assert(rules@ =~= orig.skip(i as int));
    }
    assert(orig.take(n as int) =~= orig);
    proof {
        reveal(Seq::filter);
    }
    *rules = kept;
}

// ---------------------------------------------------------------------------
// Submitting the form
// ---------------------------------------------------------------------------
/// The first check of a submitted form.
pub enum FormCheck {
    /// Name or path is empty: nothing happens.
    Incomplete,
    /// The path starts with `~` and no home directory is known.
    HomeUnknown,
    /// The path as expanded, to be audited next.
    Expanded(String),
}

pub open spec fn home_unknown_text() -> Seq<char> {
    "Could not expand home directory in path."@
}

/// The message shown when the home directory is unknown.
pub fn home_unknown_message() -> (r: String)
    ensures
        r@ == home_unknown_text(),
{
    owned("Could not expand home directory in path.")
}

/// The first check of a submitted form, given the home directory: an empty
/// name or path does nothing, then the path is expanded.
pub fn check_form_in(name: &str, path: &str, home: Option<&str>) -> (r: FormCheck)
    ensures
        (name@.len() == 0 || path@.len() == 0) <==> r is Incomplete,
        r is HomeUnknown <==> (name@.len() > 0 && path@.len() > 0 && expand_home(path@, opt_view(home)) is None),
        r matches FormCheck::Expanded(e) ==> expand_home(path@, opt_view(home)) == Some(e@),
{
    let n = chars_of(name);
    let p = chars_of(path);
    if n.len() == 0 || p.len() == 0 {
        return FormCheck::Incomplete;
    }
    match expand_custom_path_in(path, home) {
        Some(e) => FormCheck::Expanded(e),
        None => FormCheck::HomeUnknown,
    }
}

/// `check_form_in` for the current user.
pub fn check_form(name: &str, path: &str) -> (r: FormCheck)
    ensures
        (name@.len() == 0 || path@.len() == 0) <==> r is Incomplete,
        r matches FormCheck::Expanded(e) ==> exists|home: Option<Seq<char>>| expand_home(path@, home) == Some(e@),
        r is HomeUnknown ==> exists|home: Option<Seq<char>>| expand_home(path@, home) is None,
{
    let n = chars_of(name);
    let p = chars_of(path);
    if n.len() == 0 || p.len() == 0 {
        return FormCheck::Incomplete;
    }
    let home = home_dir();
    check_form_in(name, path, borrowed(&home))
}

/// The step that follows an audited submission.
pub enum FormStep {
    /// The audit refused the path: show this message.
    Refused(String),
    /// No subfolder search: route the rule (see `queue_rule_creation_in`).
    Create(RuleCreation),
    /// A subfolder search was given: check and preview it first.
    PreviewSearch(String),
}

pub open spec fn refusal_text(path: Seq<char>, audit: crate::security::AuditView) -> Seq<char> {
    let reason = if audit.violations.len() > 0 {
        violation_text(audit.violations[0])
    } else {
        "Path is not safe for cleanup"@
    };
    "The path '"@ + path + "' is not allowed:\n"@ + reason
}

/// What follows the audit of the expanded path, given the cache and state
/// directories (see `form_next_step`).
pub open spec fn next_step(
    name: Seq<char>,
    path: Seq<char>,
    search: Seq<char>,
    files_and_directories: bool,
    expanded: Seq<char>,
    audit: crate::security::AuditView,
    cache: Option<Seq<char>>,
    state: Option<Seq<char>>,
    r: FormStep,
) -> bool {
    let mode = if files_and_directories {
        DeletionMode::FilesAndDirectories
    } else {
        DeletionMode::FilesOnly
    };
    &&& (!audit.safe <==> r is Refused)
    &&& (r matches FormStep::Refused(m) ==> m@ == refusal_text(path, audit))
    &&& (r matches FormStep::PreviewSearch(s) ==> audit.safe && trim(search).len() > 0 && s@ == trim(search))
    &&& (r matches FormStep::Create(c) ==> audit.safe && trim(search).len() == 0 && queued(
        name,
        path,
        mode,
        None,
        expanded,
        cache,
        state,
        c,
    ))
}

/// What follows the audit of the expanded path: a refusal naming the first
/// violation; with a blank search, the rule's creation; otherwise the
/// search preview for the trimmed search text.
pub fn form_next_step(
    name: &str,
    path: &str,
    search: &str,
    files_and_directories: bool,
    expanded: &str,
    audit: &AuditResult,
    cache: Option<&str>,
    state: Option<&str>,
) -> (r: FormStep)
    ensures
        next_step(name@, path@, search@, files_and_directories, expanded@, audit@, opt_view(cache), opt_view(state), r),
{
    if !audit.is_safe {
        let reason = if audit.violations.len() > 0 {
            audit.violations[0].message()
        } else {
            owned("Path is not safe for cleanup")
        };
        let a = concat("The path '", path);
        let b = concat(a.as_str(), "' is not allowed:\n");
        return FormStep::Refused(concat(b.as_str(), reason.as_str()));
    }
    let sc = chars_of(search);
    let t = trim_chars(sc.as_slice());
    let mode = if files_and_directories {
        DeletionMode::FilesAndDirectories
    } else {
        DeletionMode::FilesOnly
    };
    if t.len() == 0 {
        FormStep::Create(queue_rule_creation_in(name, path, mode, None, expanded, cache, state))
    } else {
        FormStep::PreviewSearch(string_from_chars(t.as_slice()))
    }
}

/// `queue_rule_creation_in` with the current user's cache and state
/// directories, whichever the environment gives.
pub fn queue_rule_creation(name: &str, path: &str, mode: DeletionMode, subfolder: Option<String>, expanded: &str) -> (r:
    RuleCreation)
    ensures
        exists|c: Option<Seq<char>>, s: Option<Seq<char>>|
            #[trigger] queued(name@, path@, mode, subfolder, expanded@, c, s, r),
{
    let cache = cache_dir();
    let state = state_dir();
    let c = borrowed(&cache);
    let s = borrowed(&state);
    let r = queue_rule_creation_in(name, path, mode, subfolder, expanded, c, s);
    assert(queued(name@, path@, mode, subfolder, expanded@, opt_view(c), opt_view(s), r));
    r
}

/// `form_next_step` with the current user's cache and state directories,
/// whichever the environment gives.
pub fn form_next_step_for_user(
    name: &str,
    path: &str,
    search: &str,
    files_and_directories: bool,
    expanded: &str,
    audit: &AuditResult,
) -> (r: FormStep)
    ensures
        exists|c: Option<Seq<char>>, s: Option<Seq<char>>|
            #[trigger] next_step(name@, path@, search@, files_and_directories, expanded@, audit@, c, s, r),
{
    let cache = cache_dir();
    let state = state_dir();
    let c = borrowed(&cache);
    let s = borrowed(&state);
    let r = form_next_step(name, path, search, files_and_directories, expanded, audit, c, s);
    assert(next_step(name@, path@, search@, files_and_directories, expanded@, audit@, opt_view(c), opt_view(s), r));
    r
}

// ---------------------------------------------------------------------------
// Previewing a subfolder search
// ---------------------------------------------------------------------------
pub open spec fn invalid_pattern_text(search: Seq<char>) -> Seq<char> {
    "'"@ + search
        + "' is not a valid folder search pattern. Use a folder name such as 'target', a relative path such as 'target/debug', without '.' or '..'."@
}

/// `None` for a valid subfolder pattern; for an invalid one, the message
/// that says why it was refused.
pub fn search_pattern_error(search: &str) -> (r: Option<String>)
    ensures
        r is None <==> spec_parse_subfolder_pattern(search@) is Some,
        r matches Some(m) ==> m@ == invalid_pattern_text(search@),
{
    match parse_subfolder_pattern(search) {
        Some(_) => None,
        None => {
            let a = concat("'", search);
            Some(
                concat(
                    a.as_str(),
                    "' is not a valid folder search pattern. Use a folder name such as 'target', a relative path such as 'target/debug', without '.' or '..'.",
                ),
            )
        },
    }
}

/// How many matches the preview lists before summarising the rest.
pub const PREVIEW_LIMIT: usize = 20;

/// What the search preview shows.
pub struct SearchPreview {
    pub heading: String,
    pub body: String,
    /// The matches listed, at most `PREVIEW_LIMIT`.
    pub shown: Vec<String>,
    /// The line that counts the matches not listed, if any.
    pub more: Option<String>,
}

pub open spec fn preview_heading(count: nat) -> Seq<char> {
    if count == 0 {
        "No Matches Yet"@
    } else {
        "Found "@ + decimal(count) + " Match"@ + (if count == 1 {
            Seq::<char>::empty()
        } else {
            "es"@
        })
    }
}

pub open spec fn preview_body(search: Seq<char>, path: Seq<char>, count: nat) -> Seq<char> {
    if count == 0 {
        "No folders matching \""@ + search + "\" exist under "@ + path
            + " right now. The rule will rescan automatically on every cleanup run and will clean any that appear later."@
    } else {
        "Folders matching \""@ + search + "\" under "@ + path + " will be added to the cleanup list:"@
    }
}

pub open spec fn more_text(hidden: nat) -> Seq<char> {
    "\u{2026}and "@ + decimal(hidden) + " more"@
}

/// The preview of a subfolder search that found `matches` below `path`.
pub fn search_preview(search: &str, path: &str, matches: &Vec<String>) -> (r: SearchPreview)
    ensures
        r.heading@ == preview_heading(matches@.len()),
        r.body@ == preview_body(search@, path@, matches@.len()),
        strs(r.shown@) == strs(matches@).take(
            if matches@.len() < PREVIEW_LIMIT {
                matches@.len() as int
            } else {
                PREVIEW_LIMIT as int
            },
        ),
        matches@.len() > PREVIEW_LIMIT <==> r.more is Some,
        r.more matches Some(m) ==> m@ == more_text((matches@.len() - PREVIEW_LIMIT) as nat),
{
    let n = matches.len();
    let heading = if n == 0 {
        owned("No Matches Yet")
    } else {
        let count = decimal_string(n as u64);
        let a = concat("Found ", count.as_str());
        let b = concat(a.as_str(), " Match");
        if n == 1 {
            b
        } else {
            concat(b.as_str(), "es")
        }
    };
    let body = if n == 0 {
        let a = concat("No folders matching \"", search);
        let b = concat(a.as_str(), "\" exist under ");
        let c = concat(b.as_str(), path);
        concat(
            c.as_str(),
            " right now. The rule will rescan automatically on every cleanup run and will clean any that appear later.",
        )
    } else {
        let a = concat("Folders matching \"", search);
        let b = concat(a.as_str(), "\" under ");
        let c = concat(b.as_str(), path);
        concat(c.as_str(), " will be added to the cleanup list:")
    };
    let limit = if n < PREVIEW_LIMIT {
        n
    } else {
        PREVIEW_LIMIT
    };
    let mut shown: Vec<String> = Vec::new();
    let mut i: usize = 0;
    while i < limit
        invariant
            0 <= i <= limit <= matches@.len(),
            strs(shown@) == strs(matches@).take(i as int),
        decreases limit - i,
    {
        let ghost before = strs(shown@);
        let item = owned(matches[i].as_str());
        shown.push(item);
        assert(strs(shown@) =~= before.push(matches@[i as int]@));
        assert(strs(matches@).take(i + 1) =~= strs(matches@).take(i as int).push(matches@[i as int]@));
        i += 1;
    }
    let more = if n > PREVIEW_LIMIT {
        let count = decimal_string((n - PREVIEW_LIMIT) as u64);
        let a = concat("\u{2026}and ", count.as_str());
        Some(concat(a.as_str(), " more"))
    } else {
        None
    };
    SearchPreview { heading, body, shown, more }
}

// ---------------------------------------------------------------------------
// What a rule's row shows
// ---------------------------------------------------------------------------
/// The subfolder name a rule searches for: its trimmed name, when that is
/// not empty.
pub open spec fn search_name(rule: &CustomRule) -> Option<Seq<char>> {
    match rule.subfolder_name {
        Some(n) => if trim(n@).len() > 0 {
            Some(trim(n@))
        } else {
            None
        },
        None => None,
    }
}

/// The lines of a custom rule's row.
pub struct RuleRowText {
    /// Under the rule's name: its path, and what it searches for.
    pub subtitle: String,
    pub deletion_mode: String,
    /// The "Subfolder Search" line, when the rule searches.
    pub search: Option<String>,
    /// The "File Pattern" line, when the rule has a pattern.
    pub pattern: Option<String>,
    /// The "Minimum Age" line, when the rule has one.
    pub min_age: Option<String>,
}

pub open spec fn mode_description(m: DeletionMode) -> Seq<char> {
    match m {
        DeletionMode::FilesOnly => "Delete files but keep folder structure"@,
        DeletionMode::FilesAndDirectories => "Delete everything including folders"@,
    }
}

/// The lines shown in a custom rule's row.
pub fn rule_row_text(rule: &CustomRule) -> (r: RuleRowText)
    ensures
        r.subtitle@ == match search_name(rule) {
            Some(n) => rule.path@ + " \u{2022} searching subfolders matching \""@ + n + "\""@,
            None => rule.path@,
        },
        r.deletion_mode@ == mode_description(rule.deletion_mode),
        match search_name(rule) {
            Some(n) => r.search matches Some(t) && t@ == "Rescans \""@ + rule.path@ + "\" for folders matching \""@ + n
                + "\" on every scan"@,
            None => r.search is None,
        },
        match rule.file_pattern {
            Some(p) => r.pattern matches Some(t) && t@ == p@,
            None => r.pattern is None,
        },
        rule.min_age_days > 0 ==> (r.min_age matches Some(t) && t@ == decimal(rule.min_age_days as nat) + " days"@),
        rule.min_age_days == 0 ==> r.min_age is None,
{
    let name: Option<String> = match &rule.subfolder_name {
        Some(n) => {
            let c = chars_of(n.as_str());
            let t = trim_chars(c.as_slice());
            if t.len() > 0 {
                Some(string_from_chars(t.as_slice()))
            } else {
                None
            }
        },
        None => None,
    };
    let (subtitle, search) = match &name {
        Some(n) => {
            let a = concat(rule.path.as_str(), " \u{2022} searching subfolders matching \"");
            let b = concat(a.as_str(), n.as_str());
            let subtitle = concat(b.as_str(), "\"");
            let c = concat("Rescans \"", rule.path.as_str());
            let d = concat(c.as_str(), "\" for folders matching \"");
            let e = concat(d.as_str(), n.as_str());
            let search = concat(e.as_str(), "\" on every scan");
            (subtitle, Some(search))
        },
        None => (rule.path.clone(), None),
    };
    let pattern = match &rule.file_pattern {
        Some(p) => Some(p.clone()),
        None => None,
    };
    let min_age = if rule.min_age_days > 0 {
        let d = decimal_string(rule.min_age_days as u64);
        Some(concat(d.as_str(), " days"))
    } else {
        None
    };
    RuleRowText { subtitle, deletion_mode: owned(rule.deletion_mode.description()), search, pattern, min_age }
}

} // verus!
