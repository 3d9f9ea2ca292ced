//! The cleanup log shown after a cleanup: the headline, the summary, and a
//! detailed text whose item listings are bounded in count and in bytes.
use vstd::prelude::*;
use crate::i18n::{fill_placeholders, spec_translation, tr, tr_args, Catalog};
use crate::outside::byte_size_text;
use crate::scan_result::{pair_texts, CleanResult, ScanResult};
use crate::strings::strs;
use crate::text::{concat, decimal, decimal_string};

verus! {

/// At most this many items are listed in the detailed log.
pub const MAX_LOG_DETAIL_ITEMS: usize = 5000;

/// The detailed log's listings stop before it would exceed this many bytes.
pub const MAX_LOG_DETAIL_BYTES: usize = 2097152;

/// The catalog's translations, when there is one.
pub open spec fn catalog_view(c: Option<&Catalog>) -> Option<Map<Seq<char>, Seq<char>>> {
    match c {
        Some(cat) => Some(cat@),
        None => None,
    }
}

/// `s` translated, or `s` itself.
pub open spec fn trs(c: Option<Map<Seq<char>, Seq<char>>>, s: Seq<char>) -> Seq<char> {
    match c {
        Some(m) => match spec_translation(m, s) {
            Some(t) => t,
            None => s,
        },
        None => s,
    }
}

/// `s` translated, with its placeholders filled in.
pub open spec fn tra(c: Option<Map<Seq<char>, Seq<char>>>, s: Seq<char>, reps: Seq<(Seq<char>, Seq<char>)>) -> Seq<char> {
    fill_placeholders(trs(c, s), reps)
}

// ---------------------------------------------------------------------------
// Byte lengths
// ---------------------------------------------------------------------------
/// The bytes a character takes in UTF-8 (`char::len_utf8`).
pub open spec fn char_bytes(c: char) -> nat {
    if (c as u32) < 0x80 {
        1
    } else if (c as u32) < 0x800 {
        2
    } else if (c as u32) < 0x10000 {
        3
    } else {
        4
    }
}

/// The bytes a text takes in UTF-8 (`str::len`).
pub open spec fn byte_len(s: Seq<char>) -> nat
    decreases s.len(),
{
    if s.len() == 0 {
        0
    } else {
        byte_len(s.drop_last()) + char_bytes(s.last())
    }
}

proof fn lemma_byte_len_concat(a: Seq<char>, b: Seq<char>)
    ensures
        byte_len(a + b) == byte_len(a) + byte_len(b),
    decreases b.len(),
{
    if b.len() == 0 {
        assert(a + b =~= a);
    } else {
        lemma_byte_len_concat(a, b.drop_last());
        assert((a + b).drop_last() =~= a + b.drop_last());
    }
}

pub open spec fn saturated(n: int) -> int {
    if n > usize::MAX {
        usize::MAX as int
    } else {
        n
    }
}

/// The UTF-8 length of `s`, saturating at `usize::MAX`.
fn utf8_length(s: &str) -> (r: usize)
    ensures
        r == saturated(byte_len(s@) as int),
{
    let mut n: usize = 0;
    let ghost sv = s@;
    for c in iter: s.chars()
        invariant
            iter.seq() == sv,
            sv == s@,
            n == saturated(byte_len(sv.take(iter.index() as int)) as int),
    {
        let ghost idx = iter.index();
        assert(sv.take(idx + 1).drop_last() =~= sv.take(idx as int));
        assert(sv.take(idx + 1).last() == c);
        let w: usize = if (c as u32) < 0x80 {
            1
        } else if (c as u32) < 0x800 {
            2
        } else if (c as u32) < 0x10000 {
            3
        } else {
            4
        };
        n = n.saturating_add(w);
    }
    assert(sv.take(sv.len() as int) =~= sv);
    n
}

/// A text being built, with its UTF-8 length (saturating) kept alongside.
pub struct LogText {
    text: String,
    bytes: usize,
}

impl LogText {
    pub closed spec fn content(&self) -> Seq<char> {
        self.text@
    }

    pub closed spec fn wf(&self) -> bool {
        self.bytes == saturated(byte_len(self.text@) as int)
    }

    pub fn new() -> (r: Self)
        ensures
            r.wf(),
            r.content() == Seq::<char>::empty(),
    {
        LogText { text: String::new(), bytes: 0 }
    }

    /// Appends `s`.
    pub fn push_text(&mut self, s: &str)
        requires
            old(self).wf(),
        ensures
            final(self).wf(),
            final(self).content() == old(self).content() + s@,
    {
        let w = utf8_length(s);
        proof {
            lemma_byte_len_concat(self.text@, s@);
        }
        self.bytes = self.bytes.saturating_add(w);
        self.text.append(s);
    }

    /// Appends `s` and a line feed (`writeln!`).
    pub fn push_line(&mut self, s: &str)
        requires
            old(self).wf(),
        ensures
            final(self).wf(),
            final(self).content() == old(self).content() + s@ + seq!['\n'],
    {
        self.push_text(s);
        self.push_text("\n");
        proof {
            reveal_strlit("\n");
        }
    }

    /// Appends `line` unless the text would exceed the detail byte limit;
    /// tells whether it did.
    pub fn push_detail_line(&mut self, line: &str) -> (r: bool)
        requires
            old(self).wf(),
        ensures
            final(self).wf(),
            r == (byte_len(old(self).content()) + byte_len(line@) <= MAX_LOG_DETAIL_BYTES),
            r ==> final(self).content() == old(self).content() + line@,
            !r ==> final(self).content() == old(self).content(),
    {
        let w = utf8_length(line);
        if self.bytes.saturating_add(w) > MAX_LOG_DETAIL_BYTES {
            return false;
        }
        self.push_text(line);
        true
    }

    /// The text built.
    pub fn into_string(self) -> (r: String)
        ensures
            r@ == self.content(),
    {
        self.text
    }
}

// ---------------------------------------------------------------------------
// Detail sections
// ---------------------------------------------------------------------------
/// The detail lines pushed from position `i` on, with `budget` items left:
/// the log after them, the budget left, and how many were shown. A line that
/// would exceed the byte limit ends the listing and uses up the budget.
pub open spec fn push_details(log: Seq<char>, budget: nat, lines: Seq<Seq<char>>, i: nat) -> (
    Seq<char>,
    nat,
    nat,
)
    decreases lines.len() - i,
{
    if i >= lines.len() || budget == 0 {
        (log, budget, 0)
    } else if byte_len(log) + byte_len(lines[i as int]) > MAX_LOG_DETAIL_BYTES {
        (log, 0, 0)
    } else {
        let r = push_details(log + lines[i as int], (budget - 1) as nat, lines, i + 1);
        (r.0, r.1, r.2 + 1)
    }
}

/// The note on items left out of a listing, if any were.
pub open spec fn omitted_text(c: Option<Map<Seq<char>, Seq<char>>>, omitted: nat) -> Seq<char> {
    if omitted > 0 {
        tra(
            c,
            "  [TRUNCATED] {omitted} additional entries omitted from the in-app log"@,
            seq![("{omitted}"@, decimal(omitted))],
        ) + seq!['\n']
    } else {
        Seq::<char>::empty()
    }
}

/// A listing: its heading with the item count, then `None` for no items, or
/// the item lines within the budget and a note on those left out.
pub open spec fn detail_section(
    c: Option<Map<Seq<char>, Seq<char>>>,
    log: Seq<char>,
    budget: nat,
    heading: Seq<char>,
    lines: Seq<Seq<char>>,
) -> (Seq<char>, nat) {
    let head = log + tra(
        c,
        "\n{heading} ({count})"@,
        seq![("{heading}"@, trs(c, heading)), ("{count}"@, decimal(lines.len()))],
    ) + seq!['\n'];
    if lines.len() == 0 {
        (head + trs(c, "  None"@) + seq!['\n'], budget)
    } else {
        let r = push_details(head, budget, lines, 0);
        (r.0 + omitted_text(c, (lines.len() - r.2) as nat), r.1)
    }
}

proof fn lemma_push_details_shown(log: Seq<char>, budget: nat, lines: Seq<Seq<char>>, i: nat)
    requires
        i <= lines.len(),
    ensures
        push_details(log, budget, lines, i).2 <= lines.len() - i,
        push_details(log, budget, lines, i).1 <= budget,
    decreases lines.len() - i,
{
    if i < lines.len() && budget > 0 && byte_len(log) + byte_len(lines[i as int]) <= MAX_LOG_DETAIL_BYTES {
        lemma_push_details_shown(log + lines[i as int], (budget - 1) as nat, lines, i + 1);
    }
}

pub(crate) fn tr_with(catalog: Option<&Catalog>, template: &str, reps: &[(&str, &str)]) -> (r: String)
    ensures
        r@ == tra(catalog_view(catalog), template@, crate::i18n::rep_views(reps@)),
{
    tr_args(catalog, template, reps)
}

/// Appends a listing of `lines` under `heading` (see `detail_section`).
pub fn append_section(
    log: &mut LogText,
    budget: &mut usize,
    catalog: Option<&Catalog>,
    heading: &str,
    lines: &Vec<String>,
)
    requires
        old(log).wf(),
    ensures
        final(log).wf(),
        (final(log).content(), *final(budget) as nat) == detail_section(
            catalog_view(catalog),
            old(log).content(),
            *old(budget) as nat,
            heading@,
            strs(lines@),
        ),
{
    let ghost c = catalog_view(catalog);
    let ghost lv = strs(lines@);
    let th = tr(catalog, heading);
    let count = decimal_string(lines.len() as u64);
    let reps = [("{heading}", th.as_str()), ("{count}", count.as_str())];
    proof {
        assert(crate::i18n::rep_views(reps@) =~= seq![
            ("{heading}"@, trs(c, heading@)),
            ("{count}"@, decimal(lv.len())),
        ]);
    }
    let head = tr_with(catalog, "\n{heading} ({count})", &reps);
    log.push_line(head.as_str());
    if lines.len() == 0 {
        let none = tr(catalog, "  None");
        log.push_line(none.as_str());
        return;
    }
    let ghost head_log = log.content();
    let ghost t = push_details(head_log, *budget as nat, lv, 0);
    let mut i: usize = 0;
    while i < lines.len() && *budget > 0
        invariant
            0 <= i <= lines@.len(),
            lv == strs(lines@),
            log.wf(),
            ({
                let r = push_details(log.content(), *budget as nat, lv, i as nat);
                r.0 == t.0 && r.1 == t.1 && r.2 + i == t.2
            }),
        decreases lines@.len() - i, *budget,
    {
        assert(lv[i as int] == lines@[i as int]@);
        if !log.push_detail_line(lines[i].as_str()) {
            *budget = 0;
        } else {
            *budget -= 1;
            i += 1;
        }
    }
    proof {
        lemma_push_details_shown(head_log, *old(budget) as nat, lv, 0);
    }
    let omitted = lines.len() - i;
    if omitted > 0 {
        let o = decimal_string(omitted as u64);
        let oreps = [("{omitted}", o.as_str())];
        proof {
            assert(crate::i18n::rep_views(oreps@) =~= seq![("{omitted}"@, decimal(omitted as nat))]);
        }
        let note = tr_with(
            catalog,
            "  [TRUNCATED] {omitted} additional entries omitted from the in-app log",
            &oreps,
        );
        log.push_line(note.as_str());
    }
}

/// The line listing one path.
pub open spec fn path_line(c: Option<Map<Seq<char>, Seq<char>>>, status: Seq<char>, path: Seq<char>) -> Seq<char> {
    tra(c, "  [{status}] {path}\n"@, seq![("{status}"@, trs(c, status)), ("{path}"@, path)])
}

/// The lines listing one path with its reason.
pub open spec fn reason_line(
    c: Option<Map<Seq<char>, Seq<char>>>,
    status: Seq<char>,
    path: Seq<char>,
    reason: Seq<char>,
) -> Seq<char> {
    tra(
        c,
        "  [{status}] {path}\n    Reason: {reason}\n"@,
        seq![("{status}"@, trs(c, status)), ("{path}"@, path), ("{reason}"@, reason)],
    )
}

/// The line listing one message.
pub open spec fn message_line(c: Option<Map<Seq<char>, Seq<char>>>, status: Seq<char>, message: Seq<char>) -> Seq<char> {
    tra(c, "  [{status}] {message}\n"@, seq![("{status}"@, trs(c, status)), ("{message}"@, message)])
}

/// Appends a listing of `paths` under `heading`, each marked `status`.
pub fn append_paths(
    log: &mut LogText,
    catalog: Option<&Catalog>,
    heading: &str,
    status: &str,
    paths: &Vec<String>,
    budget: &mut usize,
)
    requires
        old(log).wf(),
    ensures
        final(log).wf(),
        (final(log).content(), *final(budget) as nat) == detail_section(
            catalog_view(catalog),
            old(log).content(),
            *old(budget) as nat,
            heading@,
            strs(paths@).map_values(|p: Seq<char>| path_line(catalog_view(catalog), status@, p)),
        ),
{
    let ghost c = catalog_view(catalog);
    let st = tr(catalog, status);
    let mut lines: Vec<String> = Vec::new();
    let mut i: usize = 0;
    while i < paths.len()
        invariant
            0 <= i <= paths@.len(),
            c == catalog_view(catalog),
            st@ == trs(c, status@),
            strs(lines@) == strs(paths@).take(i as int).map_values(|p: Seq<char>| path_line(c, status@, p)),
        decreases paths@.len() - i,
    {
        let reps = [("{status}", st.as_str()), ("{path}", paths[i].as_str())];
        proof {
            assert(crate::i18n::rep_views(reps@) =~= seq![("{status}"@, trs(c, status@)), ("{path}"@, paths@[i as int]@)]);
        }
        let line = tr_with(catalog, "  [{status}] {path}\n", &reps);
        let ghost before = strs(lines@);
        lines.push(line);
        assert(strs(lines@) =~= before.push(path_line(c, status@, paths@[i as int]@)));
        i += 1;
        assert(strs(paths@).take(i as int).map_values(|p: Seq<char>| path_line(c, status@, p))
            =~= strs(paths@).take(i - 1).map_values(|p: Seq<char>| path_line(c, status@, p)).push(
            path_line(c, status@, paths@[i - 1]@),
        ));
    }
    assert(strs(paths@).take(paths@.len() as int) =~= strs(paths@));
    append_section(log, budget, catalog, heading, &lines);
}

/// Appends a listing of `entries` (path and reason) under `heading`, each
/// marked `status`.
pub fn append_path_reasons(
    log: &mut LogText,
    catalog: Option<&Catalog>,
    heading: &str,
    status: &str,
    entries: &Vec<(String, String)>,
    budget: &mut usize,
)
    requires
        old(log).wf(),
    ensures
        final(log).wf(),
        (final(log).content(), *final(budget) as nat) == detail_section(
            catalog_view(catalog),
            old(log).content(),
            *old(budget) as nat,
            heading@,
            pair_texts(entries@).map_values(
                |e: (Seq<char>, Seq<char>)| reason_line(catalog_view(catalog), status@, e.0, e.1),
            ),
        ),
{
    let ghost c = catalog_view(catalog);
    let ghost pv = pair_texts(entries@);
    let st = tr(catalog, status);
    let mut lines: Vec<String> = Vec::new();
    let mut i: usize = 0;
    while i < entries.len()
        invariant
            0 <= i <= entries@.len(),
            c == catalog_view(catalog),
            pv == pair_texts(entries@),
            st@ == trs(c, status@),
            strs(lines@) == pv.take(i as int).map_values(
                |e: (Seq<char>, Seq<char>)| reason_line(c, status@, e.0, e.1),
            ),
        decreases entries@.len() - i,
    {
        let reps = [
            ("{status}", st.as_str()),
            ("{path}", entries[i].0.as_str()),
            ("{reason}", entries[i].1.as_str()),
        ];
        proof {
            assert(crate::i18n::rep_views(reps@) =~= seq![
                ("{status}"@, trs(c, status@)),
                ("{path}"@, pv[i as int].0),
                ("{reason}"@, pv[i as int].1),
            ]);
        }
        let line = tr_with(catalog, "  [{status}] {path}\n    Reason: {reason}\n", &reps);
        let ghost before = strs(lines@);
        lines.push(line);
        assert(strs(lines@) =~= before.push(reason_line(c, status@, pv[i as int].0, pv[i as int].1)));
        i += 1;
        assert(pv.take(i as int).map_values(|e: (Seq<char>, Seq<char>)| reason_line(c, status@, e.0, e.1))
            =~= pv.take(i - 1).map_values(
            |e: (Seq<char>, Seq<char>)| reason_line(c, status@, e.0, e.1),
        ).push(reason_line(c, status@, pv[i - 1].0, pv[i - 1].1)));
    }
    assert(pv.take(entries@.len() as int) =~= pv);
    append_section(log, budget, catalog, heading, &lines);
}

/// Appends a listing of `messages` under `heading`, each marked `status`.
pub fn append_messages(
    log: &mut LogText,
    catalog: Option<&Catalog>,
    heading: &str,
    status: &str,
    messages: &Vec<String>,
    budget: &mut usize,
)
    requires
        old(log).wf(),
    ensures
        final(log).wf(),
        (final(log).content(), *final(budget) as nat) == detail_section(
            catalog_view(catalog),
            old(log).content(),
            *old(budget) as nat,
            heading@,
            strs(messages@).map_values(|m: Seq<char>| message_line(catalog_view(catalog), status@, m)),
        ),
{
    let ghost c = catalog_view(catalog);
    let st = tr(catalog, status);
    let mut lines: Vec<String> = Vec::new();
    let mut i: usize = 0;
    while i < messages.len()
        invariant
            0 <= i <= messages@.len(),
            c == catalog_view(catalog),
            st@ == trs(c, status@),
            strs(lines@) == strs(messages@).take(i as int).map_values(
                |m: Seq<char>| message_line(c, status@, m),
            ),
        decreases messages@.len() - i,
    {
        let reps = [("{status}", st.as_str()), ("{message}", messages[i].as_str())];
        proof {
            assert(crate::i18n::rep_views(reps@) =~= seq![
                ("{status}"@, trs(c, status@)),
                ("{message}"@, messages@[i as int]@),
            ]);
        }
        let line = tr_with(catalog, "  [{status}] {message}\n", &reps);
        let ghost before = strs(lines@);
        lines.push(line);
        assert(strs(lines@) =~= before.push(message_line(c, status@, messages@[i as int]@)));
        i += 1;
        assert(strs(messages@).take(i as int).map_values(|m: Seq<char>| message_line(c, status@, m))
            =~= strs(messages@).take(i - 1).map_values(|m: Seq<char>| message_line(c, status@, m)).push(
            message_line(c, status@, messages@[i - 1]@),
        ));
    }
    assert(strs(messages@).take(messages@.len() as int) =~= strs(messages@));
    append_section(log, budget, catalog, heading, &lines);
}

// ---------------------------------------------------------------------------
// The whole log
// ---------------------------------------------------------------------------
/// How many notices a cleanup left: failed and skipped items of the cleanup,
/// skipped items, security notices and errors of the scan, and a failed
/// journal cleanup.
pub open spec fn spec_issue_count(clean: &CleanResult, scan: &ScanResult, journal_failed: bool) -> int {
    clean.failed@.len() + clean.skipped@.len() + scan.skipped@.len() + scan.security_violations@.len()
        + scan.errors@.len() + if journal_failed {
        1int
    } else {
        0int
    }
}

/// The cleanup's status, as shown.
pub open spec fn spec_status(c: Option<Map<Seq<char>, Seq<char>>>, clean: &CleanResult, issues: int) -> Seq<char> {
    if clean.blocked_reason is Some {
        trs(c, "Blocked"@)
    } else if clean.cancelled {
        trs(c, "Cancelled"@)
    } else if issues > 0 {
        trs(c, "Completed with notices"@)
    } else {
        trs(c, "Completed successfully"@)
    }
}

/// How the cleanup was started, as shown.
pub open spec fn spec_mode(c: Option<Map<Seq<char>, Seq<char>>>, automatic: bool) -> Seq<char> {
    if automatic {
        trs(c, "Scheduled"@)
    } else {
        trs(c, "Manual"@)
    }
}

/// Whether the journal cleanup failed.
pub open spec fn journal_failed(journal: Option<&Result<String, String>>) -> bool {
    match journal {
        Some(Err(_)) => true,
        _ => false,
    }
}

/// What a cleanup log says, before its listings.
pub struct LogSummary {
    pub issue_count: usize,
    pub status: String,
    pub mode: String,
}

/// The number of notices, the status and the mode of a cleanup.
pub fn log_summary(
    catalog: Option<&Catalog>,
    clean: &CleanResult,
    scan: &ScanResult,
    journal: Option<&Result<String, String>>,
    automatic: bool,
) -> (r: LogSummary)
    requires
        spec_issue_count(clean, scan, journal_failed(journal)) <= usize::MAX,
    ensures
        r.issue_count == spec_issue_count(clean, scan, journal_failed(journal)),
        r.status@ == spec_status(catalog_view(catalog), clean, r.issue_count as int),
        r.mode@ == spec_mode(catalog_view(catalog), automatic),
{
    let failed_journal: usize = match journal {
        Some(Err(_)) => 1,
        _ => 0,
    };
    let issue_count = clean.failed.len() + clean.skipped.len() + scan.skipped.len()
        + scan.security_violations.len() + scan.errors.len() + failed_journal;
    let status = if clean.blocked_reason.is_some() {
        tr(catalog, "Blocked")
    } else if clean.cancelled {
        tr(catalog, "Cancelled")
    } else if issue_count > 0 {
        tr(catalog, "Completed with notices")
    } else {
        tr(catalog, "Completed successfully")
    };
    let mode = if automatic {
        tr(catalog, "Scheduled")
    } else {
        tr(catalog, "Manual")
    };
    LogSummary { issue_count, status, mode }
}

/// The headline: how the cleanup was started and when it completed.
pub fn completed_label_text(catalog: Option<&Catalog>, mode: &str, time: &str) -> (r: String)
    ensures
        r@ == tra(catalog_view(catalog), "{mode} cleanup · {time}"@, seq![("{mode}"@, mode@), ("{time}"@, time@)]),
{
    let reps = [("{mode}", mode), ("{time}", time)];
    assert(crate::i18n::rep_views(reps@) =~= seq![("{mode}"@, mode@), ("{time}"@, time@)]);
    tr_with(catalog, "{mode} cleanup · {time}", &reps)
}

/// The summary line: status, removed files and folders, space freed and
/// notices.
pub fn summary_label_text(catalog: Option<&Catalog>, status: &str, clean: &CleanResult, issue_count: usize) -> (r: String)
    ensures
        r@ == tra(
            catalog_view(catalog),
            "{status} · {files} files and {folders} folders removed · {size} freed · {notices} notices"@,
            seq![
                ("{status}"@, status@),
                ("{files}"@, decimal(clean.deleted_files@.len())),
                ("{folders}"@, decimal(clean.deleted_directories@.len())),
                ("{size}"@, byte_size_text(clean.bytes_freed)),
                ("{notices}"@, decimal(issue_count as nat)),
            ],
        ),
{
    let files = decimal_string(clean.deleted_files.len() as u64);
    let folders = decimal_string(clean.deleted_directories.len() as u64);
    let size = clean.formatted_bytes_freed();
    let notices = decimal_string(issue_count as u64);
    let reps = [
        ("{status}", status),
        ("{files}", files.as_str()),
        ("{folders}", folders.as_str()),
        ("{size}", size.as_str()),
        ("{notices}", notices.as_str()),
    ];
    assert(crate::i18n::rep_views(reps@) =~= seq![
        ("{status}"@, status@),
        ("{files}"@, decimal(clean.deleted_files@.len())),
        ("{folders}"@, decimal(clean.deleted_directories@.len())),
        ("{size}"@, byte_size_text(clean.bytes_freed)),
        ("{notices}"@, decimal(issue_count as nat)),
    ]);
    tr_with(
        catalog,
        "{status} · {files} files and {folders} folders removed · {size} freed · {notices} notices",
        &reps,
    )
}

/// The lines at the head of the log, each ending in a line feed.
pub open spec fn header_text(
    c: Option<Map<Seq<char>, Seq<char>>>,
    clean: &CleanResult,
    scan: &ScanResult,
    mode: Seq<char>,
    status: Seq<char>,
    time: Seq<char>,
) -> Seq<char> {
    trs(c, "DATA CLEANER — CLEANUP LOG"@) + seq!['\n']
        + tra(c, "Completed: {time}"@, seq![("{time}"@, time)]) + seq!['\n']
        + tra(c, "Mode: {mode}"@, seq![("{mode}"@, mode)]) + seq!['\n']
        + tra(c, "Status: {status}"@, seq![("{status}"@, status)]) + seq!['\n']
        + tra(c, "Space freed: {size}"@, seq![("{size}"@, byte_size_text(clean.bytes_freed))]) + seq!['\n']
        + tra(c, "Deleted files: {count}"@, seq![("{count}"@, decimal(clean.deleted_files@.len()))]) + seq!['\n']
        + tra(c, "Deleted folders: {count}"@, seq![("{count}"@, decimal(clean.deleted_directories@.len()))]) + seq!['\n']
        + tra(c, "Failed items: {count}"@, seq![("{count}"@, decimal(clean.failed@.len()))]) + seq!['\n']
        + tra(c, "Skipped items: {count}"@, seq![("{count}"@, decimal(clean.skipped@.len() + scan.skipped@.len()))]) + seq!['\n']
        + match clean.blocked_reason {
            Some(reason) => tra(c, "\nBLOCKED\n  {reason}"@, seq![("{reason}"@, reason@)]) + seq!['\n'],
            None => Seq::<char>::empty(),
        }
}

/// The journal part that closes the log.
pub open spec fn journal_text(
    c: Option<Map<Seq<char>, Seq<char>>>,
    clean: &CleanResult,
    journal: Option<&Result<String, String>>,
    automatic: bool,
    journal_enabled: bool,
) -> Seq<char> {
    trs(c, "\nSYSTEM JOURNAL"@) + seq!['\n'] + match journal {
        Some(Ok(m)) => tra(c, "  [CLEANED] {message}"@, seq![("{message}"@, m@)]),
        Some(Err(e)) => tra(c, "  [FAILED] {error}"@, seq![("{error}"@, e@)]),
        None => if journal_enabled && automatic {
            trs(c, "  [SKIPPED] Scheduled cleanup cannot request administrator approval"@)
        } else if journal_enabled && clean.cancelled {
            trs(c, "  [SKIPPED] Cleanup was cancelled"@)
        } else if journal_enabled && clean.blocked_reason is Some {
            trs(c, "  [SKIPPED] Cleanup was blocked"@)
        } else if journal_enabled {
            trs(c, "  [NOT RUN] No journal result was returned"@)
        } else {
            trs(c, "  [DISABLED] System journal cleanup was not enabled"@)
        },
    } + seq!['\n']
}

/// The detailed log: the head, then the listings (deleted files, deleted
/// folders, skipped during cleanup, skipped during the scan, failed,
/// security notices, scan errors) sharing one item budget, then the journal.
pub open spec fn spec_log_text(
    c: Option<Map<Seq<char>, Seq<char>>>,
    clean: &CleanResult,
    scan: &ScanResult,
    journal: Option<&Result<String, String>>,
    automatic: bool,
    journal_enabled: bool,
    mode: Seq<char>,
    status: Seq<char>,
    time: Seq<char>,
) -> Seq<char> {
    let h = header_text(c, clean, scan, mode, status, time);
    let deleted = trs(c, "DELETED"@);
    let skipped = trs(c, "SKIPPED"@);
    let s1 = detail_section(c, h, MAX_LOG_DETAIL_ITEMS as nat, trs(c, "DELETED FILES"@),
        strs(clean.deleted_files@).map_values(|p: Seq<char>| path_line(c, deleted, p)));
    let s2 = detail_section(c, s1.0, s1.1, trs(c, "DELETED EMPTY FOLDERS"@),
        strs(clean.deleted_directories@).map_values(|p: Seq<char>| path_line(c, deleted, p)));
    let s3 = detail_section(c, s2.0, s2.1, trs(c, "SKIPPED DURING CLEANUP"@),
        pair_texts(clean.skipped@).map_values(|e: (Seq<char>, Seq<char>)| reason_line(c, skipped, e.0, e.1)));
    let s4 = detail_section(c, s3.0, s3.1, trs(c, "SKIPPED DURING SCAN"@),
        pair_texts(scan.skipped@).map_values(|e: (Seq<char>, Seq<char>)| reason_line(c, skipped, e.0, e.1)));
    let s5 = detail_section(c, s4.0, s4.1, trs(c, "FAILED"@),
        pair_texts(clean.failed@).map_values(|e: (Seq<char>, Seq<char>)| reason_line(c, trs(c, "FAILED"@), e.0, e.1)));
    let s6 = detail_section(c, s5.0, s5.1, trs(c, "SECURITY NOTICES"@),
        strs(scan.security_violations@).map_values(|m: Seq<char>| message_line(c, trs(c, "NOTICE"@), m)));
    let s7 = detail_section(c, s6.0, s6.1, trs(c, "SCAN ERRORS"@),
        strs(scan.errors@).map_values(|m: Seq<char>| message_line(c, trs(c, "ERROR"@), m)));
    s7.0 + journal_text(c, clean, journal, automatic, journal_enabled)
}

/// How many item lines a listing shows.
pub open spec fn shown_in(
    c: Option<Map<Seq<char>, Seq<char>>>,
    log: Seq<char>,
    budget: nat,
    heading: Seq<char>,
    lines: Seq<Seq<char>>,
) -> nat {
    let head = log + tra(
        c,
        "\n{heading} ({count})"@,
        seq![("{heading}"@, trs(c, heading)), ("{count}"@, decimal(lines.len()))],
    ) + seq!['\n'];
    if lines.len() == 0 {
        0
    } else {
        push_details(head, budget, lines, 0).2
    }
}

proof fn lemma_push_details_budget(log: Seq<char>, budget: nat, lines: Seq<Seq<char>>, i: nat)
    requires
        i <= lines.len(),
    ensures
        push_details(log, budget, lines, i).2 + push_details(log, budget, lines, i).1 <= budget,
    decreases lines.len() - i,
{
    if i < lines.len() && budget > 0 && byte_len(log) + byte_len(lines[i as int]) <= MAX_LOG_DETAIL_BYTES {
        lemma_push_details_budget(log + lines[i as int], (budget - 1) as nat, lines, i + 1);
    }
}

/// A listing shows at most as many item lines as its budget allows, and
/// hands on what is left of the budget after them.
pub proof fn lemma_listing_within_budget(
    c: Option<Map<Seq<char>, Seq<char>>>,
    log: Seq<char>,
    budget: nat,
    heading: Seq<char>,
    lines: Seq<Seq<char>>,
)
    ensures
        shown_in(c, log, budget, heading, lines) + detail_section(c, log, budget, heading, lines).1 <= budget,
{
    let head = log + tra(
        c,
        "\n{heading} ({count})"@,
        seq![("{heading}"@, trs(c, heading)), ("{count}"@, decimal(lines.len()))],
    ) + seq!['\n'];
    lemma_push_details_budget(head, budget, lines, 0);
}

/// How many item lines the whole log shows, over its seven listings (see
/// `spec_log_text`).
pub open spec fn log_items_shown(
    c: Option<Map<Seq<char>, Seq<char>>>,
    clean: &CleanResult,
    scan: &ScanResult,
    mode: Seq<char>,
    status: Seq<char>,
    time: Seq<char>,
) -> nat {
    let h = header_text(c, clean, scan, mode, status, time);
    let deleted = trs(c, "DELETED"@);
    let skipped = trs(c, "SKIPPED"@);
    let l1 = strs(clean.deleted_files@).map_values(|p: Seq<char>| path_line(c, deleted, p));
    let l2 = strs(clean.deleted_directories@).map_values(|p: Seq<char>| path_line(c, deleted, p));
    let l3 = pair_texts(clean.skipped@).map_values(|e: (Seq<char>, Seq<char>)| reason_line(c, skipped, e.0, e.1));
    let l4 = pair_texts(scan.skipped@).map_values(|e: (Seq<char>, Seq<char>)| reason_line(c, skipped, e.0, e.1));
    let l5 = pair_texts(clean.failed@).map_values(
        |e: (Seq<char>, Seq<char>)| reason_line(c, trs(c, "FAILED"@), e.0, e.1),
    );
    let l6 = strs(scan.security_violations@).map_values(|m: Seq<char>| message_line(c, trs(c, "NOTICE"@), m));
    let l7 = strs(scan.errors@).map_values(|m: Seq<char>| message_line(c, trs(c, "ERROR"@), m));
    let s1 = detail_section(c, h, MAX_LOG_DETAIL_ITEMS as nat, trs(c, "DELETED FILES"@), l1);
    let s2 = detail_section(c, s1.0, s1.1, trs(c, "DELETED EMPTY FOLDERS"@), l2);
    let s3 = detail_section(c, s2.0, s2.1, trs(c, "SKIPPED DURING CLEANUP"@), l3);
    let s4 = detail_section(c, s3.0, s3.1, trs(c, "SKIPPED DURING SCAN"@), l4);
    let s5 = detail_section(c, s4.0, s4.1, trs(c, "FAILED"@), l5);
    let s6 = detail_section(c, s5.0, s5.1, trs(c, "SECURITY NOTICES"@), l6);
    shown_in(c, h, MAX_LOG_DETAIL_ITEMS as nat, trs(c, "DELETED FILES"@), l1) + shown_in(
        c,
        s1.0,
        s1.1,
        trs(c, "DELETED EMPTY FOLDERS"@),
        l2,
    ) + shown_in(c, s2.0, s2.1, trs(c, "SKIPPED DURING CLEANUP"@), l3) + shown_in(
        c,
        s3.0,
        s3.1,
        trs(c, "SKIPPED DURING SCAN"@),
        l4,
    ) + shown_in(c, s4.0, s4.1, trs(c, "FAILED"@), l5) + shown_in(c, s5.0, s5.1, trs(c, "SECURITY NOTICES"@), l6)
        + shown_in(c, s6.0, s6.1, trs(c, "SCAN ERRORS"@), l7)
}

/// The cleanup log lists at most `MAX_LOG_DETAIL_ITEMS` item lines in all
/// its listings together.
pub proof fn lemma_log_items_bounded(
    c: Option<Map<Seq<char>, Seq<char>>>,
    clean: &CleanResult,
    scan: &ScanResult,
    mode: Seq<char>,
    status: Seq<char>,
    time: Seq<char>,
)
    ensures
        log_items_shown(c, clean, scan, mode, status, time) <= MAX_LOG_DETAIL_ITEMS,
{
    let h = header_text(c, clean, scan, mode, status, time);
    let deleted = trs(c, "DELETED"@);
    let skipped = trs(c, "SKIPPED"@);
    let l1 = strs(clean.deleted_files@).map_values(|p: Seq<char>| path_line(c, deleted, p));
    let l2 = strs(clean.deleted_directories@).map_values(|p: Seq<char>| path_line(c, deleted, p));
    let l3 = pair_texts(clean.skipped@).map_values(|e: (Seq<char>, Seq<char>)| reason_line(c, skipped, e.0, e.1));
    let l4 = pair_texts(scan.skipped@).map_values(|e: (Seq<char>, Seq<char>)| reason_line(c, skipped, e.0, e.1));
    let l5 = pair_texts(clean.failed@).map_values(
        |e: (Seq<char>, Seq<char>)| reason_line(c, trs(c, "FAILED"@), e.0, e.1),
    );
    let l6 = strs(scan.security_violations@).map_values(|m: Seq<char>| message_line(c, trs(c, "NOTICE"@), m));
    let l7 = strs(scan.errors@).map_values(|m: Seq<char>| message_line(c, trs(c, "ERROR"@), m));
    let s1 = detail_section(c, h, MAX_LOG_DETAIL_ITEMS as nat, trs(c, "DELETED FILES"@), l1);
    let s2 = detail_section(c, s1.0, s1.1, trs(c, "DELETED EMPTY FOLDERS"@), l2);
    let s3 = detail_section(c, s2.0, s2.1, trs(c, "SKIPPED DURING CLEANUP"@), l3);
    let s4 = detail_section(c, s3.0, s3.1, trs(c, "SKIPPED DURING SCAN"@), l4);
    let s5 = detail_section(c, s4.0, s4.1, trs(c, "FAILED"@), l5);
    let s6 = detail_section(c, s5.0, s5.1, trs(c, "SECURITY NOTICES"@), l6);
    lemma_listing_within_budget(c, h, MAX_LOG_DETAIL_ITEMS as nat, trs(c, "DELETED FILES"@), l1);
    lemma_listing_within_budget(c, s1.0, s1.1, trs(c, "DELETED EMPTY FOLDERS"@), l2);
    lemma_listing_within_budget(c, s2.0, s2.1, trs(c, "SKIPPED DURING CLEANUP"@), l3);
    lemma_listing_within_budget(c, s3.0, s3.1, trs(c, "SKIPPED DURING SCAN"@), l4);
    lemma_listing_within_budget(c, s4.0, s4.1, trs(c, "FAILED"@), l5);
    lemma_listing_within_budget(c, s5.0, s5.1, trs(c, "SECURITY NOTICES"@), l6);
    lemma_listing_within_budget(c, s6.0, s6.1, trs(c, "SCAN ERRORS"@), l7);
}

fn push_counted(log: &mut LogText, catalog: Option<&Catalog>, template: &str, placeholder: &str, value: &str)
    requires
        old(log).wf(),
    ensures
        final(log).wf(),
        final(log).content() == old(log).content() + tra(catalog_view(catalog), template@, seq![(placeholder@, value@)]) + seq!['\n'],
{
    let reps = [(placeholder, value)];
    assert(crate::i18n::rep_views(reps@) =~= seq![(placeholder@, value@)]);
    let line = tr_with(catalog, template, &reps);
    log.push_line(line.as_str());
}

fn push_header(
    log: &mut LogText,
    catalog: Option<&Catalog>,
    clean: &CleanResult,
    scan: &ScanResult,
    mode: &str,
    status: &str,
    time: &str,
)
    requires
        old(log).wf(),
        old(log).content() == Seq::<char>::empty(),
        clean.skipped@.len() + scan.skipped@.len() <= u64::MAX,
    ensures
        final(log).wf(),
        final(log).content() == header_text(catalog_view(catalog), clean, scan, mode@, status@, time@),
{
    let ghost c = catalog_view(catalog);
    let title = tr(catalog, "DATA CLEANER — CLEANUP LOG");
    log.push_line(title.as_str());
    push_counted(log, catalog, "Completed: {time}", "{time}", time);
    push_counted(log, catalog, "Mode: {mode}", "{mode}", mode);
    push_counted(log, catalog, "Status: {status}", "{status}", status);
    let size = clean.formatted_bytes_freed();
    push_counted(log, catalog, "Space freed: {size}", "{size}", size.as_str());
    let n1 = decimal_string(clean.deleted_files.len() as u64);
    push_counted(log, catalog, "Deleted files: {count}", "{count}", n1.as_str());
    let n2 = decimal_string(clean.deleted_directories.len() as u64);
    push_counted(log, catalog, "Deleted folders: {count}", "{count}", n2.as_str());
    let n3 = decimal_string(clean.failed.len() as u64);
    push_counted(log, catalog, "Failed items: {count}", "{count}", n3.as_str());
    let skipped_total: u64 = clean.skipped.len() as u64 + scan.skipped.len() as u64;
    let n4 = decimal_string(skipped_total);
    push_counted(log, catalog, "Skipped items: {count}", "{count}", n4.as_str());
    match &clean.blocked_reason {
        Some(reason) => {
            push_counted(log, catalog, "\nBLOCKED\n  {reason}", "{reason}", reason.as_str());
        },
        None => {},
    }
    assert(log.content() =~= header_text(c, clean, scan, mode@, status@, time@));
}

fn push_journal(
    log: &mut LogText,
    catalog: Option<&Catalog>,
    clean: &CleanResult,
    journal: Option<&Result<String, String>>,
    automatic: bool,
    journal_enabled: bool,
)
    requires
        old(log).wf(),
    ensures
        final(log).wf(),
        final(log).content() == old(log).content() + journal_text(catalog_view(catalog), clean, journal, automatic, journal_enabled),
{
    let ghost c = catalog_view(catalog);
    let jt = tr(catalog, "\nSYSTEM JOURNAL");
    log.push_line(jt.as_str());
    match journal {
        Some(Ok(message)) => {
            push_counted(log, catalog, "  [CLEANED] {message}", "{message}", message.as_str());
        },
        Some(Err(error)) => {
            push_counted(log, catalog, "  [FAILED] {error}", "{error}", error.as_str());
        },
        None => {
            let line = if journal_enabled && automatic {
                tr(catalog, "  [SKIPPED] Scheduled cleanup cannot request administrator approval")
            } else if journal_enabled && clean.cancelled {
                tr(catalog, "  [SKIPPED] Cleanup was cancelled")
            } else if journal_enabled && clean.blocked_reason.is_some() {
                tr(catalog, "  [SKIPPED] Cleanup was blocked")
            } else if journal_enabled {
                tr(catalog, "  [NOT RUN] No journal result was returned")
            } else {
                tr(catalog, "  [DISABLED] System journal cleanup was not enabled")
            };
            log.push_line(line.as_str());
        },
    }
    assert(log.content() =~= old(log).content() + journal_text(c, clean, journal, automatic, journal_enabled));
}

/// The detailed cleanup log (see `spec_log_text`), given the status and
/// mode of `log_summary` and the completion time as text.
#[verifier::rlimit(40)]
pub fn cleanup_log_text(
    catalog: Option<&Catalog>,
    clean: &CleanResult,
    scan: &ScanResult,
    journal: Option<&Result<String, String>>,
    automatic: bool,
    journal_enabled: bool,
    mode: &str,
    status: &str,
    time: &str,
) -> (r: String)
    requires
        clean.skipped@.len() + scan.skipped@.len() <= u64::MAX,
    ensures
        r@ == spec_log_text(catalog_view(catalog), clean, scan, journal, automatic, journal_enabled, mode@, status@, time@),
{
    let mut log = LogText::new();
    push_header(&mut log, catalog, clean, scan, mode, status, time);
    let mut budget: usize = MAX_LOG_DETAIL_ITEMS;
    let deleted = tr(catalog, "DELETED");
    let skipped = tr(catalog, "SKIPPED");
    let h1 = tr(catalog, "DELETED FILES");
    append_paths(&mut log, catalog, h1.as_str(), deleted.as_str(), &clean.deleted_files, &mut budget);
    let h2 = tr(catalog, "DELETED EMPTY FOLDERS");
    append_paths(&mut log, catalog, h2.as_str(), deleted.as_str(), &clean.deleted_directories, &mut budget);
    let h3 = tr(catalog, "SKIPPED DURING CLEANUP");
    append_path_reasons(&mut log, catalog, h3.as_str(), skipped.as_str(), &clean.skipped, &mut budget);
    let h4 = tr(catalog, "SKIPPED DURING SCAN");
    append_path_reasons(&mut log, catalog, h4.as_str(), skipped.as_str(), &scan.skipped, &mut budget);
    let h5 = tr(catalog, "FAILED");
    append_path_reasons(&mut log, catalog, h5.as_str(), h5.as_str(), &clean.failed, &mut budget);
    let h6 = tr(catalog, "SECURITY NOTICES");
    let st6 = tr(catalog, "NOTICE");
    append_messages(&mut log, catalog, h6.as_str(), st6.as_str(), &scan.security_violations, &mut budget);
    let h7 = tr(catalog, "SCAN ERRORS");
    let st7 = tr(catalog, "ERROR");
    append_messages(&mut log, catalog, h7.as_str(), st7.as_str(), &scan.errors, &mut budget);
    push_journal(&mut log, catalog, clean, journal, automatic, journal_enabled);
    log.into_string()
}

} // verus!
