//! Deleting what a scan found. Every entry is audited against what the file
//! system reports right then; the file system work itself is done by the
//! caller, which runs a cleanup as a sequence of actions (inspect an entry,
//! remove it) and reports each outcome back.
use vstd::prelude::*;
use std::sync::Arc;
use std::sync::atomic::AtomicBool;
use crate::browser::{all_browsers, BrowserType};
use crate::outside::{byte_size_text, cache_dir, config_dir, format_bytes, home_dir};
use crate::paths::{component_count, components, path_has_prefix, path_starts_with};
use crate::scan_result::{
    empty_clean_view, pair_texts, CleanResult, CleanResultView, FileEntry, ScanResult, size_sum,
};
use crate::security::{
    audit_view, canonical_view, deletion_audit_view, final_check, violation_text, AuditView,
    AuditResult, AuditorModel, EntryMetadata, EntryState, Ownership, PathFacts, SecurityAuditor, Violation,
};
use crate::strings::strs;
use crate::text::{concat, decimal, decimal_string, owned};

verus! {

/// Limits above which a cleanup is refused as a whole.
#[derive(Clone, Copy, Debug)]
pub struct CleanOptions {
    pub max_files_per_operation: usize,
    pub max_size_per_operation: u64,
}

impl Default for CleanOptions {
    fn default() -> (r: Self)
        ensures
            r.max_files_per_operation == usize::MAX,
            r.max_size_per_operation == u64::MAX,
    {
        CleanOptions { max_files_per_operation: usize::MAX, max_size_per_operation: u64::MAX }
    }
}

/// Why a cleanup of `file_count` files of `total_size` bytes in all is
/// refused under `o`, if it is.
pub open spec fn refusal(o: CleanOptions, file_count: usize, total_size: u64) -> Option<Seq<char>> {
    if file_count > o.max_files_per_operation {
        Some(
            "Cleanup blocked by safety limit: "@ + decimal(file_count as nat) + " files found, limit is "@
                + decimal(o.max_files_per_operation as nat) + "."@,
        )
    } else if total_size > o.max_size_per_operation {
        Some(
            "Cleanup blocked by safety limit: "@ + byte_size_text(total_size) + " selected, limit is "@
                + byte_size_text(o.max_size_per_operation) + "."@,
        )
    } else {
        None
    }
}

/// Deletes what a scan found, after auditing each entry.
pub struct Cleaner {
    security: SecurityAuditor,
    cancelled: Arc<AtomicBool>,
    options: CleanOptions,
}

/// What the file system reports about one entry of a dry run.
pub struct DeletionProbe {
    pub facts: PathFacts,
    pub ownership: Ownership,
}

/// The model of a `DeletionProbe`.
pub struct ProbeView {
    pub canonical: Result<Seq<char>, Violation>,
    pub mount_point: bool,
    pub symlink: bool,
    pub ownership: Ownership,
}

pub open spec fn probe_view(p: DeletionProbe) -> ProbeView {
    ProbeView {
        canonical: canonical_view(p.facts.canonical),
        mount_point: p.facts.mount_point,
        symlink: p.facts.symlink,
        ownership: p.ownership,
    }
}

pub open spec fn probe_views(v: Seq<DeletionProbe>) -> Seq<ProbeView> {
    Seq::new(v.len(), |i: int| probe_view(v[i]))
}

/// The audit for deletion of an entry, given what the file system reports.
pub open spec fn entry_audit(m: AuditorModel, path: Seq<char>, p: ProbeView) -> AuditView {
    deletion_audit_view(
        audit_view(m, path, p.canonical, p.mount_point, p.symlink),
        m.uid,
        p.ownership,
    )
}

/// One entry of a dry run: counted as deleted when its audit passes,
/// otherwise skipped once for each violation.
pub open spec fn dry_entry(
    m: AuditorModel,
    acc: CleanResultView,
    e: FileEntry,
    p: ProbeView,
    is_file: bool,
) -> CleanResultView {
    let a = entry_audit(m, e.path@, p);
    if a.safe {
        if is_file {
            CleanResultView {
                deleted_files: acc.deleted_files.push(e.path@),
                bytes_freed: acc.bytes_freed + e.size as nat,
                ..acc
            }
        } else {
            CleanResultView { deleted_directories: acc.deleted_directories.push(e.path@), ..acc }
        }
    } else {
        CleanResultView {
            skipped: acc.skipped + a.violations.map_values(
                |v: Violation| (e.path@, violation_text(v)),
            ),
            ..acc
        }
    }
}

/// The first `n` entries of a dry run.
pub open spec fn dry_entries(
    m: AuditorModel,
    acc: CleanResultView,
    es: Seq<FileEntry>,
    ps: Seq<ProbeView>,
    n: nat,
    is_file: bool,
) -> CleanResultView
    decreases n,
{
    if n == 0 {
        acc
    } else {
        dry_entry(
            m,
            dry_entries(m, acc, es, ps, (n - 1) as nat, is_file),
            es[n - 1],
            ps[n - 1],
            is_file,
        )
    }
}

/// A dry run that stopped after `nf` files and `nd` directories (it was
/// cancelled when it stopped before the end of either).
pub open spec fn dry_outcome(
    m: AuditorModel,
    files: Seq<FileEntry>,
    fps: Seq<ProbeView>,
    dirs: Seq<FileEntry>,
    dps: Seq<ProbeView>,
    nf: nat,
    nd: nat,
) -> CleanResultView {
    CleanResultView {
        cancelled: nf < files.len() || nd < dirs.len(),
        ..dry_entries(m, dry_entries(m, empty_clean_view(), files, fps, nf, true), dirs, dps, nd, false)
    }
}

/// The bytes a dry run counts never exceed the sizes of the entries seen.
proof fn lemma_dry_bytes_bounded(
    m: AuditorModel,
    acc: CleanResultView,
    es: Seq<FileEntry>,
    ps: Seq<ProbeView>,
    n: nat,
)
    requires
        n <= es.len(),
    ensures
        dry_entries(m, acc, es, ps, n, true).bytes_freed <= acc.bytes_freed + size_sum(
            es.take(n as int),
        ),
    decreases n,
{
    if n > 0 {
        lemma_dry_bytes_bounded(m, acc, es, ps, (n - 1) as nat);
        assert(es.take(n as int).drop_last() =~= es.take(n - 1));
    }
}

proof fn lemma_size_sum_prefix(es: Seq<FileEntry>, n: int)
    requires
        0 <= n <= es.len(),
    ensures
        size_sum(es.take(n)) <= size_sum(es),
    decreases es.len() - n,
{
    if n < es.len() {
        lemma_size_sum_prefix(es, n + 1);
        assert(es.take(n + 1).drop_last() =~= es.take(n));
    } else {
        assert(es.take(n) =~= es);
    }
}

// ---------------------------------------------------------------------------
// Which browser a path belongs to
// ---------------------------------------------------------------------------
/// The first browser of `table` whose directory `p` lies in.
pub open spec fn table_owner(t: Seq<(BrowserType, Seq<char>)>, p: Seq<char>) -> Option<BrowserType>
    decreases t.len(),
{
    if t.len() == 0 {
        None
    } else if path_starts_with(p, t[0].1) {
        Some(t[0].0)
    } else {
        table_owner(t.drop_first(), p)
    }
}

pub open spec fn table_view(t: Seq<(BrowserType, String)>) -> Seq<(BrowserType, Seq<char>)> {
    Seq::new(t.len(), |i: int| (t[i].0, t[i].1@))
}

/// For each browser in `BrowserType::all` order, its cache directory when the
/// cache directory is known, then its profile directory when home and
/// configuration directories are known.
pub open spec fn browser_table_spec(
    bs: Seq<BrowserType>,
    cache: Option<Seq<char>>,
    home: Option<Seq<char>>,
    config: Option<Seq<char>>,
) -> Seq<(BrowserType, Seq<char>)>
    decreases bs.len(),
{
    if bs.len() == 0 {
        seq![]
    } else {
        let b = bs.last();
        let a = match cache {
            Some(c) => seq![(b, crate::paths::join(c, b.spec_cache_subdir()))],
            None => seq![],
        };
        let z = match (home, config) {
            (Some(h), Some(g)) => seq![(b, b.spec_config_path(h, g))],
            _ => seq![],
        };
        browser_table_spec(bs.drop_last(), cache, home, config) + a + z
    }
}

/// The (browser, directory) table, given the user's directories.
pub fn browser_path_table_in(cache: Option<&str>, home: Option<&str>, config: Option<&str>) -> (r:
    Vec<(BrowserType, String)>)
    ensures
        table_view(r@) == browser_table_spec(
            all_browsers(),
            crate::security::opt_view(cache),
            crate::security::opt_view(home),
            crate::security::opt_view(config),
        ),
{
    let bs = BrowserType::all();
    let ghost c = crate::security::opt_view(cache);
    let ghost h = crate::security::opt_view(home);
    let ghost g = crate::security::opt_view(config);
    let mut out: Vec<(BrowserType, String)> = Vec::new();
    let mut i: usize = 0;
    while i < bs.len()
        invariant
            0 <= i <= bs@.len(),
            bs@ == all_browsers(),
            c == crate::security::opt_view(cache),
            h == crate::security::opt_view(home),
            g == crate::security::opt_view(config),
            table_view(out@) == browser_table_spec(bs@.take(i as int), c, h, g),
        decreases bs@.len() - i,
    {
        let b = bs[i];
        assert(bs@.take(i + 1).drop_last() =~= bs@.take(i as int));
        assert(bs@.take(i + 1).last() == b);
        let ghost before = table_view(out@);
        match cache {
            Some(cd) => {
                let p = b.cache_path_in(cd);
                out.push((b, p));
            },
            None => {},
        }
        match (home, config) {
            (Some(hd), Some(gd)) => {
                let p = b.config_path_in(hd, gd);
                out.push((b, p));
            },
            _ => {},
        }
        let ghost a = match c {
            Some(cc) => seq![(b, crate::paths::join(cc, b.spec_cache_subdir()))],
            None => Seq::<(BrowserType, Seq<char>)>::empty(),
        };
        let ghost z = match (h, g) {
            (Some(hh), Some(gg)) => seq![(b, b.spec_config_path(hh, gg))],
            _ => Seq::<(BrowserType, Seq<char>)>::empty(),
        };
        assert(table_view(out@) =~= before + a + z);
        i += 1;
    }
    assert(bs@.take(bs@.len() as int) =~= bs@);
    out
}

/// The (browser, directory) table for the current user's directories.
pub fn browser_path_table() -> (r: Vec<(BrowserType, String)>)
    ensures
        exists|cache: Option<Seq<char>>, home: Option<Seq<char>>, config: Option<Seq<char>>|
            table_view(r@) == #[trigger] browser_table_spec(all_browsers(), cache, home, config),
{
    let cache = cache_dir();
    let home = home_dir();
    let config = config_dir();
    browser_path_table_in(
        crate::security::borrowed(&cache),
        crate::security::borrowed(&home),
        crate::security::borrowed(&config),
    )
}

/// The browser whose directory `path` lies in, by the first match in `table`.
pub fn browser_for_path(table: &Vec<(BrowserType, String)>, path: &str) -> (r: Option<BrowserType>)
    ensures
        r == table_owner(table_view(table@), path@),
{
    let ghost t = table_view(table@);
    assert(t.skip(0) =~= t);
    let mut i: usize = 0;
    while i < table.len()
        invariant
            0 <= i <= table@.len(),
            t == table_view(table@),
            table_owner(t, path@) == table_owner(t.skip(i as int), path@),
        decreases table@.len() - i,
    {
        assert(t.skip(i as int)[0] == t[i as int]);
        assert(t.skip(i as int).drop_first() =~= t.skip(i + 1));
        if path_has_prefix(path, table[i].1.as_str()) {
            return Some(table[i].0);
        }
        i += 1;
    }
    None
}

// ---------------------------------------------------------------------------
// Directories deepest first
// ---------------------------------------------------------------------------
pub open spec fn depth(e: FileEntry) -> nat {
    components(e.path@).len()
}

/// `x` inserted into `sorted` after every entry at least as deep.
pub open spec fn insert_by_depth(sorted: Seq<FileEntry>, x: FileEntry) -> Seq<FileEntry>
    decreases sorted.len(),
{
    if sorted.len() == 0 {
        seq![x]
    } else if depth(sorted[0]) < depth(x) {
        seq![x] + sorted
    } else {
        seq![sorted[0]] + insert_by_depth(sorted.drop_first(), x)
    }
}

/// The entries ordered from the deepest path to the shallowest, entries of
/// equal depth in their original order (a stable sort by depth, descending).
pub open spec fn deepest_first(s: Seq<FileEntry>) -> Seq<FileEntry>
    decreases s.len(),
{
    if s.len() == 0 {
        s
    } else {
        insert_by_depth(deepest_first(s.drop_last()), s.last())
    }
}

/// Inserting at the first position whose entry is shallower than `x` is
/// `insert_by_depth`.
proof fn lemma_insert_at_first_shallower(sorted: Seq<FileEntry>, x: FileEntry, k: int)
    requires
        0 <= k <= sorted.len(),
        forall|j: int| 0 <= j < k ==> depth(#[trigger] sorted[j]) >= depth(x),
        k < sorted.len() ==> depth(sorted[k]) < depth(x),
    ensures
        insert_by_depth(sorted, x) == sorted.insert(k, x),
    decreases sorted.len(),
{
    if sorted.len() == 0 {
        assert(sorted.insert(k, x) =~= seq![x]);
    } else if k == 0 {
        assert(sorted.insert(0, x) =~= seq![x] + sorted);
    } else {
        let rest = sorted.drop_first();
        assert forall|j: int| 0 <= j < k - 1 implies depth(#[trigger] rest[j]) >= depth(x) by {
            assert(rest[j] == sorted[j + 1]);
        }
        lemma_insert_at_first_shallower(rest, x, k - 1);
        assert(sorted.insert(k, x) =~= seq![sorted[0]] + rest.insert(k - 1, x));
    }
}

/// Inserting into a list ordered deepest first keeps it so.
proof fn lemma_insert_keeps_order(sorted: Seq<FileEntry>, x: FileEntry)
    requires
        forall|i: int, j: int| 0 <= i < j < sorted.len() ==> depth(#[trigger] sorted[i]) >= depth(
            #[trigger] sorted[j],
        ),
    ensures
        forall|i: int, j: int|
            0 <= i < j < insert_by_depth(sorted, x).len() ==> depth(
                #[trigger] insert_by_depth(sorted, x)[i],
            ) >= depth(#[trigger] insert_by_depth(sorted, x)[j]),
        insert_by_depth(sorted, x).to_multiset() == sorted.to_multiset().insert(x),
    decreases sorted.len(),
{
    broadcast use vstd::seq_lib::group_to_multiset_ensures;
    if sorted.len() == 0 {
        assert(insert_by_depth(sorted, x) =~= seq![x]);
        assert(seq![x] =~= Seq::<FileEntry>::empty().push(x));
    } else if depth(sorted[0]) < depth(x) {
        let r = seq![x] + sorted;
        assert(r =~= sorted.insert(0, x));
        assert forall|i: int, j: int| 0 <= i < j < r.len() implies depth(#[trigger] r[i]) >= depth(
            #[trigger] r[j],
        ) by {
            if i == 0 {
                assert(depth(sorted[0]) >= depth(sorted[j - 1]) || j - 1 == 0);
            } else {
                assert(r[i] == sorted[i - 1] && r[j] == sorted[j - 1]);
            }
        }
        vstd::seq_lib::lemma_seq_union_to_multiset_commutative(seq![x], sorted);
        assert(seq![x] =~= Seq::<FileEntry>::empty().push(x));
    } else {
        let rest = sorted.drop_first();
        lemma_insert_keeps_order(rest, x);
        let ir = insert_by_depth(rest, x);
        let r = seq![sorted[0]] + ir;
        assert forall|i: int, j: int| 0 <= i < j < r.len() implies depth(#[trigger] r[i]) >= depth(
            #[trigger] r[j],
        ) by {
            if i == 0 {
                assert(r[j] == ir[j - 1]);
                assert(ir.to_multiset().count(ir[j - 1]) > 0);
                assert(ir.to_multiset().count(ir[j - 1]) == rest.to_multiset().insert(x).count(
                    ir[j - 1],
                ));
                if ir[j - 1] != x {
                    assert(rest.to_multiset().count(ir[j - 1]) > 0);
                    let w = choose|w: int| 0 <= w < rest.len() && rest[w] == ir[j - 1];
                    assert(sorted[w + 1] == rest[w]);
                }
            } else {
                assert(r[i] == ir[i - 1] && r[j] == ir[j - 1]);
            }
        }
        assert(sorted =~= seq![sorted[0]] + rest);
        vstd::seq_lib::lemma_multiset_commutative(seq![sorted[0]], ir);
        vstd::seq_lib::lemma_multiset_commutative(seq![sorted[0]], rest);
    }
}

/// `deepest_first` is ordered by depth, descending, and holds the same
/// entries.
pub proof fn lemma_deepest_first_sorted(s: Seq<FileEntry>)
    ensures
        forall|i: int, j: int|
            0 <= i < j < deepest_first(s).len() ==> depth(#[trigger] deepest_first(s)[i]) >= depth(
                #[trigger] deepest_first(s)[j],
            ),
        deepest_first(s).to_multiset() == s.to_multiset(),
    decreases s.len(),
{
    broadcast use vstd::seq_lib::group_to_multiset_ensures;
    if s.len() > 0 {
        lemma_deepest_first_sorted(s.drop_last());
        lemma_insert_keeps_order(deepest_first(s.drop_last()), s.last());
        assert(s =~= s.drop_last().push(s.last()));
    }
}

/// The entries ordered deepest first (see `deepest_first`).
pub fn sort_deepest_first(entries: &Vec<FileEntry>) -> (r: Vec<FileEntry>)
    ensures
        r@ == deepest_first(entries@),
{
    let mut out: Vec<FileEntry> = Vec::new();
    let mut depths: Vec<usize> = Vec::new();
    let mut i: usize = 0;
    while i < entries.len()
        invariant
            0 <= i <= entries@.len(),
            out@ == deepest_first(entries@.take(i as int)),
            depths@.len() == out@.len(),
            forall|k: int| 0 <= k < out@.len() ==> depths@[k] == depth(#[trigger] out@[k]),
        decreases entries@.len() - i,
    {
        let x = entries[i].duplicate();
        let d = component_count(x.path.as_str());
        let mut k: usize = 0;
        while k < depths.len() && depths[k] >= d
            invariant
                0 <= k <= depths@.len(),
                depths@.len() == out@.len(),
                forall|j: int| 0 <= j < out@.len() ==> depths@[j] == depth(#[trigger] out@[j]),
                forall|j: int| 0 <= j < k ==> depth(#[trigger] out@[j]) >= depth(x),
                d == depth(x),
            decreases depths@.len() - k,
        {
            k += 1;
        }
        proof {
            lemma_insert_at_first_shallower(out@, x, k as int);
            assert(entries@.take(i + 1).drop_last() =~= entries@.take(i as int));
            assert(entries@.take(i + 1).last() == x);
        }
        let ghost before = out@;
        out.insert(k, x);
        depths.insert(k, d);
        assert forall|j: int| 0 <= j < out@.len() implies depths@[j] == depth(#[trigger] out@[j]) by {
            if j < k {
                assert(out@[j] == before[j]);
            } else if j > k {
                assert(out@[j] == before[j - 1]);
            }
        }
        i += 1;
    }
    assert(entries@.take(entries@.len() as int) =~= entries@);
    out
}

// ---------------------------------------------------------------------------
// A cleanup, run as a sequence of actions
// ---------------------------------------------------------------------------
/// Where a cleanup stands.
#[derive(Clone, Copy, Debug, PartialEq, Eq, Structural)]
pub enum CleanStage {
    Files,
    Directories,
    Finished,
}

/// What the cleanup waits for from its caller.
#[derive(Clone, Copy, Debug, PartialEq, Eq, Structural)]
pub enum Awaiting {
    Nothing,
    Inspection,
    Removal(u64),
}

/// What the caller is asked to do next.
pub enum CleanAction {
    /// Report what the file system says about this file (`CleanEvent::Inspected`).
    InspectFile(String),
    /// Remove this file and report the outcome (`CleanEvent::Removed`).
    RemoveFile(String),
    /// Report what the file system says about this directory, and whether it
    /// is empty.
    InspectDirectory(String),
    /// Remove this (empty) directory and report the outcome.
    RemoveDirectory(String),
    /// Nothing is left to do; the run's result is final.
    Finished,
}

pub enum ActionView {
    InspectFile(Seq<char>),
    RemoveFile(Seq<char>),
    InspectDirectory(Seq<char>),
    RemoveDirectory(Seq<char>),
    Finished,
}

impl View for CleanAction {
    type V = ActionView;

    open spec fn view(&self) -> ActionView {
        match self {
            CleanAction::InspectFile(p) => ActionView::InspectFile(p@),
            CleanAction::RemoveFile(p) => ActionView::RemoveFile(p@),
            CleanAction::InspectDirectory(p) => ActionView::InspectDirectory(p@),
            CleanAction::RemoveDirectory(p) => ActionView::RemoveDirectory(p@),
            CleanAction::Finished => ActionView::Finished,
        }
    }
}

/// Why a removal failed.
pub enum RemovalError {
    PermissionDenied,
    /// Any other I/O error, with its message.
    Io(String),
}

pub enum RemovalErrorView {
    PermissionDenied,
    Io(Seq<char>),
}

/// What the caller reports back.
pub enum CleanEvent {
    /// The answer to `InspectFile` / `InspectDirectory`: the facts the audit
    /// needs, the state of the entry right now, and (for a directory)
    /// whether it is empty.
    Inspected { facts: PathFacts, ownership: Ownership, state: EntryState, empty: bool },
    /// The answer to `RemoveFile` / `RemoveDirectory`.
    Removed(Result<(), RemovalError>),
}

pub enum EventView {
    Inspected {
        probe: ProbeView,
        components_check: Result<(), Violation>,
        metadata: Option<EntryMetadata>,
        link_target: Seq<char>,
        empty: bool,
    },
    Removed(Result<(), RemovalErrorView>),
}

impl View for CleanEvent {
    type V = EventView;

    open spec fn view(&self) -> EventView {
        match self {
            CleanEvent::Inspected { facts, ownership, state, empty } => EventView::Inspected {
                probe: ProbeView {
                    canonical: canonical_view(facts.canonical),
                    mount_point: facts.mount_point,
                    symlink: facts.symlink,
                    ownership: *ownership,
                },
                components_check: match state.components_check {
                    Ok(()) => Ok(()),
                    Err(e) => Err(e@),
                },
                metadata: state.metadata,
                link_target: state.link_target@,
                empty: *empty,
            },
            CleanEvent::Removed(r) => EventView::Removed(
                match r {
                    Ok(()) => Ok(()),
                    Err(RemovalError::PermissionDenied) => Err(RemovalErrorView::PermissionDenied),
                    Err(RemovalError::Io(m)) => Err(RemovalErrorView::Io(m@)),
                },
            ),
        }
    }
}

/// A cleanup in progress.
pub struct CleanRun {
    pub result: CleanResult,
    files: Vec<FileEntry>,
    directories: Vec<FileEntry>,
    table: Vec<(BrowserType, String)>,
    running: Vec<BrowserType>,
    position: usize,
    stage: CleanStage,
    awaiting: Awaiting,
}

/// The model of a `CleanRun`.
pub struct RunView {
    pub result: CleanResultView,
    pub files: Seq<FileEntry>,
    pub directories: Seq<FileEntry>,
    pub table: Seq<(BrowserType, Seq<char>)>,
    pub running: Seq<BrowserType>,
    pub position: nat,
    pub stage: CleanStage,
    pub awaiting: Awaiting,
}

impl View for CleanRun {
    type V = RunView;

    closed spec fn view(&self) -> RunView {
        RunView {
            result: self.result@,
            files: self.files@,
            directories: self.directories@,
            table: table_view(self.table@),
            running: self.running@,
            position: self.position as nat,
            stage: self.stage,
            awaiting: self.awaiting,
        }
    }
}

/// The entries of the stage a run is in.
pub open spec fn stage_entries(v: RunView) -> Seq<FileEntry> {
    if v.stage == CleanStage::Files {
        v.files
    } else {
        v.directories
    }
}

/// A run's position lies within its stage, and it awaits something only for
/// an entry of that stage.
pub open spec fn run_ok(v: RunView) -> bool {
    &&& v.stage != CleanStage::Finished ==> v.position <= stage_entries(v).len()
    &&& v.awaiting != Awaiting::Nothing ==> v.stage != CleanStage::Finished && v.position
        < stage_entries(v).len()
    &&& v.stage == CleanStage::Finished ==> v.awaiting == Awaiting::Nothing
}

/// The entry a run is at.
pub open spec fn current_entry(v: RunView) -> FileEntry {
    stage_entries(v)[v.position as int]
}

/// The message for a file left alone because its browser runs.
pub open spec fn running_text(b: BrowserType) -> Seq<char> {
    b.spec_display_name()
        + " is currently running — close it before cleaning to avoid data corruption"@
}

/// The running browser that `p` belongs to, if any.
pub open spec fn blocking_browser(v: RunView, p: Seq<char>) -> Option<BrowserType> {
    match table_owner(v.table, p) {
        Some(b) => if v.running.contains(b) {
            Some(b)
        } else {
            None
        },
        None => None,
    }
}

pub open spec fn stage_rank(v: RunView) -> int {
    if v.stage == CleanStage::Files {
        2
    } else if v.stage == CleanStage::Directories {
        1
    } else {
        0
    }
}

pub open spec fn remaining(v: RunView) -> int {
    let n = stage_entries(v).len();
    if v.position < n {
        n - v.position
    } else {
        0
    }
}

/// Moves a run to the next entry that needs the caller, or to its end:
/// before each entry the cancellation flag (`cancelled`) is consulted, and
/// files of a running browser are skipped.
pub open spec fn spec_advance(v: RunView, cancelled: bool) -> RunView
    decreases stage_rank(v), remaining(v),
{
    if v.stage == CleanStage::Finished || v.awaiting != Awaiting::Nothing {
        v
    } else if v.stage == CleanStage::Files {
        if v.position >= v.files.len() {
            spec_advance(RunView { stage: CleanStage::Directories, position: 0, ..v }, cancelled)
        } else if cancelled {
            spec_advance(
                RunView {
                    result: CleanResultView { cancelled: true, ..v.result },
                    stage: CleanStage::Directories,
                    position: 0,
                    ..v
                },
                cancelled,
            )
        } else {
            let p = v.files[v.position as int].path@;
            match blocking_browser(v, p) {
                Some(b) => spec_advance(
                    RunView {
                        result: CleanResultView {
                            skipped: v.result.skipped.push((p, running_text(b))),
                            ..v.result
                        },
                        position: v.position + 1,
                        ..v
                    },
                    cancelled,
                ),
                None => RunView { awaiting: Awaiting::Inspection, ..v },
            }
        }
    } else {
        if v.position >= v.directories.len() {
            RunView { stage: CleanStage::Finished, ..v }
        } else if cancelled {
            RunView {
                result: CleanResultView { cancelled: true, ..v.result },
                stage: CleanStage::Finished,
                ..v
            }
        } else {
            RunView { awaiting: Awaiting::Inspection, ..v }
        }
    }
}

/// The action a run asks for.
pub open spec fn action_for(v: RunView) -> ActionView {
    if v.stage == CleanStage::Finished || v.awaiting == Awaiting::Nothing {
        ActionView::Finished
    } else if v.awaiting == Awaiting::Inspection {
        if v.stage == CleanStage::Files {
            ActionView::InspectFile(current_entry(v).path@)
        } else {
            ActionView::InspectDirectory(current_entry(v).path@)
        }
    } else {
        if v.stage == CleanStage::Files {
            ActionView::RemoveFile(current_entry(v).path@)
        } else {
            ActionView::RemoveDirectory(current_entry(v).path@)
        }
    }
}

/// The current entry is done, with `result` as the outcome so far.
pub open spec fn finish_entry(v: RunView, result: CleanResultView) -> RunView {
    RunView { result, position: v.position + 1, awaiting: Awaiting::Nothing, ..v }
}

pub open spec fn first_violation_text(a: AuditView) -> Seq<char> {
    if a.violations.len() > 0 {
        violation_text(a.violations[0])
    } else {
        "Unknown security violation"@
    }
}

/// The current entry failed a security check.
pub open spec fn security_failure(v: RunView, reason: Seq<char>) -> RunView {
    let p = current_entry(v).path@;
    finish_entry(
        v,
        CleanResultView {
            failed: v.result.failed.push((p, "Security violation: "@ + reason)),
            ..v.result
        },
    )
}

/// The reason recorded for a directory that is left because it is not empty.
pub open spec fn not_empty_text() -> Seq<char> {
    "Directory was preserved because it is not empty"@
}

/// What the answer to an inspection does to a run.
pub open spec fn after_inspection(
    m: AuditorModel,
    v: RunView,
    probe: ProbeView,
    components_check: Result<(), Violation>,
    metadata: Option<EntryMetadata>,
    link_target: Seq<char>,
    empty: bool,
) -> RunView {
    let p = current_entry(v).path@;
    let a = entry_audit(m, p, probe);
    if !a.safe {
        security_failure(v, first_violation_text(a))
    } else {
        match final_check(m.uid, p, components_check, metadata, link_target) {
            Err(x) => security_failure(v, violation_text(x)),
            Ok(md) => if v.stage == CleanStage::Directories && !empty {
                finish_entry(
                    v,
                    CleanResultView {
                        skipped: v.result.skipped.push((p, not_empty_text())),
                        ..v.result
                    },
                )
            } else {
                RunView { awaiting: Awaiting::Removal(md.len), ..v }
            },
        }
    }
}

/// What the answer to a removal does to a run.
pub open spec fn after_removal(v: RunView, r: Result<(), RemovalErrorView>) -> RunView {
    let p = current_entry(v).path@;
    match r {
        Ok(()) => if v.stage == CleanStage::Files {
            let size = match v.awaiting {
                Awaiting::Removal(s) => s as nat,
                _ => 0,
            };
            finish_entry(
                v,
                CleanResultView {
                    deleted_files: v.result.deleted_files.push(p),
                    bytes_freed: v.result.bytes_freed + size,
                    ..v.result
                },
            )
        } else {
            finish_entry(
                v,
                CleanResultView {
                    deleted_directories: v.result.deleted_directories.push(p),
                    ..v.result
                },
            )
        },
        Err(RemovalErrorView::PermissionDenied) => finish_entry(
            v,
            CleanResultView {
                failed: v.result.failed.push((p, "Permission denied: "@ + p)),
                ..v.result
            },
        ),
        Err(RemovalErrorView::Io(msg)) => finish_entry(
            v,
            CleanResultView { failed: v.result.failed.push((p, "IO error: "@ + msg)), ..v.result },
        ),
    }
}

/// One step of a run: the answer is applied, then the run moves on.
pub open spec fn spec_step(m: AuditorModel, v: RunView, e: EventView, cancelled: bool) -> RunView {
    match e {
        EventView::Inspected { probe, components_check, metadata, link_target, empty } =>
            spec_advance(
            after_inspection(m, v, probe, components_check, metadata, link_target, empty),
            cancelled,
        ),
        EventView::Removed(r) => spec_advance(after_removal(v, r), cancelled),
    }
}

/// The answer fits what the run waits for, and counting a removed file's
/// size stays within `u64`.
pub open spec fn event_fits(v: RunView, e: EventView) -> bool {
    match e {
        EventView::Inspected { .. } => v.awaiting == Awaiting::Inspection,
        EventView::Removed(r) => match v.awaiting {
            Awaiting::Removal(s) => (r is Ok && v.stage == CleanStage::Files) ==> v.result.bytes_freed
                + s <= u64::MAX,
            _ => false,
        },
    }
}

/// A run that has not started on the entries of a scan.
pub open spec fn initial_run(
    result: CleanResultView,
    files: Seq<FileEntry>,
    directories: Seq<FileEntry>,
    table: Seq<(BrowserType, Seq<char>)>,
    running: Seq<BrowserType>,
) -> RunView {
    RunView {
        result,
        files,
        directories: deepest_first(directories),
        table,
        running,
        position: 0,
        stage: CleanStage::Files,
        awaiting: Awaiting::Nothing,
    }
}

/// A run that is over before it started.
pub open spec fn ended_run(result: CleanResultView) -> RunView {
    RunView {
        result,
        files: seq![],
        directories: seq![],
        table: seq![],
        running: seq![],
        position: 0,
        stage: CleanStage::Finished,
        awaiting: Awaiting::Nothing,
    }
}

/// How a cleanup of `scan` starts, given the limits, the (browser,
/// directory) table, the running browsers and whether a stop was asked for:
/// refused above the limits, ended at once when a stop was asked for,
/// otherwise the files in order and the directories deepest first, moved on
/// to the first action.
pub open spec fn start_view(
    o: CleanOptions,
    scan: ScanResult,
    table: Seq<(BrowserType, Seq<char>)>,
    running: Seq<BrowserType>,
    cancelled: bool,
) -> RunView {
    match refusal(o, scan.file_count, scan.total_size) {
        Some(reason) => ended_run(CleanResultView { blocked: Some(reason), ..empty_clean_view() }),
        None => if cancelled {
            ended_run(CleanResultView { cancelled: true, ..empty_clean_view() })
        } else {
            spec_advance(
                initial_run(empty_clean_view(), scan.files@, scan.directories@, table, running),
                false,
            )
        },
    }
}

fn copy_entries(v: &Vec<FileEntry>) -> (r: Vec<FileEntry>)
    ensures
        r@ == v@,
{
    let mut out: Vec<FileEntry> = Vec::new();
    let mut i: usize = 0;
    while i < v.len()
        invariant
            0 <= i <= v@.len(),
            out@ == v@.take(i as int),
        decreases v@.len() - i,
    {
        out.push(v[i].duplicate());
        i += 1;
        assert(out@ =~= v@.take(i as int));
    }
    assert(v@.take(v@.len() as int) =~= v@);
    out
}

impl CleanRun {
    /// The result so far.
    pub fn result(&self) -> (r: &CleanResult)
        ensures
            r@ == self@.result,
    {
        &self.result
    }

    /// What the run waits for.
    pub fn awaiting(&self) -> (r: Awaiting)
        ensures
            r == self@.awaiting,
    {
        self.awaiting
    }

    fn action(&self) -> (r: CleanAction)
        requires
            run_ok(self@),
        ensures
            r@ == action_for(self@),
    {
        if self.stage == CleanStage::Finished || self.awaiting == Awaiting::Nothing {
            return CleanAction::Finished;
        }
        let p = if self.stage == CleanStage::Files {
            self.files[self.position].path.clone()
        } else {
            self.directories[self.position].path.clone()
        };
        match self.awaiting {
            Awaiting::Inspection => if self.stage == CleanStage::Files {
                CleanAction::InspectFile(p)
            } else {
                CleanAction::InspectDirectory(p)
            },
            _ => if self.stage == CleanStage::Files {
                CleanAction::RemoveFile(p)
            } else {
                CleanAction::RemoveDirectory(p)
            },
        }
    }

    /// Moves on to the next entry that needs the caller (see `spec_advance`).
    fn advance(&mut self, cancelled: bool)
        requires
            run_ok(old(self)@),
        ensures
            final(self)@ == spec_advance(old(self)@, cancelled),
            run_ok(final(self)@),
    {
        let ghost target = spec_advance(self@, cancelled);
        loop
            invariant
                run_ok(self@),
                spec_advance(self@, cancelled) == target,
                target == spec_advance(old(self)@, cancelled),
            ensures
                self@ == target,
                run_ok(self@),
            decreases stage_rank(self@), remaining(self@),
        {
            if self.stage == CleanStage::Finished || self.awaiting != Awaiting::Nothing {
                assert(spec_advance(self@, cancelled) == self@);
                return;
            }
            let ghost prev = self@;
            if self.stage == CleanStage::Files {
                if self.position >= self.files.len() {
                    self.stage = CleanStage::Directories;
                    self.position = 0;
                } else if cancelled {
                    self.result.cancelled = true;
                    self.stage = CleanStage::Directories;
                    self.position = 0;
                } else {
                    let owner = browser_for_path(&self.table, self.files[self.position].path.as_str());
                    let blocked = match owner {
                        Some(b) => b.is_running(self.running.as_slice()),
                        None => false,
                    };
                    if blocked {
                        let b = owner.unwrap();
                        let reason = concat(
                            b.display_name(),
                            " is currently running — close it before cleaning to avoid data corruption",
                        );
                        let p = self.files[self.position].path.clone();
                        self.result.add_skipped(p, reason.as_str());
                        self.position = self.position + 1;
                    } else {
                        self.awaiting = Awaiting::Inspection;
                        assert(spec_advance(prev, cancelled) == self@);
                        assert(spec_advance(self@, cancelled) == self@);
                        return;
                    }
                }
            } else {
                if self.position >= self.directories.len() {
                    self.stage = CleanStage::Finished;
                    assert(spec_advance(prev, cancelled) == self@);
                    assert(spec_advance(self@, cancelled) == self@);
                    return;
                } else if cancelled {
                    self.result.cancelled = true;
                    self.stage = CleanStage::Finished;
                    assert(spec_advance(prev, cancelled) == self@);
                    assert(spec_advance(self@, cancelled) == self@);
                    return;
                } else {
                    self.awaiting = Awaiting::Inspection;
                    assert(spec_advance(prev, cancelled) == self@);
                    assert(spec_advance(self@, cancelled) == self@);
                    return;
                }
            }
            assert(spec_advance(prev, cancelled) == spec_advance(self@, cancelled));
        }
    }
}

impl Cleaner {
    /// The lists the cleaner's auditor checks against.
    pub closed spec fn auditor(&self) -> AuditorModel {
        self.security@
    }

    /// The cleaner's limits.
    pub closed spec fn limits(&self) -> CleanOptions {
        self.options
    }

    /// A cleaner with the given limits, cancellation flag and auditor.
    pub fn with_auditor(options: CleanOptions, cancelled: Arc<AtomicBool>, security: SecurityAuditor) -> (r:
        Self)
        ensures
            r.limits() == options,
            r.auditor() == security@,
    {
        Cleaner { security, cancelled, options }
    }

    /// A cleaner for the user `current_uid`, with the given limits and
    /// cancellation flag.
    pub fn with_options_and_cancellation(
        options: CleanOptions,
        cancelled: Arc<AtomicBool>,
        current_uid: u32,
    ) -> (r: Self)
        ensures
            r.limits() == options,
            r.auditor().uid == current_uid,
    {
        let security = SecurityAuditor::new(current_uid);
        Self::with_auditor(options, cancelled, security)
    }

    /// A cleaner for the user `current_uid`, with the given limits and a
    /// fresh cancellation flag.
    pub fn with_options(options: CleanOptions, current_uid: u32) -> (r: Self)
        ensures
            r.limits() == options,
            r.auditor().uid == current_uid,
    {
        Self::with_options_and_cancellation(options, Arc::new(AtomicBool::new(false)), current_uid)
    }

    /// A cleaner for the user `current_uid` without limits.
    pub fn new(current_uid: u32) -> (r: Self)
        ensures
            r.limits().max_files_per_operation == usize::MAX,
            r.limits().max_size_per_operation == u64::MAX,
            r.auditor().uid == current_uid,
    {
        Self::with_options(CleanOptions::default(), current_uid)
    }

    /// Asks a running cleanup to stop before its next entry.
    pub fn cancel(&self) {
        self.cancelled.store(true, std::sync::atomic::Ordering::Relaxed);
    }

    /// Whether a stop was asked for (read from a flag other threads may set).
    pub fn is_cancelled(&self) -> bool {
        self.cancelled.load(std::sync::atomic::Ordering::Relaxed)
    }

    /// Refuses a cleanup above the limits.
    pub fn validate_operation(&self, scan_result: &ScanResult) -> (r: Result<(), String>)
        ensures
            match refusal(self.limits(), scan_result.file_count, scan_result.total_size) {
                Some(reason) => r matches Err(e) && e@ == reason,
                None => r is Ok,
            },
    {
        if scan_result.file_count > self.options.max_files_per_operation {
            let a = decimal_string(scan_result.file_count as u64);
            let b = decimal_string(self.options.max_files_per_operation as u64);
            let m1 = concat("Cleanup blocked by safety limit: ", a.as_str());
            let m2 = concat(m1.as_str(), " files found, limit is ");
            let m3 = concat(m2.as_str(), b.as_str());
            return Err(concat(m3.as_str(), "."));
        }
        if scan_result.total_size > self.options.max_size_per_operation {
            let a = scan_result.formatted_size();
            let b = format_bytes(self.options.max_size_per_operation);
            let m1 = concat("Cleanup blocked by safety limit: ", a.as_str());
            let m2 = concat(m1.as_str(), " selected, limit is ");
            let m3 = concat(m2.as_str(), b.as_str());
            return Err(concat(m3.as_str(), "."));
        }
        Ok(())
    }

    /// What a cleanup would delete, without deleting: each file and each
    /// directory is audited for deletion against the facts given for it (one
    /// probe per entry, in order); entries that pass are counted as deleted,
    /// the others skipped once per violation. The cancellation flag is
    /// consulted before each entry, so the run may stop at any entry.
    pub fn dry_run(
        &self,
        scan_result: &ScanResult,
        file_probes: Vec<DeletionProbe>,
        directory_probes: Vec<DeletionProbe>,
    ) -> (r: CleanResult)
        requires
            file_probes@.len() == scan_result.files@.len(),
            directory_probes@.len() == scan_result.directories@.len(),
            size_sum(scan_result.files@) <= u64::MAX,
        ensures
            match refusal(self.limits(), scan_result.file_count, scan_result.total_size) {
                Some(reason) => r@ == (CleanResultView { blocked: Some(reason), ..empty_clean_view() }),
                None => exists|nf: nat, nd: nat|
                    nf <= scan_result.files@.len() && nd <= scan_result.directories@.len() && r@
                        == #[trigger] dry_outcome(
                        self.auditor(),
                        scan_result.files@,
                        probe_views(file_probes@),
                        scan_result.directories@,
                        probe_views(directory_probes@),
                        nf,
                        nd,
                    ),
            },
    {
        self.dry_run_reading(scan_result, file_probes, directory_probes, None)
    }

    /// `dry_run` with the cancellation flag as read by the caller and held
    /// for the whole run: refused above the limits; otherwise every entry is
    /// taken when `cancelled` is false, and none (the run then counts as
    /// cancelled when there was any entry) when it is true.
    pub fn dry_run_with(
        &self,
        scan_result: &ScanResult,
        file_probes: Vec<DeletionProbe>,
        directory_probes: Vec<DeletionProbe>,
        cancelled: bool,
    ) -> (r: CleanResult)
        requires
            file_probes@.len() == scan_result.files@.len(),
            directory_probes@.len() == scan_result.directories@.len(),
            size_sum(scan_result.files@) <= u64::MAX,
        ensures
            r@ == match refusal(self.limits(), scan_result.file_count, scan_result.total_size) {
                Some(reason) => CleanResultView { blocked: Some(reason), ..empty_clean_view() },
                None => dry_outcome(
                    self.auditor(),
                    scan_result.files@,
                    probe_views(file_probes@),
                    scan_result.directories@,
                    probe_views(directory_probes@),
                    if cancelled { 0 } else { scan_result.files@.len() },
                    if cancelled { 0 } else { scan_result.directories@.len() },
                ),
            },
    {
        self.dry_run_reading(scan_result, file_probes, directory_probes, Some(cancelled))
    }

    /// The dry run, reading the cancellation flag before each entry unless
    /// `fixed` gives its value for the whole run.
    fn dry_run_reading(
        &self,
        scan_result: &ScanResult,
        file_probes: Vec<DeletionProbe>,
        directory_probes: Vec<DeletionProbe>,
        fixed: Option<bool>,
    ) -> (r: CleanResult)
        requires
            file_probes@.len() == scan_result.files@.len(),
            directory_probes@.len() == scan_result.directories@.len(),
            size_sum(scan_result.files@) <= u64::MAX,
        ensures
            match refusal(self.limits(), scan_result.file_count, scan_result.total_size) {
                Some(reason) => r@ == (CleanResultView { blocked: Some(reason), ..empty_clean_view() }),
                None => exists|nf: nat, nd: nat|
                    nf <= scan_result.files@.len() && nd <= scan_result.directories@.len()
                        && (fixed == Some(false) ==> nf == scan_result.files@.len() && nd
                        == scan_result.directories@.len()) && (fixed == Some(true) ==> nf == 0 && nd
                        == 0) && r@ == #[trigger] dry_outcome(
                        self.auditor(),
                        scan_result.files@,
                        probe_views(file_probes@),
                        scan_result.directories@,
                        probe_views(directory_probes@),
                        nf,
                        nd,
                    ),
            },
    {
        let mut result = CleanResult::new();
        if let Err(reason) = self.validate_operation(scan_result) {
            result.blocked(reason.as_str());
            return result;
        }
        let ghost m = self.auditor();
        let ghost files = scan_result.files@;
        let ghost fps = probe_views(file_probes@);
        let ghost dirs = scan_result.directories@;
        let ghost dps = probe_views(directory_probes@);
        let mut probes = file_probes;
        let mut i: usize = 0;
        while i < scan_result.files.len()
            invariant_except_break
                probes@.len() + i == files.len(),
                probe_views(probes@) == fps.skip(i as int),
                !result.cancelled,
            invariant
                0 <= i <= files.len(),
                fixed == Some(true) ==> i == 0,
                files == scan_result.files@,
                fps.len() == files.len(),
                m == self.auditor(),
                size_sum(files) <= u64::MAX,
                result@ == (CleanResultView {
                    cancelled: result.cancelled,
                    ..dry_entries(m, empty_clean_view(), files, fps, i as nat, true)
                }),
            ensures
                fixed == Some(true) ==> i == 0,
                fixed == Some(false) ==> i == files.len(),
                result@ == (CleanResultView {
                    cancelled: i < files.len(),
                    ..dry_entries(m, empty_clean_view(), files, fps, i as nat, true)
                }),
            decreases files.len() - i,
        {
            let stop = match fixed {
                Some(c) => c,
                None => self.is_cancelled(),
            };
            if stop {
                result.cancelled = true;
                break;
            }
            let file = &scan_result.files[i];
            let ghost before = probes@;
            let probe = probes.remove(0);
            assert(probe_views(probes@) =~= probe_views(before).drop_first());
            assert(probe_views(before)[0] == fps.skip(i as int)[0]);
            let DeletionProbe { facts, ownership } = probe;
            let audit = self.security.audit_for_deletion(file.path.as_str(), facts, ownership);
            proof {
                lemma_dry_bytes_bounded(m, empty_clean_view(), files, fps, (i + 1) as nat);
                lemma_size_sum_prefix(files, i + 1);
            }
            if audit.is_safe {
                result.add_deleted_file(file.path.clone(), file.size);
            } else {
                self.record_violations(&mut result, file.path.as_str(), audit);
            }
            i += 1;
            assert(fps.skip(i - 1).drop_first() =~= fps.skip(i as int));
        }
        let ghost nf = i as nat;
        let ghost after_files = result@;
        let mut probes = directory_probes;
        let mut j: usize = 0;
        while j < scan_result.directories.len()
            invariant_except_break
                probes@.len() + j == dirs.len(),
                probe_views(probes@) == dps.skip(j as int),
                result.cancelled == after_files.cancelled,
            invariant
                0 <= j <= dirs.len(),
                fixed == Some(true) ==> j == 0,
                dirs == scan_result.directories@,
                dps.len() == dirs.len(),
                m == self.auditor(),
                result@ == (CleanResultView {
                    cancelled: result.cancelled,
                    ..dry_entries(
                        m,
                        CleanResultView { cancelled: false, ..after_files },
                        dirs,
                        dps,
                        j as nat,
                        false,
                    )
                }),
            ensures
                fixed == Some(true) ==> j == 0,
                fixed == Some(false) ==> j == dirs.len(),
                result@ == (CleanResultView {
                    cancelled: after_files.cancelled || j < dirs.len(),
                    ..dry_entries(
                        m,
                        CleanResultView { cancelled: false, ..after_files },
                        dirs,
                        dps,
                        j as nat,
                        false,
                    )
                }),
            decreases dirs.len() - j,
        {
            let stop = match fixed {
                Some(c) => c,
                None => self.is_cancelled(),
            };
            if stop {
                result.cancelled = true;
                break;
            }
            let dir = &scan_result.directories[j];
            let ghost before = probes@;
            let probe = probes.remove(0);
            assert(probe_views(probes@) =~= probe_views(before).drop_first());
            assert(probe_views(before)[0] == dps.skip(j as int)[0]);
            let DeletionProbe { facts, ownership } = probe;
            let audit = self.security.audit_for_deletion(dir.path.as_str(), facts, ownership);
            if audit.is_safe {
                result.add_deleted_directory(dir.path.clone());
            } else {
                self.record_violations(&mut result, dir.path.as_str(), audit);
            }
            j += 1;
            assert(dps.skip(j - 1).drop_first() =~= dps.skip(j as int));
        }
        proof {
            lemma_dry_entries_keep_cancelled(m, empty_clean_view(), files, fps, nf, true);
            let inner = dry_entries(m, empty_clean_view(), files, fps, nf, true);
            assert((CleanResultView { cancelled: false, ..after_files }) == inner);
            assert(result@ == dry_outcome(m, files, fps, dirs, dps, nf, j as nat));
        }
        result
    }

    /// Skips `path` once for each violation of `audit`.
    fn record_violations(&self, result: &mut CleanResult, path: &str, audit: AuditResult)
        ensures
            final(result)@ == (CleanResultView {
                skipped: old(result)@.skipped + audit@.violations.map_values(
                    |v: Violation| (path@, violation_text(v)),
                ),
                ..old(result)@
            }),
    {
        let ghost vs = audit@.violations;
        let ghost start = result@;
        let mut k: usize = 0;
        while k < audit.violations.len()
            invariant
                0 <= k <= vs.len(),
                vs == audit@.violations,
                result@ == (CleanResultView {
                    skipped: start.skipped + vs.take(k as int).map_values(
                        |v: Violation| (path@, violation_text(v)),
                    ),
                    ..start
                }),
            decreases vs.len() - k,
        {
            let msg = audit.violations[k].message();
            result.add_skipped(crate::text::owned(path), msg.as_str());
            k += 1;
            assert(vs.take(k as int).map_values(|v: Violation| (path@, violation_text(v)))
                =~= vs.take(k - 1).map_values(|v: Violation| (path@, violation_text(v))).push(
                (path@, violation_text(vs[k - 1])),
            ));
        }
        assert(vs.take(vs.len() as int) =~= vs);
    }

    /// Starts a cleanup of `scan_result`, given the (browser, directory)
    /// table, the browsers running now and the cancellation flag as read by
    /// the caller (see `start_view`), and returns the first action.
    pub fn start_clean_with(
        &self,
        scan_result: &ScanResult,
        table: Vec<(BrowserType, String)>,
        running: Vec<BrowserType>,
        cancelled: bool,
    ) -> (r: (CleanRun, CleanAction))
        ensures
            run_ok(r.0@),
            r.1@ == action_for(r.0@),
            r.0@ == start_view(self.limits(), *scan_result, table_view(table@), running@, cancelled),
    {
        let mut result = CleanResult::new();
        if let Err(reason) = self.validate_operation(scan_result) {
            result.blocked(reason.as_str());
            let run = CleanRun {
                result,
                files: Vec::new(),
                directories: Vec::new(),
                table: Vec::new(),
                running: Vec::new(),
                position: 0,
                stage: CleanStage::Finished,
                awaiting: Awaiting::Nothing,
            };
            assert(table_view(run.table@) =~= seq![]);
            assert(run@ == ended_run(run.result@));
            return (run, CleanAction::Finished);
        }
        if cancelled {
            result.cancelled = true;
            let run = CleanRun {
                result,
                files: Vec::new(),
                directories: Vec::new(),
                table: Vec::new(),
                running: Vec::new(),
                position: 0,
                stage: CleanStage::Finished,
                awaiting: Awaiting::Nothing,
            };
            assert(table_view(run.table@) =~= seq![]);
            assert(run@ == ended_run(run.result@));
            return (run, CleanAction::Finished);
        }
        let files = copy_entries(&scan_result.files);
        let directories = sort_deepest_first(&scan_result.directories);
        let ghost rv = running@;
        let ghost tv = table_view(table@);
        let mut run = CleanRun {
            result,
            files,
            directories,
            table,
            running,
            position: 0,
            stage: CleanStage::Files,
            awaiting: Awaiting::Nothing,
        };
        assert(run@ == initial_run(
            empty_clean_view(),
            scan_result.files@,
            scan_result.directories@,
            tv,
            rv,
        ));
        run.advance(false);
        let action = run.action();
        (run, action)
    }

    /// Starts a cleanup of `scan_result` for the current user, given the
    /// browsers running now: the cancellation flag is read once, the
    /// (browser, directory) table is built from the user's directories, and
    /// the run goes as `start_clean_with` says.
    pub fn start_clean(&self, scan_result: &ScanResult, running: Vec<BrowserType>) -> (r: (
        CleanRun,
        CleanAction,
    ))
        ensures
            run_ok(r.0@),
            r.1@ == action_for(r.0@),
            exists|
                cache: Option<Seq<char>>,
                home: Option<Seq<char>>,
                config: Option<Seq<char>>,
                cancelled: bool,
            |
                r.0@ == #[trigger] start_view(
                    self.limits(),
                    *scan_result,
                    browser_table_spec(all_browsers(), cache, home, config),
                    running@,
                    cancelled,
                ),
    {
        let cancelled = self.is_cancelled();
        let table = browser_path_table();
        let ghost tv = table_view(table@);
        let ghost rv = running@;
        let r = self.start_clean_with(scan_result, table, running, cancelled);
        proof {
            let (cache, home, config) = choose|
                cache: Option<Seq<char>>,
                home: Option<Seq<char>>,
                config: Option<Seq<char>>,
            | tv == #[trigger] browser_table_spec(all_browsers(), cache, home, config);
            assert(r.0@ == start_view(
                self.limits(),
                *scan_result,
                browser_table_spec(all_browsers(), cache, home, config),
                rv,
                cancelled,
            ));
        }
        r
    }

    /// Applies the caller's answer to the action the run asked for, and
    /// returns the next action. The cancellation flag is consulted once.
    pub fn step(&self, run: &mut CleanRun, event: CleanEvent) -> (r: CleanAction)
        requires
            run_ok(old(run)@),
            event_fits(old(run)@, event@),
        ensures
            run_ok(final(run)@),
            exists|c: bool| final(run)@ == #[trigger] spec_step(self.auditor(), old(run)@, event@, c),
            r@ == action_for(final(run)@),
    {
        let cancelled = self.is_cancelled();
        self.step_with(run, event, cancelled)
    }

    /// `step` with the cancellation flag as read by the caller: the answer
    /// is applied, then the run moves on, stopping at once when `cancelled`.
    pub fn step_with(&self, run: &mut CleanRun, event: CleanEvent, cancelled: bool) -> (r: CleanAction)
        requires
            run_ok(old(run)@),
            event_fits(old(run)@, event@),
        ensures
            run_ok(final(run)@),
            final(run)@ == spec_step(self.auditor(), old(run)@, event@, cancelled),
            r@ == action_for(final(run)@),
    {
        let ghost e = event@;
        let ghost v0 = run@;
        match event {
            CleanEvent::Inspected { facts, ownership, state, empty } => {
                self.apply_inspection(run, facts, ownership, state, empty);
            },
            CleanEvent::Removed(res) => {
                Self::apply_removal(run, res);
            },
        }
        run.advance(cancelled);
        assert(run@ == spec_step(self.auditor(), v0, e, cancelled));
        run.action()
    }

    fn apply_inspection(
        &self,
        run: &mut CleanRun,
        facts: PathFacts,
        ownership: Ownership,
        state: EntryState,
        empty: bool,
    )
        requires
            run_ok(old(run)@),
            old(run)@.awaiting == Awaiting::Inspection,
        ensures
            run_ok(final(run)@),
            final(run)@ == after_inspection(
                self.auditor(),
                old(run)@,
                ProbeView {
                    canonical: canonical_view(facts.canonical),
                    mount_point: facts.mount_point,
                    symlink: facts.symlink,
                    ownership,
                },
                match state.components_check {
                    Ok(()) => Ok(()),
                    Err(e) => Err(e@),
                },
                state.metadata,
                state.link_target@,
                empty,
            ),
    {
        let stage_len = if run.stage == CleanStage::Files {
            run.files.len()
        } else {
            run.directories.len()
        };
        assert(run.position < stage_len);
        let path = if run.stage == CleanStage::Files {
            run.files[run.position].path.clone()
        } else {
            run.directories[run.position].path.clone()
        };
        let audit = self.security.audit_for_deletion(path.as_str(), facts, ownership);
        if !audit.is_safe {
            let reason = if audit.violations.len() > 0 {
                audit.violations[0].message()
            } else {
                owned("Unknown security violation")
            };
            let msg = concat("Security violation: ", reason.as_str());
            run.result.add_failed(path, msg.as_str());
            run.position = run.position + 1;
            run.awaiting = Awaiting::Nothing;
            return;
        }
        match self.security.verify_before_deletion(path.as_str(), state) {
            Err(e) => {
                let reason = e.message();
                let msg = concat("Security violation: ", reason.as_str());
                run.result.add_failed(path, msg.as_str());
                run.position = run.position + 1;
                run.awaiting = Awaiting::Nothing;
            },
            Ok(md) => {
                if run.stage == CleanStage::Directories && !empty {
                    run.result.add_skipped(path, "Directory was preserved because it is not empty");
                    run.position = run.position + 1;
                    run.awaiting = Awaiting::Nothing;
                } else {
                    run.awaiting = Awaiting::Removal(md.len);
                }
            },
        }
    }

    fn apply_removal(run: &mut CleanRun, res: Result<(), RemovalError>)
        requires
            run_ok(old(run)@),
            old(run)@.awaiting is Removal,
            (res is Ok && old(run)@.stage == CleanStage::Files) ==> old(run)@.result.bytes_freed
                + old(run)@.awaiting->0 <= u64::MAX,
        ensures
            run_ok(final(run)@),
            final(run)@ == after_removal(
                old(run)@,
                match res {
                    Ok(()) => Ok(()),
                    Err(RemovalError::PermissionDenied) => Err(RemovalErrorView::PermissionDenied),
                    Err(RemovalError::Io(m)) => Err(RemovalErrorView::Io(m@)),
                },
            ),
    {
        let stage_len = if run.stage == CleanStage::Files {
            run.files.len()
        } else {
            run.directories.len()
        };
        assert(run.position < stage_len);
        let path = if run.stage == CleanStage::Files {
            run.files[run.position].path.clone()
        } else {
            run.directories[run.position].path.clone()
        };
        match res {
            Ok(()) => {
                if run.stage == CleanStage::Files {
                    let size = match run.awaiting {
                        Awaiting::Removal(s) => s,
                        _ => 0,
                    };
                    run.result.add_deleted_file(path, size);
                } else {
                    run.result.add_deleted_directory(path);
                }
            },
            Err(RemovalError::PermissionDenied) => {
                let msg = concat("Permission denied: ", path.as_str());
                run.result.add_failed(path, msg.as_str());
            },
            Err(RemovalError::Io(m)) => {
                let msg = concat("IO error: ", m.as_str());
                run.result.add_failed(path, msg.as_str());
            },
        }
        run.position = run.position + 1;
        run.awaiting = Awaiting::Nothing;
    }
}

/// A dry run keeps whether cancellation was recorded before it.
proof fn lemma_dry_entries_keep_cancelled(
    m: AuditorModel,
    acc: CleanResultView,
    es: Seq<FileEntry>,
    ps: Seq<ProbeView>,
    n: nat,
    is_file: bool,
)
    ensures
        dry_entries(m, acc, es, ps, n, is_file).cancelled == acc.cancelled,
    decreases n,
{
    if n > 0 {
        lemma_dry_entries_keep_cancelled(m, acc, es, ps, (n - 1) as nat, is_file);
    }
}

/// Nothing is removed that did not pass both checks: when an inspection
/// leads to a removal, the entry passed the audit for deletion and the final
/// check, and a directory was reported empty.
pub proof fn lemma_removal_only_after_passed_checks(
    m: AuditorModel,
    v: RunView,
    probe: ProbeView,
    components_check: Result<(), Violation>,
    metadata: Option<EntryMetadata>,
    link_target: Seq<char>,
    empty: bool,
    cancelled: bool,
)
    requires
        run_ok(v),
        v.awaiting == Awaiting::Inspection,
    ensures
        ({
            let after = spec_step(
                m,
                v,
                EventView::Inspected { probe, components_check, metadata, link_target, empty },
                cancelled,
            );
            let p = current_entry(v).path@;
            after.awaiting is Removal ==> {
                &&& entry_audit(m, p, probe).safe
                &&& final_check(m.uid, p, components_check, metadata, link_target) is Ok
                &&& (v.stage == CleanStage::Directories ==> empty)
                &&& after.position == v.position
                &&& after.stage == v.stage
                &&& action_for(after) == (if v.stage == CleanStage::Files {
                    ActionView::RemoveFile(p)
                } else {
                    ActionView::RemoveDirectory(p)
                })
            }
        }),
{
    let a = after_inspection(m, v, probe, components_check, metadata, link_target, empty);
    lemma_advance_keeps_removal(a, cancelled);
}

/// Moving on never asks for a removal by itself: it waits for a removal only
/// when it already did, and then changes nothing.
proof fn lemma_advance_keeps_removal(v: RunView, cancelled: bool)
    ensures
        spec_advance(v, cancelled).awaiting is Removal ==> spec_advance(v, cancelled) == v,
    decreases stage_rank(v), remaining(v),
{
    if v.stage == CleanStage::Finished || v.awaiting != Awaiting::Nothing {
    } else if v.stage == CleanStage::Files {
        if v.position >= v.files.len() {
            lemma_advance_keeps_removal(
                RunView { stage: CleanStage::Directories, position: 0, ..v },
                cancelled,
            );
        } else if cancelled {
            lemma_advance_keeps_removal(
                RunView {
                    result: CleanResultView { cancelled: true, ..v.result },
                    stage: CleanStage::Directories,
                    position: 0,
                    ..v
                },
                cancelled,
            );
        } else {
            let p = v.files[v.position as int].path@;
            match blocking_browser(v, p) {
                Some(b) => {
                    lemma_advance_keeps_removal(
                        RunView {
                            result: CleanResultView {
                                skipped: v.result.skipped.push((p, running_text(b))),
                                ..v.result
                            },
                            position: v.position + 1,
                            ..v
                        },
                        cancelled,
                    );
                },
                None => {},
            }
        }
    }
}

/// Moving on never asks to inspect a file of a browser that is running.
pub proof fn lemma_running_browser_files_are_left(v: RunView, cancelled: bool)
    requires
        run_ok(v),
    ensures
        ({
            let after = spec_advance(v, cancelled);
            (after.stage == CleanStage::Files && after.awaiting == Awaiting::Inspection && v.awaiting
                == Awaiting::Nothing) ==> blocking_browser(after, current_entry(after).path@) is None
        }),
    decreases stage_rank(v), remaining(v),
{
    if v.stage == CleanStage::Finished || v.awaiting != Awaiting::Nothing {
    } else if v.stage == CleanStage::Files {
        if v.position >= v.files.len() {
            lemma_running_browser_files_are_left(
                RunView { stage: CleanStage::Directories, position: 0, ..v },
                cancelled,
            );
        } else if cancelled {
            lemma_running_browser_files_are_left(
                RunView {
                    result: CleanResultView { cancelled: true, ..v.result },
                    stage: CleanStage::Directories,
                    position: 0,
                    ..v
                },
                cancelled,
            );
        } else {
            let p = v.files[v.position as int].path@;
            match blocking_browser(v, p) {
                Some(b) => {
                    lemma_running_browser_files_are_left(
                        RunView {
                            result: CleanResultView {
                                skipped: v.result.skipped.push((p, running_text(b))),
                                ..v.result
                            },
                            position: v.position + 1,
                            ..v
                        },
                        cancelled,
                    );
                },
                None => {},
            }
        }
    }
}

/// The limits are checked before the cancellation flag: a cleanup above
/// them is refused, with nothing removed and not counted as cancelled,
/// whatever the flag says; one within them that starts after a stop was
/// asked for ends at once as cancelled, with nothing removed or freed.
pub proof fn lemma_limits_before_cancellation(
    o: CleanOptions,
    scan: ScanResult,
    table: Seq<(BrowserType, Seq<char>)>,
    running: Seq<BrowserType>,
    cancelled: bool,
)
    ensures
        refusal(o, scan.file_count, scan.total_size) is Some ==> {
            let v = start_view(o, scan, table, running, cancelled);
            &&& v.stage == CleanStage::Finished
            &&& v.result == CleanResultView {
                blocked: refusal(o, scan.file_count, scan.total_size),
                ..empty_clean_view()
            }
        },
        refusal(o, scan.file_count, scan.total_size) is None && cancelled ==> start_view(
            o,
            scan,
            table,
            running,
            cancelled,
        ) == ended_run(CleanResultView { cancelled: true, ..empty_clean_view() }),
{
}

/// Once cancellation is seen, a run that waits for nothing ends, recorded
/// as cancelled, without asking for anything more.
pub proof fn lemma_cancellation_ends_the_run(v: RunView)
    requires
        run_ok(v),
        v.awaiting == Awaiting::Nothing,
        v.stage != CleanStage::Finished,
        v.stage == CleanStage::Files ==> v.position < v.files.len(),
        v.stage == CleanStage::Directories ==> v.position < v.directories.len(),
    ensures
        spec_advance(v, true).stage == CleanStage::Finished,
        spec_advance(v, true).result.cancelled,
        action_for(spec_advance(v, true)) == ActionView::Finished,
    decreases stage_rank(v), remaining(v),
{
    if v.stage == CleanStage::Files {
        let w = RunView {
            result: CleanResultView { cancelled: true, ..v.result },
            stage: CleanStage::Directories,
            position: 0,
            ..v
        };
        if w.directories.len() > 0 {
            lemma_cancellation_ends_the_run(w);
        } else {
            assert(spec_advance(w, true) == RunView { stage: CleanStage::Finished, ..w });
        }
    }
}

/// How many entries a run has finished: the files before its position,
/// then all files and the directories before its position.
pub open spec fn entries_done(v: RunView) -> int {
    if v.stage == CleanStage::Files {
        v.position as int
    } else {
        (v.files.len() + v.position) as int
    }
}

/// How many outcomes a run has recorded, in all four lists.
pub open spec fn records(v: RunView) -> int {
    (v.result.deleted_files.len() + v.result.deleted_directories.len() + v.result.failed.len()
        + v.result.skipped.len()) as int
}

proof fn lemma_advance_accounts(v: RunView)
    requires
        run_ok(v),
    ensures
        run_ok(spec_advance(v, false)),
        records(spec_advance(v, false)) - records(v) == entries_done(spec_advance(v, false)) - entries_done(v),
    decreases stage_rank(v), remaining(v),
{
    if v.stage == CleanStage::Finished || v.awaiting != Awaiting::Nothing {
    } else if v.stage == CleanStage::Files {
        if v.position >= v.files.len() {
            let w = RunView { stage: CleanStage::Directories, position: 0, ..v };
            lemma_advance_accounts(w);
        } else {
            let p = v.files[v.position as int].path@;
            match blocking_browser(v, p) {
                Some(b) => {
                    let w = RunView {
                        result: CleanResultView { skipped: v.result.skipped.push((p, running_text(b))), ..v.result },
                        position: v.position + 1,
                        ..v
                    };
                    lemma_advance_accounts(w);
                },
                None => {},
            }
        }
    }
}

/// A run that is not cancelled records each entry it finishes exactly once:
/// every step adds as many outcomes (deleted, failed or skipped) as it
/// finishes entries, one each, so every file and directory of the scan ends
/// in exactly one of the lists.
pub proof fn lemma_each_entry_recorded_once(m: AuditorModel, v: RunView, e: EventView)
    requires
        run_ok(v),
        event_fits(v, e),
    ensures
        run_ok(spec_step(m, v, e, false)),
        records(spec_step(m, v, e, false)) - records(v) == entries_done(spec_step(m, v, e, false))
            - entries_done(v),
{
    match e {
        EventView::Inspected { probe, components_check, metadata, link_target, empty } => {
            let w = after_inspection(m, v, probe, components_check, metadata, link_target, empty);
            lemma_advance_accounts(w);
        },
        EventView::Removed(r) => {
            let w = after_removal(v, r);
            lemma_advance_accounts(w);
        },
    }
}

/// Before its first step, a run that is not cancelled has recorded one
/// outcome (a skip) for each file it passed over.
pub proof fn lemma_start_recorded_once(v: RunView)
    requires
        run_ok(v),
    ensures
        run_ok(spec_advance(v, false)),
        records(spec_advance(v, false)) - records(v) == entries_done(spec_advance(v, false)) - entries_done(v),
{
    lemma_advance_accounts(v);
}

} // verus!
