//! What the storage analyzer shows of an analysis: the treemap's tiles, the
//! breadcrumb trail to the folder in view, the summary above the results,
//! the line under each entry, and the status shown while and after a scan.
use vstd::prelude::*;
use crate::analyzer::{spec_display_name, StorageAnalysis, StorageNode, StorageNodeKind};
use crate::cleanup_log::{catalog_view, tr_with, tra, trs};
use crate::i18n::{rep_views, tr, Catalog};
use crate::outside::{byte_size_text, format_bytes};
use crate::paths::{components, components_of, join, join_path, path_has_prefix, path_starts_with};
use crate::split::views;
use crate::storage_walk::StorageAnalysisError;
use crate::text::{chars_of, decimal, decimal_string};
use crate::outside::string_from_chars;

verus! {

/// The most tiles the treemap shows, the "Other" tile included.
pub const MAX_TREEMAP_ITEMS: usize = 10;

/// The size threshold used when none is chosen: 100 MiB.
pub const DEFAULT_MINIMUM_SIZE: u64 = 100 * 1024 * 1024;

/// A tile of the treemap. Folders can be opened from their tile; the tile
/// that gathers the rest has no path and the colour index `usize::MAX`.
pub struct TreemapItem {
    pub label: String,
    pub path: Option<String>,
    pub size: u64,
    pub color_index: usize,
}

/// How many children get a tile of their own.
pub open spec fn tiles_kept(n: StorageNode) -> nat {
    if n.children@.len() < MAX_TREEMAP_ITEMS - 1 {
        n.children@.len()
    } else {
        (MAX_TREEMAP_ITEMS - 1) as nat
    }
}

pub open spec fn sizes_sum(s: Seq<StorageNode>) -> int
    decreases s.len(),
{
    if s.len() == 0 {
        0
    } else {
        sizes_sum(s.drop_last()) + s.last().size
    }
}

/// What the "Other" tile holds: the node's size less the tiles shown,
/// never below zero.
pub open spec fn other_size(n: StorageNode) -> int {
    let shown = sizes_sum(n.children@.take(tiles_kept(n) as int));
    if n.size > shown {
        n.size - shown
    } else {
        0
    }
}

proof fn lemma_sizes_sum_prefix(s: Seq<StorageNode>, n: int)
    requires
        0 <= n <= s.len(),
        forall|i: int| 0 <= i < s.len() ==> #[trigger] s[i].size >= 0,
    ensures
        sizes_sum(s.take(n)) <= sizes_sum(s),
    decreases s.len() - n,
{
    if n < s.len() {
        lemma_sizes_sum_prefix(s, n + 1);
        assert(s.take(n + 1).drop_last() =~= s.take(n));
    } else {
        assert(s.take(n) =~= s);
    }
}

/// The tiles for `node`: its largest children first (as the analysis
/// ordered them), at most one fewer than the limit, then a tile for the
/// rest when anything is left.
pub fn treemap_items(catalog: Option<&Catalog>, node: &StorageNode) -> (r: Vec<TreemapItem>)
    requires
        sizes_sum(node.children@.take(tiles_kept(*node) as int)) <= u64::MAX,
    ensures
        r@.len() == tiles_kept(*node) + (if other_size(*node) > 0 { 1int } else { 0int }),
        forall|i: int|
            0 <= i < tiles_kept(*node) ==> {
                let c = node.children@[i];
                &&& (#[trigger] r@[i]).label@ == spec_display_name(c.path@)
                &&& (r@[i].path is Some) == (c.kind == StorageNodeKind::Directory)
                &&& (r@[i].path matches Some(p) ==> p@ == c.path@)
                &&& r@[i].size == c.size
                &&& r@[i].color_index == i
            },
        other_size(*node) > 0 ==> {
            let o = r@[tiles_kept(*node) as int];
            &&& o.label@ == trs(catalog_view(catalog), "Other"@)
            &&& o.path is None
            &&& o.size == other_size(*node)
            &&& o.color_index == usize::MAX
        },
{
    let keep = if node.children.len() < MAX_TREEMAP_ITEMS - 1 {
        node.children.len()
    } else {
        MAX_TREEMAP_ITEMS - 1
    };
    let ghost kids = node.children@;
    let mut out: Vec<TreemapItem> = Vec::new();
    let mut shown: u64 = 0;
    let mut i: usize = 0;
    while i < keep
        invariant
            keep == tiles_kept(*node),
            keep <= kids.len(),
            kids == node.children@,
            0 <= i <= keep,
            out@.len() == i,
            shown == sizes_sum(kids.take(i as int)),
            sizes_sum(kids.take(keep as int)) <= u64::MAX,
            forall|j: int|
                0 <= j < i ==> {
                    let c = kids[j];
                    &&& (#[trigger] out@[j]).label@ == spec_display_name(c.path@)
                    &&& (out@[j].path is Some) == (c.kind == StorageNodeKind::Directory)
                    &&& (out@[j].path matches Some(p) ==> p@ == c.path@)
                    &&& out@[j].size == c.size
                    &&& out@[j].color_index == j
                },
        decreases keep - i,
    {
        let c = &node.children[i];
        proof {
            let t = kids.take(keep as int);
            lemma_sizes_sum_prefix(t, i + 1);
            assert(t.take(i + 1) =~= kids.take(i + 1));
            assert(kids.take(i + 1).drop_last() =~= kids.take(i as int));
        }
        let path = if c.kind == StorageNodeKind::Directory {
            Some(c.path.clone())
        } else {
            None
        };
        out.push(TreemapItem { label: c.display_name(), path, size: c.size, color_index: i });
        shown = shown + c.size;
        i += 1;
    }
    if node.size > shown {
        out.push(
            TreemapItem { label: tr(catalog, "Other"), path: None, size: node.size - shown, color_index: usize::MAX },
        );
    }
    out
}

// ---------------------------------------------------------------------------
// Breadcrumbs
// ---------------------------------------------------------------------------
/// The paths from `root` down through the components in `rest`, each
/// joined onto the one before.
pub open spec fn crumbs(root: Seq<char>, rest: Seq<Seq<char>>) -> Seq<Seq<char>>
    decreases rest.len(),
{
    if rest.len() == 0 {
        seq![root]
    } else {
        let before = crumbs(root, rest.drop_last());
        before.push(join(before.last(), rest.last()))
    }
}

/// The trail to `current`: the root, then each folder on the way down when
/// `current` lies inside the root; only the root otherwise.
pub open spec fn trail(root: Seq<char>, current: Seq<char>) -> Seq<Seq<char>> {
    if path_starts_with(current, root) {
        crumbs(root, components(current).skip(components(root).len() as int))
    } else {
        seq![root]
    }
}

proof fn lemma_crumbs_len(root: Seq<char>, rest: Seq<Seq<char>>)
    ensures
        crumbs(root, rest).len() == rest.len() + 1,
        crumbs(root, rest)[0] == root,
    decreases rest.len(),
{
    if rest.len() > 0 {
        lemma_crumbs_len(root, rest.drop_last());
    }
}

/// A step of the breadcrumb trail: the folder's path and the name on its
/// button.
pub struct Crumb {
    pub path: String,
    pub name: String,
}

/// The breadcrumb trail from the analysed `root` to the folder in view.
pub fn breadcrumb_trail(root: &str, current: &str) -> (r: Vec<Crumb>)
    ensures
        r@.len() == trail(root@, current@).len(),
        forall|i: int|
            0 <= i < r@.len() ==> (#[trigger] r@[i]).path@ == trail(root@, current@)[i] && r@[i].name@
                == spec_display_name(trail(root@, current@)[i]),
{
    let ghost t = trail(root@, current@);
    let mut paths: Vec<String> = Vec::new();
    paths.push(crate::text::owned(root));
    proof {
        lemma_crumbs_len(root@, Seq::<Seq<char>>::empty());
    }
    if path_has_prefix(current, root) {
        let cc = chars_of(current);
        let rc = chars_of(root);
        let cur = components_of(cc.as_slice());
        let base = components_of(rc.as_slice());
        let ghost rest = components(current@).skip(components(root@).len() as int);
        let start = base.len();
        let mut k: usize = start;
        while k < cur.len()
            invariant
                views(cur@) == components(current@),
                start == components(root@).len(),
                start <= k <= cur@.len(),
                rest == components(current@).skip(start as int),
                paths@.len() == k - start + 1,
                forall|j: int| 0 <= j < paths@.len() ==> (#[trigger] paths@[j])@ == crumbs(root@, rest.take(k - start))[j],
            decreases cur@.len() - k,
        {
            let comp = string_from_chars(cur[k].as_slice());
            let last = paths.len() - 1;
            let next = join_path(paths[last].as_str(), comp.as_str());
            proof {
                lemma_crumbs_len(root@, rest.take(k - start));
                assert(rest.take(k + 1 - start).drop_last() =~= rest.take(k - start));
                assert(rest.take(k + 1 - start).last() == views(cur@)[k as int]);
            }
            paths.push(next);
            k += 1;
        }
        proof {
            assert(rest.take(cur@.len() - start) =~= rest);
        }
    }
    proof {
        lemma_crumbs_len(root@, components(current@).skip(components(root@).len() as int));
    }
    let mut out: Vec<Crumb> = Vec::new();
    let mut i: usize = 0;
    while i < paths.len()
        invariant
            0 <= i <= paths@.len(),
            paths@.len() == t.len(),
            forall|j: int| 0 <= j < paths@.len() ==> (#[trigger] paths@[j])@ == t[j],
            out@.len() == i,
            forall|j: int|
                0 <= j < i ==> (#[trigger] out@[j]).path@ == t[j] && out@[j].name@ == spec_display_name(t[j]),
        decreases paths@.len() - i,
    {
        let p = paths[i].clone();
        let node_name = crate::analyzer::display_name_of(p.as_str());
        out.push(Crumb { path: p, name: node_name });
        i += 1;
    }
    out
}

// ---------------------------------------------------------------------------
// Texts
// ---------------------------------------------------------------------------
/// The lines above the results.
pub struct ResultsSummary {
    pub item_count: String,
    pub total_size: String,
    /// Shown when entries were skipped; empty otherwise.
    pub warning: String,
    pub warning_tooltip: String,
}

/// The summary above the results of `analysis`.
pub fn results_summary(catalog: Option<&Catalog>, analysis: &StorageAnalysis) -> (r: ResultsSummary)
    requires
        analysis.files_scanned + analysis.directories_scanned <= usize::MAX,
    ensures
        r.item_count@ == tra(
            catalog_view(catalog),
            "{count} items"@,
            seq![("{count}"@, decimal((analysis.files_scanned + analysis.directories_scanned) as nat))],
        ),
        r.total_size@ == byte_size_text(analysis.root.size),
        r.warning@ == (if analysis.skipped@.len() == 0 {
            Seq::<char>::empty()
        } else {
            trs(catalog_view(catalog), "Some entries skipped"@)
        }),
        r.warning_tooltip@ == (if analysis.skipped@.len() == 0 {
            trs(catalog_view(catalog), "All readable entries were scanned"@)
        } else {
            tra(
                catalog_view(catalog),
                "{count} entries could not be read"@,
                seq![("{count}"@, decimal(analysis.skipped@.len()))],
            )
        }),
{
    let n = decimal_string(analysis.item_count() as u64);
    let reps = [("{count}", n.as_str())];
    assert(rep_views(reps@) =~= seq![("{count}"@, n@)]);
    let item_count = tr_with(catalog, "{count} items", &reps);
    let total_size = format_bytes(analysis.root.size);
    let skipped = analysis.skipped.len();
    let warning = if skipped == 0 {
        String::new()
    } else {
        tr(catalog, "Some entries skipped")
    };
    let warning_tooltip = if skipped == 0 {
        tr(catalog, "All readable entries were scanned")
    } else {
        let m = decimal_string(skipped as u64);
        let reps = [("{count}", m.as_str())];
        assert(rep_views(reps@) =~= seq![("{count}"@, m@)]);
        tr_with(catalog, "{count} entries could not be read", &reps)
    };
    ResultsSummary { item_count, total_size, warning, warning_tooltip }
}

pub open spec fn node_details_text(
    c: Option<Map<Seq<char>, Seq<char>>>,
    node: StorageNode,
    date: Option<Seq<char>>,
) -> Seq<char> {
    let kind = if node.kind == StorageNodeKind::Directory {
        trs(c, "Folder"@)
    } else {
        trs(c, "File"@)
    };
    let modified = match date {
        Some(d) => d,
        None => trs(c, "date unavailable"@),
    };
    tra(
        c,
        "{kind} · Modified {date} · {path}"@,
        seq![("{kind}"@, kind), ("{date}"@, modified), ("{path}"@, node.path@)],
    )
}

/// The line under an entry: its kind, when it was modified and its path.
/// `date` is the modification day as the local calendar writes it, when
/// the analysis knew the time.
pub fn node_details(catalog: Option<&Catalog>, node: &StorageNode, date: Option<String>) -> (r: String)
    ensures
        r@ == node_details_text(
            catalog_view(catalog),
            *node,
            match date {
                Some(d) => Some(d@),
                None => None,
            },
        ),
{
    let kind = if node.kind == StorageNodeKind::Directory {
        tr(catalog, "Folder")
    } else {
        tr(catalog, "File")
    };
    let modified = match date {
        Some(d) => d,
        None => tr(catalog, "date unavailable"),
    };
    let reps = [("{kind}", kind.as_str()), ("{date}", modified.as_str()), ("{path}", node.path.as_str())];
    assert(rep_views(reps@) =~= seq![("{kind}"@, kind@), ("{date}"@, modified@), ("{path}"@, node.path@)]);
    tr_with(catalog, "{kind} · Modified {date} · {path}", &reps)
}

/// The status page shown while a folder is analysed: title and text.
pub fn scanning_status(catalog: Option<&Catalog>, path: &str) -> (r: (String, String))
    ensures
        r.0@ == trs(catalog_view(catalog), "Analyzing Storage…"@),
        r.1@ == tra(
            catalog_view(catalog),
            "Scanning {path} without following symbolic links"@,
            seq![("{path}"@, path@)],
        ),
{
    let reps = [("{path}", path)];
    assert(rep_views(reps@) =~= seq![("{path}"@, path@)]);
    (tr(catalog, "Analyzing Storage…"), tr_with(catalog, "Scanning {path} without following symbolic links", &reps))
}

/// What the page shows when a scan ends.
pub enum ScanEnd {
    /// The new results (the selection is cleared).
    NewResults,
    /// The results of the previous scan, which a cancelled scan leaves.
    PreviousResults,
    /// A status page with an icon, a title and a text.
    Status { icon: String, title: String, description: String },
}

/// What the page shows when a scan ends: its results, the earlier results
/// when it was cancelled and there are some, or a status page.
pub fn scan_end(catalog: Option<&Catalog>, outcome: &Result<(), StorageAnalysisError>, had_results: bool) -> (r: ScanEnd)
    ensures
        outcome is Ok ==> r is NewResults,
        outcome matches Err(StorageAnalysisError::Cancelled) ==> if had_results {
            r is PreviousResults
        } else {
            r matches ScanEnd::Status { icon, title, description } && icon@ == "drive-harddisk-symbolic"@
                && title@ == trs(catalog_view(catalog), "Scan Cancelled"@) && description@ == trs(
                catalog_view(catalog),
                "Choose a folder when you are ready to analyze storage."@,
            )
        },
        outcome matches Err(e) ==> !(e is Cancelled) ==> (r matches ScanEnd::Status { icon, title, description }
            && icon@ == "dialog-error-symbolic"@ && title@ == trs(catalog_view(catalog), "Could Not Analyze Folder"@)
            && description@ == trs(catalog_view(catalog), e.message_text())),
{
    match outcome {
        Ok(()) => ScanEnd::NewResults,
        Err(StorageAnalysisError::Cancelled) => {
            if had_results {
                ScanEnd::PreviousResults
            } else {
                ScanEnd::Status {
                    icon: crate::text::owned("drive-harddisk-symbolic"),
                    title: tr(catalog, "Scan Cancelled"),
                    description: tr(catalog, "Choose a folder when you are ready to analyze storage."),
                }
            }
        },
        Err(e) => {
            let m = e.message();
            ScanEnd::Status {
                icon: crate::text::owned("dialog-error-symbolic"),
                title: tr(catalog, "Could Not Analyze Folder"),
                description: tr(catalog, m.as_str()),
            }
        },
    }
}

} // verus!
