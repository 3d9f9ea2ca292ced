//! The storage analyzer's selection of items to move to the trash: picking
//! and unpicking items, what is said about the selection, and how a trash
//! run is summed up.
use vstd::prelude::*;
use crate::analyzer::{
    component_list_order, moved_sum, normalize_targets, spec_normalize_targets, StorageNodeKind, TrashResult, TrashTarget,
};
use crate::analyzer_laws::apart;
use crate::cleanup_log::{catalog_view, tr_with, tra, trs};
use crate::i18n::{rep_views, tr, Catalog};
use crate::outside::{byte_size_text, format_bytes};
use crate::paths::{
    components, components_of, components_order, lemma_components_order_flip, lemma_components_order_trans,
    path_has_prefix, path_starts_with, paths_equal, same_path,
};
use crate::strings::{join, strs};
use crate::text::{chars_of, concat, decimal, decimal_string, owned, Rel};

verus! {

/// The items picked for the trash, kept in path order, one per path.
pub struct Selection {
    items: Vec<TrashTarget>,
}

/// `a` comes before `b` in the order of `Path::cmp`.
pub open spec fn path_before(a: TrashTarget, b: TrashTarget) -> bool {
    components_order(components(a.path@), components(b.path@)) == Rel::Less
}

/// Strictly ascending by path.
pub open spec fn by_path(items: Seq<TrashTarget>) -> bool {
    forall|i: int, j: int| 0 <= i < j < items.len() ==> path_before(#[trigger] items[i], #[trigger] items[j])
}

/// `x` placed before the first item whose path comes after its own.
pub open spec fn insert_by_path(items: Seq<TrashTarget>, x: TrashTarget) -> Seq<TrashTarget>
    decreases items.len(),
{
    if items.len() == 0 {
        seq![x]
    } else if path_before(x, items[0]) {
        seq![x] + items
    } else {
        seq![items[0]] + insert_by_path(items.drop_first(), x)
    }
}

/// No item is picked twice, and none lies inside a picked folder.
pub open spec fn well_picked(items: Seq<TrashTarget>) -> bool {
    forall|i: int, j: int| 0 <= i < j < items.len() ==> apart(#[trigger] items[i], #[trigger] items[j])
}

/// `t` lies strictly inside a picked folder.
pub open spec fn inside_picked(items: Seq<TrashTarget>, t: TrashTarget) -> bool {
    exists|i: int|
        0 <= i < items.len() && (#[trigger] items[i]).kind == StorageNodeKind::Directory && !same_path(
            items[i].path@,
            t.path@,
        ) && path_starts_with(t.path@, items[i].path@)
}

/// The picked items other than those at `path`.
pub open spec fn without_path(items: Seq<TrashTarget>, path: Seq<char>) -> Seq<TrashTarget> {
    items.filter(|x: TrashTarget| !same_path(x.path@, path))
}

/// What picking a folder drops: the items inside it (and any item at its path).
pub open spec fn outside_of(items: Seq<TrashTarget>, dir: Seq<char>) -> Seq<TrashTarget> {
    items.filter(|x: TrashTarget| !path_starts_with(x.path@, dir))
}

/// The picked items other than those at any of `paths`, dropped in turn.
pub open spec fn without_paths(items: Seq<TrashTarget>, paths: Seq<Seq<char>>) -> Seq<TrashTarget>
    decreases paths.len(),
{
    if paths.len() == 0 {
        items
    } else {
        without_path(without_paths(items, paths.drop_last()), paths.last())
    }
}

/// What picking (`active`) or unpicking `item` leaves picked, when it is
/// accepted.
pub open spec fn after_select(items: Seq<TrashTarget>, item: TrashTarget, active: bool) -> Seq<TrashTarget> {
    if !active {
        without_path(items, item.path@)
    } else if item.kind == StorageNodeKind::Directory {
        insert_by_path(outside_of(items, item.path@), item)
    } else {
        insert_by_path(without_path(items, item.path@), item)
    }
}

/// The order of two paths, as `Path::cmp` gives it.
fn path_order(a: &str, b: &str) -> (r: Rel)
    ensures
        r == components_order(components(a@), components(b@)),
{
    let ac = chars_of(a);
    let bc = chars_of(b);
    let x = components_of(ac.as_slice());
    let y = components_of(bc.as_slice());
    component_list_order(&x, &y)
}

/// Where `item` goes among `items`: before the first item whose path comes
/// after its own.
fn insert_position(items: &Vec<TrashTarget>, item: &TrashTarget) -> (k: usize)
    ensures
        k <= items@.len(),
        forall|j: int| 0 <= j < k ==> !path_before(*item, #[trigger] items@[j]),
        k < items@.len() ==> path_before(*item, items@[k as int]),
{
    let mut k: usize = 0;
    while k < items.len()
        invariant
            0 <= k <= items@.len(),
            forall|j: int| 0 <= j < k ==> !path_before(*item, #[trigger] items@[j]),
        decreases items@.len() - k,
    {
        if path_order(item.path.as_str(), items[k].path.as_str()) == Rel::Less {
            return k;
        }
        k += 1;
    }
    k
}

proof fn lemma_insert_by_path_at(items: Seq<TrashTarget>, x: TrashTarget, k: int)
    requires
        0 <= k <= items.len(),
        forall|j: int| 0 <= j < k ==> !path_before(x, #[trigger] items[j]),
        k < items.len() ==> path_before(x, items[k]),
    ensures
        insert_by_path(items, x) == items.insert(k, x),
    decreases items.len(),
{
    if items.len() == 0 {
        assert(items.insert(k, x) =~= seq![x]);
    } else if k == 0 {
        assert(items.insert(0, x) =~= seq![x] + items);
    } else {
        let rest = items.drop_first();
        assert forall|j: int| 0 <= j < k - 1 implies !path_before(x, #[trigger] rest[j]) by {
            assert(rest[j] == items[j + 1]);
        }
        lemma_insert_by_path_at(rest, x, k - 1);
        assert(items.insert(k, x) =~= seq![items[0]] + rest.insert(k - 1, x));
    }
}

impl Selection {
    /// The picked items, in path order.
    pub closed spec fn picked(self) -> Seq<TrashTarget> {
        self.items@
    }

    /// In path order, one item per path, none inside a picked folder.
    pub open spec fn well_formed(self) -> bool {
        well_picked(self.picked()) && by_path(self.picked())
    }

    pub fn new() -> (r: Selection)
        ensures
            r.picked().len() == 0,
            r.well_formed(),
    {
        Selection { items: Vec::new() }
    }

    /// The picked items, in path order.
    pub fn items(&self) -> (r: &Vec<TrashTarget>)
        ensures
            r@ == self.picked(),
    {
        &self.items
    }

    /// Picks (`active`) or unpicks an item. Unpicking drops it; picking an
    /// item inside a picked folder is refused (`false`); picking a folder
    /// first drops what lies inside it; a picked item replaces an earlier
    /// pick of the same path.
    pub fn select(&mut self, item: TrashTarget, active: bool) -> (accepted: bool)
        ensures
            accepted == !(active && inside_picked(old(self).picked(), item)),
            accepted ==> final(self).picked() == after_select(old(self).picked(), item, active),
            !accepted ==> final(self).picked() == old(self).picked(),
            old(self).well_formed() ==> final(self).well_formed(),
    {
        proof {
            if well_picked(self.items@) && by_path(self.items@) && !(active && inside_picked(self.items@, item)) {
                lemma_selection_stays_well_formed(self.items@, item, active);
            }
        }
        if !active {
            self.keep_where(item.path.as_str(), false);
            return true;
        }
        let mut i: usize = 0;
        while i < self.items.len()
            invariant
                active,
                self.items@ == old(self).items@,
                0 <= i <= self.items@.len(),
                forall|j: int| 0 <= j < i ==> !((#[trigger] self.items@[j]).kind == StorageNodeKind::Directory
                    && !same_path(self.items@[j].path@, item.path@) && path_starts_with(item.path@, self.items@[j].path@)),
            decreases self.items@.len() - i,
        {
            let p = &self.items[i];
            if p.kind == StorageNodeKind::Directory && !paths_equal(p.path.as_str(), item.path.as_str())
                && path_has_prefix(item.path.as_str(), p.path.as_str()) {
                assert(inside_picked(self.items@, item));
                return false;
            }
            i += 1;
        }
        let folder = item.kind == StorageNodeKind::Directory;
        self.keep_where(item.path.as_str(), folder);
        let k = insert_position(&self.items, &item);
        proof {
            lemma_insert_by_path_at(self.items@, item, k as int);
        }
        self.items.insert(k, item);
        true
    }

    /// Drops the items whose paths a trash run moved.
    pub fn forget_moved(&mut self, moved: &Vec<(String, u64)>)
        ensures
            final(self).picked() == without_paths(old(self).picked(), moved@.map_values(|m: (String, u64)| m.0@)),
            old(self).well_formed() ==> final(self).well_formed(),
    {
        let ghost paths = moved@.map_values(|m: (String, u64)| m.0@);
        let mut i: usize = 0;
        while i < moved.len()
            invariant
                0 <= i <= moved@.len(),
                paths == moved@.map_values(|m: (String, u64)| m.0@),
                self.items@ == without_paths(old(self).items@, paths.take(i as int)),
                old(self).well_formed() ==> well_picked(self.items@) && by_path(self.items@),
            decreases moved@.len() - i,
        {
            proof {
                lemma_filter_keeps_order(self.items@, |x: TrashTarget| !same_path(x.path@, moved@[i as int].0@));
                assert(paths.take(i + 1).drop_last() =~= paths.take(i as int));
            }
            self.keep_where(moved[i].0.as_str(), false);
            i += 1;
        }
        assert(paths.take(moved@.len() as int) =~= paths);
    }

    /// Drops the items at `path`, or (`below`) those at it or inside it.
    fn keep_where(&mut self, path: &str, below: bool)
        ensures
            final(self).items@ == if below {
                outside_of(old(self).items@, path@)
            } else {
                without_path(old(self).items@, path@)
            },
    {
        let ghost orig = self.items@;
        let mut rest: Vec<TrashTarget> = Vec::new();
        std::mem::swap(&mut rest, &mut self.items);
        let mut kept: Vec<TrashTarget> = Vec::new();
        let mut i: usize = 0;
        let n = rest.len();
        while rest.len() > 0
            invariant
                n == orig.len(),
                i + rest@.len() == n,
                rest@ == orig.skip(i as int),
                kept@ == if below {
                    outside_of(orig.take(i as int), path@)
                } else {
                    without_path(orig.take(i as int), path@)
                },
            decreases rest@.len(),
        {
            let x = rest.remove(0);
            assert(orig.take(i + 1).drop_last() =~= orig.take(i as int));
            assert(orig.take(i + 1).last() == x);
            let drop = if below {
                path_has_prefix(x.path.as_str(), path)
            } else {
                paths_equal(x.path.as_str(), path)
            };
            if !drop {
                kept.push(x);
            }
            proof {
                reveal(Seq::filter);
            }
            i += 1;
            assert(rest@ =~= orig.skip(i as int));
        }
        assert(orig.take(n as int) =~= orig);
        self.items = kept;
    }
}

/// Filtering keeps the picked items apart and in path order, and keeps
/// only items that were picked.
proof fn lemma_filter_keeps_order(items: Seq<TrashTarget>, pred: spec_fn(TrashTarget) -> bool)
    ensures
        forall|i: int| 0 <= i < items.filter(pred).len() ==> items.contains(#[trigger] items.filter(pred)[i]),
        well_picked(items) ==> well_picked(items.filter(pred)),
        by_path(items) ==> by_path(items.filter(pred)),
    decreases items.len(),
{
    reveal(Seq::filter);
    if items.len() > 0 {
        let t = items.drop_last();
        let last = items.last();
        assert(well_picked(items) ==> well_picked(t));
        assert(by_path(items) ==> by_path(t));
        lemma_filter_keeps_order(t, pred);
        let f = t.filter(pred);
        assert forall|i: int| #![trigger f[i]] 0 <= i < f.len() implies exists|m: int| 0 <= m < items.len() - 1 && #[trigger] items[m]
            == f[i] by {
            assert(t.contains(f[i]));
            let m = choose|m: int| 0 <= m < t.len() && t[m] == f[i];
            assert(items[m] == f[i]);
        }
        if pred(last) {
            let out = f.push(last);
            assert(items.filter(pred) == out);
            if well_picked(items) {
                assert forall|i: int, j: int| 0 <= i < j < out.len() implies apart(#[trigger] out[i], #[trigger] out[j]) by {
                    if j == f.len() {
                        let m = choose|m: int| 0 <= m < items.len() - 1 && #[trigger] items[m] == f[i];
                        assert(items[items.len() - 1] == out[j]);
                    } else {
                        assert(out[i] == f[i] && out[j] == f[j]);
                    }
                }
            }
            if by_path(items) {
                assert forall|i: int, j: int| 0 <= i < j < out.len() implies path_before(#[trigger] out[i], #[trigger] out[j]) by {
                    if j == f.len() {
                        let m = choose|m: int| 0 <= m < items.len() - 1 && #[trigger] items[m] == f[i];
                        assert(items[items.len() - 1] == out[j]);
                    } else {
                        assert(out[i] == f[i] && out[j] == f[j]);
                    }
                }
            }
            assert forall|i: int| 0 <= i < out.len() implies items.contains(#[trigger] out[i]) by {
                if i < f.len() {
                    let m = choose|m: int| 0 <= m < items.len() - 1 && #[trigger] items[m] == f[i];
                    assert(items[m] == out[i]);
                } else {
                    assert(items[items.len() - 1] == out[i]);
                }
            }
        } else {
            assert(items.filter(pred) == f);
            assert forall|i: int| 0 <= i < f.len() implies items.contains(#[trigger] f[i]) by {
                let m = choose|m: int| 0 <= m < items.len() - 1 && #[trigger] items[m] == f[i];
            }
        }
    }
}

/// Where `insert_by_path` puts `x`.
spec fn insert_index(items: Seq<TrashTarget>, x: TrashTarget) -> int
    decreases items.len(),
{
    if items.len() == 0 || path_before(x, items[0]) {
        0
    } else {
        1 + insert_index(items.drop_first(), x)
    }
}

proof fn lemma_insert_index(items: Seq<TrashTarget>, x: TrashTarget)
    ensures
        0 <= insert_index(items, x) <= items.len(),
        insert_by_path(items, x) == items.insert(insert_index(items, x), x),
        forall|j: int| 0 <= j < insert_index(items, x) ==> !path_before(x, #[trigger] items[j]),
        insert_index(items, x) < items.len() ==> path_before(x, items[insert_index(items, x)]),
    decreases items.len(),
{
    if items.len() == 0 {
        assert(items.insert(0, x) =~= seq![x]);
    } else if path_before(x, items[0]) {
        assert(items.insert(0, x) =~= seq![x] + items);
    } else {
        let rest = items.drop_first();
        lemma_insert_index(rest, x);
        let k = insert_index(rest, x);
        assert(items.insert(k + 1, x) =~= seq![items[0]] + rest.insert(k, x));
        assert forall|j: int| 0 <= j < k + 1 implies !path_before(x, #[trigger] items[j]) by {
            if j > 0 {
                assert(items[j] == rest[j - 1]);
            }
        }
        if k < rest.len() {
            assert(items[k + 1] == rest[k]);
        }
    }
}

/// Placing an item apart from all others keeps the items apart and in path
/// order.
proof fn lemma_insert_keeps_well_formed(s: Seq<TrashTarget>, x: TrashTarget)
    requires
        well_picked(s),
        by_path(s),
        forall|m: int| 0 <= m < s.len() ==> apart(#[trigger] s[m], x),
    ensures
        well_picked(insert_by_path(s, x)),
        by_path(insert_by_path(s, x)),
{
    lemma_insert_index(s, x);
    let k = insert_index(s, x);
    let out = s.insert(k, x);
    let cx = components(x.path@);
    assert forall|i: int, j: int| 0 <= i < j < out.len() implies apart(#[trigger] out[i], #[trigger] out[j])
        && path_before(out[i], out[j]) by {
        if j < k {
            assert(out[i] == s[i] && out[j] == s[j]);
        } else if j == k {
            assert(out[i] == s[i] && out[j] == x);
            assert(apart(s[i], x));
            lemma_components_order_flip(cx, components(s[i].path@));
        } else if i < k {
            assert(out[i] == s[i] && out[j] == s[j - 1]);
        } else if i == k {
            assert(out[i] == x && out[j] == s[j - 1]);
            assert(apart(s[j - 1], x));
            if j - 1 > k {
                assert(path_before(s[k], s[j - 1]));
                lemma_components_order_trans(cx, components(s[k].path@), components(s[j - 1].path@));
            }
        } else {
            assert(out[i] == s[i - 1] && out[j] == s[j - 1]);
        }
    }
}

/// A change to the selection that is accepted keeps it well formed: in
/// path order, no item twice, none inside a picked folder.
pub proof fn lemma_selection_stays_well_formed(items: Seq<TrashTarget>, item: TrashTarget, active: bool)
    requires
        well_picked(items),
        by_path(items),
        !(active && inside_picked(items, item)),
    ensures
        well_picked(after_select(items, item, active)),
        by_path(after_select(items, item, active)),
{
    let p1 = |x: TrashTarget| !same_path(x.path@, item.path@);
    let p2 = |x: TrashTarget| !path_starts_with(x.path@, item.path@);
    lemma_filter_keeps_order(items, p1);
    lemma_filter_keeps_order(items, p2);
    if active {
        let base = if item.kind == StorageNodeKind::Directory {
            outside_of(items, item.path@)
        } else {
            without_path(items, item.path@)
        };
        assert forall|m: int| 0 <= m < base.len() implies apart(#[trigger] base[m], item) by {
            let a = base[m];
            assert(items.contains(a));
            if item.kind == StorageNodeKind::Directory {
                assert(items.filter(p2).contains(a));
                assert(p2(a)) by {
                    items.lemma_filter_pred(p2, m);
                }
                if same_path(a.path@, item.path@) {
                    let ca = components(a.path@);
                    assert(ca.subrange(0, ca.len() as int) =~= ca);
                    assert(path_starts_with(a.path@, item.path@));
                }
            } else {
                assert(p1(a)) by {
                    items.lemma_filter_pred(p1, m);
                }
            }
            if a.kind == StorageNodeKind::Directory && !same_path(a.path@, item.path@) && path_starts_with(
                item.path@,
                a.path@,
            ) {
                assert(inside_picked(items, item));
            }
        }
        lemma_insert_keeps_well_formed(base, item);
    }
}

// ---------------------------------------------------------------------------
// What is said about the selection
// ---------------------------------------------------------------------------
pub open spec fn total_size(items: Seq<TrashTarget>) -> int
    decreases items.len(),
{
    if items.len() == 0 {
        0
    } else {
        total_size(items.drop_last()) + items.last().size
    }
}

proof fn lemma_total_size_prefix(items: Seq<TrashTarget>, n: int)
    requires
        0 <= n <= items.len(),
    ensures
        total_size(items.take(n)) <= total_size(items),
    decreases items.len() - n,
{
    if n < items.len() {
        lemma_total_size_prefix(items, n + 1);
        assert(items.take(n + 1).drop_last() =~= items.take(n));
    } else {
        assert(items.take(n) =~= items);
    }
}

fn sum_sizes(items: &Vec<TrashTarget>) -> (r: u64)
    requires
        total_size(items@) <= u64::MAX,
    ensures
        r == total_size(items@),
{
    let mut total: u64 = 0;
    let mut i: usize = 0;
    while i < items.len()
        invariant
            0 <= i <= items@.len(),
            total == total_size(items@.take(i as int)),
            total_size(items@) <= u64::MAX,
        decreases items@.len() - i,
    {
        proof {
            lemma_total_size_prefix(items@, i + 1);
            assert(items@.take(i + 1).drop_last() =~= items@.take(i as int));
        }
        total = total + items[i].size;
        i += 1;
    }
    assert(items@.take(items@.len() as int) =~= items@);
    total
}

/// The lines under the selection: how many items, and how much they hold.
pub struct SelectionSummary {
    pub count_text: String,
    pub size_text: String,
    /// Whether moving to the trash can be asked for.
    pub can_trash: bool,
}

pub open spec fn count_text_of(c: Option<Map<Seq<char>, Seq<char>>>, count: nat) -> Seq<char> {
    if count == 0 {
        trs(c, "Nothing selected"@)
    } else if count == 1 {
        trs(c, "1 item selected"@)
    } else {
        tra(c, "{count} items selected"@, seq![("{count}"@, decimal(count))])
    }
}

pub open spec fn size_text_of(c: Option<Map<Seq<char>, Seq<char>>>, count: nat, total: u64) -> Seq<char> {
    if count == 0 {
        trs(c, "Select files or folders to review before moving them to Trash"@)
    } else {
        tra(c, "{size} will be reviewed before moving"@, seq![("{size}"@, byte_size_text(total))])
    }
}

impl Selection {
    /// The summary of the selection; moving is possible when something is
    /// picked and no other operation runs.
    pub fn summary(&self, catalog: Option<&Catalog>, operation_running: bool) -> (r: SelectionSummary)
        requires
            total_size(self.picked()) <= u64::MAX,
        ensures
            r.count_text@ == count_text_of(catalog_view(catalog), self.picked().len()),
            r.size_text@ == size_text_of(catalog_view(catalog), self.picked().len(), total_size(self.picked()) as u64),
            r.can_trash == (self.picked().len() > 0 && !operation_running),
    {
        let count = self.items.len();
        let total = sum_sizes(&self.items);
        let count_text = if count == 0 {
            tr(catalog, "Nothing selected")
        } else if count == 1 {
            tr(catalog, "1 item selected")
        } else {
            let n = decimal_string(count as u64);
            let reps = [("{count}", n.as_str())];
            assert(rep_views(reps@) =~= seq![("{count}"@, n@)]);
            tr_with(catalog, "{count} items selected", &reps)
        };
        let size_text = if count == 0 {
            tr(catalog, "Select files or folders to review before moving them to Trash")
        } else {
            let s = format_bytes(total);
            let reps = [("{size}", s.as_str())];
            assert(rep_views(reps@) =~= seq![("{size}"@, s@)]);
            tr_with(catalog, "{size} will be reviewed before moving", &reps)
        };
        SelectionSummary { count_text, size_text, can_trash: count > 0 && !operation_running }
    }
}

/// How many picked items the confirmation lists by path.
pub const PREVIEW_ITEMS: usize = 5;

pub open spec fn item_word(c: Option<Map<Seq<char>, Seq<char>>>, count: nat) -> Seq<char> {
    if count == 1 {
        trs(c, "item"@)
    } else {
        trs(c, "items"@)
    }
}

pub open spec fn preview_lines(items: Seq<TrashTarget>) -> Seq<Seq<char>> {
    let n = if items.len() < PREVIEW_ITEMS { items.len() as int } else { PREVIEW_ITEMS as int };
    Seq::new(n as nat, |i: int| "• "@ + items[i].path@)
}

pub open spec fn confirmation_text(c: Option<Map<Seq<char>, Seq<char>>>, items: Seq<TrashTarget>) -> Seq<char> {
    let more = if items.len() > PREVIEW_ITEMS {
        tra(c, "\n• and {count} more"@, seq![("{count}"@, decimal((items.len() - PREVIEW_ITEMS) as nat))])
    } else {
        Seq::<char>::empty()
    };
    tra(
        c,
        "Move {count} selected {item_word} ({size}) to Trash?\n\n{preview}{more}\n\nFolders include all contents, including smaller items grouped as Other. Items can be restored from Trash."@,
        seq![
            ("{count}"@, decimal(items.len())),
            ("{item_word}"@, item_word(c, items.len())),
            ("{size}"@, byte_size_text(total_size(items) as u64)),
            ("{preview}"@, join(preview_lines(items), "\n"@)),
            ("{more}"@, more),
        ],
    )
}

impl Selection {
    /// The question asked before the picked items go to the trash; nothing
    /// is asked when nothing is picked or another operation runs.
    pub fn trash_confirmation(&self, catalog: Option<&Catalog>, operation_running: bool) -> (r: Option<(String, String)>)
        requires
            total_size(self.picked()) <= u64::MAX,
        ensures
            r is Some <==> (self.picked().len() > 0 && !operation_running),
            r matches Some((title, message)) ==> title@ == trs(catalog_view(catalog), "Move Selected Items to Trash?"@)
                && message@ == confirmation_text(catalog_view(catalog), self.picked()),
    {
        if operation_running || self.items.len() == 0 {
            return None;
        }
        let count = self.items.len();
        let total = sum_sizes(&self.items);
        let mut lines: Vec<String> = Vec::new();
        let limit = if count < PREVIEW_ITEMS {
            count
        } else {
            PREVIEW_ITEMS
        };
        let mut i: usize = 0;
        while i < limit
            invariant
                0 <= i <= limit <= self.picked().len(),
                limit == (if self.picked().len() < PREVIEW_ITEMS { self.picked().len() } else { PREVIEW_ITEMS as nat }),
                strs(lines@) == preview_lines(self.picked()).take(i as int),
            decreases limit - i,
        {
            let line = concat("• ", self.items[i].path.as_str());
            let ghost before = strs(lines@);
            lines.push(line);
            assert(strs(lines@) =~= before.push(line@));
            assert(preview_lines(self.picked()).take(i + 1) =~= preview_lines(self.picked()).take(i as int).push(line@));
            i += 1;
        }
        assert(preview_lines(self.picked()).take(limit as int) =~= preview_lines(self.picked()));
        let preview = crate::strings::join_strings(&lines, "\n");
        let more = if count > PREVIEW_ITEMS {
            let n = decimal_string((count - PREVIEW_ITEMS) as u64);
            let reps = [("{count}", n.as_str())];
            assert(rep_views(reps@) =~= seq![("{count}"@, n@)]);
            tr_with(catalog, "\n• and {count} more", &reps)
        } else {
            String::new()
        };
        let count_text = decimal_string(count as u64);
        let word = if count == 1 {
            tr(catalog, "item")
        } else {
            tr(catalog, "items")
        };
        let size = format_bytes(total);
        let reps = [
            ("{count}", count_text.as_str()),
            ("{item_word}", word.as_str()),
            ("{size}", size.as_str()),
            ("{preview}", preview.as_str()),
            ("{more}", more.as_str()),
        ];
        assert(rep_views(reps@) =~= seq![
            ("{count}"@, count_text@),
            ("{item_word}"@, word@),
            ("{size}"@, size@),
            ("{preview}"@, preview@),
            ("{more}"@, more@),
        ]);
        let message = tr_with(
            catalog,
            "Move {count} selected {item_word} ({size}) to Trash?\n\n{preview}{more}\n\nFolders include all contents, including smaller items grouped as Other. Items can be restored from Trash.",
            &reps,
        );
        Some((tr(catalog, "Move Selected Items to Trash?"), message))
    }
}

/// The first three failures, each on a line of its own as `path: reason`.
pub open spec fn failure_details(failed: Seq<(String, String)>) -> Seq<char>
    decreases failed.len(),
{
    let n = if failed.len() < 3 { failed.len() as int } else { 3 };
    if n == 0 {
        Seq::<char>::empty()
    } else {
        failure_details(failed.take(n - 1)) + "\n"@ + failed[n - 1].0@ + ": "@ + failed[n - 1].1@
    }
}

pub open spec fn trash_message(c: Option<Map<Seq<char>, Seq<char>>>, result: TrashResult) -> Seq<char> {
    tra(
        c,
        "Moved {moved} {item_word} ({size}) to Trash.\n{failed} items failed.{details}"@,
        seq![
            ("{moved}"@, decimal(result.moved@.len())),
            ("{item_word}"@, item_word(c, result.moved@.len())),
            ("{size}"@, byte_size_text(moved_sum(result.moved@) as u64)),
            ("{failed}"@, decimal(result.failed@.len())),
            ("{details}"@, failure_details(result.failed@)),
        ],
    )
}

/// What the user is told after a trash run: the title, the message, and
/// whether the folder is analysed again (when anything was moved).
pub struct TrashReport {
    pub title: String,
    pub message: String,
    pub rescan: bool,
}

fn failure_lines(failed: &Vec<(String, String)>) -> (r: String)
    ensures
        r@ == failure_details(failed@),
{
    let n: usize = if failed.len() < 3 {
        failed.len()
    } else {
        3
    };
    let mut out = String::new();
    let mut i: usize = 0;
    while i < n
        invariant
            0 <= i <= n,
            n == (if failed@.len() < 3 { failed@.len() as int } else { 3 }),
            out@ == failure_details(failed@.take(i as int)),
        decreases n - i,
    {
        let line = concat("\n", failed[i].0.as_str());
        let line = concat(line.as_str(), ": ");
        let line = concat(line.as_str(), failed[i].1.as_str());
        proof {
            let t = failed@.take(i + 1);
            assert(t.take(i as int) =~= failed@.take(i as int));
            assert(t[i as int] == failed@[i as int]);
        }
        out = concat(out.as_str(), line.as_str());
        proof {
            assert(out@ =~= failure_details(failed@.take(i as int)) + "\n"@ + failed@[i as int].0@ + ": "@
                + failed@[i as int].1@);
        }
        i += 1;
    }
    proof {
        if failed@.len() > 3 {
            let t = failed@.take(3);
            assert(t.take(2) =~= failed@.take(2));
            assert(t[2] == failed@[2]);
            assert(failure_details(failed@) == failure_details(failed@.take(2)) + "\n"@ + failed@[2].0@ + ": "@
                + failed@[2].1@);
        } else {
            assert(failed@.take(n as int) =~= failed@);
        }
    }
    out
}

/// The report of a trash run.
pub fn trash_report(catalog: Option<&Catalog>, result: &TrashResult) -> (r: TrashReport)
    requires
        moved_sum(result.moved@) <= u64::MAX,
    ensures
        r.title@ == (if result.moved@.len() > 0 {
            trs(catalog_view(catalog), "Items Moved to Trash"@)
        } else {
            trs(catalog_view(catalog), "Nothing Was Moved"@)
        }),
        r.message@ == trash_message(catalog_view(catalog), *result),
        r.rescan == (result.moved@.len() > 0),
{
    let moved = result.moved.len();
    let moved_text = decimal_string(moved as u64);
    let word = if moved == 1 {
        tr(catalog, "item")
    } else {
        tr(catalog, "items")
    };
    let size = format_bytes(result.bytes_moved());
    let failed_text = decimal_string(result.failed.len() as u64);
    let details = failure_lines(&result.failed);
    let reps = [
        ("{moved}", moved_text.as_str()),
        ("{item_word}", word.as_str()),
        ("{size}", size.as_str()),
        ("{failed}", failed_text.as_str()),
        ("{details}", details.as_str()),
    ];
    assert(rep_views(reps@) =~= seq![
        ("{moved}"@, moved_text@),
        ("{item_word}"@, word@),
        ("{size}"@, size@),
        ("{failed}"@, failed_text@),
        ("{details}"@, details@),
    ]);
    let message = tr_with(
        catalog,
        "Moved {moved} {item_word} ({size}) to Trash.\n{failed} items failed.{details}",
        &reps,
    );
    let title = if moved > 0 {
        tr(catalog, "Items Moved to Trash")
    } else {
        tr(catalog, "Nothing Was Moved")
    };
    TrashReport { title, message, rescan: moved > 0 }
}

// ---------------------------------------------------------------------------
// A trash run
// ---------------------------------------------------------------------------
/// Moving a selection to the trash, one target at a time: the targets are
/// the normalized selection; each is checked right before it is moved
/// (`check`), and what moving it did is recorded (`record`). A refused
/// target is recorded as failed with the reason, without being moved.
pub struct TrashRun {
    targets: Vec<TrashTarget>,
    position: usize,
    awaiting_move: bool,
    result: TrashResult,
    approved: Ghost<Seq<bool>>,
    sources: Ghost<Seq<int>>,
}

impl TrashRun {
    pub closed spec fn targets(self) -> Seq<TrashTarget> {
        self.targets@
    }

    /// How many targets are done.
    pub closed spec fn position(self) -> nat {
        self.position as nat
    }

    /// Whether the current target passed its check and is to be moved.
    pub closed spec fn awaiting_move(self) -> bool {
        self.awaiting_move
    }

    pub closed spec fn moved(self) -> Seq<(String, u64)> {
        self.result.moved@
    }

    pub closed spec fn failed(self) -> Seq<(String, String)> {
        self.result.failed@
    }

    /// Which of the done targets passed their check.
    pub closed spec fn approved(self) -> Seq<bool> {
        self.approved@
    }

    /// For each moved item, the position of its target.
    pub closed spec fn sources(self) -> Seq<int> {
        self.sources@
    }

    /// Every moved item is a done target that passed its check, with its
    /// size.
    pub open spec fn well_formed(self) -> bool {
        &&& self.position() <= self.targets().len()
        &&& (self.awaiting_move() ==> self.position() < self.targets().len())
        &&& self.approved().len() == self.position()
        &&& self.sources().len() == self.moved().len()
        &&& forall|k: int|
            0 <= k < self.moved().len() ==> {
                let i = #[trigger] self.sources()[k];
                &&& 0 <= i < self.position()
                &&& self.approved()[i]
                &&& self.moved()[k].0@ == self.targets()[i].path@
                &&& self.moved()[k].1 == self.targets()[i].size
            }
    }

    /// A run over the normalized selection.
    pub fn start(selected: &Vec<TrashTarget>) -> (r: TrashRun)
        ensures
            r.targets() == spec_normalize_targets(selected@),
            r.position() == 0,
            !r.awaiting_move(),
            r.moved().len() == 0,
            r.failed().len() == 0,
            r.well_formed(),
    {
        TrashRun {
            targets: normalize_targets(selected),
            position: 0,
            awaiting_move: false,
            result: TrashResult { moved: Vec::new(), failed: Vec::new() },
            approved: Ghost(Seq::empty()),
            sources: Ghost(Seq::empty()),
        }
    }

    /// The target to check or move next; none once all are done.
    pub fn current(&self) -> (r: Option<&TrashTarget>)
        ensures
            r is Some <==> self.position() < self.targets().len(),
            r matches Some(t) ==> *t == self.targets()[self.position() as int],
    {
        if self.position < self.targets.len() {
            Some(&self.targets[self.position])
        } else {
            None
        }
    }

    /// The check of the current target: passed (`Ok`), it is to be moved
    /// (`true`); refused, it is recorded as failed with the reason and the
    /// run goes on to the next target.
    pub fn check(&mut self, verdict: Result<(), String>) -> (move_it: bool)
        requires
            old(self).well_formed(),
            old(self).position() < old(self).targets().len(),
            !old(self).awaiting_move(),
        ensures
            final(self).well_formed(),
            final(self).targets() == old(self).targets(),
            final(self).moved() == old(self).moved(),
            move_it == (verdict is Ok),
            move_it ==> final(self).awaiting_move() && final(self).position() == old(self).position()
                && final(self).failed() == old(self).failed(),
            !move_it ==> !final(self).awaiting_move() && final(self).position() == old(self).position() + 1
                && pair_texts(final(self).failed()) == pair_texts(old(self).failed()).push(
                (old(self).targets()[old(self).position() as int].path@, verdict->Err_0@),
            ),
    {
        match verdict {
            Ok(()) => {
                self.awaiting_move = true;
                true
            },
            Err(reason) => {
                let path = self.targets[self.position].path.clone();
                let ghost before = self.result.failed@;
                self.result.failed.push((path, reason));
                assert(pair_texts(self.result.failed@) =~= pair_texts(before).push((path@, reason@)));
                proof {
                    self.approved@ = self.approved@.push(false);
                }
                assert(self.position < self.targets.len());
                self.position = self.position + 1;
                proof {
                    assert forall|k: int| 0 <= k < self.moved().len() implies {
                        let i = #[trigger] self.sources()[k];
                        &&& 0 <= i < self.position()
                        &&& self.approved()[i]
                        &&& self.moved()[k].0@ == self.targets()[i].path@
                        &&& self.moved()[k].1 == self.targets()[i].size
                    } by {
                        let i = old(self).sources()[k];
                        assert(self.approved()[i] == old(self).approved()[i]);
                    }
                }
                false
            },
        }
    }

    /// What moving the current, checked target did: moved, it is recorded
    /// with its size; otherwise as failed with the error. The run goes on
    /// to the next target.
    pub fn record(&mut self, outcome: Result<(), String>)
        requires
            old(self).well_formed(),
            old(self).awaiting_move(),
        ensures
            final(self).well_formed(),
            final(self).targets() == old(self).targets(),
            !final(self).awaiting_move(),
            final(self).position() == old(self).position() + 1,
            ({
                let t = old(self).targets()[old(self).position() as int];
                match outcome {
                    Ok(()) => pair_sizes(final(self).moved()) == pair_sizes(old(self).moved()).push((t.path@, t.size))
                        && final(self).failed() == old(self).failed(),
                    Err(e) => final(self).moved() == old(self).moved() && pair_texts(final(self).failed())
                        == pair_texts(old(self).failed()).push((t.path@, e@)),
                }
            }),
    {
        let path = self.targets[self.position].path.clone();
        let size = self.targets[self.position].size;
        let ghost old_moved = self.result.moved@;
        let ghost old_failed = self.result.failed@;
        let ghost p = self.position as int;
        match outcome {
            Ok(()) => {
                self.result.moved.push((path, size));
                assert(pair_sizes(self.result.moved@) =~= pair_sizes(old_moved).push((path@, size)));
                proof {
                    self.sources@ = self.sources@.push(p);
                }
            },
            Err(e) => {
                self.result.failed.push((path, e));
                assert(pair_texts(self.result.failed@) =~= pair_texts(old_failed).push((path@, e@)));
            },
        }
        proof {
            self.approved@ = self.approved@.push(true);
        }
        assert(self.position < self.targets.len());
        self.awaiting_move = false;
        self.position = self.position + 1;
        proof {
            assert forall|k: int| 0 <= k < self.moved().len() implies {
                let i = #[trigger] self.sources()[k];
                &&& 0 <= i < self.position()
                &&& self.approved()[i]
                &&& self.moved()[k].0@ == self.targets()[i].path@
                &&& self.moved()[k].1 == self.targets()[i].size
            } by {
                if k < old_moved.len() {
                    let i = old(self).sources()[k];
                    assert(self.sources()[k] == i);
                    assert(self.moved()[k] == old_moved[k]);
                    assert(self.approved()[i] == old(self).approved()[i]);
                } else {
                    assert(self.sources()[k] == p);
                    assert(self.approved()[p]);
                }
            }
        }
    }

    /// What the run did.
    pub fn finish(self) -> (r: TrashResult)
        ensures
            r.moved@ == self.moved(),
            r.failed@ == self.failed(),
    {
        self.result
    }
}

/// The texts of a list of pairs of strings.
pub open spec fn pair_texts(v: Seq<(String, String)>) -> Seq<(Seq<char>, Seq<char>)> {
    Seq::new(v.len(), |i: int| (v[i].0@, v[i].1@))
}

/// The paths and sizes of a list of moved items.
pub open spec fn pair_sizes(v: Seq<(String, u64)>) -> Seq<(Seq<char>, u64)> {
    Seq::new(v.len(), |i: int| (v[i].0@, v[i].1))
}

/// In a well-formed run, every moved item is one of the normalized targets
/// that passed its check, with that target's size.
pub proof fn lemma_moved_items_passed_their_check(run: TrashRun, k: int)
    requires
        run.well_formed(),
        0 <= k < run.moved().len(),
    ensures
        exists|i: int|
            #![trigger run.targets()[i]]
            0 <= i < run.position() && run.approved()[i] && run.moved()[k].0@ == run.targets()[i].path@
                && run.moved()[k].1 == run.targets()[i].size,
{
    let i = run.sources()[k];
    assert(run.targets()[i] == run.targets()[i]);
}

} // verus!
