//! What moving a selection to the trash guarantees about the selection:
//! every selected item is still covered, and nothing is moved twice, by
//! itself or inside a selected folder.
use vstd::prelude::*;
use vstd::multiset::Multiset;
use crate::analyzer::{
    covered, insert_target, kept_targets, sorted_targets, sorts_after, spec_normalize_targets, StorageNodeKind,
    TrashTarget,
};
use crate::paths::{components, path_starts_with, same_path};

verus! {

broadcast use vstd::seq_lib::group_seq_properties;

pub open spec fn depth(t: TrashTarget) -> nat {
    components(t.path@).len()
}

/// Shallowest first.
pub open spec fn by_depth(s: Seq<TrashTarget>) -> bool {
    forall|i: int, j: int| 0 <= i < j < s.len() ==> depth(#[trigger] s[i]) <= depth(#[trigger] s[j])
}

/// Neither item is the other, nor inside the other when that is a folder.
pub open spec fn apart(a: TrashTarget, b: TrashTarget) -> bool {
    &&& !same_path(a.path@, b.path@)
    &&& !(a.kind == StorageNodeKind::Directory && path_starts_with(b.path@, a.path@))
    &&& !(b.kind == StorageNodeKind::Directory && path_starts_with(a.path@, b.path@))
}

/// A path strictly below another has more components.
proof fn lemma_below_is_deeper(a: Seq<char>, b: Seq<char>)
    requires
        path_starts_with(a, b),
        !same_path(a, b),
    ensures
        components(a).len() > components(b).len(),
{
    if components(a).len() == components(b).len() {
        assert(components(a).subrange(0, components(b).len() as int) =~= components(a));
    }
}

proof fn lemma_insert_target(sorted: Seq<TrashTarget>, x: TrashTarget)
    ensures
        insert_target(sorted, x).to_multiset() == sorted.to_multiset().insert(x),
        insert_target(sorted, x).len() == sorted.len() + 1,
        by_depth(sorted) ==> by_depth(insert_target(sorted, x)),
    decreases sorted.len(),
{
    broadcast use vstd::multiset::group_multiset_axioms;
    if sorted.len() == 0 {
        assert(seq![x] =~= Seq::<TrashTarget>::empty().push(x));
    } else if sorts_after(sorted[0], x) {
        let out = seq![x] + sorted;
        assert(out =~= sorted.insert(0, x));
        if by_depth(sorted) {
            assert forall|i: int, j: int| 0 <= i < j < out.len() implies depth(#[trigger] out[i]) <= depth(
                #[trigger] out[j],
            ) by {
                if i == 0 {
                    assert(depth(sorted[0]) >= depth(x));
                    if j > 1 {
                        assert(depth(sorted[0]) <= depth(sorted[j - 1]));
                    }
                } else {
                    assert(out[i] == sorted[i - 1] && out[j] == sorted[j - 1]);
                }
            }
        }
    } else {
        let rest = sorted.drop_first();
        lemma_insert_target(rest, x);
        let tail = insert_target(rest, x);
        let out = seq![sorted[0]] + tail;
        assert(sorted =~= seq![sorted[0]] + rest);
        assert(out.to_multiset() =~= sorted.to_multiset().insert(x)) by {
            vstd::seq_lib::lemma_multiset_commutative(seq![sorted[0]], tail);
            vstd::seq_lib::lemma_multiset_commutative(seq![sorted[0]], rest);
        }
        if by_depth(sorted) {
            assert(by_depth(rest)) by {
                assert forall|i: int, j: int| 0 <= i < j < rest.len() implies depth(#[trigger] rest[i]) <= depth(
                    #[trigger] rest[j],
                ) by {
                    assert(rest[i] == sorted[i + 1] && rest[j] == sorted[j + 1]);
                }
            }
            assert(depth(sorted[0]) <= depth(x));
            assert forall|i: int, j: int| 0 <= i < j < out.len() implies depth(#[trigger] out[i]) <= depth(
                #[trigger] out[j],
            ) by {
                if i == 0 {
                    let e = tail[j - 1];
                    assert(out[j] == e);
                    assert(tail.to_multiset().count(e) > 0);
                    if e != x {
                        assert(rest.to_multiset().count(e) > 0);
                        assert(rest.contains(e));
                        let m = choose|m: int| 0 <= m < rest.len() && rest[m] == e;
                        assert(sorted[m + 1] == e);
                    }
                } else {
                    assert(out[i] == tail[i - 1] && out[j] == tail[j - 1]);
                }
            }
        }
    }
}

proof fn lemma_sorted_targets(s: Seq<TrashTarget>)
    ensures
        sorted_targets(s).to_multiset() == s.to_multiset(),
        sorted_targets(s).len() == s.len(),
        by_depth(sorted_targets(s)),
    decreases s.len(),
{
    broadcast use vstd::multiset::group_multiset_axioms;
    if s.len() > 0 {
        lemma_sorted_targets(s.drop_last());
        lemma_insert_target(sorted_targets(s.drop_last()), s.last());
        assert(s.drop_last().push(s.last()) =~= s);
    } else {
        assert(s.to_multiset() =~= Multiset::empty());
        assert(sorted_targets(s).to_multiset() =~= Multiset::empty());
    }
}

proof fn lemma_covered_grows(k: Seq<TrashTarget>, y: TrashTarget, t: TrashTarget)
    requires
        covered(k, t),
    ensures
        covered(k.push(y), t),
{
    let i = choose|i: int|
        0 <= i < k.len() && ((#[trigger] k[i]).kind == StorageNodeKind::Directory && !same_path(t.path@, k[i].path@)
            && path_starts_with(t.path@, k[i].path@) || same_path(k[i].path@, t.path@));
    assert(k.push(y)[i] == k[i]);
}

proof fn lemma_same_path_covers(k: Seq<TrashTarget>, i: int)
    requires
        0 <= i < k.len(),
    ensures
        covered(k, k[i]),
{
}

proof fn lemma_new_item_apart(k: Seq<TrashTarget>, x: TrashTarget, i: int)
    requires
        0 <= i < k.len(),
        !covered(k, x),
        depth(k[i]) <= depth(x),
    ensures
        apart(k[i], x),
{
    let a = k[i];
    if a.kind == StorageNodeKind::Directory && !same_path(x.path@, a.path@) && path_starts_with(x.path@, a.path@)
        || same_path(a.path@, x.path@) {
        assert(covered(k, x));
    }
    if x.kind == StorageNodeKind::Directory && path_starts_with(a.path@, x.path@) && !same_path(a.path@, x.path@) {
        lemma_below_is_deeper(a.path@, x.path@);
    }
}

/// Each kept item stands in the selection at some position.
pub open spec fn drawn_from(k: Seq<TrashTarget>, s: Seq<TrashTarget>) -> bool {
    forall|i: int| 0 <= i < k.len() ==> exists|m: int| 0 <= m < s.len() && s[m] == #[trigger] k[i]
}

proof fn lemma_kept_targets(s: Seq<TrashTarget>)
    requires
        by_depth(s),
    ensures
        forall|m: int| 0 <= m < s.len() ==> covered(kept_targets(s), #[trigger] s[m]),
        drawn_from(kept_targets(s), s),
        forall|i: int, j: int|
            0 <= i < j < kept_targets(s).len() ==> apart(#[trigger] kept_targets(s)[i], #[trigger] kept_targets(s)[j]),
    decreases s.len(),
{
    if s.len() > 0 {
        let t = s.drop_last();
        let x = s.last();
        assert(by_depth(t));
        lemma_kept_targets(t);
        let k = kept_targets(t);
        assert(drawn_from(k, s)) by {
            assert forall|i: int| 0 <= i < k.len() implies exists|m: int| 0 <= m < s.len() && s[m] == #[trigger] k[i] by {
                let m = choose|m: int| 0 <= m < t.len() && t[m] == k[i];
                assert(s[m] == k[i]);
            }
        }
        if covered(k, x) {
            assert(kept_targets(s) == k);
            assert forall|m: int| 0 <= m < s.len() implies covered(k, #[trigger] s[m]) by {
                if m < t.len() {
                    assert(s[m] == t[m]);
                }
            }
        } else {
            let out = k.push(x);
            assert(kept_targets(s) == out);
            assert forall|m: int| 0 <= m < s.len() implies covered(out, #[trigger] s[m]) by {
                if m < t.len() {
                    assert(s[m] == t[m]);
                    lemma_covered_grows(k, x, t[m]);
                } else {
                    lemma_same_path_covers(out, k.len() as int);
                }
            }
            assert(drawn_from(out, s)) by {
                assert forall|i: int| 0 <= i < out.len() implies exists|m: int| 0 <= m < s.len() && s[m] == #[trigger] out[i] by {
                    if i < k.len() {
                        let m = choose|m: int| 0 <= m < s.len() && s[m] == k[i];
                        assert(s[m] == out[i]);
                    } else {
                        assert(s[s.len() - 1] == out[i]);
                    }
                }
            }
            assert forall|i: int, j: int| 0 <= i < j < out.len() implies apart(#[trigger] out[i], #[trigger] out[j]) by {
                if j == k.len() {
                    let m = choose|m: int| 0 <= m < t.len() && t[m] == k[i];
                    assert(s[m] == k[i]);
                    assert(depth(s[m]) <= depth(s[s.len() - 1]));
                    lemma_new_item_apart(k, x, i);
                } else {
                    assert(out[i] == k[i] && out[j] == k[j]);
                }
            }
        }
    }
}

/// Normalizing a selection keeps every selected item covered (it is kept,
/// or lies inside a kept folder, or has the path of a kept item), keeps
/// only selected items, and keeps no item twice or inside a kept folder.
pub proof fn lemma_normalized_selection(targets: Seq<TrashTarget>)
    ensures
        forall|m: int| 0 <= m < targets.len() ==> covered(spec_normalize_targets(targets), #[trigger] targets[m]),
        forall|i: int| 0 <= i < spec_normalize_targets(targets).len() ==> targets.contains(
            #[trigger] spec_normalize_targets(targets)[i],
        ),
        forall|i: int, j: int|
            0 <= i < j < spec_normalize_targets(targets).len() ==> apart(
                #[trigger] spec_normalize_targets(targets)[i],
                #[trigger] spec_normalize_targets(targets)[j],
            ),
{
    broadcast use vstd::multiset::group_multiset_axioms;
    let s = sorted_targets(targets);
    lemma_sorted_targets(targets);
    lemma_kept_targets(s);
    let n = spec_normalize_targets(targets);
    assert forall|m: int| 0 <= m < targets.len() implies covered(n, #[trigger] targets[m]) by {
        assert(targets.to_multiset().count(targets[m]) > 0);
        assert(s.contains(targets[m]));
        let q = choose|q: int| 0 <= q < s.len() && s[q] == targets[m];
        assert(covered(n, s[q]));
    }
    assert forall|i: int| 0 <= i < n.len() implies targets.contains(#[trigger] n[i]) by {
        let m = choose|m: int| 0 <= m < s.len() && s[m] == n[i];
        assert(s.contains(n[i]));
        assert(s.to_multiset().count(n[i]) > 0);
    }
}

} // verus!
