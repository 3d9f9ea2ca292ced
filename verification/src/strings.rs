//! Lists of owned strings: their character-sequence model, sorted insertion
//! and joining.
use vstd::prelude::*;
use crate::paths::join_path;
use crate::text::{compare_str, concat, lemma_lex_flip, lemma_lex_trans, lex_order, Rel};

verus! {

broadcast use vstd::seq_lib::group_to_multiset_ensures;

/// The character sequences of a list of strings.
pub open spec fn strs(v: Seq<String>) -> Seq<Seq<char>> {
    Seq::new(v.len(), |i: int| v[i]@)
}

/// Non-decreasing in text order (the order of `str::cmp`).
pub open spec fn sorted_text(s: Seq<Seq<char>>) -> bool {
    forall|i: int, j: int| 0 <= i < j < s.len() ==> lex_order(s[i], s[j]) != Rel::Greater
}

/// `items` joined with `sep` between consecutive items (`[T]::join`).
pub open spec fn join(items: Seq<Seq<char>>, sep: Seq<char>) -> Seq<char>
    decreases items.len(),
{
    if items.len() == 0 {
        Seq::<char>::empty()
    } else if items.len() == 1 {
        items[0]
    } else {
        join(items.drop_last(), sep) + sep + items.last()
    }
}

pub proof fn lemma_insert_multiset<A>(s: Seq<A>, p: int, a: A)
    requires
        0 <= p <= s.len(),
    ensures
        s.insert(p, a).to_multiset() =~= s.to_multiset().insert(a),
{
    let t = s.insert(p, a);
    s.insert_ensures(p, a);
    assert(t.remove(p) =~= s);
    assert(t[p] == a);
    assert(t.contains(a));
}

pub proof fn lemma_strs_insert(v: Seq<String>, p: int, x: String)
    requires
        0 <= p <= v.len(),
    ensures
        strs(v.insert(p, x)) =~= strs(v).insert(p, x@),
{
    v.insert_ensures(p, x);
    strs(v).insert_ensures(p, x@);
}

/// Inserts `x` into the sorted list `v` after every element not greater
/// than it, keeping the list sorted.
pub fn insert_sorted(v: &mut Vec<String>, x: String)
    requires
        sorted_text(strs(old(v)@)),
    ensures
        sorted_text(strs(final(v)@)),
        strs(final(v)@).to_multiset() =~= strs(old(v)@).to_multiset().insert(x@),
{
    let ghost s = strs(v@);
    let mut p: usize = 0;
    while p < v.len() && compare_str(v[p].as_str(), x.as_str()) != Rel::Greater
        invariant
            s == strs(v@),
            0 <= p <= v@.len(),
            forall|k: int| 0 <= k < p ==> lex_order(s[k], x@) != Rel::Greater,
        decreases v@.len() - p,
    {
        p += 1;
    }
    let ghost xs = x@;
    v.insert(p, x);
    proof {
        lemma_strs_insert(old(v)@, p as int, x);
        lemma_insert_multiset(s, p as int, xs);
        let t = strs(v@);
        s.insert_ensures(p as int, xs);
        assert forall|i: int, j: int| 0 <= i < j < t.len() implies lex_order(t[i], t[j])
            != Rel::Greater by {
            if p < s.len() {
                lemma_lex_flip(s[p as int], xs);
            }
            if j < p {
                assert(t[i] == s[i] && t[j] == s[j]);
            } else if j == p {
                assert(t[i] == s[i] && t[j] == xs);
            } else if i == p {
                assert(t[j] == s[j - 1]);
                lemma_lex_trans(xs, s[p as int], s[j - 1]);
            } else if i < p {
                assert(t[i] == s[i] && t[j] == s[j - 1]);
            } else {
                assert(t[i] == s[i - 1] && t[j] == s[j - 1]);
            }
        }
    }
}

/// Joins `items` with `sep` between consecutive items.
pub fn join_strings(items: &Vec<String>, sep: &str) -> (r: String)
    ensures
        r@ == join(strs(items@), sep@),
{
    let mut r = String::new();
    let mut i: usize = 0;
    while i < items.len()
        invariant
            0 <= i <= items@.len(),
            r@ == join(strs(items@).take(i as int), sep@),
        decreases items@.len() - i,
    {
        let ghost t = strs(items@).take(i + 1);
        assert(t.drop_last() =~= strs(items@).take(i as int));
        if i == 0 {
            assert(t =~= seq![items@[0]@]);
            r = items[i].clone();
        } else {
            let r1 = concat(r.as_str(), sep);
            r = concat(r1.as_str(), items[i].as_str());
        }
        i += 1;
    }
    assert(strs(items@).take(items@.len() as int) =~= strs(items@));
    r
}

/// The character sequences of a list of string slices.
pub open spec fn str_views(v: Seq<&str>) -> Seq<Seq<char>> {
    Seq::new(v.len(), |i: int| v[i]@)
}

/// Appends a copy of `s`.
pub fn push_str(out: &mut Vec<String>, s: &str)
    ensures
        strs(final(out)@) == strs(old(out)@).push(s@),
{
    let ghost before = strs(out@);
    out.push(crate::text::owned(s));
    assert(strs(out@) =~= before.push(s@));
}

/// Appends `base` joined with each of `names`, in order.
pub fn push_joined(out: &mut Vec<String>, base: &str, names: &[&str])
    ensures
        strs(final(out)@) == strs(old(out)@) + str_views(names@).map_values(
            |n: Seq<char>| crate::paths::join(base@, n),
        ),
{
    let mut i: usize = 0;
    while i < names.len()
        invariant
            0 <= i <= names@.len(),
            strs(out@) == strs(old(out)@) + str_views(names@).take(i as int).map_values(
                |n: Seq<char>| crate::paths::join(base@, n),
            ),
        decreases names@.len() - i,
    {
        let j = join_path(base, names[i]);
        let ghost before = strs(out@);
        out.push(j);
        assert(strs(out@) =~= before.push(crate::paths::join(base@, names@[i as int]@)));
        i += 1;
        assert(str_views(names@).take(i as int).map_values(|n: Seq<char>| crate::paths::join(base@, n))
            =~= str_views(names@).take(i - 1).map_values(|n: Seq<char>| crate::paths::join(base@, n)).push(
            crate::paths::join(base@, names@[i - 1]@),
        ));
    }
    assert(str_views(names@).take(names@.len() as int) =~= str_views(names@));
}

/// Appends a copy of each of `names`, in order.
pub fn push_strs(out: &mut Vec<String>, names: &[&str])
    ensures
        strs(final(out)@) == strs(old(out)@) + str_views(names@),
{
    let mut i: usize = 0;
    while i < names.len()
        invariant
            0 <= i <= names@.len(),
            strs(out@) == strs(old(out)@) + str_views(names@).take(i as int),
        decreases names@.len() - i,
    {
        push_str(out, names[i]);
        i += 1;
        assert(str_views(names@).take(i as int) =~= str_views(names@).take(i - 1).push(
            names@[i - 1]@,
        ));
    }
    assert(str_views(names@).take(names@.len() as int) =~= str_views(names@));
}

} // verus!
