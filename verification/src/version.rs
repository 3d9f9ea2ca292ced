//! Numeric ordering of kernel version strings.
use vstd::prelude::*;
use crate::split::{lemma_runs_members, runs, runs_of, views, CharClass, in_class};
use crate::text::{chars_of, compare_chars, digits_value, lemma_lex_flip, lemma_lex_trans, lex_order, parse_digits, Rel};

verus! {

/// The values of the digit runs that fit in a `u64`, in order (what
/// `filter_map(|part| part.parse::<u64>().ok())` keeps).
pub open spec fn fitting_values(rs: Seq<Seq<char>>) -> Seq<nat>
    decreases rs.len(),
{
    if rs.len() == 0 {
        Seq::<nat>::empty()
    } else {
        let v = fitting_values(rs.drop_last());
        if digits_value(rs.last()) <= u64::MAX {
            v.push(digits_value(rs.last()))
        } else {
            v
        }
    }
}

/// The numeric components of a version string: its runs of ASCII digits,
/// read as numbers; separators are ignored.
pub open spec fn numeric_parts(s: Seq<char>) -> Seq<nat> {
    fitting_values(runs(s, CharClass::Digit))
}

/// Component `i`, or 0 past the end (missing components count as zero).
pub open spec fn part_at(v: Seq<nat>, i: int) -> nat {
    if 0 <= i < v.len() {
        v[i]
    } else {
        0
    }
}

pub open spec fn longest(a: Seq<nat>, b: Seq<nat>) -> nat {
    if a.len() > b.len() {
        a.len()
    } else {
        b.len()
    }
}

/// Lexicographic comparison of two component lists from position `i`,
/// padding the shorter one with zeros.
pub open spec fn parts_order_from(a: Seq<nat>, b: Seq<nat>, i: nat) -> Rel
    decreases longest(a, b) - i,
{
    if i >= a.len() && i >= b.len() {
        Rel::Equal
    } else if part_at(a, i as int) < part_at(b, i as int) {
        Rel::Less
    } else if part_at(a, i as int) > part_at(b, i as int) {
        Rel::Greater
    } else {
        parts_order_from(a, b, i + 1)
    }
}

/// The order of kernel versions: numeric components first, so `6.10.0` is
/// above `6.9.0`; when those tie, the plain text order breaks the tie.
pub open spec fn version_order(a: Seq<char>, b: Seq<char>) -> Rel {
    let p = parts_order_from(numeric_parts(a), numeric_parts(b), 0);
    if p == Rel::Equal {
        lex_order(a, b)
    } else {
        p
    }
}

proof fn lemma_parts_flip(a: Seq<nat>, b: Seq<nat>, i: nat)
    ensures
        parts_order_from(b, a, i) == parts_order_from(a, b, i).flip(),
    decreases longest(a, b) - i,
{
    if !(i >= a.len() && i >= b.len()) && part_at(a, i as int) == part_at(b, i as int) {
        lemma_parts_flip(a, b, i + 1);
    }
}

proof fn lemma_parts_trans(a: Seq<nat>, b: Seq<nat>, c: Seq<nat>, i: nat)
    ensures
        parts_order_from(a, b, i) != Rel::Greater && parts_order_from(b, c, i) != Rel::Greater
            ==> parts_order_from(a, c, i) != Rel::Greater,
        parts_order_from(a, b, i) == Rel::Less && parts_order_from(b, c, i) != Rel::Greater
            ==> parts_order_from(a, c, i) == Rel::Less,
        parts_order_from(a, b, i) != Rel::Greater && parts_order_from(b, c, i) == Rel::Less
            ==> parts_order_from(a, c, i) == Rel::Less,
        parts_order_from(a, b, i) == Rel::Equal && parts_order_from(b, c, i) == Rel::Equal
            ==> parts_order_from(a, c, i) == Rel::Equal,
    decreases a.len() + b.len() + c.len() - i,
{
    if !(i >= a.len() && i >= b.len() && i >= c.len()) {
        lemma_parts_trans(a, b, c, i + 1);
    }
}

/// `version_order` is antisymmetric, and only equal strings compare equal.
pub proof fn lemma_version_flip(a: Seq<char>, b: Seq<char>)
    ensures
        version_order(b, a) == version_order(a, b).flip(),
        version_order(a, b) == Rel::Equal <==> a == b,
{
    lemma_parts_flip(numeric_parts(a), numeric_parts(b), 0);
    lemma_lex_flip(a, b);
}

/// `version_order` is transitive.
pub proof fn lemma_version_trans(a: Seq<char>, b: Seq<char>, c: Seq<char>)
    ensures
        version_order(a, b) != Rel::Greater && version_order(b, c) != Rel::Greater
            ==> version_order(a, c) != Rel::Greater,
        version_order(a, b) == Rel::Less && version_order(b, c) != Rel::Greater
            ==> version_order(a, c) == Rel::Less,
        version_order(a, b) != Rel::Greater && version_order(b, c) == Rel::Less
            ==> version_order(a, c) == Rel::Less,
{
    lemma_parts_trans(numeric_parts(a), numeric_parts(b), numeric_parts(c), 0);
    lemma_lex_trans(a, b, c);
}

pub open spec fn nats(v: Seq<u64>) -> Seq<nat> {
    Seq::new(v.len(), |i: int| v[i] as nat)
}

/// The numeric components of a version, as machine integers.
pub fn numeric_parts_of(s: &[char]) -> (r: Vec<u64>)
    ensures
        nats(r@) == numeric_parts(s@),
{
    let rs = runs_of(s, CharClass::Digit);
    proof {
        lemma_runs_members(s@, CharClass::Digit);
    }
    let ghost rv = views(rs@);
    let mut out: Vec<u64> = Vec::new();
    let mut i: usize = 0;
    while i < rs.len()
        invariant
            0 <= i <= rs@.len(),
            rv == views(rs@),
            rv == runs(s@, CharClass::Digit),
            forall|a: int, b: int|
                0 <= a < rv.len() && 0 <= b < rv[a].len() ==> in_class(
                    #[trigger] rv[a][b],
                    CharClass::Digit,
                ),
            nats(out@) == fitting_values(rv.take(i as int)),
        decreases rs@.len() - i,
    {
        let run = &rs[i];
        assert(run@ == rv[i as int]);
        assert forall|k: int| 0 <= k < run@.len() implies crate::text::is_digit(#[trigger] run@[k]) by {
            assert(in_class(rv[i as int][k], CharClass::Digit));
        }
        assert(rv.take(i + 1).drop_last() =~= rv.take(i as int));
        assert(rv.take(i + 1).last() == run@);
        match parse_digits(run.as_slice()) {
            Some(v) => {
                let ghost before = out@;
                out.push(v);
                assert(nats(out@) =~= nats(before).push(v as nat));
            },
            None => {},
        }
        i += 1;
    }
    assert(rv.take(rs@.len() as int) =~= rv);
    out
}

/// Three-way comparison of two kernel version strings by `version_order`.
pub fn version_rel(a: &str, b: &str) -> (r: Rel)
    ensures
        r == version_order(a@, b@),
{
    let ac = chars_of(a);
    let bc = chars_of(b);
    let na = numeric_parts_of(ac.as_slice());
    let nb = numeric_parts_of(bc.as_slice());
    let ghost pa = numeric_parts(a@);
    let ghost pb = numeric_parts(b@);
    let n = if na.len() > nb.len() {
        na.len()
    } else {
        nb.len()
    };
    let mut i: usize = 0;
    while i < n
        invariant
            pa == numeric_parts(a@),
            pb == numeric_parts(b@),
            nats(na@) == pa,
            nats(nb@) == pb,
            n == longest(pa, pb),
            0 <= i <= n,
            parts_order_from(pa, pb, 0) == parts_order_from(pa, pb, i as nat),
        decreases n - i,
    {
        let va: u64 = if i < na.len() {
            na[i]
        } else {
            0
        };
        let vb: u64 = if i < nb.len() {
            nb[i]
        } else {
            0
        };
        assert(va as nat == part_at(pa, i as int));
        assert(vb as nat == part_at(pb, i as int));
        if va < vb {
            assert(parts_order_from(pa, pb, i as nat) == Rel::Less);
            return Rel::Less;
        }
        if va > vb {
            assert(parts_order_from(pa, pb, i as nat) == Rel::Greater);
            return Rel::Greater;
        }
        assert(parts_order_from(pa, pb, i as nat) == parts_order_from(pa, pb, (i + 1) as nat));
        i += 1;
    }
    assert(parts_order_from(pa, pb, i as nat) == Rel::Equal);
    compare_chars(ac.as_slice(), bc.as_slice())
}

} // verus!
