//! Unix paths held as text, with the component model that `std::path::Path`
//! uses for comparison: `==`, `starts_with` and `components` all work on the
//! sequence of components, not on the raw characters.
use vstd::prelude::*;
use crate::split::{lemma_split_on_nonempty, split_chars, split_on, views};
use crate::text::{chars_equal, chars_of, concat, lemma_lex_flip, lemma_lex_trans, lex_order, Rel};

verus! {

/// The non-empty pieces other than `.`, in order.
pub open spec fn normal_parts(pieces: Seq<Seq<char>>) -> Seq<Seq<char>>
    decreases pieces.len(),
{
    if pieces.len() == 0 {
        pieces
    } else {
        let r = normal_parts(pieces.drop_last());
        let p = pieces.last();
        if p.len() == 0 || p == seq!['.'] {
            r
        } else {
            r.push(p)
        }
    }
}

pub open spec fn is_rooted(s: Seq<char>) -> bool {
    s.len() > 0 && s[0] == '/'
}

/// The components of a path, as `Path::components` yields them on Unix: the
/// root (written `/`) when the path is absolute, a leading `.` of a relative
/// path, then every non-empty piece between slashes other than `.`.
pub open spec fn components(s: Seq<char>) -> Seq<Seq<char>> {
    let pieces = split_on(s, '/');
    let root = if is_rooted(s) {
        seq![seq!['/']]
    } else {
        Seq::<Seq<char>>::empty()
    };
    let cur = if !is_rooted(s) && pieces[0] == seq!['.'] {
        seq![seq!['.']]
    } else {
        Seq::<Seq<char>>::empty()
    };
    root + cur + normal_parts(pieces)
}

/// `Path::eq`: same components.
pub open spec fn same_path(a: Seq<char>, b: Seq<char>) -> bool {
    components(a) == components(b)
}

/// `Path::starts_with`: the components of `base` are a prefix of those of
/// `path`.
pub open spec fn path_starts_with(path: Seq<char>, base: Seq<char>) -> bool {
    let p = components(path);
    let b = components(base);
    b.len() <= p.len() && p.subrange(0, b.len() as int) == b
}

/// `Path::is_absolute` on Unix.
pub open spec fn is_absolute(s: Seq<char>) -> bool {
    is_rooted(s)
}

/// `PathBuf::push` on Unix: an absolute `rel` replaces `base`; otherwise a
/// separator is added unless `base` is empty or already ends with one.
pub open spec fn join(base: Seq<char>, rel: Seq<char>) -> Seq<char> {
    if is_rooted(rel) {
        rel
    } else if base.len() == 0 || base.last() == '/' {
        base + rel
    } else {
        base + seq!['/'] + rel
    }
}

/// Lexicographic order of component lists (the order of `Path::cmp` for
/// paths of one kind): the root sorts before any name, names by text.
pub open spec fn components_order(a: Seq<Seq<char>>, b: Seq<Seq<char>>) -> Rel
    decreases a.len(),
{
    if a.len() == 0 && b.len() == 0 {
        Rel::Equal
    } else if a.len() == 0 {
        Rel::Less
    } else if b.len() == 0 {
        Rel::Greater
    } else if lex_order(a[0], b[0]) != Rel::Equal {
        lex_order(a[0], b[0])
    } else {
        components_order(a.drop_first(), b.drop_first())
    }
}

/// `components_order` is antisymmetric, and `Equal` only on equal lists.
pub proof fn lemma_components_order_flip(a: Seq<Seq<char>>, b: Seq<Seq<char>>)
    ensures
        components_order(b, a) == components_order(a, b).flip(),
        components_order(a, b) == Rel::Equal <==> a == b,
    decreases a.len(),
{
    if a.len() > 0 && b.len() > 0 {
        lemma_lex_flip(a[0], b[0]);
        if lex_order(a[0], b[0]) == Rel::Equal {
            lemma_components_order_flip(a.drop_first(), b.drop_first());
            if a.drop_first() == b.drop_first() {
                assert(a =~= seq![a[0]] + a.drop_first());
                assert(b =~= seq![b[0]] + b.drop_first());
            }
        }
    }
    if a.len() == 0 && b.len() == 0 {
        assert(a =~= b);
    }
}

/// `components_order` is transitive.
pub proof fn lemma_components_order_trans(a: Seq<Seq<char>>, b: Seq<Seq<char>>, c: Seq<Seq<char>>)
    ensures
        components_order(a, b) == Rel::Less && components_order(b, c) == Rel::Less ==> components_order(a, c)
            == Rel::Less,
    decreases a.len(),
{
    if a.len() > 0 && b.len() > 0 && c.len() > 0 {
        lemma_lex_flip(a[0], b[0]);
        lemma_lex_flip(b[0], c[0]);
        lemma_lex_flip(a[0], c[0]);
        lemma_lex_trans(a[0], b[0], c[0]);
        lemma_components_order_trans(a.drop_first(), b.drop_first(), c.drop_first());
    }
}

fn normal_parts_of(pieces: &Vec<Vec<char>>) -> (r: Vec<Vec<char>>)
    ensures
        views(r@) == normal_parts(views(pieces@)),
{
    let ghost pv = views(pieces@);
    let mut out: Vec<Vec<char>> = Vec::new();
    let mut i: usize = 0;
    while i < pieces.len()
        invariant
            0 <= i <= pieces@.len(),
            pv == views(pieces@),
            views(out@) == normal_parts(pv.take(i as int)),
        decreases pieces@.len() - i,
    {
        let p = &pieces[i];
        assert(pv.take(i + 1).drop_last() =~= pv.take(i as int));
        assert(pv.take(i + 1).last() == p@);
        let is_dot = p.len() == 1 && p[0] == '.';
        if is_dot {
            assert(p@ =~= seq!['.']);
        } else if p.len() == 1 {
            assert(p@ != seq!['.']) by {
                assert(p@[0] != '.');
            }
        }
        if p.len() > 0 && !is_dot {
            let ghost before = views(out@);
            let c = crate::text::sub_chars(p.as_slice(), 0, p.len());
            assert(c@ =~= p@);
            out.push(c);
            assert(views(out@) =~= before.push(p@));
        }
        i += 1;
    }
    assert(pv.take(pieces@.len() as int) =~= pv);
    out
}

/// The components of a path.
pub fn components_of(s: &[char]) -> (r: Vec<Vec<char>>)
    ensures
        views(r@) == components(s@),
{
    let pieces = split_chars(s, '/');
    proof {
        lemma_split_on_nonempty(s@, '/');
    }
    let rooted = s.len() > 0 && s[0] == '/';
    let mut out: Vec<Vec<char>> = Vec::new();
    if rooted {
        let mut root: Vec<char> = Vec::new();
        root.push('/');
        out.push(root);
    } else {
        let first = &pieces[0];
        if first.len() == 1 && first[0] == '.' {
            let mut cur: Vec<char> = Vec::new();
            cur.push('.');
            out.push(cur);
            assert(first@ =~= seq!['.']);
        } else if first.len() == 1 {
            assert(first@ != seq!['.']) by {
                assert(first@[0] != '.');
            }
        }
    }
    let ghost head = views(out@);
    assert(head =~= (if is_rooted(s@) {
        seq![seq!['/']]
    } else {
        Seq::<Seq<char>>::empty()
    }) + (if !is_rooted(s@) && split_on(s@, '/')[0] == seq!['.'] {
        seq![seq!['.']]
    } else {
        Seq::<Seq<char>>::empty()
    }));
    let rest = normal_parts_of(&pieces);
    let mut k: usize = 0;
    while k < rest.len()
        invariant
            0 <= k <= rest@.len(),
            views(out@) == head + views(rest@).take(k as int),
        decreases rest@.len() - k,
    {
        let ghost before = views(out@);
        let c = crate::text::sub_chars(rest[k].as_slice(), 0, rest[k].len());
        assert(c@ =~= rest@[k as int]@);
        out.push(c);
        assert(views(out@) =~= before.push(rest@[k as int]@));
        k += 1;
        assert(views(rest@).take(k as int) =~= views(rest@).take(k - 1).push(rest@[k - 1]@));
    }
    assert(views(rest@).take(rest@.len() as int) =~= views(rest@));
    out
}

fn component_lists_equal(a: &Vec<Vec<char>>, b: &Vec<Vec<char>>, n: usize) -> (r: bool)
    requires
        n <= a@.len(),
        n <= b@.len(),
    ensures
        r == (views(a@).subrange(0, n as int) == views(b@).subrange(0, n as int)),
{
    let mut i: usize = 0;
    while i < n
        invariant
            n <= a@.len(),
            n <= b@.len(),
            0 <= i <= n,
            forall|k: int| 0 <= k < i ==> a@[k]@ == b@[k]@,
        decreases n - i,
    {
        if !chars_equal(a[i].as_slice(), b[i].as_slice()) {
            assert(views(a@).subrange(0, n as int)[i as int] != views(b@).subrange(0, n as int)[i as int]);
            return false;
        }
        i += 1;
    }
    assert(views(a@).subrange(0, n as int) =~= views(b@).subrange(0, n as int));
    true
}

/// `Path::eq` on two paths given as text.
pub fn paths_equal(a: &str, b: &str) -> (r: bool)
    ensures
        r == same_path(a@, b@),
{
    let ac = chars_of(a);
    let bc = chars_of(b);
    let x = components_of(ac.as_slice());
    let y = components_of(bc.as_slice());
    if x.len() != y.len() {
        return false;
    }
    let r = component_lists_equal(&x, &y, x.len());
    assert(views(x@).subrange(0, x@.len() as int) =~= views(x@));
    assert(views(y@).subrange(0, y@.len() as int) =~= views(y@));
    r
}

/// `Path::starts_with` on two paths given as text.
pub fn path_has_prefix(path: &str, base: &str) -> (r: bool)
    ensures
        r == path_starts_with(path@, base@),
{
    let pc = chars_of(path);
    let bc = chars_of(base);
    let p = components_of(pc.as_slice());
    let b = components_of(bc.as_slice());
    if b.len() > p.len() {
        return false;
    }
    let r = component_lists_equal(&p, &b, b.len());
    assert(views(b@).subrange(0, b@.len() as int) =~= views(b@));
    r
}

/// `Path::components().count()`.
pub fn component_count(path: &str) -> (r: usize)
    ensures
        r == components(path@).len(),
{
    let pc = chars_of(path);
    let p = components_of(pc.as_slice());
    p.len()
}

/// `Path::is_absolute` on Unix.
pub fn absolute(path: &str) -> (r: bool)
    ensures
        r == is_absolute(path@),
{
    let pc = chars_of(path);
    pc.len() > 0 && pc[0] == '/'
}

/// `Path::join`, as text.
pub fn join_path(base: &str, rel: &str) -> (r: String)
    ensures
        r@ == join(base@, rel@),
{
    let bc = chars_of(base);
    let rc = chars_of(rel);
    if rc.len() > 0 && rc[0] == '/' {
        return crate::text::owned(rel);
    }
    if bc.len() == 0 || bc[bc.len() - 1] == '/' {
        concat(base, rel)
    } else {
        let with_sep = concat(base, "/");
        proof {
            reveal_strlit("/");
        }
        assert(with_sep@ =~= base@ + seq!['/']);
        concat(with_sep.as_str(), rel)
    }
}

/// Exact text equality of two path strings.
pub fn paths_text_equal(a: &str, b: &str) -> (r: bool)
    ensures
        r == (a@ == b@),
{
    let x = chars_of(a);
    let y = chars_of(b);
    chars_equal(x.as_slice(), y.as_slice())
}

} // verus!
