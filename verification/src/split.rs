//! Splitting text into pieces: `str::split` on a character, `str::lines` and
//! `str::split_whitespace`, modelled on `Seq<char>`.
use vstd::prelude::*;
use crate::text::{digit, is_digit, is_whitespace, sub_chars, whitespace};

verus! {

/// The character sequences held by a vector of character vectors.
pub open spec fn views(v: Seq<Vec<char>>) -> Seq<Seq<char>> {
    Seq::new(v.len(), |i: int| v[i]@)
}

/// The pieces of `s` between occurrences of `sep` (`str::split(sep)`): there is
/// always one more piece than separators, and pieces may be empty.
pub open spec fn split_on(s: Seq<char>, sep: char) -> Seq<Seq<char>>
    decreases s.len(),
{
    if s.len() == 0 {
        seq![Seq::<char>::empty()]
    } else {
        let p = split_on(s.drop_last(), sep);
        if s.last() == sep {
            p.push(Seq::<char>::empty())
        } else {
            p.update(p.len() - 1, p.last().push(s.last()))
        }
    }
}

pub proof fn lemma_split_on_nonempty(s: Seq<char>, sep: char)
    ensures
        split_on(s, sep).len() >= 1,
    decreases s.len(),
{
    if s.len() > 0 {
        lemma_split_on_nonempty(s.drop_last(), sep);
    }
}

pub open spec fn strip_cr(l: Seq<char>) -> Seq<char> {
    if l.len() > 0 && l.last() == '\r' {
        l.drop_last()
    } else {
        l
    }
}

/// `str::lines`: the pieces between line feeds, a `\r` before a line feed
/// removed, and no final empty line after a trailing line feed.
pub open spec fn lines(s: Seq<char>) -> Seq<Seq<char>> {
    let p = split_on(s, '\n');
    let body = p.drop_last().map_values(|l: Seq<char>| strip_cr(l));
    if p.last().len() == 0 {
        body
    } else {
        body.push(p.last())
    }
}

/// Character classes whose maximal runs are extracted by [`runs`].
#[derive(Clone, Copy, Debug, PartialEq, Eq, Structural)]
pub enum CharClass {
    /// Anything but white space: runs are the words of `str::split_whitespace`.
    Word,
    /// ASCII digits: runs are the non-empty pieces of
    /// `str::split(|c| !c.is_ascii_digit())`.
    Digit,
}

pub open spec fn in_class(c: char, class: CharClass) -> bool {
    match class {
        CharClass::Word => !is_whitespace(c),
        CharClass::Digit => is_digit(c),
    }
}

pub fn class_member(c: char, class: CharClass) -> (r: bool)
    ensures
        r == in_class(c, class),
{
    match class {
        CharClass::Word => !whitespace(c),
        CharClass::Digit => digit(c),
    }
}

/// The maximal runs of characters of `class` in `s`, in order.
pub open spec fn runs(s: Seq<char>, class: CharClass) -> Seq<Seq<char>>
    decreases s.len(),
{
    if s.len() == 0 {
        Seq::<Seq<char>>::empty()
    } else {
        let w = runs(s.drop_last(), class);
        if !in_class(s.last(), class) {
            w
        } else if s.len() >= 2 && in_class(s[s.len() - 2], class) {
            w.update(w.len() - 1, w.last().push(s.last()))
        } else {
            w.push(seq![s.last()])
        }
    }
}

/// `str::split_whitespace`: the maximal runs of non-white-space characters.
pub open spec fn words(s: Seq<char>) -> Seq<Seq<char>> {
    runs(s, CharClass::Word)
}

pub proof fn lemma_runs_nonempty(s: Seq<char>, class: CharClass)
    requires
        s.len() > 0,
        in_class(s.last(), class),
    ensures
        runs(s, class).len() > 0,
    decreases s.len(),
{
    if s.len() >= 2 && in_class(s[s.len() - 2], class) {
        lemma_runs_nonempty(s.drop_last(), class);
    }
}

/// Every character of every run belongs to the class.
pub proof fn lemma_runs_members(s: Seq<char>, class: CharClass)
    ensures
        forall|i: int, j: int|
            0 <= i < runs(s, class).len() && 0 <= j < runs(s, class)[i].len() ==> in_class(
                #[trigger] runs(s, class)[i][j],
                class,
            ),
    decreases s.len(),
{
    if s.len() > 0 {
        lemma_runs_members(s.drop_last(), class);
        if in_class(s.last(), class) && s.len() >= 2 && in_class(s[s.len() - 2], class) {
            lemma_runs_nonempty(s.drop_last(), class);
        }
    }
}

/// `str::split(sep)` on a character slice.
pub fn split_chars(s: &[char], sep: char) -> (r: Vec<Vec<char>>)
    ensures
        views(r@) == split_on(s@, sep),
{
    let mut pieces: Vec<Vec<char>> = Vec::new();
    let mut cur: Vec<char> = Vec::new();
    let mut i: usize = 0;
    assert(s@.take(0) =~= Seq::<char>::empty());
    assert(views(pieces@).push(cur@) =~= seq![Seq::<char>::empty()]);
    while i < s.len()
        invariant
            0 <= i <= s@.len(),
            views(pieces@).push(cur@) == split_on(s@.take(i as int), sep),
        decreases s@.len() - i,
    {
        let c = s[i];
        let ghost before = s@.take(i as int);
        let ghost p = split_on(before, sep);
        assert(s@.take(i + 1).drop_last() =~= before);
        assert(s@.take(i + 1).last() == c);
        if c == sep {
            let old_cur = cur;
            pieces.push(old_cur);
            cur = Vec::new();
            assert(views(pieces@).push(cur@) =~= p.push(Seq::<char>::empty()));
        } else {
            let ghost dv = views(pieces@);
            cur.push(c);
            assert(views(pieces@) =~= dv);
            assert(dv.push(cur@) =~= p.update(p.len() - 1, p.last().push(c)));
        }
        i += 1;
    }
    assert(s@.take(s@.len() as int) =~= s@);
    pieces.push(cur);
    pieces
}

/// `str::lines` on a character slice.
pub fn lines_of(s: &[char]) -> (r: Vec<Vec<char>>)
    ensures
        views(r@) == lines(s@),
{
    let pieces = split_chars(s, '\n');
    proof {
        lemma_split_on_nonempty(s@, '\n');
    }
    let ghost p = views(pieces@);
    let n = pieces.len();
    let mut out: Vec<Vec<char>> = Vec::new();
    let mut i: usize = 0;
    while i + 1 < n
        invariant
            n == pieces@.len(),
            n >= 1,
            p == views(pieces@),
            0 <= i <= n - 1,
            views(out@) == p.take(i as int).map_values(|l: Seq<char>| strip_cr(l)),
        decreases n - i,
    {
        let l = &pieces[i];
        let mut line: Vec<char> = Vec::new();
        let len = l.len();
        if len > 0 && l[len - 1] == '\r' {
            line = sub_chars(l.as_slice(), 0, len - 1);
            assert(line@ =~= l@.drop_last());
        } else {
            line = sub_chars(l.as_slice(), 0, len);
            assert(line@ =~= l@);
        }
        assert(p[i as int] == l@);
        let ghost before = views(out@);
        out.push(line);
        assert(views(out@) =~= before.push(strip_cr(p[i as int])));
        i += 1;
        assert(p.take(i as int).map_values(|l: Seq<char>| strip_cr(l)) =~= p.take(
            i - 1,
        ).map_values(|l: Seq<char>| strip_cr(l)).push(strip_cr(p[i - 1])));
    }
    assert(p.take(i as int) =~= p.drop_last());
    let last = &pieces[n - 1];
    if last.len() > 0 {
        let copy = sub_chars(last.as_slice(), 0, last.len());
        assert(copy@ =~= last@);
        let ghost before = views(out@);
        out.push(copy);
        assert(views(out@) =~= before.push(p.last()));
    }
    out
}

/// The maximal runs of `class` characters in a character slice.
pub fn runs_of(s: &[char], class: CharClass) -> (r: Vec<Vec<char>>)
    ensures
        views(r@) == runs(s@, class),
{
    let mut out: Vec<Vec<char>> = Vec::new();
    let mut cur: Vec<char> = Vec::new();
    let mut i: usize = 0;
    while i < s.len()
        invariant
            0 <= i <= s@.len(),
            i > 0 && in_class(s@[i - 1], class) ==> runs(s@.take(i as int), class) == views(out@).push(
                cur@,
            ),
            !(i > 0 && in_class(s@[i - 1], class)) ==> runs(s@.take(i as int), class) == views(out@)
                && cur@.len() == 0,
        decreases s@.len() - i,
    {
        let c = s[i];
        let ghost t = s@.take(i + 1);
        assert(t.drop_last() =~= s@.take(i as int));
        assert(t.last() == c);
        if !class_member(c, class) {
            if i > 0 && class_member(s[i - 1], class) {
                let old = cur;
                out.push(old);
                cur = Vec::new();
            }
        } else {
            let ghost dv = views(out@);
            if i > 0 && class_member(s[i - 1], class) {
                assert(t[t.len() - 2] == s@[i - 1]);
                cur.push(c);
                assert(views(out@) =~= dv);
                assert(dv.push(cur@) =~= runs(s@.take(i as int), class).update(
                    runs(s@.take(i as int), class).len() - 1,
                    runs(s@.take(i as int), class).last().push(c),
                ));
            } else {
                if i > 0 {
                    assert(t[t.len() - 2] == s@[i - 1]);
                }
                cur.push(c);
                assert(cur@ =~= seq![c]);
                assert(views(out@) =~= dv);
            }
        }
        i += 1;
    }
    assert(s@.take(s@.len() as int) =~= s@);
    if i > 0 && class_member(s[i - 1], class) {
        out.push(cur);
    }
    out
}

/// `str::split_whitespace` on a character slice.
pub fn words_of(s: &[char]) -> (r: Vec<Vec<char>>)
    ensures
        views(r@) == words(s@),
{
    runs_of(s, CharClass::Word)
}

} // verus!
