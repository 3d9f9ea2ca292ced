//! Translations: choosing the language from the locale, reading PO
//! catalogs, and looking texts up with placeholders filled in.
use vstd::prelude::*;
use crate::outside::{json_string, parse_json_string};
use crate::settings::AppLanguage;
use crate::split::{lines, lines_of, split_on, views};
use crate::text::{ascii_lower_seq, chars_of, lower_ascii, starts_with, sub_chars, text_equal, trim, trim_chars};
use crate::outside::string_from_chars;

verus! {

// ---------------------------------------------------------------------------
// Language from the locale
// ---------------------------------------------------------------------------
/// The language code of a locale value: the part before the first `:`, then
/// before the first `_`, `.` or `-`, in ASCII lower case.
pub open spec fn locale_code(locale: Seq<char>) -> Seq<char> {
    let first = split_on(locale, ':')[0];
    ascii_lower_seq(first_piece(first))
}

/// The text before the first `_`, `.` or `-`.
pub open spec fn first_piece(s: Seq<char>) -> Seq<char>
    decreases s.len(),
{
    if s.len() == 0 {
        s
    } else if s[0] == '_' || s[0] == '.' || s[0] == '-' {
        Seq::<char>::empty()
    } else {
        seq![s[0]] + first_piece(s.drop_first())
    }
}

/// The language a locale value names, if it is one the application knows.
pub open spec fn spec_language_from_locale(locale: Seq<char>) -> Option<AppLanguage> {
    let code = locale_code(locale);
    if code == "en"@ || code == "c"@ || code == "posix"@ {
        Some(AppLanguage::English)
    } else if code == "el"@ {
        Some(AppLanguage::Greek)
    } else if code == "it"@ {
        Some(AppLanguage::Italian)
    } else if code == "es"@ {
        Some(AppLanguage::Spanish)
    } else if code == "de"@ {
        Some(AppLanguage::German)
    } else if code == "fr"@ {
        Some(AppLanguage::French)
    } else {
        None
    }
}

fn first_piece_of(s: &[char]) -> (r: Vec<char>)
    ensures
        r@ == first_piece(s@),
{
    proof {
        lemma_first_piece_start(s@);
    }
    let mut i: usize = 0;
    while i < s.len() && s[i] != '_' && s[i] != '.' && s[i] != '-'
        invariant
            0 <= i <= s@.len(),
            first_piece(s@) == s@.take(i as int) + first_piece(s@.skip(i as int)),
        decreases s@.len() - i,
    {
        assert(s@.skip(i as int).drop_first() =~= s@.skip(i + 1));
        assert(s@.take(i + 1) =~= s@.take(i as int) + seq![s@[i as int]]);
        i += 1;
    }
    proof {
        if i < s@.len() {
            assert(first_piece(s@.skip(i as int)) == Seq::<char>::empty());
        } else {
            assert(s@.skip(i as int) =~= Seq::<char>::empty());
        }
    }
    assert(s@.take(i as int) =~= s@.subrange(0, i as int));
    sub_chars(s, 0, i)
}

proof fn lemma_first_piece_start(s: Seq<char>)
    ensures
        first_piece(s) == s.take(0) + first_piece(s.skip(0)),
{
    assert(s.take(0) =~= Seq::<char>::empty());
    assert(s.skip(0) =~= s);
}

/// The language a locale value such as `el_GR.UTF-8`, `de-DE` or `fr:en`
/// names, if the application knows it.
pub fn language_from_locale(locale: &str) -> (r: Option<AppLanguage>)
    ensures
        r == spec_language_from_locale(locale@),
{
    let lc = chars_of(locale);
    let parts = crate::split::split_chars(lc.as_slice(), ':');
    proof {
        crate::split::lemma_split_on_nonempty(lc@, ':');
        assert(views(parts@)[0] == parts@[0]@);
        lemma_first_piece_start(parts@[0]@);
    }
    let first = first_piece_of(parts[0].as_slice());
    let code = lower_ascii(first.as_slice());
    let cs = string_from_chars(code.as_slice());
    let c = cs.as_str();
    if text_equal(c, "en") || text_equal(c, "c") || text_equal(c, "posix") {
        Some(AppLanguage::English)
    } else if text_equal(c, "el") {
        Some(AppLanguage::Greek)
    } else if text_equal(c, "it") {
        Some(AppLanguage::Italian)
    } else if text_equal(c, "es") {
        Some(AppLanguage::Spanish)
    } else if text_equal(c, "de") {
        Some(AppLanguage::German)
    } else if text_equal(c, "fr") {
        Some(AppLanguage::French)
    } else {
        None
    }
}

/// The first language named by the values of `LANGUAGE`, `LC_ALL`,
/// `LC_MESSAGES` and `LANG` (in that order, unset ones left out), or English.
pub open spec fn spec_automatic_language(values: Seq<Seq<char>>) -> AppLanguage
    decreases values.len(),
{
    if values.len() == 0 {
        AppLanguage::English
    } else {
        match spec_language_from_locale(values[0]) {
            Some(l) => l,
            None => spec_automatic_language(values.drop_first()),
        }
    }
}

/// The language to use when the setting is `Automatic`, given the values of
/// the locale variables that are set, in order of precedence.
pub fn automatic_language(values: &Vec<String>) -> (r: AppLanguage)
    ensures
        r == spec_automatic_language(crate::strings::strs(values@)),
{
    let ghost vs = crate::strings::strs(values@);
    assert(vs.skip(0) =~= vs);
    let mut i: usize = 0;
    while i < values.len()
        invariant
            0 <= i <= values@.len(),
            vs == crate::strings::strs(values@),
            spec_automatic_language(vs) == spec_automatic_language(vs.skip(i as int)),
        decreases values@.len() - i,
    {
        assert(vs.skip(i as int)[0] == values@[i as int]@);
        assert(vs.skip(i as int).drop_first() =~= vs.skip(i + 1));
        match language_from_locale(values[i].as_str()) {
            Some(l) => {
                return l;
            },
            None => {},
        }
        i += 1;
    }
    assert(vs.skip(i as int) =~= Seq::<Seq<char>>::empty());
    AppLanguage::English
}

/// The language a setting stands for: the setting itself, or for
/// `Automatic` the one found in the locale.
pub fn resolve_language(setting: AppLanguage, locale_values: &Vec<String>) -> (r: AppLanguage)
    ensures
        r == (if setting == AppLanguage::Automatic {
            spec_automatic_language(crate::strings::strs(locale_values@))
        } else {
            setting
        }),
{
    match setting {
        AppLanguage::Automatic => automatic_language(locale_values),
        other => other,
    }
}

// ---------------------------------------------------------------------------
// Catalogs
// ---------------------------------------------------------------------------
/// Translations by source text. A later entry for a text replaces an earlier
/// one.
pub struct Catalog {
    entries: Vec<(String, String)>,
}

pub open spec fn entries_map(e: Seq<(String, String)>) -> Map<Seq<char>, Seq<char>>
    decreases e.len(),
{
    if e.len() == 0 {
        Map::empty()
    } else {
        entries_map(e.drop_last()).insert(e.last().0@, e.last().1@)
    }
}

impl View for Catalog {
    type V = Map<Seq<char>, Seq<char>>;

    closed spec fn view(&self) -> Map<Seq<char>, Seq<char>> {
        entries_map(self.entries@)
    }
}

impl Catalog {
    pub fn new() -> (r: Self)
        ensures
            r@ == Map::<Seq<char>, Seq<char>>::empty(),
    {
        Catalog { entries: Vec::new() }
    }

    /// Records `translation` for `id`, replacing an earlier one.
    pub fn insert(&mut self, id: String, translation: String)
        ensures
            final(self)@ == old(self)@.insert(id@, translation@),
    {
        self.entries.push((id, translation));
        assert(self.entries@.drop_last() =~= old(self).entries@);
    }

    /// The translation recorded for `id`.
    pub fn get(&self, id: &str) -> (r: Option<&str>)
        ensures
            match r {
                Some(t) => self@.contains_key(id@) && self@[id@] == t@,
                None => !self@.contains_key(id@),
            },
    {
        let mut i: usize = self.entries.len();
        proof {
            let e = self.entries@;
            assert(e.take(e.len() as int) =~= e);
            assert(tail_map(e, e.len() as int) == Map::<Seq<char>, Seq<char>>::empty());
            assert(entries_map(e).union_prefer_right(Map::<Seq<char>, Seq<char>>::empty())
                =~= entries_map(e));
        }
        while i > 0
            invariant
                0 <= i <= self.entries@.len(),
                entries_map(self.entries@) == entries_map(self.entries@.take(i as int)).union_prefer_right(
                    tail_map(self.entries@, i as int),
                ),
                !tail_map(self.entries@, i as int).contains_key(id@),
            decreases i,
        {
            let e = &self.entries[i - 1];
            proof {
                lemma_tail_step(self.entries@, i as int);
                assert(self.entries@.take(i as int).drop_last() =~= self.entries@.take(i - 1));
            }
            if text_equal(e.0.as_str(), id) {
                proof {
                    let t = tail_map(self.entries@, i as int);
                    let pre = entries_map(self.entries@.take(i as int));
                    assert(self.entries@.take(i as int).last() == *e);
                    assert(pre.contains_key(id@) && pre[id@] == e.1@);
                    assert(entries_map(self.entries@)[id@] == e.1@);
                }
                return Some(e.1.as_str());
            }
            proof {
                let pre = entries_map(self.entries@.take(i as int));
                let pre2 = entries_map(self.entries@.take(i - 1));
                assert(self.entries@.take(i as int).last() == *e);
                assert(pre == pre2.insert(e.0@, e.1@));
                assert(entries_map(self.entries@.take(i - 1)).union_prefer_right(
                    tail_map(self.entries@, i - 1),
                ) =~= pre.union_prefer_right(tail_map(self.entries@, i as int)));
            }
            i -= 1;
        }
        assert(self.entries@.take(0) =~= Seq::<(String, String)>::empty());
        None
    }
}

/// The entries from position `i` on, as a map.
pub open spec fn tail_map(e: Seq<(String, String)>, i: int) -> Map<Seq<char>, Seq<char>>
    decreases e.len() - i,
{
    if i >= e.len() || i < 0 {
        Map::empty()
    } else {
        Map::<Seq<char>, Seq<char>>::empty().insert(e[i].0@, e[i].1@).union_prefer_right(
            tail_map(e, i + 1),
        )
    }
}

proof fn lemma_tail_step(e: Seq<(String, String)>, i: int)
    requires
        0 < i <= e.len(),
    ensures
        tail_map(e, i - 1) == Map::<Seq<char>, Seq<char>>::empty().insert(
            e[i - 1].0@,
            e[i - 1].1@,
        ).union_prefer_right(tail_map(e, i)),
{
}

// ---------------------------------------------------------------------------
// Reading PO catalogs
// ---------------------------------------------------------------------------
/// Which value continuation lines extend.
#[derive(Clone, Copy, Debug, PartialEq, Eq, Structural)]
pub enum PoField {
    Nothing,
    Id,
    Translation,
}

/// The state of reading a PO catalog.
pub struct PoState {
    pub catalog: Map<Seq<char>, Seq<char>>,
    pub id: Seq<char>,
    pub translation: Seq<char>,
    pub field: PoField,
}

/// The value of a quoted PO string (a JSON string literal), empty when it
/// is not one.
pub open spec fn po_quoted(v: Seq<char>) -> Seq<char> {
    match json_string(trim(v)) {
        Some(s) => s,
        None => Seq::<char>::empty(),
    }
}

/// The pending entry is recorded when both its id and its translation are
/// non-empty; either way the pending values are cleared.
pub open spec fn po_save(st: PoState) -> PoState {
    PoState {
        catalog: if st.id.len() > 0 && st.translation.len() > 0 {
            st.catalog.insert(st.id, st.translation)
        } else {
            st.catalog
        },
        id: Seq::<char>::empty(),
        translation: Seq::<char>::empty(),
        field: st.field,
    }
}

/// One line of a PO catalog: `msgid` starts an entry (recording the pending
/// one), `msgstr` sets the translation, a line starting with a quote extends
/// the current value; anything else is ignored.
pub open spec fn po_line(st: PoState, raw: Seq<char>) -> PoState {
    let line = trim(raw);
    if starts_with(line, "msgid "@) {
        PoState { id: po_quoted(line.skip(6)), field: PoField::Id, ..po_save(st) }
    } else if starts_with(line, "msgstr "@) {
        PoState { translation: po_quoted(line.skip(7)), field: PoField::Translation, ..st }
    } else if line.len() > 0 && line[0] == '"' {
        match st.field {
            PoField::Id => PoState { id: st.id + po_quoted(line), ..st },
            PoField::Translation => PoState { translation: st.translation + po_quoted(line), ..st },
            PoField::Nothing => st,
        }
    } else {
        st
    }
}

pub open spec fn po_lines(st: PoState, ls: Seq<Seq<char>>) -> PoState
    decreases ls.len(),
{
    if ls.len() == 0 {
        st
    } else {
        po_line(po_lines(st, ls.drop_last()), ls.last())
    }
}

pub open spec fn po_start() -> PoState {
    PoState {
        catalog: Map::empty(),
        id: Seq::<char>::empty(),
        translation: Seq::<char>::empty(),
        field: PoField::Nothing,
    }
}

/// The catalog a PO source holds.
pub open spec fn spec_parse_po(source: Seq<char>) -> Map<Seq<char>, Seq<char>> {
    po_save(po_lines(po_start(), lines(source))).catalog
}

fn quoted_value(v: &str) -> (r: String)
    ensures
        r@ == po_quoted(v@),
{
    let c = chars_of(v);
    let t = trim_chars(c.as_slice());
    let ts = string_from_chars(t.as_slice());
    match parse_json_string(ts.as_str()) {
        Some(s) => s,
        None => String::new(),
    }
}

fn push_text(a: &mut String, b: &str)
    ensures
        final(a)@ == old(a)@ + b@,
{
    let joined = crate::text::concat(a.as_str(), b);
    *a = joined;
}

/// Reads a PO catalog: each `msgid`/`msgstr` pair with a non-empty id and a
/// non-empty translation, values continued on following quoted lines.
pub fn parse_po(source: &str) -> (r: Catalog)
    ensures
        r@ == spec_parse_po(source@),
{
    let sc = chars_of(source);
    let ls = lines_of(sc.as_slice());
    let ghost lv = views(ls@);
    let mut catalog = Catalog::new();
    let mut id = String::new();
    let mut translation = String::new();
    let mut field = PoField::Nothing;
    let mut i: usize = 0;
    while i < ls.len()
        invariant
            0 <= i <= ls@.len(),
            lv == views(ls@),
            lv == lines(source@),
            po_lines(po_start(), lv.take(i as int)) == (PoState {
                catalog: catalog@,
                id: id@,
                translation: translation@,
                field,
            }),
        decreases ls@.len() - i,
    {
        assert(lv.take(i + 1).drop_last() =~= lv.take(i as int));
        assert(lv.take(i + 1).last() == ls@[i as int]@);
        let lt = trim_chars(ls[i].as_slice());
        let ls_str = string_from_chars(lt.as_slice());
        let line = ls_str.as_str();
        let n = lt.len();
        if crate::text::text_starts_with(line, "msgid ") {
            proof {
                reveal_strlit("msgid ");
            }
            if crate::text::text_nonempty(id.as_str()) && crate::text::text_nonempty(translation.as_str()) {
                let done_id = id;
                let done_tr = translation;
                catalog.insert(done_id, done_tr);
            }
            let rest = sub_chars(lt.as_slice(), 6, n);
            let rs = string_from_chars(rest.as_slice());
            assert(rs@ =~= line@.skip(6));
            id = quoted_value(rs.as_str());
            translation = String::new();
            field = PoField::Id;
        } else if crate::text::text_starts_with(line, "msgstr ") {
            proof {
                reveal_strlit("msgstr ");
            }
            let rest = sub_chars(lt.as_slice(), 7, n);
            let rs = string_from_chars(rest.as_slice());
            assert(rs@ =~= line@.skip(7));
            translation = quoted_value(rs.as_str());
            field = PoField::Translation;
        } else if n > 0 && lt[0] == '"' {
            match field {
                PoField::Id => {
                    let q = quoted_value(line);
                    push_text(&mut id, q.as_str());
                },
                PoField::Translation => {
                    let q = quoted_value(line);
                    push_text(&mut translation, q.as_str());
                },
                PoField::Nothing => {},
            }
        }
        i += 1;
    }
    assert(lv.take(ls@.len() as int) =~= lv);
    if crate::text::text_nonempty(id.as_str()) && crate::text::text_nonempty(translation.as_str()) {
        catalog.insert(id, translation);
    }
    catalog
}

// ---------------------------------------------------------------------------
// Looking texts up
// ---------------------------------------------------------------------------
/// The translation of `source`, when the catalog holds a non-empty one.
pub open spec fn spec_translation(c: Map<Seq<char>, Seq<char>>, source: Seq<char>) -> Option<
    Seq<char>,
> {
    if c.contains_key(source) && c[source].len() > 0 {
        Some(c[source])
    } else {
        None
    }
}

/// The translation of `source` in `catalog` (no catalog: English).
pub fn translation(catalog: Option<&Catalog>, source: &str) -> (r: Option<String>)
    ensures
        match catalog {
            Some(c) => match r {
                Some(t) => spec_translation(c@, source@) == Some(t@),
                None => spec_translation(c@, source@) is None,
            },
            None => r is None,
        },
{
    match catalog {
        Some(c) => match c.get(source) {
            Some(t) => {
                let tc = chars_of(t);
                if tc.len() > 0 {
                    Some(crate::text::owned(t))
                } else {
                    None
                }
            },
            None => None,
        },
        None => None,
    }
}

/// `source` translated by `catalog`, or `source` itself.
pub fn tr(catalog: Option<&Catalog>, source: &str) -> (r: String)
    ensures
        r@ == match catalog {
            Some(c) => match spec_translation(c@, source@) {
                Some(t) => t,
                None => source@,
            },
            None => source@,
        },
{
    match translation(catalog, source) {
        Some(t) => t,
        None => crate::text::owned(source),
    }
}

/// `str::replace`: every non-overlapping occurrence of `from`, left to
/// right, replaced by `to` (an empty `from` matches before every character
/// and at the end).
pub open spec fn replace_all(s: Seq<char>, from: Seq<char>, to: Seq<char>) -> Seq<char>
    decreases s.len(),
{
    if from.len() == 0 {
        if s.len() == 0 {
            to
        } else {
            to + seq![s[0]] + replace_all(s.drop_first(), from, to)
        }
    } else if s.len() < from.len() {
        s
    } else if s.take(from.len() as int) == from {
        to + replace_all(s.skip(from.len() as int), from, to)
    } else {
        seq![s[0]] + replace_all(s.drop_first(), from, to)
    }
}

/// `str::replace`.
pub fn replace_text(s: &str, from: &str, to: &str) -> (r: String)
    ensures
        r@ == replace_all(s@, from@, to@),
{
    let sc = chars_of(s);
    let fc = chars_of(from);
    let tc = chars_of(to);
    let mut out: Vec<char> = Vec::new();
    let mut i: usize = 0;
    assert(sc@.skip(0) =~= sc@);
    while i < sc.len()
        invariant
            0 <= i <= sc@.len(),
            out@ + replace_all(sc@.skip(i as int), fc@, tc@) == replace_all(sc@, fc@, tc@),
        decreases sc@.len() - i,
    {
        let ghost rest = sc@.skip(i as int);
        if fc.len() == 0 {
            assert(rest.drop_first() =~= sc@.skip(i + 1));
            crate::text::push_all(&mut out, tc.as_slice());
            out.push(sc[i]);
            i += 1;
        } else if crate::text::matches_at(sc.as_slice(), fc.as_slice(), i) {
            assert(rest.take(fc@.len() as int) =~= fc@);
            assert(rest.skip(fc@.len() as int) =~= sc@.skip(i + fc@.len()));
            crate::text::push_all(&mut out, tc.as_slice());
            i += fc.len();
        } else {
            proof {
                if rest.len() >= fc@.len() {
                    assert(rest.take(fc@.len() as int) != fc@) by {
                        assert(rest.take(fc@.len() as int) =~= sc@.subrange(i as int, i + fc@.len()));
                    }
                }
            }
            assert(rest.drop_first() =~= sc@.skip(i + 1));
            out.push(sc[i]);
            i += 1;
        }
    }
    proof {
        assert(sc@.skip(i as int) =~= Seq::<char>::empty());
    }
    if fc.len() == 0 {
        crate::text::push_all(&mut out, tc.as_slice());
    }
    assert(out@ =~= replace_all(sc@, fc@, tc@));
    string_from_chars(out.as_slice())
}

/// The text with each placeholder replaced by its value, in order.
pub open spec fn fill_placeholders(text: Seq<char>, reps: Seq<(Seq<char>, Seq<char>)>) -> Seq<char>
    decreases reps.len(),
{
    if reps.len() == 0 {
        text
    } else {
        replace_all(fill_placeholders(text, reps.drop_last()), reps.last().0, reps.last().1)
    }
}

pub open spec fn rep_views(v: Seq<(&str, &str)>) -> Seq<(Seq<char>, Seq<char>)> {
    Seq::new(v.len(), |i: int| (v[i].0@, v[i].1@))
}

/// `source` translated, then each placeholder replaced by its value.
pub fn tr_args(catalog: Option<&Catalog>, source: &str, replacements: &[(&str, &str)]) -> (r: String)
    ensures
        r@ == fill_placeholders(
            match catalog {
                Some(c) => match spec_translation(c@, source@) {
                    Some(t) => t,
                    None => source@,
                },
                None => source@,
            },
            rep_views(replacements@),
        ),
{
    let mut text = tr(catalog, source);
    let ghost base = text@;
    let mut i: usize = 0;
    while i < replacements.len()
        invariant
            0 <= i <= replacements@.len(),
            text@ == fill_placeholders(base, rep_views(replacements@).take(i as int)),
        decreases replacements@.len() - i,
    {
        let (p, v) = replacements[i];
        assert(rep_views(replacements@).take(i + 1).drop_last() =~= rep_views(replacements@).take(
            i as int,
        ));
        assert(rep_views(replacements@).take(i + 1).last() == (p@, v@));
        text = replace_text(text.as_str(), p, v);
        i += 1;
    }
    assert(rep_views(replacements@).take(replacements@.len() as int) =~= rep_views(replacements@));
    text
}

// ---------------------------------------------------------------------------
// Laws of the language choice
// ---------------------------------------------------------------------------
/// The first piece of `s` split at `sep` is the text of `s` before its first
/// `sep` (all of `s` when it has none); there is one piece exactly when `s`
/// holds no `sep`.
proof fn lemma_first_split_piece(s: Seq<char>, sep: char)
    ensures
        split_on(s, sep).len() >= 1,
        split_on(s, sep)[0].len() <= s.len(),
        split_on(s, sep)[0] == s.take(split_on(s, sep)[0].len() as int),
        forall|i: int| 0 <= i < split_on(s, sep)[0].len() ==> s[i] != sep,
        split_on(s, sep)[0].len() < s.len() ==> s[split_on(s, sep)[0].len() as int] == sep,
        (split_on(s, sep).len() == 1) == (split_on(s, sep)[0].len() == s.len()),
    decreases s.len(),
{
    if s.len() == 0 {
        assert(s.take(0) =~= s);
    } else {
        let t = s.drop_last();
        lemma_first_split_piece(t, sep);
        let p = split_on(t, sep);
        let f = p[0];
        if p.len() == 1 {
            assert(f =~= t);
            if s.last() == sep {
                assert(t =~= s.take(t.len() as int));
            } else {
                assert(f.push(s.last()) =~= s);
                assert(s.take(s.len() as int) =~= s);
            }
        } else {
            assert(f =~= s.take(f.len() as int));
        }
        assert forall|i: int| 0 <= i < split_on(s, sep)[0].len() implies s[i] != sep by {
            if i < t.len() {
                assert(t[i] == s[i]);
            }
        }
    }
}

/// The text before the first `_`, `.` or `-` of `c` followed by `t` is `c`,
/// when `c` holds none of them and `t` is empty or starts with one.
proof fn lemma_first_piece_of_code(c: Seq<char>, t: Seq<char>)
    requires
        forall|i: int| 0 <= i < c.len() ==> c[i] != '_' && c[i] != '.' && c[i] != '-',
        t.len() == 0 || t[0] == '_' || t[0] == '.' || t[0] == '-',
    ensures
        first_piece(c + t) == c,
    decreases c.len(),
{
    if c.len() == 0 {
        assert(c + t =~= t);
    } else {
        assert((c + t).drop_first() =~= c.drop_first() + t);
        lemma_first_piece_of_code(c.drop_first(), t);
        assert(seq![c[0]] + c.drop_first() =~= c);
    }
}

/// Every language the application knows is chosen by a locale naming its
/// code (`en`, `C` or `POSIX` for English, `el` Greek, `it` Italian, `es`
/// Spanish, `de` German, `fr` French), in any ASCII case, alone or followed
/// by a territory, encoding or modifier (`_`, `.`, `-`) or by further
/// choices (`:`); and such a locale, given first, is the automatic language.
pub proof fn lemma_locale_codes_name_their_language(
    code: Seq<char>,
    language: AppLanguage,
    c: Seq<char>,
    rest: Seq<char>,
)
    requires
        seq![
            ("en"@, AppLanguage::English), ("c"@, AppLanguage::English),
            ("posix"@, AppLanguage::English), ("el"@, AppLanguage::Greek),
            ("it"@, AppLanguage::Italian), ("es"@, AppLanguage::Spanish),
            ("de"@, AppLanguage::German), ("fr"@, AppLanguage::French),
        ].contains((code, language)),
        ascii_lower_seq(c) == code,
        rest.len() == 0 || rest[0] == '_' || rest[0] == '.' || rest[0] == '-' || rest[0] == ':',
    ensures
        spec_language_from_locale(c + rest) == Some(language),
        spec_automatic_language(seq![c + rest]) == language,
{
    reveal_strlit("en");
    reveal_strlit("c");
    reveal_strlit("posix");
    reveal_strlit("el");
    reveal_strlit("it");
    reveal_strlit("es");
    reveal_strlit("de");
    reveal_strlit("fr");
    let table = seq![
        ("en"@, AppLanguage::English), ("c"@, AppLanguage::English),
        ("posix"@, AppLanguage::English), ("el"@, AppLanguage::Greek),
        ("it"@, AppLanguage::Italian), ("es"@, AppLanguage::Spanish),
        ("de"@, AppLanguage::German), ("fr"@, AppLanguage::French),
    ];
    let k = choose|k: int| 0 <= k < table.len() && table[k] == (code, language);
    assert(forall|i: int| 0 <= i < code.len() ==> 'a' <= #[trigger] code[i] <= 'z');
    assert forall|i: int| 0 <= i < c.len() implies c[i] != '_' && c[i] != '.' && c[i] != '-'
        && c[i] != ':' by {
        assert(ascii_lower_seq(c)[i] == crate::text::ascii_lower(c[i]));
        assert('a' <= code[i] <= 'z');
    }
    let s = c + rest;
    lemma_first_split_piece(s, ':');
    let f = split_on(s, ':')[0];
    if f.len() < c.len() {
        assert(s[f.len() as int] == c[f.len() as int]);
    }
    let t = f.skip(c.len() as int);
    assert(f =~= c + t);
    if t.len() > 0 {
        assert(t[0] == s[c.len() as int]);
        assert(t[0] == rest[0]);
        assert(f[c.len() as int] != ':');
    }
    lemma_first_piece_of_code(c, t);
    assert(locale_code(s) == code);
    assert(spec_language_from_locale(s) == Some(language)) by {
        if k == 0 {
            assert(code =~= "en"@);
        } else if k == 1 {
            assert(code =~= "c"@);
            assert(code != "en"@) by { assert(code.len() != "en"@.len()); }
        } else if k == 2 {
            assert(code =~= "posix"@);
            assert(code != "en"@) by { assert(code.len() != "en"@.len()); }
            assert(code != "c"@) by { assert(code.len() != "c"@.len()); }
        } else if k == 3 {
            assert(code =~= "el"@);
            assert(code != "en"@) by { assert(code[1] != "en"@[1]); }
            assert(code != "c"@) by { assert(code.len() != "c"@.len()); }
            assert(code != "posix"@) by { assert(code.len() != "posix"@.len()); }
        } else if k == 4 {
            assert(code =~= "it"@);
            assert(code != "en"@) by { assert(code[0] != "en"@[0]); }
            assert(code != "c"@) by { assert(code.len() != "c"@.len()); }
            assert(code != "posix"@) by { assert(code.len() != "posix"@.len()); }
            assert(code != "el"@) by { assert(code[0] != "el"@[0]); }
        } else if k == 5 {
            assert(code =~= "es"@);
            assert(code != "en"@) by { assert(code[1] != "en"@[1]); }
            assert(code != "c"@) by { assert(code.len() != "c"@.len()); }
            assert(code != "posix"@) by { assert(code.len() != "posix"@.len()); }
            assert(code != "el"@) by { assert(code[1] != "el"@[1]); }
            assert(code != "it"@) by { assert(code[0] != "it"@[0]); }
        } else if k == 6 {
            assert(code =~= "de"@);
            assert(code != "en"@) by { assert(code[0] != "en"@[0]); }
            assert(code != "c"@) by { assert(code.len() != "c"@.len()); }
            assert(code != "posix"@) by { assert(code.len() != "posix"@.len()); }
            assert(code != "el"@) by { assert(code[0] != "el"@[0]); }
            assert(code != "it"@) by { assert(code[0] != "it"@[0]); }
            assert(code != "es"@) by { assert(code[0] != "es"@[0]); }
        } else if k == 7 {
            assert(code =~= "fr"@);
            assert(code != "en"@) by { assert(code[0] != "en"@[0]); }
            assert(code != "c"@) by { assert(code.len() != "c"@.len()); }
            assert(code != "posix"@) by { assert(code.len() != "posix"@.len()); }
            assert(code != "el"@) by { assert(code[0] != "el"@[0]); }
            assert(code != "it"@) by { assert(code[0] != "it"@[0]); }
            assert(code != "es"@) by { assert(code[0] != "es"@[0]); }
            assert(code != "de"@) by { assert(code[0] != "de"@[0]); }
        }
    }
    assert(seq![s][0] == s);
    assert(seq![s].drop_first() =~= Seq::<Seq<char>>::empty());
}

} // verus!
