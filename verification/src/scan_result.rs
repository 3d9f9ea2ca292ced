//! What a scan found and what a cleanup did.
use vstd::prelude::*;
use crate::outside::{byte_size_text, format_bytes};
use crate::paths::{paths_equal, same_path};
use crate::strings::strs;

verus! {

#[derive(Clone, Debug)]
pub struct FileEntry {
    pub path: String,
    pub size: u64,
    pub is_directory: bool,
    pub is_symlink: bool,
}

impl FileEntry {
    pub fn new(path: String, size: u64, is_directory: bool, is_symlink: bool) -> (r: Self)
        ensures
            r.path@ == path@,
            r.size == size,
            r.is_directory == is_directory,
            r.is_symlink == is_symlink,
    {
        FileEntry { path, size, is_directory, is_symlink }
    }

    /// A copy of the entry.
    pub fn duplicate(&self) -> (r: Self)
        ensures
            r == *self,
    {
        FileEntry {
            path: self.path.clone(),
            size: self.size,
            is_directory: self.is_directory,
            is_symlink: self.is_symlink,
        }
    }
}

/// The entries of `incoming` whose path is not yet among `seen` nor among
/// the entries of `incoming` kept before them: what a merge adds.
pub open spec fn fresh_entries(seen: Seq<FileEntry>, incoming: Seq<FileEntry>) -> Seq<FileEntry>
    decreases incoming.len(),
{
    if incoming.len() == 0 {
        incoming
    } else {
        let kept = fresh_entries(seen, incoming.drop_last());
        let x = incoming.last();
        if has_path(seen + kept, x.path@) {
            kept
        } else {
            kept.push(x)
        }
    }
}

/// Some entry of `s` names the same path as `p`.
pub open spec fn has_path(s: Seq<FileEntry>, p: Seq<char>) -> bool {
    exists|i: int| 0 <= i < s.len() && same_path(#[trigger] s[i].path@, p)
}

/// No two entries of `s` name the same path.
pub open spec fn distinct_paths(s: Seq<FileEntry>) -> bool {
    forall|i: int, j: int| 0 <= i < j < s.len() ==> !same_path(#[trigger] s[i].path@, #[trigger] s[j].path@)
}

pub open spec fn size_sum(s: Seq<FileEntry>) -> int
    decreases s.len(),
{
    if s.len() == 0 {
        0
    } else {
        size_sum(s.drop_last()) + s.last().size
    }
}

pub open spec fn pair_texts(v: Seq<(String, String)>) -> Seq<(Seq<char>, Seq<char>)> {
    Seq::new(v.len(), |i: int| (v[i].0@, v[i].1@))
}

#[derive(Clone, Debug)]
pub struct ScanResult {
    pub files: Vec<FileEntry>,
    pub directories: Vec<FileEntry>,
    pub total_size: u64,
    pub file_count: usize,
    pub dir_count: usize,
    pub skipped: Vec<(String, String)>,
    pub security_violations: Vec<String>,
    pub errors: Vec<String>,
    pub cancelled: bool,
}

pub fn has_entry_path(s: &Vec<FileEntry>, p: &str) -> (r: bool)
    ensures
        r == has_path(s@, p@),
{
    let mut i: usize = 0;
    while i < s.len()
        invariant
            0 <= i <= s@.len(),
            forall|k: int| 0 <= k < i ==> !same_path(#[trigger] s@[k].path@, p@),
        decreases s@.len() - i,
    {
        if paths_equal(s[i].path.as_str(), p) {
            return true;
        }
        i += 1;
    }
    false
}

fn append_pairs(dst: &mut Vec<(String, String)>, src: Vec<(String, String)>)
    ensures
        pair_texts(final(dst)@) == pair_texts(old(dst)@) + pair_texts(src@),
{
    let ghost start = pair_texts(dst@);
    let ghost all = pair_texts(src@);
    let mut src = src;
    let n = src.len();
    let mut i: usize = 0;
    while src.len() > 0
        invariant
            n == all.len(),
            i + src@.len() == n,
            pair_texts(src@) == all.skip(i as int),
            pair_texts(dst@) == start + all.take(i as int),
        decreases src@.len(),
    {
        let ghost before = src@;
        let x = src.remove(0);
        assert(pair_texts(src@) =~= pair_texts(before).drop_first());
        assert(pair_texts(before)[0] == all.skip(i as int)[0]);
        assert((x.0@, x.1@) == all[i as int]);
        let ghost d = pair_texts(dst@);
        dst.push(x);
        assert(pair_texts(dst@) =~= d.push(all[i as int]));
        i += 1;
        assert(all.take(i as int) =~= all.take(i - 1).push(all[i - 1]));
        assert(all.skip(i - 1).drop_first() =~= all.skip(i as int));
    }
    assert(all.take(n as int) =~= all);
}

fn append_texts(dst: &mut Vec<String>, src: Vec<String>)
    ensures
        strs(final(dst)@) == strs(old(dst)@) + strs(src@),
{
    let ghost start = strs(dst@);
    let ghost all = strs(src@);
    let mut src = src;
    let n = src.len();
    let mut i: usize = 0;
    while src.len() > 0
        invariant
            n == all.len(),
            i + src@.len() == n,
            strs(src@) == all.skip(i as int),
            strs(dst@) == start + all.take(i as int),
        decreases src@.len(),
    {
        let ghost before = src@;
        let x = src.remove(0);
        assert(strs(src@) =~= strs(before).drop_first());
        assert(strs(before)[0] == all.skip(i as int)[0]);
        assert(x@ == all[i as int]);
        let ghost d = strs(dst@);
        dst.push(x);
        assert(strs(dst@) =~= d.push(all[i as int]));
        i += 1;
        assert(all.take(i as int) =~= all.take(i - 1).push(all[i - 1]));
        assert(all.skip(i - 1).drop_first() =~= all.skip(i as int));
    }
    assert(all.take(n as int) =~= all);
}

impl ScanResult {
    pub fn new() -> (r: Self)
        ensures
            r.files@.len() == 0,
            r.directories@.len() == 0,
            r.total_size == 0,
            r.file_count == 0,
            r.dir_count == 0,
            r.skipped@.len() == 0,
            r.security_violations@.len() == 0,
            r.errors@.len() == 0,
            !r.cancelled,
    {
        ScanResult {
            files: Vec::new(),
            directories: Vec::new(),
            total_size: 0,
            file_count: 0,
            dir_count: 0,
            skipped: Vec::new(),
            security_violations: Vec::new(),
            errors: Vec::new(),
            cancelled: false,
        }
    }

    /// Records a file to clean; its size counts towards the total.
    pub fn add_file(&mut self, entry: FileEntry)
        requires
            old(self).total_size + entry.size <= u64::MAX,
            old(self).file_count < usize::MAX,
        ensures
            final(self).files@ == old(self).files@.push(entry),
            final(self).total_size == old(self).total_size + entry.size,
            final(self).file_count == old(self).file_count + 1,
            final(self).directories@ == old(self).directories@,
            final(self).dir_count == old(self).dir_count,
            final(self).skipped@ == old(self).skipped@,
            final(self).security_violations@ == old(self).security_violations@,
            final(self).errors@ == old(self).errors@,
            final(self).cancelled == old(self).cancelled,
    {
        self.total_size = self.total_size + entry.size;
        self.file_count = self.file_count + 1;
        self.files.push(entry);
    }

    /// Records a directory to remove once empty.
    pub fn add_directory(&mut self, entry: FileEntry)
        requires
            old(self).dir_count < usize::MAX,
        ensures
            final(self).directories@ == old(self).directories@.push(entry),
            final(self).dir_count == old(self).dir_count + 1,
            final(self).files@ == old(self).files@,
            final(self).total_size == old(self).total_size,
            final(self).file_count == old(self).file_count,
            final(self).skipped@ == old(self).skipped@,
            final(self).security_violations@ == old(self).security_violations@,
            final(self).errors@ == old(self).errors@,
            final(self).cancelled == old(self).cancelled,
    {
        self.dir_count = self.dir_count + 1;
        self.directories.push(entry);
    }

    pub fn add_skipped(&mut self, path: String, reason: &str)
        ensures
            pair_texts(final(self).skipped@) == pair_texts(old(self).skipped@).push((path@, reason@)),
            final(self).files@ == old(self).files@,
            final(self).directories@ == old(self).directories@,
            final(self).total_size == old(self).total_size,
            final(self).file_count == old(self).file_count,
            final(self).dir_count == old(self).dir_count,
            final(self).security_violations@ == old(self).security_violations@,
            final(self).errors@ == old(self).errors@,
            final(self).cancelled == old(self).cancelled,
    {
        let ghost before = pair_texts(self.skipped@);
        let ghost p = path@;
        self.skipped.push((path, crate::text::owned(reason)));
        assert(pair_texts(self.skipped@) =~= before.push((p, reason@)));
    }

    pub fn add_security_violation(&mut self, violation: &str)
        ensures
            strs(final(self).security_violations@) == strs(old(self).security_violations@).push(
                violation@,
            ),
            final(self).files@ == old(self).files@,
            final(self).directories@ == old(self).directories@,
            final(self).total_size == old(self).total_size,
            final(self).file_count == old(self).file_count,
            final(self).dir_count == old(self).dir_count,
            final(self).skipped@ == old(self).skipped@,
            final(self).errors@ == old(self).errors@,
            final(self).cancelled == old(self).cancelled,
    {
        let ghost before = strs(self.security_violations@);
        self.security_violations.push(crate::text::owned(violation));
        assert(strs(self.security_violations@) =~= before.push(violation@));
    }

    pub fn add_error(&mut self, error: &str)
        ensures
            strs(final(self).errors@) == strs(old(self).errors@).push(error@),
            final(self).files@ == old(self).files@,
            final(self).directories@ == old(self).directories@,
            final(self).total_size == old(self).total_size,
            final(self).file_count == old(self).file_count,
            final(self).dir_count == old(self).dir_count,
            final(self).skipped@ == old(self).skipped@,
            final(self).security_violations@ == old(self).security_violations@,
            final(self).cancelled == old(self).cancelled,
    {
        let ghost before = strs(self.errors@);
        self.errors.push(crate::text::owned(error));
        assert(strs(self.errors@) =~= before.push(error@));
    }

    /// Takes in the findings of another scan: files and directories whose
    /// path is already present are not added twice, the notices are
    /// appended, and a cancellation of either scan carries over.
    pub fn merge(&mut self, other: ScanResult)
        requires
            old(self).total_size + size_sum(fresh_entries(old(self).files@, other.files@))
                <= u64::MAX,
            old(self).file_count + fresh_entries(old(self).files@, other.files@).len()
                <= usize::MAX,
            old(self).dir_count + fresh_entries(old(self).directories@, other.directories@).len()
                <= usize::MAX,
        ensures
            final(self).files@ == old(self).files@ + fresh_entries(old(self).files@, other.files@),
            final(self).total_size == old(self).total_size + size_sum(
                fresh_entries(old(self).files@, other.files@),
            ),
            final(self).file_count == old(self).file_count + fresh_entries(
                old(self).files@,
                other.files@,
            ).len(),
            final(self).directories@ == old(self).directories@ + fresh_entries(
                old(self).directories@,
                other.directories@,
            ),
            final(self).dir_count == old(self).dir_count + fresh_entries(
                old(self).directories@,
                other.directories@,
            ).len(),
            pair_texts(final(self).skipped@) == pair_texts(old(self).skipped@) + pair_texts(
                other.skipped@,
            ),
            strs(final(self).security_violations@) == strs(old(self).security_violations@) + strs(
                other.security_violations@,
            ),
            strs(final(self).errors@) == strs(old(self).errors@) + strs(other.errors@),
            final(self).cancelled == (old(self).cancelled || other.cancelled),
    {
        let ghost seen0 = self.files@;
        let ghost inc = other.files@;
        let ScanResult {
            files,
            directories,
            total_size: _,
            file_count: _,
            dir_count: _,
            skipped,
            security_violations,
            errors,
            cancelled,
        } = other;
        let mut files = files;
        let n = files.len();
        let mut i: usize = 0;
        while files.len() > 0
            invariant
                n == inc.len(),
                i + files@.len() == n,
                files@ == inc.skip(i as int),
                self.files@ == seen0 + fresh_entries(seen0, inc.take(i as int)),
                self.total_size == old(self).total_size + size_sum(
                    fresh_entries(seen0, inc.take(i as int)),
                ),
                self.file_count == old(self).file_count + fresh_entries(
                    seen0,
                    inc.take(i as int),
                ).len(),
                seen0 == old(self).files@,
                old(self).total_size + size_sum(fresh_entries(seen0, inc)) <= u64::MAX,
                old(self).file_count + fresh_entries(seen0, inc).len() <= usize::MAX,
                self.directories@ == old(self).directories@,
                self.dir_count == old(self).dir_count,
                self.skipped@ == old(self).skipped@,
                self.security_violations@ == old(self).security_violations@,
                self.errors@ == old(self).errors@,
                self.cancelled == old(self).cancelled,
            decreases files@.len(),
        {
            let ghost before = files@;
            let x = files.remove(0);
            assert(files@ =~= before.drop_first());
            assert(x == inc[i as int]);
            assert(inc.take(i + 1).drop_last() =~= inc.take(i as int));
            assert(inc.take(i + 1).last() == x);
            proof {
                lemma_fresh_prefix_bounds(seen0, inc, (i + 1) as int);
                lemma_fresh_step(seen0, inc, i as int);
            }
            if !has_entry_path(&self.files, x.path.as_str()) {
                self.add_file(x);
            }
            i += 1;
            assert(inc.skip(i - 1).drop_first() =~= inc.skip(i as int));
        }
        assert(inc.take(n as int) =~= inc);
        let ghost dseen0 = self.directories@;
        let ghost dinc = directories@;
        let mut directories = directories;
        let dn = directories.len();
        let mut j: usize = 0;
        while directories.len() > 0
            invariant
                dn == dinc.len(),
                j + directories@.len() == dn,
                directories@ == dinc.skip(j as int),
                dseen0 == old(self).directories@,
                self.directories@ == dseen0 + fresh_entries(dseen0, dinc.take(j as int)),
                self.dir_count == old(self).dir_count + fresh_entries(
                    dseen0,
                    dinc.take(j as int),
                ).len(),
                old(self).dir_count + fresh_entries(dseen0, dinc).len() <= usize::MAX,
                self.files@ == old(self).files@ + fresh_entries(old(self).files@, inc),
                self.total_size == old(self).total_size + size_sum(
                    fresh_entries(old(self).files@, inc),
                ),
                self.file_count == old(self).file_count + fresh_entries(
                    old(self).files@,
                    inc,
                ).len(),
                self.skipped@ == old(self).skipped@,
                self.security_violations@ == old(self).security_violations@,
                self.errors@ == old(self).errors@,
                self.cancelled == old(self).cancelled,
            decreases directories@.len(),
        {
            let ghost before = directories@;
            let x = directories.remove(0);
            assert(directories@ =~= before.drop_first());
            assert(x == dinc[j as int]);
            assert(dinc.take(j + 1).drop_last() =~= dinc.take(j as int));
            assert(dinc.take(j + 1).last() == x);
            proof {
                lemma_fresh_prefix_bounds(dseen0, dinc, (j + 1) as int);
                lemma_fresh_step(dseen0, dinc, j as int);
            }
            if !has_entry_path(&self.directories, x.path.as_str()) {
                self.add_directory(x);
            }
            j += 1;
            assert(dinc.skip(j - 1).drop_first() =~= dinc.skip(j as int));
        }
        assert(dinc.take(dn as int) =~= dinc);
        append_pairs(&mut self.skipped, skipped);
        append_texts(&mut self.security_violations, security_violations);
        append_texts(&mut self.errors, errors);
        self.cancelled = self.cancelled || cancelled;
    }

    pub fn has_security_violations(&self) -> (r: bool)
        ensures
            r == (self.security_violations@.len() > 0),
    {
        self.security_violations.len() > 0
    }

    pub fn is_empty(&self) -> (r: bool)
        ensures
            r == (self.files@.len() == 0 && self.directories@.len() == 0),
    {
        self.files.len() == 0 && self.directories.len() == 0
    }

    /// The total size in human-readable form.
    pub fn formatted_size(&self) -> (r: String)
        ensures
            r@ == byte_size_text(self.total_size),
    {
        format_bytes(self.total_size)
    }
}

/// What a merge adds never exceeds, in count or size, what the whole merge
/// adds; used to bound the running totals.
proof fn lemma_fresh_prefix_bounds(seen: Seq<FileEntry>, inc: Seq<FileEntry>, k: int)
    requires
        0 <= k <= inc.len(),
    ensures
        fresh_entries(seen, inc.take(k)).len() <= fresh_entries(seen, inc).len(),
        size_sum(fresh_entries(seen, inc.take(k))) <= size_sum(fresh_entries(seen, inc)),
    decreases inc.len() - k,
{
    if k < inc.len() {
        lemma_fresh_prefix_bounds(seen, inc, k + 1);
        lemma_fresh_step(seen, inc, k);
    } else {
        assert(inc.take(k) =~= inc);
    }
}

/// One more incoming entry either repeats a known path and adds nothing, or
/// is appended and adds its size.
proof fn lemma_fresh_step(seen: Seq<FileEntry>, inc: Seq<FileEntry>, k: int)
    requires
        0 <= k < inc.len(),
    ensures
        ({
            let a = fresh_entries(seen, inc.take(k));
            &&& fresh_entries(seen, inc.take(k + 1)) == (if has_path(seen + a, inc[k].path@) {
                a
            } else {
                a.push(inc[k])
            })
            &&& size_sum(a.push(inc[k])) == size_sum(a) + inc[k].size
            &&& a.push(inc[k]).len() == a.len() + 1
        }),
{
    let a = fresh_entries(seen, inc.take(k));
    assert(inc.take(k + 1).drop_last() =~= inc.take(k));
    assert(inc.take(k + 1).last() == inc[k]);
    assert(a.push(inc[k]).drop_last() =~= a);
}

/// A merge never lists one path twice: if the entries held so far name
/// distinct paths, they still do together with what a merge adds.
pub proof fn lemma_merge_keeps_paths_distinct(seen: Seq<FileEntry>, incoming: Seq<FileEntry>)
    requires
        distinct_paths(seen),
    ensures
        distinct_paths(seen + fresh_entries(seen, incoming)),
    decreases incoming.len(),
{
    if incoming.len() > 0 {
        lemma_merge_keeps_paths_distinct(seen, incoming.drop_last());
        let kept = fresh_entries(seen, incoming.drop_last());
        let x = incoming.last();
        let s = seen + kept;
        if !has_path(s, x.path@) {
            assert(seen + kept.push(x) =~= s.push(x));
            assert forall|i: int, j: int| 0 <= i < j < s.push(x).len() implies !same_path(
                #[trigger] s.push(x)[i].path@,
                #[trigger] s.push(x)[j].path@,
            ) by {
                if j == s.len() && same_path(s[i].path@, x.path@) {
                    assert(has_path(s, x.path@));
                }
            }
        }
    }
}

proof fn lemma_size_sum_concat(a: Seq<FileEntry>, b: Seq<FileEntry>)
    ensures
        size_sum(a + b) == size_sum(a) + size_sum(b),
    decreases b.len(),
{
    if b.len() > 0 {
        lemma_size_sum_concat(a, b.drop_last());
        assert((a + b).drop_last() =~= a + b.drop_last());
    } else {
        assert(a + b =~= a);
    }
}

/// A merge keeps the totals honest: when the size and count held so far
/// are those of the entries held, the grown size and count (as `merge`
/// computes them) are those of the entries afterwards.
pub proof fn lemma_merge_keeps_totals(seen: Seq<FileEntry>, incoming: Seq<FileEntry>, total: int, count: int)
    requires
        total == size_sum(seen),
        count == seen.len(),
    ensures
        total + size_sum(fresh_entries(seen, incoming)) == size_sum(seen + fresh_entries(seen, incoming)),
        count + fresh_entries(seen, incoming).len() == (seen + fresh_entries(seen, incoming)).len(),
{
    lemma_size_sum_concat(seen, fresh_entries(seen, incoming));
}

/// The entries of results merged in turn into `seen`, as successive
/// `merge` calls leave them.
pub open spec fn merged_all(seen: Seq<FileEntry>, results: Seq<Seq<FileEntry>>) -> Seq<FileEntry>
    decreases results.len(),
{
    if results.len() == 0 {
        seen
    } else {
        let before = merged_all(seen, results.drop_last());
        before + fresh_entries(before, results.last())
    }
}

/// Merging the results of any number of rules, one after another, never
/// lists one path twice.
pub proof fn lemma_merged_results_distinct(seen: Seq<FileEntry>, results: Seq<Seq<FileEntry>>)
    requires
        distinct_paths(seen),
    ensures
        distinct_paths(merged_all(seen, results)),
    decreases results.len(),
{
    if results.len() > 0 {
        lemma_merged_results_distinct(seen, results.drop_last());
        lemma_merge_keeps_paths_distinct(merged_all(seen, results.drop_last()), results.last());
    }
}

/// A merge loses no path: every entry held before and every entry of the
/// other result has its path among the entries afterwards.
pub proof fn lemma_merge_keeps_every_path(seen: Seq<FileEntry>, incoming: Seq<FileEntry>)
    ensures
        forall|i: int|
            0 <= i < seen.len() ==> has_path(
                seen + fresh_entries(seen, incoming),
                #[trigger] seen[i].path@,
            ),
        forall|i: int|
            0 <= i < incoming.len() ==> has_path(
                seen + fresh_entries(seen, incoming),
                #[trigger] incoming[i].path@,
            ),
    decreases incoming.len(),
{
    let all = seen + fresh_entries(seen, incoming);
    assert forall|i: int| 0 <= i < seen.len() implies has_path(all, #[trigger] seen[i].path@) by {
        assert(all[i] == seen[i]);
    }
    if incoming.len() > 0 {
        let init = incoming.drop_last();
        lemma_merge_keeps_every_path(seen, init);
        let kept = fresh_entries(seen, init);
        let x = incoming.last();
        let s = seen + kept;
        assert(s.len() <= all.len());
        assert forall|k: int| 0 <= k < s.len() implies all[k] == s[k] by {
            if !has_path(s, x.path@) {
                assert(all =~= s.push(x));
            }
        }
        assert forall|i: int| 0 <= i < incoming.len() implies has_path(
            all,
            #[trigger] incoming[i].path@,
        ) by {
            if i < init.len() {
                assert(init[i] == incoming[i]);
                assert(has_path(s, init[i].path@));
                let w = choose|w: int| 0 <= w < s.len() && same_path(#[trigger] s[w].path@, init[i].path@);
                assert(all[w] == s[w]);
            } else if has_path(s, x.path@) {
                let w = choose|w: int| 0 <= w < s.len() && same_path(#[trigger] s[w].path@, x.path@);
                assert(all[w] == s[w]);
            } else {
                assert(all =~= s.push(x));
                assert(all[s.len() as int] == x);
            }
        }
    }
}

#[derive(Clone, Debug)]
pub struct CleanResult {
    pub deleted_files: Vec<String>,
    pub deleted_directories: Vec<String>,
    pub bytes_freed: u64,
    pub failed: Vec<(String, String)>,
    pub skipped: Vec<(String, String)>,
    pub cancelled: bool,
    pub blocked_reason: Option<String>,
}

/// The model of a `CleanResult`: paths and reasons as text.
pub struct CleanResultView {
    pub deleted_files: Seq<Seq<char>>,
    pub deleted_directories: Seq<Seq<char>>,
    pub bytes_freed: nat,
    pub failed: Seq<(Seq<char>, Seq<char>)>,
    pub skipped: Seq<(Seq<char>, Seq<char>)>,
    pub cancelled: bool,
    pub blocked: Option<Seq<char>>,
}

impl View for CleanResult {
    type V = CleanResultView;

    open spec fn view(&self) -> CleanResultView {
        CleanResultView {
            deleted_files: strs(self.deleted_files@),
            deleted_directories: strs(self.deleted_directories@),
            bytes_freed: self.bytes_freed as nat,
            failed: pair_texts(self.failed@),
            skipped: pair_texts(self.skipped@),
            cancelled: self.cancelled,
            blocked: match self.blocked_reason {
                Some(r) => Some(r@),
                None => None,
            },
        }
    }
}

/// The model of a fresh `CleanResult`.
pub open spec fn empty_clean_view() -> CleanResultView {
    CleanResultView {
        deleted_files: seq![],
        deleted_directories: seq![],
        bytes_freed: 0,
        failed: seq![],
        skipped: seq![],
        cancelled: false,
        blocked: None,
    }
}

impl CleanResult {
    pub fn new() -> (r: Self)
        ensures
            r.deleted_files@.len() == 0,
            r.deleted_directories@.len() == 0,
            r.bytes_freed == 0,
            r.failed@.len() == 0,
            r.skipped@.len() == 0,
            !r.cancelled,
            r.blocked_reason is None,
            r@ == empty_clean_view(),
    {
        let r = CleanResult {
            deleted_files: Vec::new(),
            deleted_directories: Vec::new(),
            bytes_freed: 0,
            failed: Vec::new(),
            skipped: Vec::new(),
            cancelled: false,
            blocked_reason: None,
        };
        assert(strs(r.deleted_files@) =~= seq![]);
        assert(strs(r.deleted_directories@) =~= seq![]);
        assert(pair_texts(r.failed@) =~= seq![]);
        assert(pair_texts(r.skipped@) =~= seq![]);
        r
    }

    pub fn add_deleted_file(&mut self, path: String, size: u64)
        requires
            old(self).bytes_freed + size <= u64::MAX,
        ensures
            final(self).deleted_files@ == old(self).deleted_files@.push(path),
            final(self).bytes_freed == old(self).bytes_freed + size,
            final(self)@ == (CleanResultView {
                deleted_files: old(self)@.deleted_files.push(path@),
                bytes_freed: old(self)@.bytes_freed + size as nat,
                ..old(self)@
            }),
            final(self).deleted_directories@ == old(self).deleted_directories@,
            final(self).failed@ == old(self).failed@,
            final(self).skipped@ == old(self).skipped@,
            final(self).cancelled == old(self).cancelled,
            final(self).blocked_reason == old(self).blocked_reason,
    {
        let ghost before = strs(self.deleted_files@);
        let ghost p = path@;
        self.bytes_freed = self.bytes_freed + size;
        self.deleted_files.push(path);
        assert(strs(self.deleted_files@) =~= before.push(p));
    }

    pub fn add_deleted_directory(&mut self, path: String)
        ensures
            final(self).deleted_directories@ == old(self).deleted_directories@.push(path),
            final(self)@ == (CleanResultView {
                deleted_directories: old(self)@.deleted_directories.push(path@),
                ..old(self)@
            }),
            final(self).deleted_files@ == old(self).deleted_files@,
            final(self).bytes_freed == old(self).bytes_freed,
            final(self).failed@ == old(self).failed@,
            final(self).skipped@ == old(self).skipped@,
            final(self).cancelled == old(self).cancelled,
            final(self).blocked_reason == old(self).blocked_reason,
    {
        let ghost before = strs(self.deleted_directories@);
        let ghost p = path@;
        self.deleted_directories.push(path);
        assert(strs(self.deleted_directories@) =~= before.push(p));
    }

    pub fn add_failed(&mut self, path: String, reason: &str)
        ensures
            pair_texts(final(self).failed@) == pair_texts(old(self).failed@).push((path@, reason@)),
            final(self)@ == (CleanResultView {
                failed: old(self)@.failed.push((path@, reason@)),
                ..old(self)@
            }),
            final(self).deleted_files@ == old(self).deleted_files@,
            final(self).deleted_directories@ == old(self).deleted_directories@,
            final(self).bytes_freed == old(self).bytes_freed,
            final(self).skipped@ == old(self).skipped@,
            final(self).cancelled == old(self).cancelled,
            final(self).blocked_reason == old(self).blocked_reason,
    {
        let ghost before = pair_texts(self.failed@);
        let ghost p = path@;
        self.failed.push((path, crate::text::owned(reason)));
        assert(pair_texts(self.failed@) =~= before.push((p, reason@)));
    }

    pub fn add_skipped(&mut self, path: String, reason: &str)
        ensures
            pair_texts(final(self).skipped@) == pair_texts(old(self).skipped@).push((path@, reason@)),
            final(self)@ == (CleanResultView {
                skipped: old(self)@.skipped.push((path@, reason@)),
                ..old(self)@
            }),
            final(self).deleted_files@ == old(self).deleted_files@,
            final(self).deleted_directories@ == old(self).deleted_directories@,
            final(self).bytes_freed == old(self).bytes_freed,
            final(self).failed@ == old(self).failed@,
            final(self).cancelled == old(self).cancelled,
            final(self).blocked_reason == old(self).blocked_reason,
    {
        let ghost before = pair_texts(self.skipped@);
        let ghost p = path@;
        self.skipped.push((path, crate::text::owned(reason)));
        assert(pair_texts(self.skipped@) =~= before.push((p, reason@)));
    }

    pub fn files_deleted_count(&self) -> (r: usize)
        ensures
            r == self.deleted_files@.len(),
    {
        self.deleted_files.len()
    }

    pub fn failed_count(&self) -> (r: usize)
        ensures
            r == self.failed@.len(),
    {
        self.failed.len()
    }

    /// Marks the cleanup as refused before anything was touched.
    pub fn blocked(&mut self, reason: &str)
        ensures
            final(self).blocked_reason matches Some(r) && r@ == reason@,
            final(self)@ == (CleanResultView { blocked: Some(reason@), ..old(self)@ }),
            final(self).deleted_files@ == old(self).deleted_files@,
            final(self).deleted_directories@ == old(self).deleted_directories@,
            final(self).bytes_freed == old(self).bytes_freed,
            final(self).failed@ == old(self).failed@,
            final(self).skipped@ == old(self).skipped@,
            final(self).cancelled == old(self).cancelled,
    {
        self.blocked_reason = Some(crate::text::owned(reason));
    }

    pub fn is_blocked(&self) -> (r: bool)
        ensures
            r == self.blocked_reason is Some,
    {
        self.blocked_reason.is_some()
    }

    /// The freed size in human-readable form.
    pub fn formatted_bytes_freed(&self) -> (r: String)
        ensures
            r@ == byte_size_text(self.bytes_freed),
    {
        format_bytes(self.bytes_freed)
    }
}

/// Why removing an entry failed.
#[derive(Debug)]
pub enum CleanError {
    PermissionDenied(String),
    SecurityViolation(String),
    /// Any other I/O error, with its message.
    IoError(String),
    DirectoryNotEmpty(String),
}

impl CleanError {
    /// The message recorded for the failure.
    pub fn message(&self) -> (r: String)
        ensures
            r@ == match self {
                CleanError::PermissionDenied(p) => "Permission denied: "@ + p@,
                CleanError::SecurityViolation(v) => "Security violation: "@ + v@,
                CleanError::IoError(e) => "IO error: "@ + e@,
                CleanError::DirectoryNotEmpty(p) => "Directory not empty: "@ + p@,
            },
    {
        match self {
            CleanError::PermissionDenied(p) => crate::text::concat("Permission denied: ", p.as_str()),
            CleanError::SecurityViolation(v) => crate::text::concat("Security violation: ", v.as_str()),
            CleanError::IoError(e) => crate::text::concat("IO error: ", e.as_str()),
            CleanError::DirectoryNotEmpty(p) => crate::text::concat("Directory not empty: ", p.as_str()),
        }
    }
}

} // verus!
