//! The storage analyzer's model: the tree of large items, and the rules for
//! moving selected items to the trash safely.
use vstd::prelude::*;
use crate::paths::{component_count, components, components_of, components_order, path_has_prefix, path_starts_with, paths_equal, same_path};
use crate::split::views;
use crate::text::{compare_chars, lex_order, owned, Rel};

verus! {

#[derive(Clone, Copy, Debug, PartialEq, Eq, Structural)]
pub enum StorageNodeKind {
    File,
    Directory,
}

/// An item of the analyzed tree.
#[derive(Debug)]
pub struct StorageNode {
    pub path: String,
    pub kind: StorageNodeKind,
    pub size: u64,
    /// Last modification, in seconds since the Unix epoch, when known.
    pub modified: Option<i64>,
    pub device: u64,
    pub inode: u64,
    pub children: Vec<StorageNode>,
}

/// The name shown for a path: its last component when that is a name,
/// otherwise the whole path.
pub open spec fn spec_display_name(path: Seq<char>) -> Seq<char> {
    let cs = components(path);
    if cs.len() > 0 && cs.last() != seq!['/'] && cs.last() != seq!['.'] && cs.last() != seq!['.', '.'] && cs.last().len() > 0 {
        cs.last()
    } else {
        path
    }
}

/// The first node of `nodes` (depth first) whose path is `p`.
pub open spec fn find_in(n: StorageNode, p: Seq<char>) -> Option<StorageNode>
    decreases n,
{
    if same_path(n.path@, p) {
        Some(n)
    } else if !path_starts_with(p, n.path@) {
        None
    } else {
        find_in_children(n.children@, p, 0)
    }
}

pub open spec fn find_in_children(cs: Seq<StorageNode>, p: Seq<char>, i: int) -> Option<StorageNode>
    decreases cs, cs.len() - i,
{
    if i < 0 || i >= cs.len() {
        None
    } else {
        match find_in(cs[i], p) {
            Some(found) => Some(found),
            None => find_in_children(cs, p, i + 1),
        }
    }
}

/// The name shown for a path.
pub fn display_name_of(path: &str) -> (r: String)
    ensures
        r@ == spec_display_name(path@),
{
    let pc = crate::text::chars_of(path);
    let cs = components_of(pc.as_slice());
    let ghost cv = views(cs@);
    let n = cs.len();
    if n > 0 {
        let last = &cs[n - 1];
        assert(cv.last() == last@);
        let is_root = last.len() == 1 && last[0] == '/';
        let is_dot = last.len() == 1 && last[0] == '.';
        let is_dotdot = last.len() == 2 && last[0] == '.' && last[1] == '.';
        proof {
            if is_root {
                assert(last@ =~= seq!['/']);
            }
            if is_dot {
                assert(last@ =~= seq!['.']);
            }
            if is_dotdot {
                assert(last@ =~= seq!['.', '.']);
            }
            if !is_root && last@.len() == 1 {
                assert(last@ != seq!['/']) by {
                    assert(last@[0] != '/');
                }
            }
            if !is_dot && last@.len() == 1 {
                assert(last@ != seq!['.']) by {
                    assert(last@[0] != '.');
                }
            }
            if !is_dotdot && last@.len() == 2 {
                assert(last@ != seq!['.', '.']) by {
                    assert(last@[0] != '.' || last@[1] != '.');
                }
            }
        }
        if !is_root && !is_dot && !is_dotdot && last.len() > 0 {
            return crate::outside::string_from_chars(last.as_slice());
        }
    }
    crate::text::owned(path)
}

impl StorageNode {
    /// The name shown for the node.
    pub fn display_name(&self) -> (r: String)
        ensures
            r@ == spec_display_name(self.path@),
    {
        display_name_of(self.path.as_str())
    }

    pub fn is_directory(&self) -> (r: bool)
        ensures
            r == (self.kind == StorageNodeKind::Directory),
    {
        self.kind == StorageNodeKind::Directory
    }

    /// The node for `path` in this subtree: this node when the paths are
    /// equal, nothing when `path` is not below it, else the first match among
    /// the children.
    pub fn find(&self, path: &str) -> (r: Option<&StorageNode>)
        ensures
            match r {
                Some(n) => find_in(*self, path@) == Some(*n),
                None => find_in(*self, path@) is None,
            },
        decreases self,
    {
        if paths_equal(self.path.as_str(), path) {
            return Some(self);
        }
        if !path_has_prefix(path, self.path.as_str()) {
            return None;
        }
        let mut i: usize = 0;
        while i < self.children.len()
            invariant
                0 <= i <= self.children@.len(),
                find_in(*self, path@) == find_in_children(self.children@, path@, i as int),
            decreases self.children@.len() - i,
        {
            let child = &self.children[i];
            match child.find(path) {
                Some(n) => {
                    return Some(n);
                },
                None => {},
            }
            i += 1;
        }
        None
    }
}

#[derive(Debug)]
pub struct StorageAnalysis {
    pub root: StorageNode,
    pub files_scanned: usize,
    pub directories_scanned: usize,
    pub skipped: Vec<String>,
}

impl StorageAnalysis {
    pub fn item_count(&self) -> (r: usize)
        requires
            self.files_scanned + self.directories_scanned <= usize::MAX,
        ensures
            r == self.files_scanned + self.directories_scanned,
    {
        self.files_scanned + self.directories_scanned
    }
}

#[derive(Clone, Copy, Debug)]
pub struct StorageScanOptions {
    pub minimum_size: u64,
    pub stay_on_filesystem: bool,
    pub max_children_per_directory: usize,
}

impl Default for StorageScanOptions {
    fn default() -> (r: Self)
        ensures
            r.minimum_size == 100 * 1024 * 1024,
            r.stay_on_filesystem,
            r.max_children_per_directory == 500,
    {
        StorageScanOptions {
            minimum_size: 100 * 1024 * 1024,
            stay_on_filesystem: true,
            max_children_per_directory: 500,
        }
    }
}

/// The space a file takes on disk: its allocated blocks of 512 bytes
/// (saturating), or its length when no block is allocated.
pub fn allocated_size(blocks: u64, len: u64) -> (r: u64)
    ensures
        r == (if blocks * 512 > u64::MAX {
            u64::MAX as int
        } else if blocks * 512 > 0 {
            blocks * 512
        } else {
            len as int
        }),
{
    let allocated: u64 = if blocks > u64::MAX / 512 {
        u64::MAX
    } else {
        blocks * 512
    };
    if allocated > 0 {
        allocated
    } else {
        len
    }
}

/// An item selected to go to the trash, as the analysis saw it.
#[derive(Clone, Debug)]
pub struct TrashTarget {
    pub path: String,
    pub kind: StorageNodeKind,
    pub size: u64,
    pub device: u64,
    pub inode: u64,
}

impl TrashTarget {
    /// The target for a node of the analysis.
    pub fn from_node(node: &StorageNode) -> (r: Self)
        ensures
            r.path == node.path,
            r.kind == node.kind,
            r.size == node.size,
            r.device == node.device,
            r.inode == node.inode,
    {
        TrashTarget {
            path: node.path.clone(),
            kind: node.kind,
            size: node.size,
            device: node.device,
            inode: node.inode,
        }
    }

    /// A copy of the target.
    pub fn duplicate(&self) -> (r: Self)
        ensures
            r == *self,
    {
        TrashTarget {
            path: self.path.clone(),
            kind: self.kind,
            size: self.size,
            device: self.device,
            inode: self.inode,
        }
    }
}

/// What moving items to the trash did.
pub struct TrashResult {
    pub moved: Vec<(String, u64)>,
    pub failed: Vec<(String, String)>,
}

pub open spec fn moved_sum(v: Seq<(String, u64)>) -> int
    decreases v.len(),
{
    if v.len() == 0 {
        0
    } else {
        moved_sum(v.drop_last()) + v.last().1
    }
}

impl TrashResult {
    /// The bytes moved in all.
    pub fn bytes_moved(&self) -> (r: u64)
        requires
            moved_sum(self.moved@) <= u64::MAX,
        ensures
            r == moved_sum(self.moved@),
    {
        let mut total: u64 = 0;
        let mut i: usize = 0;
        while i < self.moved.len()
            invariant
                0 <= i <= self.moved@.len(),
                total == moved_sum(self.moved@.take(i as int)),
                moved_sum(self.moved@) <= u64::MAX,
            decreases self.moved@.len() - i,
        {
            assert(self.moved@.take(i + 1).drop_last() =~= self.moved@.take(i as int));
            proof {
                lemma_moved_sum_prefix(self.moved@, i + 1);
            }
            total = total + self.moved[i].1;
            i += 1;
        }
        assert(self.moved@.take(self.moved@.len() as int) =~= self.moved@);
        total
    }
}

proof fn lemma_moved_sum_prefix(v: Seq<(String, u64)>, n: int)
    requires
        0 <= n <= v.len(),
    ensures
        moved_sum(v.take(n)) <= moved_sum(v),
    decreases v.len() - n,
{
    if n < v.len() {
        lemma_moved_sum_prefix(v, n + 1);
        assert(v.take(n + 1).drop_last() =~= v.take(n));
    } else {
        assert(v.take(n) =~= v);
    }
}

// ---------------------------------------------------------------------------
// Which selected items to move
// ---------------------------------------------------------------------------
/// `a` sorts after `b`: deeper, or as deep and later by path.
pub open spec fn sorts_after(a: TrashTarget, b: TrashTarget) -> bool {
    let ca = components(a.path@);
    let cb = components(b.path@);
    ca.len() > cb.len() || (ca.len() == cb.len() && components_order(ca, cb) == Rel::Greater)
}

/// `x` inserted into `sorted` before the first item it sorts before.
pub open spec fn insert_target(sorted: Seq<TrashTarget>, x: TrashTarget) -> Seq<TrashTarget>
    decreases sorted.len(),
{
    if sorted.len() == 0 {
        seq![x]
    } else if sorts_after(sorted[0], x) {
        seq![x] + sorted
    } else {
        seq![sorted[0]] + insert_target(sorted.drop_first(), x)
    }
}

/// The targets ordered shallowest first, then by path (a stable sort).
pub open spec fn sorted_targets(s: Seq<TrashTarget>) -> Seq<TrashTarget>
    decreases s.len(),
{
    if s.len() == 0 {
        s
    } else {
        insert_target(sorted_targets(s.drop_last()), s.last())
    }
}

/// `t` lies strictly below a directory of `kept`, or has the path of an
/// item of `kept`.
pub open spec fn covered(kept: Seq<TrashTarget>, t: TrashTarget) -> bool {
    exists|i: int|
        0 <= i < kept.len() && ((#[trigger] kept[i]).kind == StorageNodeKind::Directory
            && !same_path(t.path@, kept[i].path@) && path_starts_with(t.path@, kept[i].path@)
            || same_path(kept[i].path@, t.path@))
}

/// The items kept from a sorted selection: each not already covered.
pub open spec fn kept_targets(sorted: Seq<TrashTarget>) -> Seq<TrashTarget>
    decreases sorted.len(),
{
    if sorted.len() == 0 {
        sorted
    } else {
        let k = kept_targets(sorted.drop_last());
        if covered(k, sorted.last()) {
            k
        } else {
            k.push(sorted.last())
        }
    }
}

/// The selection to move: sorted shallowest first, without items inside a
/// selected directory and without repeated paths.
pub open spec fn spec_normalize_targets(s: Seq<TrashTarget>) -> Seq<TrashTarget> {
    kept_targets(sorted_targets(s))
}

pub(crate) fn component_list_order(a: &Vec<Vec<char>>, b: &Vec<Vec<char>>) -> (r: Rel)
    ensures
        r == components_order(views(a@), views(b@)),
{
    let ghost av = views(a@);
    let ghost bv = views(b@);
    let mut i: usize = 0;
    assert(av.skip(0) =~= av);
    assert(bv.skip(0) =~= bv);
    while i < a.len() && i < b.len()
        invariant
            0 <= i <= a@.len(),
            i <= b@.len(),
            av == views(a@),
            bv == views(b@),
            components_order(av, bv) == components_order(av.skip(i as int), bv.skip(i as int)),
        decreases a@.len() - i,
    {
        let c = compare_chars(a[i].as_slice(), b[i].as_slice());
        assert(av.skip(i as int)[0] == a@[i as int]@);
        assert(bv.skip(i as int)[0] == b@[i as int]@);
        if c != Rel::Equal {
            return c;
        }
        assert(av.skip(i as int).drop_first() =~= av.skip(i + 1));
        assert(bv.skip(i as int).drop_first() =~= bv.skip(i + 1));
        i += 1;
    }
    if i == a.len() && i == b.len() {
        assert(av.skip(i as int).len() == 0 && bv.skip(i as int).len() == 0);
        Rel::Equal
    } else if i == a.len() {
        Rel::Less
    } else {
        Rel::Greater
    }
}

/// Whether `a` sorts after `b`.
fn target_after(a: &TrashTarget, b: &TrashTarget) -> (r: bool)
    ensures
        r == sorts_after(*a, *b),
{
    let ac = crate::text::chars_of(a.path.as_str());
    let bc = crate::text::chars_of(b.path.as_str());
    let ca = components_of(ac.as_slice());
    let cb = components_of(bc.as_slice());
    assert(views(ca@).len() == ca@.len());
    assert(views(cb@).len() == cb@.len());
    if ca.len() != cb.len() {
        return ca.len() > cb.len();
    }
    component_list_order(&ca, &cb) == Rel::Greater
}

proof fn lemma_insert_target_at(sorted: Seq<TrashTarget>, x: TrashTarget, k: int)
    requires
        0 <= k <= sorted.len(),
        forall|j: int| 0 <= j < k ==> !sorts_after(#[trigger] sorted[j], x),
        k < sorted.len() ==> sorts_after(sorted[k], x),
    ensures
        insert_target(sorted, x) == sorted.insert(k, x),
    decreases sorted.len(),
{
    if sorted.len() == 0 {
        assert(sorted.insert(k, x) =~= seq![x]);
    } else if k == 0 {
        assert(sorted.insert(0, x) =~= seq![x] + sorted);
    } else {
        let rest = sorted.drop_first();
        assert forall|j: int| 0 <= j < k - 1 implies !sorts_after(#[trigger] rest[j], x) by {
            assert(rest[j] == sorted[j + 1]);
        }
        lemma_insert_target_at(rest, x, k - 1);
        assert(sorted.insert(k, x) =~= seq![sorted[0]] + rest.insert(k - 1, x));
    }
}

fn is_covered(kept: &Vec<TrashTarget>, t: &TrashTarget) -> (r: bool)
    ensures
        r == covered(kept@, *t),
{
    let mut i: usize = 0;
    while i < kept.len()
        invariant
            0 <= i <= kept@.len(),
            forall|j: int|
                0 <= j < i ==> !((#[trigger] kept@[j]).kind == StorageNodeKind::Directory
                    && !same_path(t.path@, kept@[j].path@) && path_starts_with(t.path@, kept@[j].path@)
                    || same_path(kept@[j].path@, t.path@)),
        decreases kept@.len() - i,
    {
        let k = &kept[i];
        let hit = (k.kind == StorageNodeKind::Directory && !paths_equal(t.path.as_str(), k.path.as_str())
            && path_has_prefix(t.path.as_str(), k.path.as_str())) || paths_equal(k.path.as_str(), t.path.as_str());
        if hit {
            return true;
        }
        i += 1;
    }
    false
}

/// The selection to move (see `spec_normalize_targets`).
pub fn normalize_targets(targets: &Vec<TrashTarget>) -> (r: Vec<TrashTarget>)
    ensures
        r@ == spec_normalize_targets(targets@),
{
    let mut sorted: Vec<TrashTarget> = Vec::new();
    let mut i: usize = 0;
    while i < targets.len()
        invariant
            0 <= i <= targets@.len(),
            sorted@ == sorted_targets(targets@.take(i as int)),
        decreases targets@.len() - i,
    {
        let x = targets[i].duplicate();
        let mut k: usize = 0;
        while k < sorted.len() && !target_after(&sorted[k], &x)
            invariant
                0 <= k <= sorted@.len(),
                forall|j: int| 0 <= j < k ==> !sorts_after(#[trigger] sorted@[j], x),
            decreases sorted@.len() - k,
        {
            k += 1;
        }
        proof {
            lemma_insert_target_at(sorted@, x, k as int);
            assert(targets@.take(i + 1).drop_last() =~= targets@.take(i as int));
            assert(targets@.take(i + 1).last() == x);
        }
        sorted.insert(k, x);
        i += 1;
    }
    assert(targets@.take(targets@.len() as int) =~= targets@);
    let ghost sv = sorted@;
    let mut kept: Vec<TrashTarget> = Vec::new();
    let mut j: usize = 0;
    while j < sorted.len()
        invariant
            0 <= j <= sorted@.len(),
            sorted@ == sv,
            kept@ == kept_targets(sv.take(j as int)),
        decreases sorted@.len() - j,
    {
        assert(sv.take(j + 1).drop_last() =~= sv.take(j as int));
        assert(sv.take(j + 1).last() == sv[j as int]);
        if !is_covered(&kept, &sorted[j]) {
            kept.push(sorted[j].duplicate());
        }
        j += 1;
    }
    assert(sv.take(sv.len() as int) =~= sv);
    kept
}

/// What the file system reports about a selected item right before it is
/// moved.
pub struct TargetFacts {
    /// The analyzed folder, resolved again.
    pub canonical_root: Result<String, String>,
    /// The item, resolved again.
    pub canonical_target: Result<String, String>,
    /// The item's metadata, read without following a final link.
    pub metadata: Result<TargetMetadata, String>,
}

#[derive(Clone, Copy, Debug)]
pub struct TargetMetadata {
    pub is_symlink: bool,
    pub is_dir: bool,
    pub uid: u32,
    pub device: u64,
    pub inode: u64,
}

/// Why a selected item may not be moved, if so: the scan root, paths
/// outside it, the filesystem root, home and its ancestors are protected;
/// the root and the item must resolve to themselves; the item must not be a
/// link, must belong to `uid`, and must be the very file or directory the
/// analysis saw.
pub open spec fn spec_trash_refusal(
    scan_root: Seq<char>,
    target: TrashTarget,
    home: Option<Seq<char>>,
    uid: u32,
    canonical_root: Result<Seq<char>, Seq<char>>,
    canonical_target: Result<Seq<char>, Seq<char>>,
    metadata: Result<TargetMetadata, Seq<char>>,
) -> Option<Seq<char>> {
    let p = target.path@;
    if same_path(p, scan_root) || !path_starts_with(p, scan_root) {
        Some("The scan root itself and paths outside it are protected"@)
    } else if same_path(p, "/"@) {
        Some("The filesystem root is protected"@)
    } else if home is Some && (same_path(p, home->0) || path_starts_with(home->0, p)) {
        Some("The home directory and its ancestors are protected"@)
    } else {
        match canonical_root {
            Err(e) => Some("Could not re-check the analyzed folder: "@ + e),
            Ok(cr) => if !same_path(cr, scan_root) {
                Some("The analyzed folder changed after the scan; scan again first"@)
            } else {
                match canonical_target {
                    Err(e) => Some("Could not re-check the selected item: "@ + e),
                    Ok(ct) => if !same_path(ct, p) || !path_starts_with(ct, cr) {
                        Some("The selected path changed after the scan; scan again first"@)
                    } else {
                        match metadata {
                            Err(e) => Some("Could not re-check the selected item: "@ + e),
                            Ok(md) => if md.is_symlink {
                                Some("Symbolic links cannot be moved by the analyzer"@)
                            } else if md.uid != uid {
                                Some("The selected item is not owned by the current user"@)
                            } else if md.device != target.device || md.inode != target.inode {
                                Some("The selected item changed after the scan; scan again first"@)
                            } else if md.is_dir != (target.kind == StorageNodeKind::Directory) {
                                Some("The selected item type changed after the scan"@)
                            } else {
                                None
                            },
                        }
                    },
                }
            },
        }
    }
}

pub open spec fn text_result(r: Result<String, String>) -> Result<Seq<char>, Seq<char>> {
    match r {
        Ok(s) => Ok(s@),
        Err(e) => Err(e@),
    }
}

pub open spec fn metadata_result(r: Result<TargetMetadata, String>) -> Result<TargetMetadata, Seq<char>> {
    match r {
        Ok(m) => Ok(m),
        Err(e) => Err(e@),
    }
}

/// Checks a selected item right before it is moved (see
/// `spec_trash_refusal`).
pub fn validate_trash_target(
    scan_root: &str,
    target: &TrashTarget,
    home: Option<&str>,
    uid: u32,
    facts: &TargetFacts,
) -> (r: Result<(), String>)
    ensures
        match spec_trash_refusal(
            scan_root@,
            *target,
            crate::security::opt_view(home),
            uid,
            text_result(facts.canonical_root),
            text_result(facts.canonical_target),
            metadata_result(facts.metadata),
        ) {
            Some(reason) => r matches Err(e) && e@ == reason,
            None => r is Ok,
        },
{
    let p = target.path.as_str();
    if paths_equal(p, scan_root) || !path_has_prefix(p, scan_root) {
        return Err(owned("The scan root itself and paths outside it are protected"));
    }
    if paths_equal(p, "/") {
        return Err(owned("The filesystem root is protected"));
    }
    if let Some(h) = home {
        if paths_equal(p, h) || path_has_prefix(h, p) {
            return Err(owned("The home directory and its ancestors are protected"));
        }
    }
    let cr = match &facts.canonical_root {
        Err(e) => {
            return Err(crate::text::concat("Could not re-check the analyzed folder: ", e.as_str()));
        },
        Ok(c) => c,
    };
    if !paths_equal(cr.as_str(), scan_root) {
        return Err(owned("The analyzed folder changed after the scan; scan again first"));
    }
    let ct = match &facts.canonical_target {
        Err(e) => {
            return Err(crate::text::concat("Could not re-check the selected item: ", e.as_str()));
        },
        Ok(c) => c,
    };
    if !paths_equal(ct.as_str(), p) || !path_has_prefix(ct.as_str(), cr.as_str()) {
        return Err(owned("The selected path changed after the scan; scan again first"));
    }
    let md = match &facts.metadata {
        Err(e) => {
            return Err(crate::text::concat("Could not re-check the selected item: ", e.as_str()));
        },
        Ok(m) => *m,
    };
    if md.is_symlink {
        return Err(owned("Symbolic links cannot be moved by the analyzer"));
    }
    if md.uid != uid {
        return Err(owned("The selected item is not owned by the current user"));
    }
    if md.device != target.device || md.inode != target.inode {
        return Err(owned("The selected item changed after the scan; scan again first"));
    }
    if md.is_dir != (target.kind == StorageNodeKind::Directory) {
        return Err(owned("The selected item type changed after the scan"));
    }
    Ok(())
}

/// A label cut to at most `maximum` characters: longer labels keep their
/// first `maximum - 1` characters and end in an ellipsis.
pub open spec fn spec_truncate(label: Seq<char>, maximum: nat) -> Seq<char> {
    if label.len() <= maximum {
        label
    } else {
        label.take(if maximum >= 1 {
            maximum - 1
        } else {
            0
        }) + seq!['…']
    }
}

pub fn truncate_to(label: &str, maximum: usize) -> (r: String)
    ensures
        r@ == spec_truncate(label@, maximum as nat),
{
    let lc = crate::text::chars_of(label);
    if lc.len() <= maximum {
        return owned(label);
    }
    let take = if maximum >= 1 {
        maximum - 1
    } else {
        0
    };
    let mut out = crate::text::sub_chars(lc.as_slice(), 0, take);
    out.push('…');
    assert(out@ =~= label@.take(take as int) + seq!['…']);
    crate::outside::string_from_chars(out.as_slice())
}

} // verus!
