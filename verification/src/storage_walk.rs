//! Building the storage analysis from a directory walk.
//!
//! The walk itself (reading directories and metadata) is the caller's: it
//! hands over each entry, contents before the directory holding them, and
//! this fold turns the stream into the tree of large items. Each directory
//! gathers the size of everything below it; only items of at least the
//! minimum size are kept as children, largest first.
use vstd::prelude::*;
use crate::analyzer::{allocated_size, StorageAnalysis, StorageNode, StorageNodeKind, StorageScanOptions};
use crate::paths::{components, components_of, paths_equal, same_path};
use crate::split::views;
use crate::strings::strs;
use crate::text::{concat, owned};

verus! {

/// Why an analysis produced no tree.
#[derive(Debug)]
pub enum StorageAnalysisError {
    /// The scan was cancelled.
    Cancelled,
    /// The location is not a local directory.
    InvalidRoot(String),
    /// The location could not be inspected: the path and the reason.
    Io { path: String, source: String },
}

impl StorageAnalysisError {
    /// The message shown for the error.
    pub open spec fn message_text(&self) -> Seq<char> {
        match self {
            StorageAnalysisError::Cancelled => "The storage scan was cancelled"@,
            StorageAnalysisError::InvalidRoot(p) => "The selected location is not a local directory: "@ + p@,
            StorageAnalysisError::Io { path, source } => "Could not inspect "@ + path@ + ": "@ + source@,
        }
    }

    /// The message shown for the error.
    pub fn message(&self) -> (r: String)
        ensures
            r@ == self.message_text(),
    {
        match self {
            StorageAnalysisError::Cancelled => owned("The storage scan was cancelled"),
            StorageAnalysisError::InvalidRoot(p) => concat("The selected location is not a local directory: ", p.as_str()),
            StorageAnalysisError::Io { path, source } => {
                let a = concat("Could not inspect ", path.as_str());
                let b = concat(a.as_str(), ": ");
                concat(b.as_str(), source.as_str())
            },
        }
    }
}

/// One entry of the walk, as read from the file system.
pub enum WalkEntry {
    /// The walk could not produce an entry: the error's text.
    Unreadable(String),
    /// The entry's metadata could not be read.
    NoMetadata { path: String, error: String },
    /// A symbolic link: never followed, never counted.
    Symlink,
    /// A regular file.
    File { path: String, blocks: u64, len: u64, links: u64, device: u64, inode: u64, modified: Option<i64> },
    /// A directory, after everything below it.
    Directory { path: String, blocks: u64, len: u64, device: u64, inode: u64, modified: Option<i64> },
    /// Anything else (sockets, devices, pipes): ignored.
    Other,
}

/// The size gathered so far for one directory, and its large children.
#[derive(Debug)]
pub struct DirAccumulator {
    /// The directory, as its list of path components.
    pub dir: Vec<Vec<char>>,
    pub size: u64,
    pub children: Vec<StorageNode>,
}

/// The state of an analysis in progress.
#[derive(Debug)]
pub struct StorageWalk {
    pub root: String,
    pub options: StorageScanOptions,
    pub accumulators: Vec<DirAccumulator>,
    /// (device, inode) of every multiply-linked file counted so far.
    pub hard_links: Vec<(u64, u64)>,
    pub skipped: Vec<String>,
    pub files_scanned: usize,
    pub directories_scanned: usize,
    pub root_node: Option<StorageNode>,
}

/// At most this many problems are recorded.
pub const MAX_SKIPPED: usize = 100;

pub open spec fn sat_add(a: u64, b: u64) -> u64 {
    if a + b > u64::MAX {
        u64::MAX
    } else {
        (a + b) as u64
    }
}

/// The components of the parent directory, as `Path::parent` has it: none
/// for an empty path or the root.
pub open spec fn parent_key(cs: Seq<Seq<char>>) -> Option<Seq<Seq<char>>> {
    if cs.len() == 0 || (cs.len() == 1 && cs[0] == seq!['/']) {
        None
    } else {
        Some(cs.drop_last())
    }
}

/// The first accumulator for the directory `key`.
pub open spec fn acc_index(accs: Seq<DirAccumulator>, key: Seq<Seq<char>>) -> Option<int>
    decreases accs.len(),
{
    if accs.len() == 0 {
        None
    } else {
        match acc_index(accs.drop_last(), key) {
            Some(i) => Some(i),
            None => if views(accs.last().dir@) == key {
                Some(accs.len() - 1)
            } else {
                None
            },
        }
    }
}

/// The accumulators after `size` (and, if given, the child) was added to the
/// directory `key`, which gets an accumulator of its own if it had none.
pub open spec fn add_to(accs: Seq<DirAccumulator>, key: Seq<Seq<char>>, size: u64, child: Option<StorageNode>) -> Seq<(Seq<Seq<char>>, u64, Seq<StorageNode>)>
{
    let model = acc_models(accs);
    let extra = match child {
        Some(c) => seq![c],
        None => Seq::<StorageNode>::empty(),
    };
    match acc_index(accs, key) {
        Some(i) => model.update(i, (model[i].0, sat_add(model[i].1, size), model[i].2 + extra)),
        None => model.push((key, size, extra)),
    }
}

/// The accumulators as plain values: directory, size, children.
pub open spec fn acc_models(accs: Seq<DirAccumulator>) -> Seq<(Seq<Seq<char>>, u64, Seq<StorageNode>)> {
    Seq::new(accs.len(), |i: int| (views(accs[i].dir@), accs[i].size, accs[i].children@))
}

/// Where a stable largest-first sort places `x` among the sorted `r`:
/// before the first item strictly smaller.
pub open spec fn size_pos(r: Seq<StorageNode>, x: StorageNode, i: nat) -> nat
    decreases r.len() - i,
{
    if i >= r.len() {
        r.len()
    } else if x.size > r[i as int].size {
        i
    } else {
        size_pos(r, x, i + 1)
    }
}

/// The items largest first; equal sizes keep their order.
pub open spec fn by_size_desc(s: Seq<StorageNode>) -> Seq<StorageNode>
    decreases s.len(),
{
    if s.len() == 0 {
        s
    } else {
        let r = by_size_desc(s.drop_last());
        r.insert(size_pos(r, s.last(), 0) as int, s.last())
    }
}

/// How many children a directory keeps: the configured number, at least one.
pub open spec fn child_limit(options: StorageScanOptions) -> nat {
    if options.max_children_per_directory == 0 {
        1
    } else {
        options.max_children_per_directory as nat
    }
}

/// The children a directory ends with.
pub open spec fn kept_children(children: Seq<StorageNode>, options: StorageScanOptions) -> Seq<StorageNode> {
    let sorted = by_size_desc(children);
    if sorted.len() <= child_limit(options) {
        sorted
    } else {
        sorted.take(child_limit(options) as int)
    }
}

/// The skipped list after one more problem: recorded while fewer than
/// `MAX_SKIPPED` are.
pub open spec fn skipped_after(skipped: Seq<Seq<char>>, problem: Seq<char>) -> Seq<Seq<char>> {
    if skipped.len() < MAX_SKIPPED {
        skipped.push(problem)
    } else {
        skipped
    }
}

impl StorageWalk {
    /// Start an analysis of the canonical directory `root`; anything that is
    /// not a directory, or is a symbolic link, is refused.
    pub fn start(root: String, is_dir: bool, is_symlink: bool, options: StorageScanOptions) -> (r: Result<StorageWalk, StorageAnalysisError>)
        ensures
            (is_dir && !is_symlink) <==> r is Ok,
            r matches Err(e) ==> e matches StorageAnalysisError::InvalidRoot(p) && p@ == root@,
            r matches Ok(w) ==> w.root@ == root@ && w.options == options && w.accumulators@.len() == 0
                && w.hard_links@.len() == 0 && w.skipped@.len() == 0 && w.files_scanned == 0
                && w.directories_scanned == 0 && w.root_node is None,
    {
        if !is_dir || is_symlink {
            return Err(StorageAnalysisError::InvalidRoot(root));
        }
        Ok(
            StorageWalk {
                root,
                options,
                accumulators: Vec::new(),
                hard_links: Vec::new(),
                skipped: Vec::new(),
                files_scanned: 0,
                directories_scanned: 0,
                root_node: None,
            },
        )
    }

    fn skip(&mut self, problem: String)
        ensures
            strs(final(self).skipped@) == skipped_after(strs(old(self).skipped@), problem@),
            final(self).root == old(self).root,
            final(self).options == old(self).options,
            final(self).accumulators@ == old(self).accumulators@,
            final(self).hard_links@ == old(self).hard_links@,
            final(self).files_scanned == old(self).files_scanned,
            final(self).directories_scanned == old(self).directories_scanned,
            final(self).root_node == old(self).root_node,
    {
        if self.skipped.len() < MAX_SKIPPED {
            let ghost before = strs(self.skipped@);
            self.skipped.push(problem);
            assert(strs(self.skipped@) =~= before.push(problem@));
        }
    }

    fn seen_link(&self, id: (u64, u64)) -> (r: bool)
        ensures
            r == self.hard_links@.contains(id),
    {
        let mut i: usize = 0;
        while i < self.hard_links.len()
            invariant
                0 <= i <= self.hard_links@.len(),
                forall|j: int| 0 <= j < i ==> self.hard_links@[j] != id,
            decreases self.hard_links@.len() - i,
        {
            if self.hard_links[i].0 == id.0 && self.hard_links[i].1 == id.1 {
                assert(self.hard_links@[i as int] == id);
                return true;
            }
            i += 1;
        }
        false
    }

    fn find_acc(&self, key: &Vec<Vec<char>>) -> (r: Option<usize>)
        ensures
            r matches Some(i) ==> i < self.accumulators@.len(),
            match r {
                Some(i) => acc_index(self.accumulators@, views(key@)) == Some(i as int),
                None => acc_index(self.accumulators@, views(key@)) is None,
            },
    {
        let mut i: usize = 0;
        while i < self.accumulators.len()
            invariant
                0 <= i <= self.accumulators@.len(),
                acc_index(self.accumulators@.take(i as int), views(key@)) is None,
            decreases self.accumulators@.len() - i,
        {
            assert(self.accumulators@.take(i + 1).drop_last() =~= self.accumulators@.take(i as int));
            if same_components(&self.accumulators[i].dir, key) {
                proof {
                    lemma_acc_index_prefix(self.accumulators@, views(key@), i as int + 1);
                    lemma_acc_index_range(self.accumulators@, views(key@));
                }
                return Some(i);
            }
            i += 1;
        }
        assert(self.accumulators@.take(i as int) =~= self.accumulators@);
        None
    }
}

/// The space a file or directory takes (see `allocated_size`).
pub open spec fn alloc_size(blocks: u64, len: u64) -> u64 {
    if blocks * 512 > u64::MAX {
        u64::MAX
    } else if blocks * 512 > 0 {
        (blocks * 512) as u64
    } else {
        len
    }
}

pub open spec fn is_file_node(c: StorageNode, path: Seq<char>, size: u64, device: u64, inode: u64, modified: Option<i64>) -> bool {
    &&& c.path@ == path
    &&& c.kind == StorageNodeKind::File
    &&& c.size == size
    &&& c.device == device
    &&& c.inode == inode
    &&& c.modified == modified
    &&& c.children@.len() == 0
}

pub open spec fn is_dir_node(
    c: StorageNode,
    path: Seq<char>,
    size: u64,
    device: u64,
    inode: u64,
    modified: Option<i64>,
    children: Seq<StorageNode>,
) -> bool {
    &&& c.path@ == path
    &&& c.kind == StorageNodeKind::Directory
    &&& c.size == size
    &&& c.device == device
    &&& c.inode == inode
    &&& c.modified == modified
    &&& c.children@ == children
}

/// The child a directory receives for an item of `size`: the item, when it
/// reaches the minimum size.
pub open spec fn child_if_large(c: StorageNode, size: u64, options: StorageScanOptions) -> Option<StorageNode> {
    if size >= options.minimum_size {
        Some(c)
    } else {
        None
    }
}

/// What a directory entry does: its accumulator is taken out and turned
/// into its node (its own space added, children largest first, at most the
/// configured number); the root's node becomes the tree, any other's is
/// added to its parent.
pub open spec fn dir_visited(
    old: StorageWalk,
    new: StorageWalk,
    path: Seq<char>,
    own_size: u64,
    device: u64,
    inode: u64,
    modified: Option<i64>,
) -> bool {
    let key = components(path);
    let base = dir_base(old, key);
    let size = dir_size(old, key, own_size);
    let children = dir_children(old, key);
    &&& new.root == old.root
    &&& new.options == old.options
    &&& strs(new.skipped@) == strs(old.skipped@)
    &&& new.files_scanned == old.files_scanned
    &&& new.hard_links@ == old.hard_links@
    &&& new.directories_scanned == old.directories_scanned + 1
    &&& if same_path(path, old.root@) {
        &&& new.root_node matches Some(n) && is_dir_node(n, path, size, device, inode, modified, children)
        &&& acc_models(new.accumulators@) == acc_models(base)
    } else {
        &&& new.root_node == old.root_node
        &&& match parent_key(key) {
            None => acc_models(new.accumulators@) == acc_models(base),
            Some(pk) => exists|n: StorageNode|
                #![trigger is_dir_node(n, path, dir_size(old, key, own_size), device, inode, modified, dir_children(old, key))]
                is_dir_node(n, path, size, device, inode, modified, children) && acc_models(
                    new.accumulators@,
                ) == add_to(base, pk, size, child_if_large(n, size, old.options)),
        }
    }
}

/// The accumulators once the directory `key`'s own one is taken out.
pub open spec fn dir_base(old: StorageWalk, key: Seq<Seq<char>>) -> Seq<DirAccumulator> {
    match acc_index(old.accumulators@, key) {
        Some(i) => old.accumulators@.remove(i),
        None => old.accumulators@,
    }
}

/// The directory's size: what was gathered below it plus its own space.
pub open spec fn dir_size(old: StorageWalk, key: Seq<Seq<char>>, own_size: u64) -> u64 {
    match acc_index(old.accumulators@, key) {
        Some(i) => sat_add(old.accumulators@[i].size, own_size),
        None => own_size,
    }
}

/// The directory's children: its large items, largest first, at most the
/// configured number.
pub open spec fn dir_children(old: StorageWalk, key: Seq<Seq<char>>) -> Seq<StorageNode> {
    match acc_index(old.accumulators@, key) {
        Some(i) => kept_children(old.accumulators@[i].children@, old.options),
        None => Seq::<StorageNode>::empty(),
    }
}

/// What one entry of the walk does to the analysis. `cancelled` stops it.
pub open spec fn visited(
    old: StorageWalk,
    new: StorageWalk,
    cancelled: bool,
    entry: WalkEntry,
    r: Result<(), StorageAnalysisError>,
) -> bool {
    let frame = new.root == old.root && new.options == old.options;
    let unchanged_tree = acc_models(new.accumulators@) == acc_models(old.accumulators@)
        && new.root_node == old.root_node;
    let unchanged_counts = new.files_scanned == old.files_scanned && new.directories_scanned
        == old.directories_scanned && new.hard_links@ == old.hard_links@;
    if cancelled {
        r matches Err(e) && e is Cancelled && frame && unchanged_tree && unchanged_counts
            && strs(new.skipped@) == strs(old.skipped@)
    } else {
        &&& r is Ok
        &&& frame
        &&& match entry {
            WalkEntry::Unreadable(e) => unchanged_tree && unchanged_counts && strs(new.skipped@)
                == skipped_after(strs(old.skipped@), e@),
            WalkEntry::NoMetadata { path, error } => unchanged_tree && unchanged_counts && strs(
                new.skipped@,
            ) == skipped_after(strs(old.skipped@), path@ + ": "@ + error@),
            WalkEntry::File { path, blocks, len, links, device, inode, modified } => {
                let id = (device, inode);
                let size = alloc_size(blocks, len);
                &&& strs(new.skipped@) == strs(old.skipped@)
                &&& new.directories_scanned == old.directories_scanned
                &&& new.root_node == old.root_node
                &&& if links > 1 && old.hard_links@.contains(id) {
                    unchanged_tree && unchanged_counts
                } else {
                    &&& new.hard_links@ == (if links > 1 {
                        old.hard_links@.push(id)
                    } else {
                        old.hard_links@
                    })
                    &&& new.files_scanned == old.files_scanned + 1
                    &&& match parent_key(components(path@)) {
                        None => acc_models(new.accumulators@) == acc_models(old.accumulators@),
                        Some(pk) => exists|c: StorageNode|
                            is_file_node(c, path@, size, device, inode, modified) && acc_models(
                                new.accumulators@,
                            ) == add_to(old.accumulators@, pk, size, child_if_large(c, size, old.options)),
                    }
                }
            },
            WalkEntry::Directory { path, blocks, len, device, inode, modified } => dir_visited(
                old,
                new,
                path@,
                alloc_size(blocks, len),
                device,
                inode,
                modified,
            ),
            _ => unchanged_tree && unchanged_counts && strs(new.skipped@) == strs(old.skipped@),
        }
    }
}

proof fn lemma_size_pos(r: Seq<StorageNode>, x: StorageNode, i: nat)
    requires
        i <= r.len(),
    ensures
        i <= size_pos(r, x, i) <= r.len(),
    decreases r.len() - i,
{
    if i < r.len() && !(x.size > r[i as int].size) {
        lemma_size_pos(r, x, i + 1);
    }
}

/// Sorts items largest first, keeping the order of equal sizes.
fn sort_by_size(items: Vec<StorageNode>) -> (r: Vec<StorageNode>)
    ensures
        r@ == by_size_desc(items@),
{
    let ghost orig = items@;
    let mut rest = items;
    let mut sorted: Vec<StorageNode> = Vec::new();
    let mut i: usize = 0;
    let n = rest.len();
    while rest.len() > 0
        invariant
            n == orig.len(),
            i + rest@.len() == n,
            rest@ == orig.skip(i as int),
            sorted@ == by_size_desc(orig.take(i as int)),
        decreases rest@.len(),
    {
        let x = rest.remove(0);
        assert(orig.take(i + 1).drop_last() =~= orig.take(i as int));
        assert(orig.take(i + 1).last() == x);
        let mut p: usize = 0;
        while p < sorted.len() && !(x.size > sorted[p].size)
            invariant
                0 <= p <= sorted@.len(),
                size_pos(sorted@, x, 0) == size_pos(sorted@, x, p as nat),
            decreases sorted@.len() - p,
        {
            p += 1;
        }
        proof {
            lemma_size_pos(sorted@, x, p as nat);
        }
        sorted.insert(p, x);
        i += 1;
        assert(rest@ =~= orig.skip(i as int));
    }
    assert(orig.take(n as int) =~= orig);
    sorted
}

impl StorageWalk {
    /// Adds `size`, and the child if any, to the directory `key`.
    fn add_to_dir(&mut self, key: Vec<Vec<char>>, size: u64, child: Option<StorageNode>)
        ensures
            acc_models(final(self).accumulators@) == add_to(old(self).accumulators@, views(key@), size, child),
            final(self).root == old(self).root,
            final(self).options == old(self).options,
            final(self).hard_links@ == old(self).hard_links@,
            final(self).skipped@ == old(self).skipped@,
            final(self).files_scanned == old(self).files_scanned,
            final(self).directories_scanned == old(self).directories_scanned,
            final(self).root_node == old(self).root_node,
    {
        let ghost before = self.accumulators@;
        proof {
            lemma_acc_index_range(before, views(key@));
        }
        match self.find_acc(&key) {
            Some(i) => {
                let mut acc = self.accumulators.remove(i);
                let ghost old_children = acc.children@;
                acc.size = acc.size.saturating_add(size);
                match child {
                    Some(c) => {
                        acc.children.push(c);
                        assert(acc.children@ =~= old_children + seq![c]);
                    },
                    None => {
                        assert(acc.children@ =~= old_children + Seq::<StorageNode>::empty());
                    },
                }
                let ghost new_acc = (views(acc.dir@), acc.size, acc.children@);
                self.accumulators.insert(i, acc);
                proof {
                    let m = acc_models(before);
                    assert(acc_models(self.accumulators@)[i as int] == new_acc);
                    assert(new_acc.0 == m[i as int].0);
                    assert(self.accumulators@ =~= before.update(i as int, self.accumulators@[i as int]));
                    assert(acc_models(self.accumulators@) =~= add_to(before, views(key@), size, child));
                }
            },
            None => {
                let mut children: Vec<StorageNode> = Vec::new();
                match child {
                    Some(c) => {
                        children.push(c);
                        assert(children@ =~= seq![c]);
                    },
                    None => {
                        assert(children@ =~= Seq::<StorageNode>::empty());
                    },
                }
                self.accumulators.push(DirAccumulator { dir: key, size, children });
                proof {
                    assert(acc_models(self.accumulators@) =~= add_to(before, views(key@), size, child));
                }
            },
        }
    }

    /// Removes and returns the accumulator of the directory `key`, if any.
    fn take_acc(&mut self, key: &Vec<Vec<char>>) -> (r: Option<DirAccumulator>)
        ensures
            match acc_index(old(self).accumulators@, views(key@)) {
                Some(i) => r == Some(old(self).accumulators@[i]) && final(self).accumulators@
                    == old(self).accumulators@.remove(i),
                None => r is None && final(self).accumulators@ == old(self).accumulators@,
            },
            final(self).root == old(self).root,
            final(self).options == old(self).options,
            final(self).hard_links@ == old(self).hard_links@,
            final(self).skipped@ == old(self).skipped@,
            final(self).files_scanned == old(self).files_scanned,
            final(self).directories_scanned == old(self).directories_scanned,
            final(self).root_node == old(self).root_node,
    {
        proof {
            lemma_acc_index_range(self.accumulators@, views(key@));
        }
        match self.find_acc(key) {
            Some(i) => Some(self.accumulators.remove(i)),
            None => None,
        }
    }
}

fn parent_of(key: &mut Vec<Vec<char>>) -> (r: bool)
    ensures
        r <==> parent_key(views(old(key)@)) is Some,
        r ==> views(final(key)@) == parent_key(views(old(key)@))->0,
{
    let no_parent = key.len() == 0 || (key.len() == 1 && key[0].len() == 1 && key[0][0] == '/');
    proof {
        if key@.len() == 1 {
            if key@[0]@.len() == 1 && key@[0]@[0] == '/' {
                assert(views(key@)[0] =~= seq!['/']);
            } else {
                assert(views(key@)[0] != seq!['/']) by {
                    if views(key@)[0] == seq!['/'] {
                        assert(key@[0]@.len() == 1);
                    }
                }
            }
        }
    }
    if no_parent {
        return false;
    }
    let ghost before = views(key@);
    key.pop();
    assert(views(key@) =~= before.drop_last());
    true
}

impl StorageWalk {
    /// Takes in one entry of the walk (see `visited`); a cancelled analysis
    /// stops with `Cancelled`.
    #[verifier::spinoff_prover]
    #[verifier::rlimit(40)]
    pub fn visit(&mut self, cancelled: bool, entry: WalkEntry) -> (r: Result<(), StorageAnalysisError>)
        requires
            old(self).files_scanned < usize::MAX,
            old(self).directories_scanned < usize::MAX,
        ensures
            visited(*old(self), *final(self), cancelled, entry, r),
    {
        if cancelled {
            return Err(StorageAnalysisError::Cancelled);
        }
        match entry {
            WalkEntry::Unreadable(e) => {
                self.skip(e);
                Ok(())
            },
            WalkEntry::NoMetadata { path, error } => {
                let a = concat(path.as_str(), ": ");
                let m = concat(a.as_str(), error.as_str());
                self.skip(m);
                Ok(())
            },
            WalkEntry::File { path, blocks, len, links, device, inode, modified } => {
                let id = (device, inode);
                if links > 1 && self.seen_link(id) {
                    return Ok(());
                }
                if links > 1 {
                    self.hard_links.push(id);
                }
                self.files_scanned = self.files_scanned + 1;
                let size = allocated_size(blocks, len);
                let pc = crate::text::chars_of(path.as_str());
                let mut key = components_of(pc.as_slice());
                let node = StorageNode {
                    path,
                    kind: StorageNodeKind::File,
                    size,
                    modified,
                    device,
                    inode,
                    children: Vec::new(),
                };
                let ghost n = node;
                assert(is_file_node(n, pc@, size, device, inode, modified));
                if !parent_of(&mut key) {
                    return Ok(());
                }
                let child = if size >= self.options.minimum_size {
                    Some(node)
                } else {
                    None
                };
                assert(child == child_if_large(n, size, self.options));
                self.add_to_dir(key, size, child);
                Ok(())
            },
            WalkEntry::Directory { path, blocks, len, device, inode, modified } => {
                let ghost before = *self;
                self.directories_scanned = self.directories_scanned + 1;
                let pc = crate::text::chars_of(path.as_str());
                let ghost path_v = path@;
                let mut key = components_of(pc.as_slice());
                let ghost key_v = views(key@);
                let own = allocated_size(blocks, len);
                let acc = self.take_acc(&key);
                let (size0, children0) = match acc {
                    Some(a) => (a.size, a.children),
                    None => (0u64, Vec::new()),
                };
                let size = size0.saturating_add(own);
                assert(size == dir_size(before, key_v, own));
                assert(self.accumulators@ == dir_base(before, key_v));
                let mut children = sort_by_size(children0);
                let limit: usize = if self.options.max_children_per_directory == 0 {
                    1
                } else {
                    self.options.max_children_per_directory
                };
                children.truncate(limit);
                assert(limit == child_limit(self.options));
                assert(children@ =~= dir_children(before, key_v));
                let node = StorageNode {
                    path,
                    kind: StorageNodeKind::Directory,
                    size,
                    modified,
                    device,
                    inode,
                    children,
                };
                let ghost n = node;
                assert(is_dir_node(n, path_v, dir_size(before, key_v, own), device, inode, modified, dir_children(before, key_v)));
                if paths_equal(node.path.as_str(), self.root.as_str()) {
                    self.root_node = Some(node);
                    assert(dir_visited(before, *self, path_v, own, device, inode, modified));
                    return Ok(());
                }
                if !parent_of(&mut key) {
                    assert(dir_visited(before, *self, path_v, own, device, inode, modified));
                    return Ok(());
                }
                let child = if size >= self.options.minimum_size {
                    Some(node)
                } else {
                    None
                };
                assert(child == child_if_large(n, size, self.options));
                self.add_to_dir(key, size, child);
                assert(dir_visited(before, *self, path_v, own, device, inode, modified));
                Ok(())
            },
            _ => Ok(()),
        }
    }

    /// The finished analysis: the root directory's tree with the counts and
    /// the recorded problems; a walk that never reached the root directory
    /// has no tree.
    pub fn finish(self) -> (r: Result<StorageAnalysis, StorageAnalysisError>)
        ensures
            match self.root_node {
                Some(n) => r matches Ok(a) && a.root == n && a.files_scanned == self.files_scanned
                    && a.directories_scanned == self.directories_scanned && strs(a.skipped@) == strs(
                    self.skipped@,
                ),
                None => r matches Err(e) && e matches StorageAnalysisError::InvalidRoot(p) && p@
                    == self.root@,
            },
    {
        match self.root_node {
            Some(root) => Ok(
                StorageAnalysis {
                    root,
                    files_scanned: self.files_scanned,
                    directories_scanned: self.directories_scanned,
                    skipped: self.skipped,
                },
            ),
            None => Err(StorageAnalysisError::InvalidRoot(self.root)),
        }
    }
}

proof fn lemma_acc_index_range(accs: Seq<DirAccumulator>, key: Seq<Seq<char>>)
    ensures
        acc_index(accs, key) matches Some(i) ==> 0 <= i < accs.len() && views(accs[i].dir@) == key,
    decreases accs.len(),
{
    if accs.len() > 0 {
        lemma_acc_index_range(accs.drop_last(), key);
    }
}

proof fn lemma_acc_index_prefix(accs: Seq<DirAccumulator>, key: Seq<Seq<char>>, n: int)
    requires
        0 <= n <= accs.len(),
        acc_index(accs.take(n), key) is Some,
    ensures
        acc_index(accs, key) == acc_index(accs.take(n), key),
    decreases accs.len() - n,
{
    if n < accs.len() {
        assert(accs.take(n + 1).drop_last() =~= accs.take(n));
        lemma_acc_index_prefix(accs, key, n + 1);
    } else {
        assert(accs.take(n) =~= accs);
    }
}

fn same_components(a: &Vec<Vec<char>>, b: &Vec<Vec<char>>) -> (r: bool)
    ensures
        r == (views(a@) == views(b@)),
{
    if a.len() != b.len() {
        proof {
            if views(a@) == views(b@) {
                assert(views(a@).len() == views(b@).len());
            }
        }
        return false;
    }
    let mut i: usize = 0;
    while i < a.len()
        invariant
            a@.len() == b@.len(),
            0 <= i <= a@.len(),
            forall|j: int| 0 <= j < i ==> a@[j]@ == b@[j]@,
        decreases a@.len() - i,
    {
        if !crate::text::chars_equal(a[i].as_slice(), b[i].as_slice()) {
            proof {
                if views(a@) == views(b@) {
                    assert(views(a@)[i as int] == views(b@)[i as int]);
                }
            }
            return false;
        }
        i += 1;
    }
    assert(views(a@) =~= views(b@));
    true
}


/// Largest first.
pub open spec fn largest_first(s: Seq<StorageNode>) -> bool {
    forall|i: int, j: int| 0 <= i < j < s.len() ==> (#[trigger] s[i]).size >= (#[trigger] s[j]).size
}

proof fn lemma_by_size_desc(s: Seq<StorageNode>)
    ensures
        by_size_desc(s).to_multiset() == s.to_multiset(),
        by_size_desc(s).len() == s.len(),
        largest_first(by_size_desc(s)),
    decreases s.len(),
{
    broadcast use vstd::multiset::group_multiset_axioms;
    broadcast use vstd::seq_lib::group_seq_properties;
    if s.len() > 0 {
        let r = by_size_desc(s.drop_last());
        let x = s.last();
        lemma_by_size_desc(s.drop_last());
        lemma_size_pos_facts(r, x, 0);
        let p = size_pos(r, x, 0) as int;
        let out = r.insert(p, x);
        assert(s.drop_last().push(x) =~= s);
        assert forall|i: int, j: int| 0 <= i < j < out.len() implies (#[trigger] out[i]).size >= (#[trigger] out[j]).size by {
            if j == p {
                assert(out[i] == r[i]);
            } else if i == p {
                assert(out[j] == r[j - 1]);
                if j - 1 > p {
                    assert(r[p].size >= r[j - 1].size);
                }
            } else {
                let a = if i < p { i } else { i - 1 };
                let b = if j < p { j } else { j - 1 };
                assert(out[i] == r[a]);
                assert(out[j] == r[b]);
            }
        }
    } else {
        assert(s.to_multiset() =~= vstd::multiset::Multiset::empty());
    }
}

proof fn lemma_size_pos_facts(r: Seq<StorageNode>, x: StorageNode, i: nat)
    requires
        i <= r.len(),
        forall|q: int| 0 <= q < i ==> !(x.size > (#[trigger] r[q]).size),
    ensures
        size_pos(r, x, i) <= r.len(),
        forall|q: int| 0 <= q < size_pos(r, x, i) ==> !(x.size > (#[trigger] r[q]).size),
        size_pos(r, x, i) < r.len() ==> x.size > r[size_pos(r, x, i) as int].size,
    decreases r.len() - i,
{
    if i < r.len() && !(x.size > r[i as int].size) {
        lemma_size_pos_facts(r, x, i + 1);
    }
}

/// The children a directory keeps are its large items, largest first, and
/// no more than the configured number (at least one is allowed).
pub proof fn lemma_kept_children(children: Seq<StorageNode>, options: StorageScanOptions)
    ensures
        largest_first(kept_children(children, options)),
        kept_children(children, options).len() <= child_limit(options),
        kept_children(children, options).len() == if children.len() <= child_limit(options) {
            children.len()
        } else {
            child_limit(options)
        },
        forall|i: int| 0 <= i < kept_children(children, options).len() ==> children.contains(
            #[trigger] kept_children(children, options)[i],
        ),
{
    broadcast use vstd::multiset::group_multiset_axioms;
    broadcast use vstd::seq_lib::group_seq_properties;
    lemma_by_size_desc(children);
    let sorted = by_size_desc(children);
    let k = kept_children(children, options);
    assert forall|i: int| 0 <= i < k.len() implies children.contains(#[trigger] k[i]) by {
        assert(k[i] == sorted[i]);
        assert(sorted.contains(sorted[i]));
        assert(sorted.to_multiset().count(sorted[i]) > 0);
        assert(children.to_multiset().count(sorted[i]) > 0);
    }
    assert forall|i: int, j: int| 0 <= i < j < k.len() implies (#[trigger] k[i]).size >= (#[trigger] k[j]).size by {
        assert(k[i] == sorted[i] && k[j] == sorted[j]);
    }
}

} // verus!
