//! Laws of the storage walk: every directory has at most one accumulator,
//! every multiply-linked file is remembered once, and the files counted are
//! the singly-linked files seen plus the distinct multiply-linked ones.
use vstd::prelude::*;
use crate::storage_walk::{acc_index, acc_models, add_to, dir_base, visited, DirAccumulator, StorageWalk, WalkEntry};
use crate::split::views;
use crate::paths::{components, same_path};
use crate::storage_walk::parent_key;

verus! {

/// No two accumulators are for the same directory.
pub open spec fn keys_unique(m: Seq<(Seq<Seq<char>>, u64, Seq<crate::analyzer::StorageNode>)>) -> bool {
    forall|i: int, j: int| 0 <= i < j < m.len() ==> (#[trigger] m[i]).0 != (#[trigger] m[j]).0
}

/// No multiply-linked file is remembered twice.
pub open spec fn links_unique(s: Seq<(u64, u64)>) -> bool {
    forall|i: int, j: int| 0 <= i < j < s.len() ==> #[trigger] s[i] != #[trigger] s[j]
}

/// The walk's bookkeeping holds each directory and each linked file once.
pub open spec fn walk_unique(w: StorageWalk) -> bool {
    keys_unique(acc_models(w.accumulators@)) && links_unique(w.hard_links@)
}

proof fn lemma_acc_index_none(accs: Seq<DirAccumulator>, key: Seq<Seq<char>>)
    requires
        acc_index(accs, key) is None,
    ensures
        forall|i: int| 0 <= i < accs.len() ==> views(#[trigger] accs[i].dir@) != key,
    decreases accs.len(),
{
    if accs.len() > 0 {
        lemma_acc_index_none(accs.drop_last(), key);
        assert forall|i: int| 0 <= i < accs.len() implies views(#[trigger] accs[i].dir@) != key by {
            if i < accs.len() - 1 {
                assert(accs[i] == accs.drop_last()[i]);
            }
        }
    }
}

proof fn lemma_acc_index_some(accs: Seq<DirAccumulator>, key: Seq<Seq<char>>)
    ensures
        acc_index(accs, key) matches Some(i) ==> 0 <= i < accs.len() && views(accs[i].dir@) == key,
    decreases accs.len(),
{
    if accs.len() > 0 {
        lemma_acc_index_some(accs.drop_last(), key);
    }
}

/// Adding to a directory keeps one accumulator per directory.
proof fn lemma_add_to_unique(
    accs: Seq<DirAccumulator>,
    key: Seq<Seq<char>>,
    size: u64,
    child: Option<crate::analyzer::StorageNode>,
)
    requires
        keys_unique(acc_models(accs)),
    ensures
        keys_unique(add_to(accs, key, size, child)),
{
    let m = acc_models(accs);
    let r = add_to(accs, key, size, child);
    lemma_acc_index_some(accs, key);
    match acc_index(accs, key) {
        Some(k) => {
            assert forall|i: int, j: int| 0 <= i < j < r.len() implies (#[trigger] r[i]).0 != (#[trigger] r[j]).0 by {
                assert(r[i].0 == m[i].0 && r[j].0 == m[j].0);
            }
        },
        None => {
            lemma_acc_index_none(accs, key);
            assert forall|i: int, j: int| 0 <= i < j < r.len() implies (#[trigger] r[i]).0 != (#[trigger] r[j]).0 by {
                if j == m.len() {
                    assert(r[i].0 == views(accs[i].dir@));
                } else {
                    assert(r[i] == m[i] && r[j] == m[j]);
                }
            }
        },
    }
}

/// Taking a directory's accumulator out keeps one accumulator per directory.
proof fn lemma_base_unique(accs: Seq<DirAccumulator>, key: Seq<Seq<char>>)
    requires
        keys_unique(acc_models(accs)),
    ensures
        keys_unique(acc_models(match acc_index(accs, key) {
            Some(i) => accs.remove(i),
            None => accs,
        })),
{
    lemma_acc_index_some(accs, key);
    if let Some(k) = acc_index(accs, key) {
        let b = accs.remove(k);
        let m = acc_models(accs);
        let mb = acc_models(b);
        assert forall|i: int, j: int| 0 <= i < j < mb.len() implies (#[trigger] mb[i]).0 != (#[trigger] mb[j]).0 by {
            let i0 = if i < k { i } else { i + 1 };
            let j0 = if j < k { j } else { j + 1 };
            assert(mb[i] == m[i0] && mb[j] == m[j0]);
        }
    }
}

/// Every step of the walk keeps one accumulator per directory and each
/// multiply-linked file remembered once.
pub proof fn lemma_walk_stays_unique(
    old: StorageWalk,
    new: StorageWalk,
    cancelled: bool,
    entry: WalkEntry,
    r: Result<(), crate::storage_walk::StorageAnalysisError>,
)
    requires
        walk_unique(old),
        visited(old, new, cancelled, entry, r),
    ensures
        walk_unique(new),
{
    if !cancelled {
        match entry {
            WalkEntry::File { path, blocks, len, links, device, inode, modified } => {
                let id = (device, inode);
                if !(links > 1 && old.hard_links@.contains(id)) {
                    if links > 1 {
                        let h = old.hard_links@.push(id);
                        assert forall|i: int, j: int| 0 <= i < j < h.len() implies #[trigger] h[i] != #[trigger] h[j] by {
                            if j == old.hard_links@.len() && h[i] == h[j] {
                                assert(old.hard_links@[i] == id);
                            }
                        }
                    }
                    if let Some(pk) = parent_key(components(path@)) {
                        let c = choose|c: crate::analyzer::StorageNode|
                            crate::storage_walk::is_file_node(
                                c,
                                path@,
                                crate::storage_walk::alloc_size(blocks, len),
                                device,
                                inode,
                                modified,
                            ) && acc_models(new.accumulators@) == add_to(
                                old.accumulators@,
                                pk,
                                crate::storage_walk::alloc_size(blocks, len),
                                crate::storage_walk::child_if_large(
                                    c,
                                    crate::storage_walk::alloc_size(blocks, len),
                                    old.options,
                                ),
                            );
                        lemma_add_to_unique(
                            old.accumulators@,
                            pk,
                            crate::storage_walk::alloc_size(blocks, len),
                            crate::storage_walk::child_if_large(
                                c,
                                crate::storage_walk::alloc_size(blocks, len),
                                old.options,
                            ),
                        );
                    }
                }
            },
            WalkEntry::Directory { path, blocks, len, device, inode, modified } => {
                let key = components(path@);
                let base = dir_base(old, key);
                lemma_base_unique(old.accumulators@, key);
                if !same_path(path@, old.root@) {
                    if let Some(pk) = parent_key(key) {
                        let own = crate::storage_walk::alloc_size(blocks, len);
                        let size = crate::storage_walk::dir_size(old, key, own);
                        let n = choose|n: crate::analyzer::StorageNode|
                            #![trigger crate::storage_walk::is_dir_node(n, path@, crate::storage_walk::dir_size(old, key, own), device, inode, modified, crate::storage_walk::dir_children(old, key))]
                            crate::storage_walk::is_dir_node(
                                n,
                                path@,
                                size,
                                device,
                                inode,
                                modified,
                                crate::storage_walk::dir_children(old, key),
                            ) && acc_models(new.accumulators@) == add_to(
                                base,
                                pk,
                                size,
                                crate::storage_walk::child_if_large(n, size, old.options),
                            );
                        lemma_add_to_unique(base, pk, size, crate::storage_walk::child_if_large(n, size, old.options));
                    }
                }
            },
            _ => {},
        }
    }
}

// ---------------------------------------------------------------------------
// Counting files
// ---------------------------------------------------------------------------
/// How many singly-linked files are among `es`.
pub open spec fn single_files(es: Seq<WalkEntry>) -> nat
    decreases es.len(),
{
    if es.len() == 0 {
        0
    } else {
        single_files(es.drop_last()) + match es.last() {
            WalkEntry::File { links, .. } => if links <= 1 {
                1nat
            } else {
                0nat
            },
            _ => 0nat,
        }
    }
}

/// The (device, inode) of the multiply-linked files among `es`, each once,
/// in the order first seen.
pub open spec fn linked_ids(es: Seq<WalkEntry>) -> Seq<(u64, u64)>
    decreases es.len(),
{
    if es.len() == 0 {
        Seq::empty()
    } else {
        let before = linked_ids(es.drop_last());
        match es.last() {
            WalkEntry::File { links, device, inode, .. } => if links > 1 && !before.contains((device, inode)) {
                before.push((device, inode))
            } else {
                before
            },
            _ => before,
        }
    }
}

/// A walk that was not cancelled counts each singly-linked file it met, and
/// each multiply-linked file once however many of its links it met: after
/// the entries `es`, the files counted are the singly-linked files plus the
/// distinct multiply-linked ones, which are the ones remembered.
pub proof fn lemma_walk_counts_files(ws: Seq<StorageWalk>, es: Seq<WalkEntry>)
    requires
        ws.len() == es.len() + 1,
        ws[0].files_scanned == 0,
        ws[0].hard_links@.len() == 0,
        forall|k: int| 0 <= k < es.len() ==> visited(#[trigger] ws[k], ws[k + 1], false, es[k], Ok(())),
    ensures
        ws.last().hard_links@ == linked_ids(es),
        ws.last().files_scanned == single_files(es) + linked_ids(es).len(),
    decreases es.len(),
{
    if es.len() == 0 {
        assert(ws[0].hard_links@ =~= Seq::<(u64, u64)>::empty());
    } else {
        let n = es.len() - 1;
        let ws0 = ws.drop_last();
        let es0 = es.drop_last();
        assert forall|k: int| 0 <= k < es0.len() implies visited(#[trigger] ws0[k], ws0[k + 1], false, es0[k], Ok(())) by {
            assert(ws0[k] == ws[k] && ws0[k + 1] == ws[k + 1] && es0[k] == es[k]);
            assert(visited(ws[k], ws[k + 1], false, es[k], Ok(())));
        }
        lemma_walk_counts_files(ws0, es0);
        assert(ws0.last() == ws[n]);
        assert(visited(ws[n], ws[n + 1], false, es[n], Ok(())));
        assert(es.last() == es[n]);
    }
}

} // verus!
