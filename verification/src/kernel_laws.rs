//! What every kernel removal plan guarantees, whatever the installed set:
//! nothing is lost or invented, the running kernel and the newest kernels
//! stay, and removal proceeds from the oldest kernel up.
use vstd::prelude::*;
use vstd::multiset::Multiset;
use crate::kernel::{
    effective_keep, insert_pos, newer, planned, removed_of, retained_of, sort_newest,
    InstalledKernel, KernelManager, KernelPlan,
};
use crate::version::{lemma_version_flip, lemma_version_trans};
use crate::kernel::{dpkg_line_entry, entries_of, grouped, packages_for, ListingFormat};
use crate::split::split_on;
use crate::strings::strs;
use crate::text::{contains, is_digit};

verus! {

broadcast use vstd::seq_lib::group_seq_properties;

/// Newest first: no kernel is strictly newer than one listed before it.
pub open spec fn newest_first(s: Seq<InstalledKernel>) -> bool {
    forall|i: int, j: int| 0 <= i < j < s.len() ==> !newer(#[trigger] s[j], #[trigger] s[i])
}

/// Oldest first: no kernel is strictly newer than one listed after it.
pub open spec fn oldest_first(s: Seq<InstalledKernel>) -> bool {
    forall|i: int, j: int| 0 <= i < j < s.len() ==> !newer(#[trigger] s[i], #[trigger] s[j])
}

proof fn lemma_insert_pos(r: Seq<InstalledKernel>, x: InstalledKernel, i: nat)
    requires
        i <= r.len(),
        forall|q: int| 0 <= q < i ==> !newer(x, #[trigger] r[q]),
    ensures
        insert_pos(r, x, i) <= r.len(),
        forall|q: int| 0 <= q < insert_pos(r, x, i) ==> !newer(x, #[trigger] r[q]),
        insert_pos(r, x, i) < r.len() ==> newer(x, r[insert_pos(r, x, i) as int]),
    decreases r.len() - i,
{
    if i < r.len() && !newer(x, r[i as int]) {
        lemma_insert_pos(r, x, i + 1);
    }
}

proof fn lemma_sort_newest(s: Seq<InstalledKernel>)
    ensures
        sort_newest(s).to_multiset() == s.to_multiset(),
        sort_newest(s).len() == s.len(),
        newest_first(sort_newest(s)),
    decreases s.len(),
{
    if s.len() > 0 {
        let r = sort_newest(s.drop_last());
        let x = s.last();
        lemma_sort_newest(s.drop_last());
        lemma_insert_pos(r, x, 0);
        let p = insert_pos(r, x, 0) as int;
        let out = r.insert(p, x);
        assert(s.drop_last().push(x) =~= s);
        assert forall|i: int, j: int| 0 <= i < j < out.len() implies !newer(
            #[trigger] out[j],
            #[trigger] out[i],
        ) by {
            if j == p {
                // out[i] == r[i] with i < p: x is not newer than it.
                assert(out[i] == r[i]);
            } else if i == p {
                // out[j] == r[j - 1] with j - 1 >= p: r[j-1] is no newer than r[p],
                // which x is newer than.
                assert(out[j] == r[j - 1]);
                if j - 1 > p {
                    assert(!newer(r[j - 1], r[p]));
                }
                lemma_version_flip(r[p].version@, x.version@);
                lemma_version_flip(r[j - 1].version@, r[p].version@);
                lemma_version_trans(r[j - 1].version@, r[p].version@, x.version@);
                lemma_version_flip(out[j].version@, x.version@);
            } else {
                let a = if i < p { i } else { i - 1 };
                let b = if j < p { j } else { j - 1 };
                assert(out[i] == r[a]);
                assert(out[j] == r[b]);
                assert(a < b);
            }
        }
    }
}

/// `x` stands in `s` at a position at or past `from`.
pub open spec fn listed_from(x: InstalledKernel, s: Seq<InstalledKernel>, from: nat) -> bool {
    exists|j: int| from <= j < s.len() && x == s[j]
}

proof fn lemma_split_parts(s: Seq<InstalledKernel>, keep: nat)
    ensures
        retained_of(s, keep).to_multiset().add(removed_of(s, keep).to_multiset()) == s.to_multiset(),
        forall|i: int| 0 <= i < removed_of(s, keep).len() ==> !(#[trigger] removed_of(s, keep)[i]).running,
        forall|i: int| 0 <= i < removed_of(s, keep).len() ==> listed_from(#[trigger] removed_of(s, keep)[i], s, keep),
        keep <= s.len() ==> retained_of(s, keep).len() >= keep && retained_of(s, keep).take(keep as int) == s.take(keep as int),
        keep > s.len() ==> retained_of(s, keep) == s,
    decreases s.len(),
{
    broadcast use vstd::multiset::group_multiset_axioms;
    if s.len() > 0 {
        let t = s.drop_last();
        lemma_split_parts(t, keep);
        let ret = retained_of(t, keep);
        let rem = removed_of(t, keep);
        assert(t.push(s.last()) =~= s);
        if (s.len() - 1) < keep || s.last().running {
            assert(retained_of(s, keep) == ret.push(s.last()));
            assert(removed_of(s, keep) == rem);
            assert forall|i: int| 0 <= i < removed_of(s, keep).len() implies listed_from(
                #[trigger] removed_of(s, keep)[i],
                s,
                keep,
            ) by {
                assert(removed_of(s, keep)[i] == rem[i]);
                assert(listed_from(rem[i], t, keep));
                let j = choose|j: int| keep <= j < t.len() && rem[i] == t[j];
                assert(removed_of(s, keep)[i] == s[j]);
            }
            if keep <= s.len() {
                if keep == s.len() {
                    assert(ret == t);
                    assert(retained_of(s, keep) =~= s);
                } else {
                    assert(retained_of(s, keep).take(keep as int) =~= ret.take(keep as int));
                }
            }
        } else {
            assert(retained_of(s, keep) == ret);
            assert(removed_of(s, keep) == rem.push(s.last()));
            assert forall|i: int| 0 <= i < removed_of(s, keep).len() implies listed_from(
                #[trigger] removed_of(s, keep)[i],
                s,
                keep,
            ) by {
                if i == rem.len() {
                    assert(removed_of(s, keep)[i] == s[s.len() - 1]);
                } else {
                    assert(removed_of(s, keep)[i] == rem[i]);
                    assert(listed_from(rem[i], t, keep));
                    let j = choose|j: int| keep <= j < t.len() && rem[i] == t[j];
                    assert(removed_of(s, keep)[i] == s[j]);
                }
            }
            assert(t.take(keep as int) =~= s.take(keep as int));
        }
    } else {
        assert(s.to_multiset() =~= Multiset::empty());
    }
}

proof fn lemma_removed_keep_order(s: Seq<InstalledKernel>, keep: nat)
    requires
        newest_first(s),
    ensures
        newest_first(removed_of(s, keep)),
        forall|i: int, j: int| 0 <= i < removed_of(s, keep).len() && 0 <= j < keep && j < s.len()
            ==> !newer(#[trigger] removed_of(s, keep)[i], #[trigger] s[j]),
    decreases s.len(),
{
    lemma_split_parts(s, keep);
    if s.len() > 0 {
        let t = s.drop_last();
        assert(newest_first(t));
        lemma_removed_keep_order(t, keep);
        lemma_split_parts(t, keep);
        let rem = removed_of(t, keep);
        let out = removed_of(s, keep);
        assert forall|i: int, j: int| 0 <= i < j < out.len() implies !newer(
            #[trigger] out[j],
            #[trigger] out[i],
        ) by {
            assert(listed_from(out[i], s, keep));
            assert(listed_from(out[j], s, keep));
            let a = choose|a: int| keep <= a < s.len() && out[i] == s[a];
            let b = choose|b: int| keep <= b < s.len() && out[j] == s[b];
            if j == rem.len() {
                assert(b == s.len() - 1 || s[b] == s[s.len() - 1]);
                if a < s.len() - 1 {
                    assert(!newer(s[s.len() - 1], s[a]));
                } else {
                    lemma_version_flip(out[i].version@, out[j].version@);
                }
            } else {
                assert(out[i] == rem[i] && out[j] == rem[j]);
            }
        }
        assert forall|i: int, j: int| 0 <= i < out.len() && 0 <= j < keep && j < s.len() implies !newer(
            #[trigger] out[i],
            #[trigger] s[j],
        ) by {
            assert(listed_from(out[i], s, keep));
            let a = choose|a: int| keep <= a < s.len() && out[i] == s[a];
            assert(j < a);
        }
    }
}

/// Nothing is lost or invented: the kept and the removed kernels together are
/// exactly the installed ones, each as often as it was listed.
pub proof fn lemma_plan_partitions_kernels(
    plan: KernelPlan,
    manager: KernelManager,
    kernels: Seq<InstalledKernel>,
    keep: u32,
)
    requires
        planned(plan, manager, kernels, keep),
    ensures
        plan.retained@.to_multiset().add(plan.removable@.to_multiset()) == kernels.to_multiset(),
{
    broadcast use vstd::multiset::group_multiset_axioms;
    let s = sort_newest(kernels);
    lemma_sort_newest(kernels);
    if manager == KernelManager::Pacman {
        assert(plan.removable@.to_multiset() =~= Multiset::empty());
        assert(plan.retained@.to_multiset().add(Multiset::empty()) =~= plan.retained@.to_multiset());
    } else {
        let k = effective_keep(keep);
        lemma_split_parts(s, k);
        removed_of(s, k).lemma_reverse_to_multiset();
    }
}

/// The running kernel is never among the kernels to remove.
pub proof fn lemma_plan_never_removes_running(
    plan: KernelPlan,
    manager: KernelManager,
    kernels: Seq<InstalledKernel>,
    keep: u32,
)
    requires
        planned(plan, manager, kernels, keep),
    ensures
        forall|i: int| 0 <= i < plan.removable@.len() ==> !(#[trigger] plan.removable@[i]).running,
{
    if manager != KernelManager::Pacman {
        let s = sort_newest(kernels);
        let k = effective_keep(keep);
        lemma_split_parts(s, k);
        let rem = removed_of(s, k);
        assert forall|i: int| 0 <= i < plan.removable@.len() implies !(
        #[trigger] plan.removable@[i]).running by {
            assert(plan.removable@[i] == rem[rem.len() - 1 - i]);
        }
    }
}

/// The `keep` newest kernels (at least one, so always the newest) stay, at
/// the head of the kept list in newest-first order, and no removed kernel is
/// newer than any of them.
pub proof fn lemma_plan_keeps_newest(
    plan: KernelPlan,
    manager: KernelManager,
    kernels: Seq<InstalledKernel>,
    keep: u32,
)
    requires
        planned(plan, manager, kernels, keep),
    ensures
        ({
            let n = if effective_keep(keep) <= kernels.len() {
                effective_keep(keep) as int
            } else {
                kernels.len() as int
            };
            &&& plan.retained@.len() >= n
            &&& plan.retained@.take(n) == sort_newest(kernels).take(n)
            &&& newest_first(sort_newest(kernels))
            &&& forall|i: int, j: int| 0 <= i < plan.removable@.len() && 0 <= j < n
                ==> !newer(#[trigger] plan.removable@[i], #[trigger] plan.retained@[j])
        }),
        kernels.len() > 0 ==> plan.retained@.len() > 0 && forall|i: int|
            0 <= i < kernels.len() ==> !newer(#[trigger] kernels[i], plan.retained@[0]),
{
    broadcast use vstd::multiset::group_multiset_axioms;
    let s = sort_newest(kernels);
    lemma_sort_newest(kernels);
    let k = effective_keep(keep);
    let n = if k <= kernels.len() {
        k as int
    } else {
        kernels.len() as int
    };
    if manager == KernelManager::Pacman {
        assert(plan.retained@.take(n) =~= s.take(n));
    } else {
        lemma_split_parts(s, k);
        lemma_removed_keep_order(s, k);
        let rem = removed_of(s, k);
        if k > s.len() {
            assert(plan.retained@.take(n) =~= s.take(n));
        }
        assert(plan.retained@.take(n) =~= s.take(n));
        assert forall|i: int, j: int| 0 <= i < plan.removable@.len() && 0 <= j < n implies !newer(
            #[trigger] plan.removable@[i],
            #[trigger] plan.retained@[j],
        ) by {
            assert(plan.removable@[i] == rem[rem.len() - 1 - i]);
            assert(plan.retained@[j] == plan.retained@.take(n)[j]);
            assert(s[j] == s.take(n)[j]);
        }
    }
    if kernels.len() > 0 {
        assert(n >= 1);
        assert(plan.retained@[0] == plan.retained@.take(n)[0]);
        assert(plan.retained@[0] == s[0]);
        assert forall|i: int| 0 <= i < kernels.len() implies !newer(
            #[trigger] kernels[i],
            plan.retained@[0],
        ) by {
            assert(kernels.to_multiset().count(kernels[i]) > 0);
            assert(s.to_multiset().count(kernels[i]) > 0);
            assert(s.contains(kernels[i]));
            let q = choose|q: int| 0 <= q < s.len() && s[q] == kernels[i];
            if q > 0 {
                assert(!newer(s[q], s[0]));
            } else {
                lemma_version_flip(s[0].version@, s[0].version@);
            }
        }
    }
}

/// Kernels are removed oldest first.
pub proof fn lemma_plan_removes_oldest_first(
    plan: KernelPlan,
    manager: KernelManager,
    kernels: Seq<InstalledKernel>,
    keep: u32,
)
    requires
        planned(plan, manager, kernels, keep),
    ensures
        oldest_first(plan.removable@),
{
    if manager != KernelManager::Pacman {
        let s = sort_newest(kernels);
        lemma_sort_newest(kernels);
        let k = effective_keep(keep);
        lemma_removed_keep_order(s, k);
        let rem = removed_of(s, k);
        assert forall|i: int, j: int| 0 <= i < j < plan.removable@.len() implies !newer(
            #[trigger] plan.removable@[i],
            #[trigger] plan.removable@[j],
        ) by {
            assert(plan.removable@[i] == rem[rem.len() - 1 - i]);
            assert(plan.removable@[j] == rem[rem.len() - 1 - j]);
        }
    }
}

// ---------------------------------------------------------------------------
// Which Debian packages belong to a kernel
// ---------------------------------------------------------------------------
proof fn lemma_split_without_sep(x: Seq<char>, sep: char)
    requires
        !x.contains(sep),
    ensures
        split_on(x, sep) == seq![x],
    decreases x.len(),
{
    if x.len() == 0 {
        assert(split_on(x, sep) =~= seq![x]);
    } else {
        assert(x.drop_last().contains(sep) ==> x.contains(sep));
        lemma_split_without_sep(x.drop_last(), sep);
        assert(x.contains(x.last()));
        assert(x.drop_last().push(x.last()) =~= x);
        assert(split_on(x, sep) =~= seq![x]);
    }
}

/// A text made of `a`, one separator and `b` (neither holding it) splits
/// into `a` and `b`.
proof fn lemma_split_in_two(a: Seq<char>, b: Seq<char>, sep: char)
    requires
        !a.contains(sep),
        !b.contains(sep),
    ensures
        split_on(a + seq![sep] + b, sep) == seq![a, b],
    decreases b.len(),
{
    let s = a + seq![sep] + b;
    if b.len() == 0 {
        assert(s.drop_last() =~= a);
        lemma_split_without_sep(a, sep);
        assert(split_on(s, sep) =~= seq![a, b]);
    } else {
        let b2 = b.drop_last();
        assert(b2.contains(sep) ==> b.contains(sep));
        lemma_split_in_two(a, b2, sep);
        assert(s.drop_last() =~= a + seq![sep] + b2);
        assert(b.contains(b.last()));
        assert(b2.push(b.last()) =~= b);
        assert(split_on(s, sep) =~= seq![a, b]);
    }
}

/// The package-name prefixes of a Debian kernel: image, extra modules,
/// modules and headers.
pub open spec fn debian_kernel_prefixes() -> Seq<Seq<char>> {
    seq!["linux-image-"@, "linux-modules-extra-"@, "linux-modules-"@, "linux-headers-"@]
}

/// Every installed `dpkg-query` line of a kernel image, extra-modules,
/// modules or headers package whose release starts with a digit contributes
/// its (release, package) pair, and nothing else.
pub proof fn lemma_dpkg_kernel_packages_are_listed(
    k: int,
    release: Seq<char>,
    status: Seq<char>,
)
    requires
        0 <= k < 4,
        release.len() > 0,
        is_digit(release[0]),
        !release.contains('\t'),
        !status.contains('\t'),
        contains(status, "installed"@),
        !contains(status, "not-installed"@),
    ensures
        dpkg_line_entry(debian_kernel_prefixes()[k] + release + seq!['\t'] + status) == seq![
            (release, debian_kernel_prefixes()[k] + release),
        ],
{
    reveal_strlit("linux-image-");
    reveal_strlit("linux-modules-extra-");
    reveal_strlit("linux-modules-");
    reveal_strlit("linux-headers-");
    let p = debian_kernel_prefixes()[k];
    let name = p + release;
    assert(!p.contains('\t')) by {
        if p.contains('\t') {
            let j = choose|j: int| 0 <= j < p.len() && p[j] == '\t';
            assert(p[j] != '\t');
        }
    }
    assert(!name.contains('\t')) by {
        if name.contains('\t') {
            let j = choose|j: int| 0 <= j < name.len() && name[j] == '\t';
            if j < p.len() {
                assert(p[j] == name[j]);
            } else {
                assert(release[j - p.len()] == name[j]);
            }
        }
    }
    lemma_split_in_two(name, status, '\t');
    assert(name.subrange(0, p.len() as int) =~= p);
    assert(name.skip(p.len() as int) =~= release);
    if k == 0 {
        assert(crate::kernel::dpkg_prefix(name) == Some(p));
    } else if k == 1 {
        assert(name[6] != "linux-image-"@[6]);
        assert(crate::kernel::dpkg_prefix(name) == Some(p));
    } else if k == 2 {
        assert(name[6] != "linux-image-"@[6]);
        assert(name[14] == release[0]);
        assert(name[14] != "linux-modules-extra-"@[14]);
        assert(crate::kernel::dpkg_prefix(name) == Some(p));
    } else {
        assert(name[6] != "linux-image-"@[6]);
        assert(name[6] != "linux-modules-extra-"@[6]);
        assert(name[6] != "linux-modules-"@[6]);
        assert(crate::kernel::dpkg_prefix(name) == Some(p));
    }
}

proof fn lemma_entries_hold_line(ls: Seq<Seq<char>>, j: int, format: ListingFormat, e: (Seq<char>, Seq<char>))
    requires
        0 <= j < ls.len(),
        crate::kernel::line_entry(ls[j], format).contains(e),
    ensures
        entries_of(ls, format).contains(e),
    decreases ls.len(),
{
    let prev = entries_of(ls.drop_last(), format);
    let last = crate::kernel::line_entry(ls.last(), format);
    if j == ls.len() - 1 {
        let q = choose|q: int| 0 <= q < last.len() && last[q] == e;
        assert((prev + last)[prev.len() + q] == e);
    } else {
        assert(ls.drop_last()[j] == ls[j]);
        lemma_entries_hold_line(ls.drop_last(), j, format, e);
        let q = choose|q: int| 0 <= q < prev.len() && prev[q] == e;
        assert((prev + last)[q] == e);
    }
}

proof fn lemma_packages_for_hold(entries: Seq<(Seq<char>, Seq<char>)>, e: (Seq<char>, Seq<char>))
    requires
        entries.contains(e),
    ensures
        packages_for(entries, e.0).contains(e.1),
    decreases entries.len(),
{
    if entries.last() == e {
        let r = packages_for(entries.drop_last(), e.0);
        assert(r.push(e.1)[r.len() as int] == e.1);
    } else {
        let q = choose|q: int| 0 <= q < entries.len() && entries[q] == e;
        assert(entries.drop_last()[q] == e);
        lemma_packages_for_hold(entries.drop_last(), e);
        let r = packages_for(entries.drop_last(), e.0);
        let i = choose|i: int| 0 <= i < r.len() && r[i] == e.1;
        if entries.last().0 == e.0 {
            assert(r.push(entries.last().1)[i] == e.1);
        }
    }
}

/// A kernel package (image, extra modules, modules or headers) that a
/// `dpkg-query` listing shows installed belongs to the kernel of its
/// release in every grouping of that listing: such a kernel exists and
/// holds the package, so removing the kernel removes it too.
pub proof fn lemma_dpkg_package_joins_its_kernel(
    ks: Seq<InstalledKernel>,
    ls: Seq<Seq<char>>,
    running: Seq<char>,
    j: int,
    k: int,
    release: Seq<char>,
    status: Seq<char>,
)
    requires
        grouped(ks, entries_of(ls, ListingFormat::Dpkg), running),
        0 <= j < ls.len(),
        0 <= k < 4,
        ls[j] == debian_kernel_prefixes()[k] + release + seq!['\t'] + status,
        release.len() > 0,
        is_digit(release[0]),
        !release.contains('\t'),
        !status.contains('\t'),
        contains(status, "installed"@),
        !contains(status, "not-installed"@),
    ensures
        exists|i: int|
            0 <= i < ks.len() && ks[i].version@ == release && strs(ks[i].packages@).contains(
                debian_kernel_prefixes()[k] + release,
            ),
{
    let pkg = debian_kernel_prefixes()[k] + release;
    lemma_dpkg_kernel_packages_are_listed(k, release, status);
    let e = (release, pkg);
    assert(crate::kernel::line_entry(ls[j], ListingFormat::Dpkg)[0] == e);
    lemma_entries_hold_line(ls, j, ListingFormat::Dpkg, e);
    let entries = entries_of(ls, ListingFormat::Dpkg);
    let q = choose|q: int| 0 <= q < entries.len() && entries[q] == e;
    assert(crate::kernel::has_version(ks, entries[q].0));
    let i = choose|i: int| 0 <= i < ks.len() && #[trigger] ks[i].version@ == release;
    lemma_packages_for_hold(entries, e);
    let listed = packages_for(entries, release);
    assert(listed.to_multiset().count(pkg) > 0);
    assert(strs(ks[i].packages@).to_multiset().count(pkg) > 0);
    assert(strs(ks[i].packages@).contains(pkg));
}

} // verus!
