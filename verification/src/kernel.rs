//! Removal of superseded kernel packages.
//!
//! Nothing here ever produces a blanket `autoremove`: each supported package
//! manager's list of installed kernels is parsed, filtered, and only explicit
//! package names are handed to a removal command. The running kernel and the
//! newest installed kernel are always kept.
use vstd::prelude::*;
use crate::split::{lines, lines_of, split_chars, split_on, views, words, words_of};
use crate::strings::{insert_sorted, join, join_strings, sorted_text, strs};
use crate::text::{chars_of, compare_str, concat, contains, contains_chars, decimal, decimal_string, digit, is_digit, lemma_lex_flip, lemma_lex_trans, lex_order, owned, starts_with, starts_with_chars, sub_chars, Rel};
use crate::outside::string_from_chars;
use crate::version::{lemma_version_flip, lemma_version_trans, version_order, version_rel};

verus! {

/// The package manager that owns kernel packages on this system.
#[derive(Clone, Copy, Debug, PartialEq, Eq, Structural)]
pub enum KernelManager {
    /// Fedora, RHEL and derivatives.
    Dnf,
    /// Debian, Ubuntu and derivatives.
    Apt,
    /// Arch and derivatives: one kernel per package, nothing to prune.
    Pacman,
    /// openSUSE.
    Zypper,
}

/// One installed kernel, grouped by version: all packages of one version
/// are removed together.
#[derive(Clone, Debug, PartialEq, Eq)]
pub struct InstalledKernel {
    /// Kernel version as the package manager reports it.
    pub version: String,
    /// Every package belonging to this version, in removal order.
    pub packages: Vec<String>,
    /// True when this is the kernel currently booted.
    pub running: bool,
}

/// What a cleanup would do, for display before anything is executed.
#[derive(Clone, Debug, PartialEq, Eq)]
pub struct KernelPlan {
    pub manager: KernelManager,
    /// Kernels that would be removed, oldest first.
    pub removable: Vec<InstalledKernel>,
    /// Kernels that stay, newest first.
    pub retained: Vec<InstalledKernel>,
    /// Why nothing can be removed, when `removable` is empty.
    pub note: Option<String>,
}

// ---------------------------------------------------------------------------
// Ordering kernels newest first
// ---------------------------------------------------------------------------
pub open spec fn newer(a: InstalledKernel, b: InstalledKernel) -> bool {
    version_order(a.version@, b.version@) == Rel::Greater
}

/// Where a stable newest-first sort places `x` among the already sorted `r`:
/// before the first kernel that `x` is strictly newer than.
pub open spec fn insert_pos(r: Seq<InstalledKernel>, x: InstalledKernel, i: nat) -> nat
    decreases r.len() - i,
{
    if i >= r.len() {
        r.len()
    } else if newer(x, r[i as int]) {
        i
    } else {
        insert_pos(r, x, i + 1)
    }
}

/// The kernels in `s`, newest first; kernels of equal version keep their
/// input order (a stable sort by descending `version_order`).
pub open spec fn sort_newest(s: Seq<InstalledKernel>) -> Seq<InstalledKernel>
    decreases s.len(),
{
    if s.len() == 0 {
        s
    } else {
        let r = sort_newest(s.drop_last());
        r.insert(insert_pos(r, s.last(), 0) as int, s.last())
    }
}

/// A keep count below one still keeps one kernel.
pub open spec fn effective_keep(keep: u32) -> nat {
    if keep == 0 {
        1
    } else {
        keep as nat
    }
}

/// Position `index` in the newest-first list is kept when it is among the
/// `keep` newest, or when it is the running kernel. Position 0 (the newest)
/// is always among them since `keep >= 1`.
pub open spec fn is_protected(index: int, k: InstalledKernel, keep: nat) -> bool {
    index < keep || k.running
}

pub open spec fn retained_of(s: Seq<InstalledKernel>, keep: nat) -> Seq<InstalledKernel>
    decreases s.len(),
{
    if s.len() == 0 {
        s
    } else {
        let r = retained_of(s.drop_last(), keep);
        if is_protected(s.len() - 1, s.last(), keep) {
            r.push(s.last())
        } else {
            r
        }
    }
}

pub open spec fn removed_of(s: Seq<InstalledKernel>, keep: nat) -> Seq<InstalledKernel>
    decreases s.len(),
{
    if s.len() == 0 {
        s
    } else {
        let r = removed_of(s.drop_last(), keep);
        if is_protected(s.len() - 1, s.last(), keep) {
            r
        } else {
            r.push(s.last())
        }
    }
}

pub open spec fn arch_note() -> Seq<char> {
    "Arch-based systems install a single package per kernel series, so no superseded kernel packages accumulate. Nothing to remove."@
}

pub open spec fn nothing_to_remove_note(installed: nat, keep: nat) -> Seq<char> {
    "No superseded kernels to remove: "@ + decimal(installed) + " installed, keeping "@
        + decimal(keep) + "."@
}

/// The plan `plan_removal` produces, stated over the inputs.
pub open spec fn planned(
    plan: KernelPlan,
    manager: KernelManager,
    kernels: Seq<InstalledKernel>,
    keep: u32,
) -> bool {
    let sorted = sort_newest(kernels);
    let k = effective_keep(keep);
    &&& plan.manager == manager
    &&& if manager == KernelManager::Pacman {
        &&& plan.removable@.len() == 0
        &&& plan.retained@ == sorted
        &&& plan.note is Some && plan.note->0@ == arch_note()
    } else {
        &&& plan.retained@ == retained_of(sorted, k)
        &&& plan.removable@ == removed_of(sorted, k).reverse()
        &&& if plan.removable@.len() == 0 {
            plan.note is Some && plan.note->0@ == nothing_to_remove_note(
                plan.retained@.len(),
                k,
            )
        } else {
            plan.note is None
        }
    }
}

fn is_newer(a: &InstalledKernel, b: &InstalledKernel) -> (r: bool)
    ensures
        r == newer(*a, *b),
{
    match version_rel(a.version.as_str(), b.version.as_str()) {
        Rel::Greater => true,
        _ => false,
    }
}

/// Sorts kernels newest first (stable).
fn sort_kernels_newest_first(kernels: Vec<InstalledKernel>) -> (r: Vec<InstalledKernel>)
    ensures
        r@ == sort_newest(kernels@),
{
    let ghost orig = kernels@;
    let mut rest = kernels;
    let mut sorted: Vec<InstalledKernel> = Vec::new();
    let mut i: usize = 0;
    let n = rest.len();
    while rest.len() > 0
        invariant
            n == orig.len(),
            i + rest@.len() == n,
            rest@ == orig.skip(i as int),
            sorted@ == sort_newest(orig.take(i as int)),
        decreases rest@.len(),
    {
        let x = rest.remove(0);
        assert(orig.take(i + 1).drop_last() =~= orig.take(i as int));
        assert(orig.take(i + 1).last() == x);
        let mut p: usize = 0;
        while p < sorted.len() && !is_newer(&x, &sorted[p])
            invariant
                0 <= p <= sorted@.len(),
                insert_pos(sorted@, x, 0) == insert_pos(sorted@, x, p as nat),
            decreases sorted@.len() - p,
        {
            p += 1;
        }
        sorted.insert(p, x);
        i += 1;
        assert(rest@ =~= orig.skip(i as int));
    }
    assert(orig.take(n as int) =~= orig);
    sorted
}

/// Split installed kernels into what to remove and what to keep.
///
/// `keep` counts kernel versions to preserve, newest first. The running
/// kernel and the newest kernel are always retained on top of that.
pub fn plan_removal(manager: KernelManager, kernels: Vec<InstalledKernel>, keep: u32) -> (plan:
    KernelPlan)
    ensures
        planned(plan, manager, kernels@, keep),
{
    let sorted = sort_kernels_newest_first(kernels);
    if manager == KernelManager::Pacman {
        return KernelPlan {
            manager,
            removable: Vec::new(),
            retained: sorted,
            note: Some(
                owned(
                    "Arch-based systems install a single package per kernel series, so no superseded kernel packages accumulate. Nothing to remove.",
                ),
            ),
        };
    }
    let keep_n: usize = if keep == 0 {
        1
    } else {
        keep as usize
    };
    let ghost s = sorted@;
    let n = sorted.len();
    let mut rest = sorted;
    let mut retained: Vec<InstalledKernel> = Vec::new();
    let mut removed: Vec<InstalledKernel> = Vec::new();
    let mut index: usize = 0;
    while rest.len() > 0
        invariant
            n == s.len(),
            keep_n == effective_keep(keep),
            index + rest@.len() == n,
            rest@ == s.skip(index as int),
            retained@ == retained_of(s.take(index as int), keep_n as nat),
            removed@ == removed_of(s.take(index as int), keep_n as nat),
        decreases rest@.len(),
    {
        let kernel = rest.remove(0);
        assert(s.take(index + 1).drop_last() =~= s.take(index as int));
        assert(s.take(index + 1).last() == kernel);
        let protected = index < keep_n || kernel.running;
        if protected {
            retained.push(kernel);
        } else {
            removed.push(kernel);
        }
        index += 1;
        assert(rest@ =~= s.skip(index as int));
    }
    assert(s.take(n as int) =~= s);
    // Oldest first, so removal output reads chronologically.
    let ghost newest_first = removed@;
    let mut removable: Vec<InstalledKernel> = Vec::new();
    while removed.len() > 0
        invariant
            removable@ + removed@.reverse() == newest_first.reverse(),
        decreases removed@.len(),
    {
        let ghost before = removed@;
        let k = removed.pop().unwrap();
        assert(before =~= removed@.push(k));
        assert(before.reverse() =~= seq![k] + removed@.reverse());
        removable.push(k);
        assert(removable@ + removed@.reverse() =~= newest_first.reverse());
    }
    assert(removed@.reverse() =~= Seq::<InstalledKernel>::empty());
    assert(removable@ =~= newest_first.reverse());
    let note = if removable.len() == 0 {
        let installed = decimal_string(retained.len() as u64);
        let kept = decimal_string(keep_n as u64);
        let t1 = concat("No superseded kernels to remove: ", installed.as_str());
        let t2 = concat(t1.as_str(), " installed, keeping ");
        let t3 = concat(t2.as_str(), kept.as_str());
        let t4 = concat(t3.as_str(), ".");
        Some(t4)
    } else {
        None
    };
    KernelPlan { manager, removable, retained, note }
}

// ---------------------------------------------------------------------------
// Comparing versions
// ---------------------------------------------------------------------------
pub open spec fn ordering_of(r: Rel) -> std::cmp::Ordering {
    match r {
        Rel::Less => std::cmp::Ordering::Less,
        Rel::Equal => std::cmp::Ordering::Equal,
        Rel::Greater => std::cmp::Ordering::Greater,
    }
}

/// Compare two kernel version strings by their numeric components, so
/// `6.10.0` sorts above `6.9.0`; non-numeric separators are ignored and the
/// text order breaks ties.
pub fn compare_versions(a: &str, b: &str) -> (r: std::cmp::Ordering)
    ensures
        r == ordering_of(version_order(a@, b@)),
{
    match version_rel(a, b) {
        Rel::Less => std::cmp::Ordering::Less,
        Rel::Equal => std::cmp::Ordering::Equal,
        Rel::Greater => std::cmp::Ordering::Greater,
    }
}

// ---------------------------------------------------------------------------
// Presenting a plan
// ---------------------------------------------------------------------------
/// Every package of the given kernels, kernel by kernel.
pub open spec fn all_packages(ks: Seq<InstalledKernel>) -> Seq<Seq<char>>
    decreases ks.len(),
{
    if ks.len() == 0 {
        Seq::<Seq<char>>::empty()
    } else {
        all_packages(ks.drop_last()) + strs(ks.last().packages@)
    }
}

pub open spec fn removal_line(k: InstalledKernel) -> Seq<char> {
    "\u{2022} "@ + k.version@ + " ("@ + decimal(k.packages@.len()) + " packages)"@
}

pub open spec fn kept_label(k: InstalledKernel) -> Seq<char> {
    if k.running {
        k.version@ + " (running)"@
    } else {
        k.version@
    }
}

pub open spec fn summary_text(plan: KernelPlan) -> Seq<char> {
    match plan.note {
        Some(note) => note@,
        None => "Remove "@ + decimal(plan.removable@.len()) + " kernel version(s):\n"@ + join(
            plan.removable@.map_values(|k: InstalledKernel| removal_line(k)),
            "\n"@,
        ) + "\n\nKeeping: "@ + join(
            plan.retained@.map_values(|k: InstalledKernel| kept_label(k)),
            ", "@,
        ),
    }
}

/// The command-line prefix of each manager's explicit removal command.
pub open spec fn removal_prefix(m: KernelManager) -> Seq<Seq<char>> {
    match m {
        KernelManager::Dnf => seq!["dnf"@, "-y"@, "remove"@],
        KernelManager::Apt => seq!["apt-get"@, "-y"@, "purge"@],
        KernelManager::Zypper => seq!["zypper"@, "--non-interactive"@, "remove"@],
        KernelManager::Pacman => Seq::<Seq<char>>::empty(),
    }
}

fn append_clones(out: &mut Vec<String>, items: &Vec<String>)
    ensures
        strs(final(out)@) == strs(old(out)@) + strs(items@),
{
    let mut j: usize = 0;
    while j < items.len()
        invariant
            0 <= j <= items@.len(),
            strs(out@) == strs(old(out)@) + strs(items@).take(j as int),
        decreases items@.len() - j,
    {
        let ghost before = strs(out@);
        out.push(items[j].clone());
        assert(strs(out@) =~= before.push(items@[j as int]@));
        j += 1;
        assert(strs(items@).take(j as int) =~= strs(items@).take(j - 1).push(items@[j - 1]@));
    }
    assert(strs(items@).take(items@.len() as int) =~= strs(items@));
}

impl KernelPlan {
    /// Every package name that would be passed to the removal command.
    pub fn packages(&self) -> (r: Vec<String>)
        ensures
            strs(r@) == all_packages(self.removable@),
    {
        let mut out: Vec<String> = Vec::new();
        let mut i: usize = 0;
        while i < self.removable.len()
            invariant
                0 <= i <= self.removable@.len(),
                strs(out@) == all_packages(self.removable@.take(i as int)),
            decreases self.removable@.len() - i,
        {
            append_clones(&mut out, &self.removable[i].packages);
            assert(self.removable@.take(i + 1).drop_last() =~= self.removable@.take(i as int));
            i += 1;
        }
        assert(self.removable@.take(self.removable@.len() as int) =~= self.removable@);
        out
    }

    /// A human-readable summary for the confirmation dialog.
    pub fn summary(&self) -> (r: String)
        ensures
            r@ == summary_text(*self),
    {
        match &self.note {
            Some(note) => {
                return note.clone();
            },
            None => {},
        }
        let mut lines_out: Vec<String> = Vec::new();
        let mut i: usize = 0;
        while i < self.removable.len()
            invariant
                0 <= i <= self.removable@.len(),
                strs(lines_out@) == self.removable@.take(i as int).map_values(
                    |k: InstalledKernel| removal_line(k),
                ),
            decreases self.removable@.len() - i,
        {
            let k = &self.removable[i];
            let count = decimal_string(k.packages.len() as u64);
            let l1 = concat("\u{2022} ", k.version.as_str());
            let l2 = concat(l1.as_str(), " (");
            let l3 = concat(l2.as_str(), count.as_str());
            let l4 = concat(l3.as_str(), " packages)");
            let ghost before = strs(lines_out@);
            lines_out.push(l4);
            assert(strs(lines_out@) =~= before.push(removal_line(*k)));
            i += 1;
            assert(self.removable@.take(i as int).map_values(|k: InstalledKernel| removal_line(k))
                =~= self.removable@.take(i - 1).map_values(
                |k: InstalledKernel| removal_line(k),
            ).push(removal_line(self.removable@[i - 1])));
        }
        assert(self.removable@.take(i as int) =~= self.removable@);
        let mut kept: Vec<String> = Vec::new();
        let mut j: usize = 0;
        while j < self.retained.len()
            invariant
                0 <= j <= self.retained@.len(),
                strs(kept@) == self.retained@.take(j as int).map_values(
                    |k: InstalledKernel| kept_label(k),
                ),
            decreases self.retained@.len() - j,
        {
            let k = &self.retained[j];
            let label = if k.running {
                concat(k.version.as_str(), " (running)")
            } else {
                k.version.clone()
            };
            let ghost before = strs(kept@);
            kept.push(label);
            assert(strs(kept@) =~= before.push(kept_label(*k)));
            j += 1;
            assert(self.retained@.take(j as int).map_values(|k: InstalledKernel| kept_label(k))
                =~= self.retained@.take(j - 1).map_values(|k: InstalledKernel| kept_label(k)).push(
                kept_label(self.retained@[j - 1]),
            ));
        }
        assert(self.retained@.take(j as int) =~= self.retained@);
        let count = decimal_string(self.removable.len() as u64);
        let body = join_strings(&lines_out, "\n");
        let keeping = join_strings(&kept, ", ");
        let s1 = concat("Remove ", count.as_str());
        let s2 = concat(s1.as_str(), " kernel version(s):\n");
        let s3 = concat(s2.as_str(), body.as_str());
        let s4 = concat(s3.as_str(), "\n\nKeeping: ");
        concat(s4.as_str(), keeping.as_str())
    }
}

fn command_words(words: &[&str]) -> (r: Vec<String>)
    ensures
        r@.len() == words@.len(),
        forall|i: int| 0 <= i < words@.len() ==> r@[i]@ == words@[i]@,
{
    let mut r: Vec<String> = Vec::new();
    let mut i: usize = 0;
    while i < words.len()
        invariant
            0 <= i <= words@.len(),
            r@.len() == i,
            forall|k: int| 0 <= k < i ==> r@[k]@ == words@[k]@,
        decreases words@.len() - i,
    {
        r.push(owned(words[i]));
        i += 1;
    }
    r
}

/// The privileged command line that removes the planned packages, or `None`
/// when there is nothing to remove (an empty package list must never reach
/// a package manager).
pub fn removal_command(plan: &KernelPlan) -> (r: Option<Vec<String>>)
    ensures
        r is None <==> (all_packages(plan.removable@).len() == 0 || plan.manager
            == KernelManager::Pacman),
        r is Some ==> strs(r->0@) == removal_prefix(plan.manager) + all_packages(
            plan.removable@,
        ),
{
    let packages = plan.packages();
    if packages.len() == 0 {
        return None;
    }
    let mut args: Vec<String> = match plan.manager {
        KernelManager::Dnf => command_words(&["dnf", "-y", "remove"]),
        KernelManager::Apt => command_words(&["apt-get", "-y", "purge"]),
        KernelManager::Zypper => command_words(&["zypper", "--non-interactive", "remove"]),
        KernelManager::Pacman => {
            return None;
        },
    };
    assert(strs(args@) =~= removal_prefix(plan.manager));
    append_clones(&mut args, &packages);
    Some(args)
}

// ---------------------------------------------------------------------------
// Reading package-manager output
// ---------------------------------------------------------------------------
/// The two listing formats the package managers are queried in.
#[derive(Clone, Copy, Debug, PartialEq, Eq, Structural)]
pub enum ListingFormat {
    /// `rpm -q --qf '%{NAME} %{VERSION}-%{RELEASE}.%{ARCH}\n'`
    Rpm,
    /// `dpkg-query -W -f='${Package}\t${Status}\n'`
    Dpkg,
}

/// The (version, package) pair an `rpm` line contributes: name and version
/// are its first two words; `headers`, `firmware` and `macros` packages are
/// not kernels.
pub open spec fn rpm_line_entry(line: Seq<char>) -> Seq<(Seq<char>, Seq<char>)> {
    let w = words(line);
    if w.len() >= 2 && !contains(w[0], "headers"@) && !contains(w[0], "firmware"@) && !contains(
        w[0],
        "macros"@,
    ) {
        seq![(w[1], w[0] + "-"@ + w[1])]
    } else {
        Seq::<(Seq<char>, Seq<char>)>::empty()
    }
}

/// The kernel-package prefix a Debian package name starts with, if any;
/// `linux-modules-extra-` is tried before `linux-modules-`, so that the
/// extra modules share the release of their image.
pub open spec fn dpkg_prefix(name: Seq<char>) -> Option<Seq<char>> {
    if starts_with(name, "linux-image-"@) {
        Some("linux-image-"@)
    } else if starts_with(name, "linux-modules-extra-"@) {
        Some("linux-modules-extra-"@)
    } else if starts_with(name, "linux-modules-"@) {
        Some("linux-modules-"@)
    } else if starts_with(name, "linux-headers-"@) {
        Some("linux-headers-"@)
    } else {
        None
    }
}

/// The (release, package) pair a `dpkg-query` line contributes: installed
/// packages only, and only those whose release after the prefix starts with
/// a digit (meta packages such as `linux-image-generic` carry no version).
pub open spec fn dpkg_line_entry(line: Seq<char>) -> Seq<(Seq<char>, Seq<char>)> {
    let parts = split_on(line, '\t');
    if parts.len() < 2 {
        Seq::<(Seq<char>, Seq<char>)>::empty()
    } else if !contains(parts[1], "installed"@) || contains(parts[1], "not-installed"@) {
        Seq::<(Seq<char>, Seq<char>)>::empty()
    } else {
        match dpkg_prefix(parts[0]) {
            None => Seq::<(Seq<char>, Seq<char>)>::empty(),
            Some(prefix) => {
                let release = parts[0].skip(prefix.len() as int);
                if release.len() > 0 && is_digit(release[0]) {
                    seq![(release, parts[0])]
                } else {
                    Seq::<(Seq<char>, Seq<char>)>::empty()
                }
            },
        }
    }
}

pub open spec fn line_entry(line: Seq<char>, format: ListingFormat) -> Seq<(Seq<char>, Seq<char>)> {
    match format {
        ListingFormat::Rpm => rpm_line_entry(line),
        ListingFormat::Dpkg => dpkg_line_entry(line),
    }
}

/// The (version, package) pairs of a listing, line by line.
pub open spec fn entries_of(ls: Seq<Seq<char>>, format: ListingFormat) -> Seq<(Seq<char>, Seq<char>)>
    decreases ls.len(),
{
    if ls.len() == 0 {
        Seq::<(Seq<char>, Seq<char>)>::empty()
    } else {
        entries_of(ls.drop_last(), format) + line_entry(ls.last(), format)
    }
}

/// The packages listed for version `v`, in listing order.
pub open spec fn packages_for(entries: Seq<(Seq<char>, Seq<char>)>, v: Seq<char>) -> Seq<Seq<char>>
    decreases entries.len(),
{
    if entries.len() == 0 {
        Seq::<Seq<char>>::empty()
    } else if entries.last().0 == v {
        packages_for(entries.drop_last(), v).push(entries.last().1)
    } else {
        packages_for(entries.drop_last(), v)
    }
}

/// Versions strictly ascending in text order.
pub open spec fn versions_ascending(ks: Seq<InstalledKernel>) -> bool {
    forall|i: int, j: int|
        0 <= i < j < ks.len() ==> lex_order(ks[i].version@, ks[j].version@) == Rel::Less
}

/// Some entry lists version `v`.
pub open spec fn is_listed(entries: Seq<(Seq<char>, Seq<char>)>, v: Seq<char>) -> bool {
    exists|e: int| 0 <= e < entries.len() && #[trigger] entries[e].0 == v
}

/// Some kernel has version `v`.
pub open spec fn has_version(ks: Seq<InstalledKernel>, v: Seq<char>) -> bool {
    exists|i: int| 0 <= i < ks.len() && #[trigger] ks[i].version@ == v
}

/// Every kernel's version is listed.
pub open spec fn versions_from_listing(ks: Seq<InstalledKernel>, entries: Seq<(Seq<char>, Seq<char>)>) -> bool {
    forall|i: int| 0 <= i < ks.len() ==> #[trigger] is_listed(entries, ks[i].version@)
}

/// Every listed version has a kernel.
pub open spec fn listing_covered(ks: Seq<InstalledKernel>, entries: Seq<(Seq<char>, Seq<char>)>) -> bool {
    forall|e: int| 0 <= e < entries.len() ==> #[trigger] has_version(ks, entries[e].0)
}

/// Exactly the listed versions occur.
pub open spec fn versions_listed(ks: Seq<InstalledKernel>, entries: Seq<(Seq<char>, Seq<char>)>) -> bool {
    versions_from_listing(ks, entries) && listing_covered(ks, entries)
}

/// Each kernel holds, sorted, exactly the packages listed for its version.
pub open spec fn packages_listed(ks: Seq<InstalledKernel>, entries: Seq<(Seq<char>, Seq<char>)>) -> bool {
    forall|i: int|
        0 <= i < ks.len() ==> sorted_text(strs(ks[i].packages@)) && strs(ks[i].packages@).to_multiset()
            =~= packages_for(entries, ks[i].version@).to_multiset()
}

/// A kernel is marked running when its version equals the non-empty running
/// release.
pub open spec fn running_marked(ks: Seq<InstalledKernel>, running: Seq<char>) -> bool {
    forall|i: int|
        0 <= i < ks.len() ==> ks[i].running == (running.len() > 0 && ks[i].version@ == running)
}

/// `ks` is the listing grouped by version: one kernel per listed version, in
/// ascending text order of the version; each kernel's packages are exactly
/// the ones listed for its version, sorted; a kernel is marked running when
/// its version equals the (non-empty) running release.
pub open spec fn grouped(
    ks: Seq<InstalledKernel>,
    entries: Seq<(Seq<char>, Seq<char>)>,
    running: Seq<char>,
) -> bool {
    &&& versions_ascending(ks)
    &&& versions_listed(ks, entries)
    &&& packages_listed(ks, entries)
    &&& running_marked(ks, running)
}

pub open spec fn pair_views(v: Seq<(String, String)>) -> Seq<(Seq<char>, Seq<char>)> {
    Seq::new(v.len(), |i: int| (v[i].0@, v[i].1@))
}

fn rpm_entry(line: &[char]) -> (r: Option<(String, String)>)
    ensures
        r is None ==> rpm_line_entry(line@).len() == 0,
        r is Some ==> rpm_line_entry(line@) == seq![((r->0).0@, (r->0).1@)],
{
    let w = words_of(line);
    if w.len() < 2 {
        return None;
    }
    let name = &w[0];
    let version = &w[1];
    let headers = chars_of("headers");
    let firmware = chars_of("firmware");
    let macros = chars_of("macros");
    if contains_chars(name.as_slice(), headers.as_slice()) || contains_chars(
        name.as_slice(),
        firmware.as_slice(),
    ) || contains_chars(name.as_slice(), macros.as_slice()) {
        return None;
    }
    let v = string_from_chars(version.as_slice());
    let n = string_from_chars(name.as_slice());
    let n1 = concat(n.as_str(), "-");
    let package = concat(n1.as_str(), v.as_str());
    Some((v, package))
}

fn dpkg_entry(line: &[char]) -> (r: Option<(String, String)>)
    ensures
        r is None ==> dpkg_line_entry(line@).len() == 0,
        r is Some ==> dpkg_line_entry(line@) == seq![((r->0).0@, (r->0).1@)],
{
    let parts = split_chars(line, '\t');
    if parts.len() < 2 {
        return None;
    }
    let name = &parts[0];
    let status = &parts[1];
    let installed = chars_of("installed");
    let not_installed = chars_of("not-installed");
    if !contains_chars(status.as_slice(), installed.as_slice()) || contains_chars(
        status.as_slice(),
        not_installed.as_slice(),
    ) {
        return None;
    }
    let image = chars_of("linux-image-");
    let extra = chars_of("linux-modules-extra-");
    let modules = chars_of("linux-modules-");
    let headers = chars_of("linux-headers-");
    let prefix_len: usize = if starts_with_chars(name.as_slice(), image.as_slice()) {
        image.len()
    } else if starts_with_chars(name.as_slice(), extra.as_slice()) {
        extra.len()
    } else if starts_with_chars(name.as_slice(), modules.as_slice()) {
        modules.len()
    } else if starts_with_chars(name.as_slice(), headers.as_slice()) {
        headers.len()
    } else {
        return None;
    };
    let release = sub_chars(name.as_slice(), prefix_len, name.len());
    assert(release@ =~= name@.skip(prefix_len as int));
    if release.len() == 0 || !digit(release[0]) {
        return None;
    }
    Some((string_from_chars(release.as_slice()), string_from_chars(name.as_slice())))
}

/// The (version, package) pairs of a whole listing.
fn listing_entries(output: &str, format: ListingFormat) -> (r: Vec<(String, String)>)
    ensures
        pair_views(r@) == entries_of(lines(output@), format),
{
    let text = chars_of(output);
    let ls = lines_of(text.as_slice());
    let ghost lv = views(ls@);
    let mut out: Vec<(String, String)> = Vec::new();
    let mut i: usize = 0;
    while i < ls.len()
        invariant
            0 <= i <= ls@.len(),
            lv == views(ls@),
            lv == lines(output@),
            pair_views(out@) == entries_of(lv.take(i as int), format),
        decreases ls@.len() - i,
    {
        let line = &ls[i];
        assert(line@ == lv[i as int]);
        assert(lv.take(i + 1).drop_last() =~= lv.take(i as int));
        let entry = match format {
            ListingFormat::Rpm => rpm_entry(line.as_slice()),
            ListingFormat::Dpkg => dpkg_entry(line.as_slice()),
        };
        let ghost before = pair_views(out@);
        match entry {
            Some(e) => {
                out.push(e);
                assert(pair_views(out@) =~= before + line_entry(lv[i as int], format));
            },
            None => {
                assert(pair_views(out@) =~= before + line_entry(lv[i as int], format));
            },
        }
        i += 1;
    }
    assert(lv.take(ls@.len() as int) =~= lv);
    out
}

proof fn lemma_packages_for_step(e: Seq<(Seq<char>, Seq<char>)>, i: int, v: Seq<char>)
    requires
        0 <= i < e.len(),
    ensures
        packages_for(e.take(i + 1), v) == if e[i].0 == v {
            packages_for(e.take(i), v).push(e[i].1)
        } else {
            packages_for(e.take(i), v)
        },
{
    assert(e.take(i + 1).drop_last() =~= e.take(i));
    assert(e.take(i + 1).last() == e[i]);
}

proof fn lemma_packages_for_absent(e: Seq<(Seq<char>, Seq<char>)>, v: Seq<char>)
    requires
        forall|k: int| 0 <= k < e.len() ==> (#[trigger] e[k]).0 != v,
    ensures
        packages_for(e, v).len() == 0,
    decreases e.len(),
{
    if e.len() > 0 {
        lemma_packages_for_absent(e.drop_last(), v);
    }
}

pub open spec fn group_views(packs: Seq<Vec<String>>) -> Seq<Seq<Seq<char>>> {
    Seq::new(packs.len(), |a: int| strs(packs[a]@))
}

/// Group versions are strictly increasing.
#[verifier::opaque]
pub open spec fn g_sorted(vs: Seq<Seq<char>>) -> bool {
    forall|a: int, b: int| 0 <= a < b < vs.len() ==> lex_order(vs[a], vs[b]) == Rel::Less
}

/// Every group version is listed among the first `i` entries.
#[verifier::opaque]
pub open spec fn g_listed(vs: Seq<Seq<char>>, e: Seq<(Seq<char>, Seq<char>)>, i: int) -> bool {
    forall|a: int|
        #![trigger vs[a]]
        0 <= a < vs.len() ==> exists|k: int| #![trigger e[k]] 0 <= k < i && e[k].0 == vs[a]
}

/// Every one of the first `i` entries has a group.
#[verifier::opaque]
pub open spec fn g_covered(vs: Seq<Seq<char>>, e: Seq<(Seq<char>, Seq<char>)>, i: int) -> bool {
    forall|k: int|
        #![trigger e[k]]
        0 <= k < i ==> exists|a: int| #![trigger vs[a]] 0 <= a < vs.len() && vs[a] == e[k].0
}

/// Every group holds, sorted, exactly the packages listed for its version
/// among the first `i` entries.
#[verifier::opaque]
pub open spec fn g_packages(
    vs: Seq<Seq<char>>,
    ps: Seq<Seq<Seq<char>>>,
    e: Seq<(Seq<char>, Seq<char>)>,
    i: int,
) -> bool {
    forall|a: int|
        #![trigger ps[a]]
        0 <= a < vs.len() ==> sorted_text(ps[a]) && ps[a].to_multiset() =~= packages_for(
            e.take(i),
            vs[a],
        ).to_multiset()
}

/// The invariant of the grouping loop after `i` entries of `e`.
pub open spec fn groups_ok(
    vs: Seq<Seq<char>>,
    ps: Seq<Seq<Seq<char>>>,
    e: Seq<(Seq<char>, Seq<char>)>,
    i: int,
) -> bool {
    &&& vs.len() == ps.len()
    &&& g_sorted(vs)
    &&& g_listed(vs, e, i)
    &&& g_covered(vs, e, i)
    &&& g_packages(vs, ps, e, i)
}

fn one_package(pkg: String) -> (r: Vec<String>)
    ensures
        strs(r@) == seq![pkg@],
        sorted_text(strs(r@)),
{
    let mut r: Vec<String> = Vec::new();
    r.push(pkg);
    assert(strs(r@) =~= seq![pkg@]);
    r
}

proof fn lemma_groups_start(e: Seq<(Seq<char>, Seq<char>)>)
    ensures
        groups_ok(Seq::<Seq<char>>::empty(), Seq::<Seq<Seq<char>>>::empty(), e, 0),
{
    reveal(g_sorted);
    reveal(g_listed);
    reveal(g_covered);
    reveal(g_packages);
}

/// Versions in a strictly sorted list are distinct.
proof fn lemma_sorted_distinct(vs: Seq<Seq<char>>, a: int, b: int)
    requires
        g_sorted(vs),
        0 <= a < vs.len(),
        0 <= b < vs.len(),
        a != b,
    ensures
        vs[a] != vs[b],
{
    reveal(g_sorted);
    if a < b {
        lemma_lex_flip(vs[a], vs[b]);
    } else {
        lemma_lex_flip(vs[b], vs[a]);
    }
}

/// Adding entry `i` to the existing group `p` of its version.
proof fn lemma_groups_add_existing(
    vs: Seq<Seq<char>>,
    ps: Seq<Seq<Seq<char>>>,
    e: Seq<(Seq<char>, Seq<char>)>,
    i: int,
    p: int,
    g: Seq<Seq<char>>,
)
    requires
        0 <= i < e.len(),
        groups_ok(vs, ps, e, i),
        0 <= p < vs.len(),
        vs[p] == e[i].0,
        sorted_text(g),
        g.to_multiset() =~= ps[p].to_multiset().insert(e[i].1),
    ensures
        groups_ok(vs, ps.update(p, g), e, i + 1),
{
    let ps2 = ps.update(p, g);
    assert(g_packages(vs, ps2, e, i + 1)) by {
        reveal(g_packages);
        assert forall|a: int| #![trigger ps2[a]] 0 <= a < vs.len() implies sorted_text(ps2[a])
            && ps2[a].to_multiset() =~= packages_for(e.take(i + 1), vs[a]).to_multiset() by {
            broadcast use vstd::seq_lib::group_to_multiset_ensures;

            lemma_packages_for_step(e, i, vs[a]);
            if a != p {
                assert(ps2[a] == ps[a]);
                lemma_sorted_distinct(vs, a, p);
            }
        }
    }
    assert(g_covered(vs, e, i + 1)) by {
        reveal(g_covered);
        assert forall|k: int| #![trigger e[k]] 0 <= k < i + 1 implies exists|a: int|
            #![trigger vs[a]]
            0 <= a < vs.len() && vs[a] == e[k].0 by {
            if k == i {
                assert(vs[p] == e[k].0);
            }
        }
    }
    assert(g_listed(vs, e, i + 1)) by {
        reveal(g_listed);
        assert forall|a: int| #![trigger vs[a]] 0 <= a < vs.len() implies exists|k: int|
            #![trigger e[k]]
            0 <= k < i + 1 && e[k].0 == vs[a] by {
            let k = choose|k: int| #![trigger e[k]] 0 <= k < i && e[k].0 == vs[a];
            assert(e[k].0 == vs[a]);
        }
    }
}

/// A version greater than everything before `p` and less than everything
/// from `p` on.
pub open spec fn fits_at(vs: Seq<Seq<char>>, p: int, v: Seq<char>) -> bool {
    &&& 0 <= p <= vs.len()
    &&& forall|k: int| 0 <= k < p ==> lex_order(vs[k], v) == Rel::Less
    &&& p < vs.len() ==> lex_order(vs[p], v) == Rel::Greater
}

proof fn lemma_fits_at_order(vs: Seq<Seq<char>>, p: int, v: Seq<char>, a: int)
    requires
        g_sorted(vs),
        fits_at(vs, p, v),
        0 <= a < vs.len(),
    ensures
        vs[a] != v,
        a < p ==> lex_order(vs[a], v) == Rel::Less,
        a >= p ==> lex_order(v, vs[a]) == Rel::Less,
{
    reveal(g_sorted);
    if a < p {
        lemma_lex_flip(vs[a], v);
    } else {
        lemma_lex_flip(vs[p], v);
        if a > p {
            lemma_lex_trans(v, vs[p], vs[a]);
        }
        lemma_lex_flip(v, vs[a]);
    }
}

proof fn lemma_new_sorted(vs: Seq<Seq<char>>, p: int, v: Seq<char>)
    requires
        g_sorted(vs),
        fits_at(vs, p, v),
    ensures
        g_sorted(vs.insert(p, v)),
{
    let vs2 = vs.insert(p, v);
    vs.insert_ensures(p, v);
    reveal(g_sorted);
    assert forall|a: int, b: int| 0 <= a < b < vs2.len() implies lex_order(vs2[a], vs2[b])
        == Rel::Less by {
        if b < p {
        } else if b == p {
            lemma_fits_at_order(vs, p, v, a);
        } else if a == p {
            lemma_fits_at_order(vs, p, v, b - 1);
        } else if a < p {
            assert(vs2[a] == vs[a] && vs2[b] == vs[b - 1]);
        } else {
            assert(vs2[a] == vs[a - 1] && vs2[b] == vs[b - 1]);
        }
    }
}

proof fn lemma_new_covered(vs: Seq<Seq<char>>, e: Seq<(Seq<char>, Seq<char>)>, i: int, p: int)
    requires
        0 <= i < e.len(),
        0 <= p <= vs.len(),
        g_covered(vs, e, i),
    ensures
        g_covered(vs.insert(p, e[i].0), e, i + 1),
{
    let v = e[i].0;
    let vs2 = vs.insert(p, v);
    vs.insert_ensures(p, v);
    reveal(g_covered);
    assert forall|k: int| #![trigger e[k]] 0 <= k < i + 1 implies exists|a: int|
        #![trigger vs2[a]]
        0 <= a < vs2.len() && vs2[a] == e[k].0 by {
        if k == i {
            assert(vs2[p] == e[k].0);
        } else {
            let a = choose|a: int| #![trigger vs[a]] 0 <= a < vs.len() && vs[a] == e[k].0;
            if a < p {
                assert(vs2[a] == vs[a]);
            } else {
                assert(vs2[a + 1] == vs[a]);
            }
        }
    }
}

proof fn lemma_new_listed(vs: Seq<Seq<char>>, e: Seq<(Seq<char>, Seq<char>)>, i: int, p: int)
    requires
        0 <= i < e.len(),
        0 <= p <= vs.len(),
        g_listed(vs, e, i),
    ensures
        g_listed(vs.insert(p, e[i].0), e, i + 1),
{
    let v = e[i].0;
    let vs2 = vs.insert(p, v);
    vs.insert_ensures(p, v);
    reveal(g_listed);
    assert forall|a: int| #![trigger vs2[a]] 0 <= a < vs2.len() implies exists|k: int|
        #![trigger e[k]]
        0 <= k < i + 1 && e[k].0 == vs2[a] by {
        if a == p {
            assert(e[i].0 == vs2[a]);
        } else if a < p {
            assert(vs2[a] == vs[a]);
            let k = choose|k: int| #![trigger e[k]] 0 <= k < i && e[k].0 == vs[a];
            assert(e[k].0 == vs2[a]);
        } else {
            assert(vs2[a] == vs[a - 1]);
            let k = choose|k: int| #![trigger e[k]] 0 <= k < i && e[k].0 == vs[a - 1];
            assert(e[k].0 == vs2[a]);
        }
    }
}

proof fn lemma_group_sorted(
    vs: Seq<Seq<char>>,
    ps: Seq<Seq<Seq<char>>>,
    e: Seq<(Seq<char>, Seq<char>)>,
    i: int,
    p: int,
)
    requires
        groups_ok(vs, ps, e, i),
        0 <= p < vs.len(),
    ensures
        sorted_text(ps[p]),
{
    reveal(g_packages);
}

proof fn lemma_new_packages(
    vs: Seq<Seq<char>>,
    ps: Seq<Seq<Seq<char>>>,
    e: Seq<(Seq<char>, Seq<char>)>,
    i: int,
    p: int,
)
    requires
        0 <= i < e.len(),
        groups_ok(vs, ps, e, i),
        fits_at(vs, p, e[i].0),
    ensures
        g_packages(vs.insert(p, e[i].0), ps.insert(p, seq![e[i].1]), e, i + 1),
{
    let v = e[i].0;
    let vs2 = vs.insert(p, v);
    let ps2 = ps.insert(p, seq![e[i].1]);
    vs.insert_ensures(p, v);
    ps.insert_ensures(p, seq![e[i].1]);
    assert forall|k: int| 0 <= k < i implies (#[trigger] e.take(i)[k]).0 != v by {
        reveal(g_covered);
        assert(e.take(i)[k] == e[k]);
        let a = choose|a: int| #![trigger vs[a]] 0 <= a < vs.len() && vs[a] == e[k].0;
        lemma_fits_at_order(vs, p, v, a);
    }
    lemma_packages_for_absent(e.take(i), v);
    lemma_packages_for_step(e, i, v);
    assert(packages_for(e.take(i + 1), v) =~= seq![e[i].1]);
    reveal(g_packages);
    assert forall|a: int| #![trigger ps2[a]] 0 <= a < vs2.len() implies sorted_text(ps2[a])
        && ps2[a].to_multiset() =~= packages_for(e.take(i + 1), vs2[a]).to_multiset() by {
        if a < p {
            assert(ps2[a] == ps[a] && vs2[a] == vs[a]);
            lemma_packages_for_step(e, i, vs[a]);
            lemma_fits_at_order(vs, p, v, a);
        } else if a == p {
            assert(ps2[a] == seq![e[i].1]);
        } else {
            assert(ps2[a] == ps[a - 1] && vs2[a] == vs[a - 1]);
            lemma_packages_for_step(e, i, vs[a - 1]);
            lemma_fits_at_order(vs, p, v, a - 1);
        }
    }
}

/// Opening a new group for entry `i` at position `p`.
proof fn lemma_groups_add_new(
    vs: Seq<Seq<char>>,
    ps: Seq<Seq<Seq<char>>>,
    e: Seq<(Seq<char>, Seq<char>)>,
    i: int,
    p: int,
)
    requires
        0 <= i < e.len(),
        groups_ok(vs, ps, e, i),
        fits_at(vs, p, e[i].0),
    ensures
        groups_ok(vs.insert(p, e[i].0), ps.insert(p, seq![e[i].1]), e, i + 1),
{
    lemma_new_sorted(vs, p, e[i].0);
    lemma_new_listed(vs, e, i, p);
    lemma_new_covered(vs, e, i, p);
    lemma_new_packages(vs, ps, e, i, p);
    vs.insert_ensures(p, e[i].0);
    ps.insert_ensures(p, seq![e[i].1]);
}

pub open spec fn assembled(
    ks: Seq<InstalledKernel>,
    vs: Seq<Seq<char>>,
    ps: Seq<Seq<Seq<char>>>,
    running: Seq<char>,
) -> bool {
    &&& ks.len() == vs.len()
    &&& forall|a: int|
        0 <= a < ks.len() ==> (#[trigger] ks[a]).version@ == vs[a] && strs(ks[a].packages@)
            == ps[a] && ks[a].running == (running.len() > 0 && vs[a] == running)
}

proof fn lemma_done_ascending(ks: Seq<InstalledKernel>, vs: Seq<Seq<char>>, ps: Seq<Seq<Seq<char>>>, running: Seq<char>)
    requires
        g_sorted(vs),
        assembled(ks, vs, ps, running),
    ensures
        versions_ascending(ks),
{
    reveal(g_sorted);
    assert forall|i: int, j: int| 0 <= i < j < ks.len() implies lex_order(
        ks[i].version@,
        ks[j].version@,
    ) == Rel::Less by {
        assert(ks[i].version@ == vs[i] && ks[j].version@ == vs[j]);
    }
}

proof fn lemma_done_listed(
    ks: Seq<InstalledKernel>,
    vs: Seq<Seq<char>>,
    ps: Seq<Seq<Seq<char>>>,
    entries: Seq<(Seq<char>, Seq<char>)>,
    running: Seq<char>,
)
    requires
        g_listed(vs, entries, entries.len() as int),
        g_covered(vs, entries, entries.len() as int),
        assembled(ks, vs, ps, running),
    ensures
        versions_listed(ks, entries),
{
    assert forall|i: int| 0 <= i < ks.len() implies #[trigger] is_listed(entries, ks[i].version@) by {
        reveal(g_listed);
        assert(ks[i].version@ == vs[i]);
        let k = choose|k: int| #![trigger entries[k]] 0 <= k < entries.len() && entries[k].0
            == vs[i];
        assert(entries[k].0 == ks[i].version@);
    }
    assert forall|e: int| 0 <= e < entries.len() implies #[trigger] has_version(ks, entries[e].0) by {
        reveal(g_covered);
        let a = choose|a: int| #![trigger vs[a]] 0 <= a < vs.len() && vs[a] == entries[e].0;
        assert(ks[a].version@ == vs[a]);
    }
}

proof fn lemma_done_packages(
    ks: Seq<InstalledKernel>,
    vs: Seq<Seq<char>>,
    ps: Seq<Seq<Seq<char>>>,
    entries: Seq<(Seq<char>, Seq<char>)>,
    running: Seq<char>,
)
    requires
        g_packages(vs, ps, entries, entries.len() as int),
        assembled(ks, vs, ps, running),
    ensures
        packages_listed(ks, entries),
{
    reveal(g_packages);
    assert(entries.take(entries.len() as int) =~= entries);
    assert forall|i: int| 0 <= i < ks.len() implies sorted_text(strs(ks[i].packages@)) && strs(
        ks[i].packages@,
    ).to_multiset() =~= packages_for(entries, ks[i].version@).to_multiset() by {
        assert(strs(ks[i].packages@) == ps[i]);
        assert(ks[i].version@ == vs[i]);
    }
}

proof fn lemma_done_running(ks: Seq<InstalledKernel>, vs: Seq<Seq<char>>, ps: Seq<Seq<Seq<char>>>, running: Seq<char>)
    requires
        assembled(ks, vs, ps, running),
    ensures
        running_marked(ks, running),
{
    assert forall|i: int| 0 <= i < ks.len() implies ks[i].running == (running.len() > 0
        && ks[i].version@ == running) by {
        assert(ks[i].version@ == vs[i]);
    }
}

proof fn lemma_groups_done(
    ks: Seq<InstalledKernel>,
    vs: Seq<Seq<char>>,
    ps: Seq<Seq<Seq<char>>>,
    e: Seq<(Seq<char>, Seq<char>)>,
    running: Seq<char>,
)
    requires
        groups_ok(vs, ps, e, e.len() as int),
        assembled(ks, vs, ps, running),
    ensures
        grouped(ks, e, running),
{
    lemma_done_ascending(ks, vs, ps, running);
    lemma_done_listed(ks, vs, ps, e, running);
    lemma_done_packages(ks, vs, ps, e, running);
    lemma_done_running(ks, vs, ps, running);
}

/// Groups (version, package) pairs by version, in ascending version order,
/// with each group's packages sorted.
fn group_kernels(entries: &Vec<(String, String)>, running: &str) -> (r: Vec<InstalledKernel>)
    ensures
        grouped(r@, pair_views(entries@), running@),
{
    let ghost e = pair_views(entries@);
    let mut versions: Vec<String> = Vec::new();
    let mut packs: Vec<Vec<String>> = Vec::new();
    let mut i: usize = 0;
    proof {
        lemma_groups_start(e);
        assert(strs(versions@) =~= Seq::<Seq<char>>::empty());
        assert(group_views(packs@) =~= Seq::<Seq<Seq<char>>>::empty());
    }
    while i < entries.len()
        invariant
            0 <= i <= entries@.len(),
            e == pair_views(entries@),
            versions@.len() == packs@.len(),
            groups_ok(strs(versions@), group_views(packs@), e, i as int),
        decreases entries@.len() - i,
    {
        let ghost vs = strs(versions@);
        let ghost ps = group_views(packs@);
        let ver = entries[i].0.clone();
        let pkg = entries[i].1.clone();
        assert(e[i as int] == (ver@, pkg@));
        let mut p: usize = 0;
        while p < versions.len() && compare_str(versions[p].as_str(), ver.as_str()) == Rel::Less
            invariant
                vs == strs(versions@),
                0 <= p <= versions@.len(),
                forall|k: int| 0 <= k < p ==> lex_order(vs[k], ver@) == Rel::Less,
            decreases versions@.len() - p,
        {
            p += 1;
        }
        if p < versions.len() && compare_str(versions[p].as_str(), ver.as_str()) == Rel::Equal {
            proof {
                lemma_lex_flip(vs[p as int], ver@);
                lemma_group_sorted(vs, ps, e, i as int, p as int);
            }
            let mut g = packs.remove(p);
            assert(strs(g@) == ps[p as int]);
            insert_sorted(&mut g, pkg);
            let ghost gv = strs(g@);
            packs.insert(p, g);
            proof {
                lemma_groups_add_existing(vs, ps, e, i as int, p as int, gv);
                assert(group_views(packs@) =~= ps.update(p as int, gv));
            }
        } else {
            let ghost verv = ver@;
            proof {
                if p < vs.len() {
                    lemma_lex_flip(vs[p as int], verv);
                }
                assert(fits_at(vs, p as int, e[i as int].0));
            }
            versions.insert(p, ver);
            let g = one_package(pkg);
            let ghost gv = strs(g@);
            packs.insert(p, g);
            proof {
                lemma_groups_add_new(vs, ps, e, i as int, p as int);
                assert(strs(versions@) =~= vs.insert(p as int, verv));
                assert(group_views(packs@) =~= ps.insert(p as int, gv));
            }
        }
        i += 1;
    }
    assemble_kernels(versions, packs, running, Ghost(e))
}

fn assemble_kernels(
    versions: Vec<String>,
    packs: Vec<Vec<String>>,
    running: &str,
    Ghost(e): Ghost<Seq<(Seq<char>, Seq<char>)>>,
) -> (r: Vec<InstalledKernel>)
    requires
        versions@.len() == packs@.len(),
        groups_ok(strs(versions@), group_views(packs@), e, e.len() as int),
    ensures
        grouped(r@, e, running@),
{
    let ghost vs = strs(versions@);
    let ghost ps = group_views(packs@);
    let mut versions = versions;
    let mut packs = packs;
    let run = chars_of(running);
    let mut out: Vec<InstalledKernel> = Vec::new();
    let n = versions.len();
    let mut j: usize = 0;
    while versions.len() > 0
        invariant
            n == vs.len(),
            vs.len() == ps.len(),
            j + versions@.len() == n,
            versions@.len() == packs@.len(),
            strs(versions@) == vs.skip(j as int),
            group_views(packs@) == ps.skip(j as int),
            run@ == running@,
            out@.len() == j,
            forall|a: int|
                0 <= a < j ==> (#[trigger] out@[a]).version@ == vs[a] && strs(out@[a].packages@)
                    == ps[a] && out@[a].running == (running@.len() > 0 && vs[a] == running@),
        decreases versions@.len(),
    {
        assert(strs(versions@)[0] == vs[j as int]);
        assert(group_views(packs@)[0] == ps[j as int]);
        let ghost old_v = versions@;
        let ghost old_p = packs@;
        let v = versions.remove(0);
        let g = packs.remove(0);
        assert(versions@ =~= old_v.drop_first());
        assert(packs@ =~= old_p.drop_first());
        let is_running = run.len() > 0 && compare_str(v.as_str(), running) == Rel::Equal;
        proof {
            lemma_lex_flip(v@, running@);
        }
        out.push(InstalledKernel { version: v, packages: g, running: is_running });
        j += 1;
        assert(strs(versions@) =~= strs(old_v).drop_first());
        assert(group_views(packs@) =~= group_views(old_p).drop_first());
        assert(vs.skip(j - 1).drop_first() =~= vs.skip(j as int));
        assert(ps.skip(j - 1).drop_first() =~= ps.skip(j as int));
    }
    proof {
        lemma_groups_done(out@, vs, ps, e, running@);
    }
    out
}

/// Parse `rpm -q --qf '%{NAME} %{VERSION}-%{RELEASE}.%{ARCH}\n'` output into
/// kernels grouped by version.
pub fn parse_rpm_kernels(output: &str, running: &str) -> (r: Vec<InstalledKernel>)
    ensures
        grouped(r@, entries_of(lines(output@), ListingFormat::Rpm), running@),
{
    let entries = listing_entries(output, ListingFormat::Rpm);
    group_kernels(&entries, running)
}

/// Parse `dpkg-query -W -f='${Package}\t${Status}\n'` output into kernels
/// grouped by the release encoded in the package name.
pub fn parse_dpkg_kernels(output: &str, running: &str) -> (r: Vec<InstalledKernel>)
    ensures
        grouped(r@, entries_of(lines(output@), ListingFormat::Dpkg), running@),
{
    let entries = listing_entries(output, ListingFormat::Dpkg);
    group_kernels(&entries, running)
}

// ---------------------------------------------------------------------------
// Finding the package manager and listing kernels
// ---------------------------------------------------------------------------
/// The directories searched for a command, in order.
pub open spec fn spec_command_dirs() -> Seq<Seq<char>> {
    seq!["/usr/bin"@, "/bin"@, "/usr/sbin"@, "/sbin"@]
}

/// Where a command is looked for, in order: each of the command directories
/// joined with its name.
pub fn command_candidates(command: &str) -> (r: Vec<String>)
    ensures
        strs(r@) == spec_command_dirs().map_values(|d: Seq<char>| crate::paths::join(d, command@)),
{
    let dirs: &'static [&'static str] = &["/usr/bin", "/bin", "/usr/sbin", "/sbin"];
    assert(crate::strings::str_views(dirs@) =~= spec_command_dirs());
    let mut out: Vec<String> = Vec::new();
    let mut i: usize = 0;
    while i < dirs.len()
        invariant
            0 <= i <= dirs@.len(),
            crate::strings::str_views(dirs@) == spec_command_dirs(),
            strs(out@) == spec_command_dirs().take(i as int).map_values(
                |d: Seq<char>| crate::paths::join(d, command@),
            ),
        decreases dirs@.len() - i,
    {
        let p = crate::paths::join_path(dirs[i], command);
        let ghost before = strs(out@);
        out.push(p);
        assert(strs(out@) =~= before.push(crate::paths::join(dirs@[i as int]@, command@)));
        i += 1;
        assert(spec_command_dirs().take(i as int).map_values(
            |d: Seq<char>| crate::paths::join(d, command@),
        ) =~= spec_command_dirs().take(i - 1).map_values(
            |d: Seq<char>| crate::paths::join(d, command@),
        ).push(crate::paths::join(spec_command_dirs()[i - 1], command@)));
    }
    assert(spec_command_dirs().take(4) =~= spec_command_dirs());
    out
}

/// The package manager owning kernels, given which commands exist:
/// `pacman` first (Arch derivatives may ship `rpm` without using it), then
/// `apt-get` with `dpkg-query`, then `zypper`, then `dnf`.
pub open spec fn spec_detect_manager(pacman: bool, apt_get: bool, dpkg_query: bool, zypper: bool, dnf: bool) -> Option<KernelManager> {
    if pacman {
        Some(KernelManager::Pacman)
    } else if apt_get && dpkg_query {
        Some(KernelManager::Apt)
    } else if zypper {
        Some(KernelManager::Zypper)
    } else if dnf {
        Some(KernelManager::Dnf)
    } else {
        None
    }
}

/// Which commands exist on this system.
#[derive(Clone, Copy, Debug, PartialEq, Eq, Structural)]
pub struct AvailableCommands {
    pub pacman: bool,
    pub apt_get: bool,
    pub dpkg_query: bool,
    pub zypper: bool,
    pub dnf: bool,
    pub rpm: bool,
}

/// The package manager owning kernels (see `spec_detect_manager`).
pub fn detect_manager(commands: AvailableCommands) -> (r: Option<KernelManager>)
    ensures
        r == spec_detect_manager(commands.pacman, commands.apt_get, commands.dpkg_query, commands.zypper, commands.dnf),
{
    if commands.pacman {
        return Some(KernelManager::Pacman);
    }
    if commands.apt_get && commands.dpkg_query {
        return Some(KernelManager::Apt);
    }
    if commands.zypper {
        return Some(KernelManager::Zypper);
    }
    if commands.dnf {
        return Some(KernelManager::Dnf);
    }
    None
}

/// A query to run: the command and its arguments.
pub struct KernelQuery {
    pub command: String,
    pub args: Vec<String>,
}

pub open spec fn query_view(q: KernelQuery) -> (Seq<char>, Seq<Seq<char>>) {
    (q.command@, strs(q.args@))
}

/// The queries that list the installed kernels, in order: none for pacman;
/// `dpkg-query` for apt; for dnf and zypper, `rpm` for the providers of
/// each install-only capability.
pub open spec fn spec_kernel_queries(m: KernelManager) -> Seq<(Seq<char>, Seq<Seq<char>>)> {
    match m {
        KernelManager::Pacman => seq![],
        KernelManager::Apt => seq![
            (
                "dpkg-query"@,
                seq![
                    "-W"@,
                    "-f=${Package}\\t${Status}\\n"@,
                    "linux-image-*"@,
                    "linux-modules-*"@,
                    "linux-headers-*"@,
                ],
            ),
        ],
        _ => seq![
            (
                "rpm"@,
                seq![
                    "-q"@,
                    "--whatprovides"@,
                    "installonlypkg(kernel)"@,
                    "--qf"@,
                    "%{NAME} %{VERSION}-%{RELEASE}.%{ARCH}\n"@,
                ],
            ),
            (
                "rpm"@,
                seq![
                    "-q"@,
                    "--whatprovides"@,
                    "installonlypkg(kernel-module)"@,
                    "--qf"@,
                    "%{NAME} %{VERSION}-%{RELEASE}.%{ARCH}\n"@,
                ],
            ),
        ],
    }
}

fn query_of(command: &str, args: &[&str]) -> (r: KernelQuery)
    ensures
        query_view(r) == (command@, crate::strings::str_views(args@)),
{
    let mut v: Vec<String> = Vec::new();
    crate::strings::push_strs(&mut v, args);
    assert(strs(v@) =~= crate::strings::str_views(args@));
    KernelQuery { command: owned(command), args: v }
}

/// The queries that list the installed kernels (see `spec_kernel_queries`).
pub fn kernel_queries(m: KernelManager) -> (r: Vec<KernelQuery>)
    ensures
        r@.map_values(|q: KernelQuery| query_view(q)) == spec_kernel_queries(m),
{
    let mut out: Vec<KernelQuery> = Vec::new();
    match m {
        KernelManager::Pacman => {},
        KernelManager::Apt => {
            let args: &'static [&'static str] = &[
                "-W",
                "-f=${Package}\\t${Status}\\n",
                "linux-image-*",
                "linux-modules-*",
                "linux-headers-*",
            ];
            assert(crate::strings::str_views(args@) =~= spec_kernel_queries(m)[0].1);
            out.push(query_of("dpkg-query", args));
        },
        _ => {
            let a: &'static [&'static str] = &[
                "-q",
                "--whatprovides",
                "installonlypkg(kernel)",
                "--qf",
                "%{NAME} %{VERSION}-%{RELEASE}.%{ARCH}\n",
            ];
            assert(crate::strings::str_views(a@) =~= spec_kernel_queries(m)[0].1);
            out.push(query_of("rpm", a));
            let b: &'static [&'static str] = &[
                "-q",
                "--whatprovides",
                "installonlypkg(kernel-module)",
                "--qf",
                "%{NAME} %{VERSION}-%{RELEASE}.%{ARCH}\n",
            ];
            assert(crate::strings::str_views(b@) =~= spec_kernel_queries(m)[1].1);
            out.push(query_of("rpm", b));
        },
    }
    assert(out@.map_values(|q: KernelQuery| query_view(q)) =~= spec_kernel_queries(m));
    out
}

/// The message when no supported package manager is found.
pub open spec fn no_manager_text() -> Seq<char> {
    "No supported package manager was found on this system."@
}

/// The plan for this system, given the package manager found, the running
/// kernel's release, and the concatenated output of its kernel queries (or
/// the error of the first that could not run): no manager is an error, a
/// failed query passes its error on, pacman has nothing to list.
pub fn build_plan(manager: Option<KernelManager>, running: &str, listing: Result<String, String>, keep: u32) -> (r: Result<KernelPlan, String>)
    ensures
        manager is None ==> (r matches Err(e) && e@ == no_manager_text()),
        manager matches Some(m) ==> match (m, listing) {
            (KernelManager::Pacman, _) => (r matches Ok(plan) && planned(plan, m, Seq::<InstalledKernel>::empty(), keep)),
            (_, Err(e)) => (r matches Err(x) && x@ == e@),
            (KernelManager::Apt, Ok(out)) => (r matches Ok(plan) && exists|ks: Seq<InstalledKernel>|
                grouped(ks, entries_of(lines(out@), ListingFormat::Dpkg), running@) && #[trigger] planned(plan, m, ks, keep)),
            (_, Ok(out)) => (r matches Ok(plan) && exists|ks: Seq<InstalledKernel>|
                grouped(ks, entries_of(lines(out@), ListingFormat::Rpm), running@) && #[trigger] planned(plan, m, ks, keep)),
        },
{
    let m = match manager {
        Some(m) => m,
        None => {
            return Err(owned("No supported package manager was found on this system."));
        },
    };
    if m == KernelManager::Pacman {
        let empty: Vec<InstalledKernel> = Vec::new();
        assert(empty@ =~= Seq::<InstalledKernel>::empty());
        let plan = plan_removal(m, empty, keep);
        return Ok(plan);
    }
    let out = match listing {
        Ok(o) => o,
        Err(e) => {
            return Err(e);
        },
    };
    let kernels = if m == KernelManager::Apt {
        parse_dpkg_kernels(out.as_str(), running)
    } else {
        parse_rpm_kernels(out.as_str(), running)
    };
    let ghost ks = kernels@;
    let plan = plan_removal(m, kernels, keep);
    assert(planned(plan, m, ks, keep));
    Ok(plan)
}

} // verus!
