//! The configuration the application keeps: where it lives, how saved
//! browser rules are brought up to date, and how enabled rules are counted.
use vstd::prelude::*;
use crate::browser::{BrowserDataType, BrowserRule, BrowserType};
use crate::paths::{join, join_path};
use crate::outside::{config_dir, home_dir, same_rule_id};
use crate::rules::{AppRule, CustomRule, SystemRule, SystemRuleType};
use crate::settings::AppSettings;
use crate::strings::str_views;
use crate::text::owned;

verus! {

/// Something a user can switch on or off.
pub trait Enableable {
    spec fn spec_is_enabled(&self) -> bool;

    fn is_enabled(&self) -> (r: bool)
        ensures
            r == self.spec_is_enabled(),
    ;
}

impl Enableable for BrowserRule {
    open spec fn spec_is_enabled(&self) -> bool {
        self.enabled
    }

    fn is_enabled(&self) -> (r: bool) {
        self.enabled
    }
}

impl Enableable for AppRule {
    open spec fn spec_is_enabled(&self) -> bool {
        self.enabled
    }

    fn is_enabled(&self) -> (r: bool) {
        self.enabled
    }
}

impl Enableable for CustomRule {
    open spec fn spec_is_enabled(&self) -> bool {
        self.enabled
    }

    fn is_enabled(&self) -> (r: bool) {
        self.enabled
    }
}

impl Enableable for SystemRule {
    open spec fn spec_is_enabled(&self) -> bool {
        self.enabled
    }

    fn is_enabled(&self) -> (r: bool) {
        self.enabled
    }
}

/// How many of `s` are enabled.
pub open spec fn enabled_count<T: Enableable>(s: Seq<T>) -> nat
    decreases s.len(),
{
    if s.len() == 0 {
        0
    } else {
        enabled_count(s.drop_last()) + if s.last().spec_is_enabled() {
            1nat
        } else {
            0nat
        }
    }
}

pub proof fn lemma_enabled_count_bounded<T: Enableable>(s: Seq<T>)
    ensures
        enabled_count(s) <= s.len(),
    decreases s.len(),
{
    if s.len() > 0 {
        lemma_enabled_count_bounded(s.drop_last());
    }
}

/// How many of `rules` are enabled.
pub fn count_enabled<T: Enableable>(rules: &Vec<T>) -> (r: usize)
    ensures
        r == enabled_count(rules@),
{
    let mut n: usize = 0;
    let mut i: usize = 0;
    while i < rules.len()
        invariant
            0 <= i <= rules@.len(),
            n == enabled_count(rules@.take(i as int)),
        decreases rules@.len() - i,
    {
        assert(rules@.take(i + 1).drop_last() =~= rules@.take(i as int));
        proof {
            lemma_enabled_count_bounded(rules@.take(i as int));
        }
        if rules[i].is_enabled() {
            n = n + 1;
        }
        i += 1;
    }
    assert(rules@.take(rules@.len() as int) =~= rules@);
    n
}

/// The settings and every list of rules.
pub struct RuleSet {
    pub settings: AppSettings,
    pub browser_rules: Vec<BrowserRule>,
    pub app_rules: Vec<AppRule>,
    pub custom_rules: Vec<CustomRule>,
    pub system_rules: Vec<SystemRule>,
}

impl RuleSet {
    /// Everything that a cleanup would run: the enabled rules of each list,
    /// and the application-log and system-journal cleanups when switched on.
    pub fn count_enabled_rules(&self) -> (r: usize)
        requires
            self.browser_rules@.len() + self.app_rules@.len() + self.custom_rules@.len()
                + self.system_rules@.len() + 2 <= usize::MAX,
        ensures
            r == enabled_count(self.browser_rules@) + enabled_count(self.app_rules@)
                + enabled_count(self.custom_rules@) + enabled_count(self.system_rules@) + (if self.settings.application_log_cleanup_enabled {
                1int
            } else {
                0int
            }) + (if self.settings.system_journal_cleanup_enabled {
                1int
            } else {
                0int
            }),
    {
        proof {
            lemma_enabled_count_bounded(self.browser_rules@);
            lemma_enabled_count_bounded(self.app_rules@);
            lemma_enabled_count_bounded(self.custom_rules@);
            lemma_enabled_count_bounded(self.system_rules@);
        }
        let a = count_enabled(&self.browser_rules);
        let b = count_enabled(&self.app_rules);
        let c = count_enabled(&self.custom_rules);
        let d = count_enabled(&self.system_rules);
        let e: usize = if self.settings.application_log_cleanup_enabled {
            1
        } else {
            0
        };
        let f: usize = if self.settings.system_journal_cleanup_enabled {
            1
        } else {
            0
        };
        a + b + c + d + e + f
    }
}

// ---------------------------------------------------------------------------
// Bringing saved browser rules up to date
// ---------------------------------------------------------------------------
/// A rule with `browser` and `kind` is among `rules`.
pub open spec fn has_rule_for(rules: Seq<BrowserRule>, browser: BrowserType, kind: BrowserDataType) -> bool {
    exists|i: int|
        0 <= i < rules.len() && (#[trigger] rules[i]).browser == browser && rules[i].data_type == kind
}

/// Rules of browsers that are not installed are switched off.
pub open spec fn switched_off(rules: Seq<BrowserRule>, installed: Seq<BrowserType>) -> Seq<BrowserRule> {
    rules.map_values(
        |r: BrowserRule|
            if r.enabled && !installed.contains(r.browser) {
                BrowserRule { enabled: false, ..r }
            } else {
                r
            },
    )
}

/// Each default rule whose browser and kind no rule has yet is appended, in
/// order.
pub open spec fn with_missing_defaults(rules: Seq<BrowserRule>, defaults: Seq<BrowserRule>) -> Seq<
    BrowserRule,
>
    decreases defaults.len(),
{
    if defaults.len() == 0 {
        rules
    } else {
        let r = with_missing_defaults(rules, defaults.drop_last());
        let d = defaults.last();
        if has_rule_for(r, d.browser, d.data_type) {
            r
        } else {
            r.push(d)
        }
    }
}

/// The saved rules brought up to date with the current catalog.
pub open spec fn reconciled(rules: Seq<BrowserRule>, installed: Seq<BrowserType>, defaults: Seq<BrowserRule>) -> Seq<
    BrowserRule,
> {
    with_missing_defaults(switched_off(rules, installed), defaults)
}

fn find_rule_for(rules: &Vec<BrowserRule>, browser: BrowserType, kind: BrowserDataType) -> (r: bool)
    ensures
        r == has_rule_for(rules@, browser, kind),
{
    let mut i: usize = 0;
    while i < rules.len()
        invariant
            0 <= i <= rules@.len(),
            forall|k: int|
                0 <= k < i ==> !((#[trigger] rules@[k]).browser == browser && rules@[k].data_type
                    == kind),
        decreases rules@.len() - i,
    {
        if rules[i].browser == browser && rules[i].data_type == kind {
            assert(rules@[i as int].browser == browser);
            return true;
        }
        i += 1;
    }
    false
}

/// Brings saved browser rules up to date: rules of browsers no longer
/// installed are switched off, and every default rule for a browser and kind
/// no saved rule covers is added. Returns whether anything changed.
pub fn reconcile_browser_rules(rules: &mut Vec<BrowserRule>, installed: &[BrowserType], defaults: Vec<BrowserRule>) -> (changed: bool)
    ensures
        final(rules)@ == reconciled(old(rules)@, installed@, defaults@),
        changed == (final(rules)@ != old(rules)@),
{
    let ghost start = rules@;
    let mut changed = false;
    let mut i: usize = 0;
    while i < rules.len()
        invariant
            0 <= i <= rules@.len(),
            rules@.len() == start.len(),
            forall|k: int| 0 <= k < i ==> #[trigger] rules@[k] == switched_off(start, installed@)[k],
            forall|k: int| i <= k < rules@.len() ==> #[trigger] rules@[k] == start[k],
            changed == exists|k: int|
                0 <= k < i && (#[trigger] start[k]).enabled && !installed@.contains(start[k].browser),
        decreases rules@.len() - i,
    {
        if rules[i].enabled && !rules[i].browser.is_running(installed) {
            let mut r = rules.remove(i);
            r.enabled = false;
            rules.insert(i, r);
            changed = true;
        }
        i += 1;
    }
    assert(rules@ =~= switched_off(start, installed@));
    let ghost off = rules@;
    proof {
        if !changed {
            assert(off =~= start);
        } else {
            let k = choose|k: int|
                0 <= k < start.len() && (#[trigger] start[k]).enabled && !installed@.contains(
                    start[k].browser,
                );
            assert(off[k].enabled != start[k].enabled);
        }
    }
    let ghost changed_off = changed;
    let mut defaults = defaults;
    let ghost ds = defaults@;
    let n = defaults.len();
    let mut j: usize = 0;
    while defaults.len() > 0
        invariant
            n == ds.len(),
            j + defaults@.len() == n,
            defaults@ == ds.skip(j as int),
            rules@ == with_missing_defaults(off, ds.take(j as int)),
            rules@.len() >= off.len(),
            rules@.subrange(0, off.len() as int) == off,
            (changed == changed_off) || (changed && rules@.len() > off.len()),
            changed ==> (changed_off || rules@.len() > off.len()),
            rules@.len() > off.len() ==> changed,
        decreases defaults@.len(),
    {
        let ghost before = defaults@;
        let d = defaults.remove(0);
        assert(defaults@ =~= before.drop_first());
        assert(d == ds[j as int]);
        assert(ds.take(j + 1).drop_last() =~= ds.take(j as int));
        assert(ds.take(j + 1).last() == d);
        if !find_rule_for(rules, d.browser, d.data_type) {
            let ghost pre = rules@;
            rules.push(d);
            assert(rules@.subrange(0, off.len() as int) =~= pre.subrange(0, off.len() as int));
            changed = true;
        }
        j += 1;
        assert(ds.skip(j - 1).drop_first() =~= ds.skip(j as int));
    }
    assert(ds.take(n as int) =~= ds);
    proof {
        if changed {
            if changed_off {
                let k = choose|k: int|
                    0 <= k < start.len() && (#[trigger] start[k]).enabled && !installed@.contains(
                        start[k].browser,
                    );
                assert(rules@[k] == off[k]);
                assert(off[k].enabled != start[k].enabled);
            } else {
                assert(rules@.len() != start.len());
            }
        } else {
            assert(rules@.len() == off.len());
            assert(rules@.subrange(0, off.len() as int) =~= rules@);
        }
    }
    changed
}

// ---------------------------------------------------------------------------
// Where the configuration lives
// ---------------------------------------------------------------------------
/// The configuration directory and the one earlier releases used: below the
/// user configuration directory, else hidden below home, else relative to
/// the working directory.
pub open spec fn spec_config_locations(config: Option<Seq<char>>, home: Option<Seq<char>>) -> (
    Seq<char>,
    Seq<char>,
) {
    match config {
        Some(c) => (join(c, "data-cleaner"@), join(c, "cleaner"@)),
        None => match home {
            Some(h) => (join(h, ".data-cleaner"@), join(h, ".cleaner"@)),
            None => (".data-cleaner"@, ".cleaner"@),
        },
    }
}

pub fn config_locations(config: Option<&str>, home: Option<&str>) -> (r: (String, String))
    ensures
        (r.0@, r.1@) == spec_config_locations(crate::security::opt_view(config), crate::security::opt_view(home)),
{
    match config {
        Some(c) => (join_path(c, "data-cleaner"), join_path(c, "cleaner")),
        None => match home {
            Some(h) => (join_path(h, ".data-cleaner"), join_path(h, ".cleaner")),
            None => (owned(".data-cleaner"), owned(".cleaner")),
        },
    }
}

/// The files the configuration consists of.

/// `config_locations` for the current user, with the configuration and home
/// directories the environment gives.
pub fn user_config_locations() -> (r: (String, String))
    ensures
        exists|c: Option<Seq<char>>, h: Option<Seq<char>>|
            (r.0@, r.1@) == #[trigger] spec_config_locations(c, h),
{
    let config = config_dir();
    let home = home_dir();
    let c = crate::security::borrowed(&config);
    let h = crate::security::borrowed(&home);
    let r = config_locations(c, h);
    assert((r.0@, r.1@) == spec_config_locations(crate::security::opt_view(c), crate::security::opt_view(h)));
    r
}
pub open spec fn spec_config_file_names() -> Seq<Seq<char>> {
    seq![
        "settings.json"@,
        "browser_rules.json"@,
        "app_rules.json"@,
        "custom_rules.json"@,
        "system_rules.json"@,
    ]
}

pub fn config_file_names() -> (r: &'static [&'static str])
    ensures
        str_views(r@) == spec_config_file_names(),
{
    let r: &'static [&'static str] = &[
        "settings.json",
        "browser_rules.json",
        "app_rules.json",
        "custom_rules.json",
        "system_rules.json",
    ];
    assert(str_views(r@) =~= spec_config_file_names());
    r
}

/// The configuration of an earlier release is moved over only when there is
/// no current one and the earlier one is a directory.
pub fn legacy_migration_needed(current_exists: bool, legacy_is_dir: bool) -> (r: bool)
    ensures
        r == (!current_exists && legacy_is_dir),
{
    !current_exists && legacy_is_dir
}

// ---------------------------------------------------------------------------
// Switching a rule on or off
// ---------------------------------------------------------------------------
/// The index of the first item of `s` that `p` holds of; `-1` when none.
pub open spec fn first_where<T>(s: Seq<T>, p: spec_fn(T) -> bool) -> int
    decreases s.len(),
{
    if s.len() == 0 {
        -1
    } else if p(s[0]) {
        0
    } else {
        let r = first_where(s.drop_first(), p);
        if r < 0 {
            -1
        } else {
            r + 1
        }
    }
}

proof fn lemma_first_where<T>(s: Seq<T>, p: spec_fn(T) -> bool, i: int)
    requires
        0 <= i <= s.len(),
        forall|j: int| 0 <= j < i ==> !p(#[trigger] s[j]),
        i < s.len() ==> p(s[i]),
    ensures
        first_where(s, p) == if i < s.len() {
            i
        } else {
            -1
        },
    decreases s.len(),
{
    if s.len() > 0 && i > 0 {
        let t = s.drop_first();
        assert forall|j: int| 0 <= j < i - 1 implies !p(#[trigger] t[j]) by {
            assert(t[j] == s[j + 1]);
            assert(!p(s[j + 1]));
        }
        assert(!p(s[0]));
        lemma_first_where(t, p, i - 1);
    }
}

pub open spec fn is_browser_rule(browser: BrowserType, kind: BrowserDataType) -> spec_fn(BrowserRule) -> bool {
    |r: BrowserRule| r.browser == browser && r.data_type == kind
}

/// Whether the switch of a browser's kind of data is on: the first saved
/// rule for them decides; off when there is none.
pub fn browser_rule_enabled(rules: &Vec<BrowserRule>, browser: BrowserType, kind: BrowserDataType) -> (r: bool)
    ensures
        r == {
            let k = first_where(rules@, is_browser_rule(browser, kind));
            k >= 0 && rules@[k].enabled
        },
{
    let mut i: usize = 0;
    while i < rules.len()
        invariant
            0 <= i <= rules@.len(),
            forall|j: int| 0 <= j < i ==> !is_browser_rule(browser, kind)(#[trigger] rules@[j]),
        decreases rules@.len() - i,
    {
        if rules[i].browser == browser && rules[i].data_type == kind {
            proof {
                lemma_first_where(rules@, is_browser_rule(browser, kind), i as int);
            }
            return rules[i].enabled;
        }
        i += 1;
    }
    proof {
        lemma_first_where(rules@, is_browser_rule(browser, kind), i as int);
    }
    false
}

/// Turns a browser's kind of data on or off: the first saved rule for them
/// is switched; when there is none, a new rule for them is added.
pub fn set_browser_rule_enabled(rules: &mut Vec<BrowserRule>, browser: BrowserType, kind: BrowserDataType, enabled: bool)
    ensures
        ({
            let k = first_where(old(rules)@, is_browser_rule(browser, kind));
            if k >= 0 {
                final(rules)@ == old(rules)@.update(k, BrowserRule { enabled, ..old(rules)@[k] })
            } else {
                &&& final(rules)@.len() == old(rules)@.len() + 1
                &&& final(rules)@.take(old(rules)@.len() as int) == old(rules)@
                &&& final(rules)@.last().browser == browser
                &&& final(rules)@.last().data_type == kind
                &&& final(rules)@.last().enabled == enabled
                &&& final(rules)@.last().custom_path is None
            }
        }),
{
    let mut i: usize = 0;
    while i < rules.len()
        invariant
            0 <= i <= rules@.len(),
            rules@ == old(rules)@,
            forall|j: int| 0 <= j < i ==> !is_browser_rule(browser, kind)(#[trigger] rules@[j]),
        decreases rules@.len() - i,
    {
        if rules[i].browser == browser && rules[i].data_type == kind {
            proof {
                lemma_first_where(rules@, is_browser_rule(browser, kind), i as int);
            }
            let mut r = rules.remove(i);
            r.enabled = enabled;
            rules.insert(i, r);
            assert(rules@ =~= old(rules)@.update(i as int, BrowserRule { enabled, ..old(rules)@[i as int] }));
            return;
        }
        i += 1;
    }
    proof {
        lemma_first_where(rules@, is_browser_rule(browser, kind), i as int);
    }
    let mut rule = BrowserRule::new(browser, kind);
    rule.enabled = enabled;
    rules.push(rule);
    assert(rules@.take(old(rules)@.len() as int) =~= old(rules)@);
}

pub open spec fn is_app_rule(id: uuid::Uuid) -> spec_fn(AppRule) -> bool {
    |r: AppRule| r.id == id
}

/// Switches the first application rule with this id; nothing changes when
/// there is none.
pub fn set_app_rule_enabled(rules: &mut Vec<AppRule>, id: &uuid::Uuid, enabled: bool)
    ensures
        ({
            let k = first_where(old(rules)@, is_app_rule(*id));
            if k >= 0 {
                final(rules)@ == old(rules)@.update(k, AppRule { enabled, ..old(rules)@[k] })
            } else {
                final(rules)@ == old(rules)@
            }
        }),
{
    let mut i: usize = 0;
    while i < rules.len()
        invariant
            0 <= i <= rules@.len(),
            rules@ == old(rules)@,
            forall|j: int| 0 <= j < i ==> !is_app_rule(*id)(#[trigger] rules@[j]),
        decreases rules@.len() - i,
    {
        if same_rule_id(&rules[i].id, id) {
            proof {
                lemma_first_where(rules@, is_app_rule(*id), i as int);
            }
            let mut r = rules.remove(i);
            r.enabled = enabled;
            rules.insert(i, r);
            assert(rules@ =~= old(rules)@.update(i as int, AppRule { enabled, ..old(rules)@[i as int] }));
            return;
        }
        i += 1;
    }
    proof {
        lemma_first_where(rules@, is_app_rule(*id), i as int);
    }
}

pub open spec fn is_custom_rule(id: uuid::Uuid) -> spec_fn(CustomRule) -> bool {
    |r: CustomRule| r.id == id
}

/// Switches the first custom rule with this id; nothing changes when there
/// is none.
pub fn set_custom_rule_enabled(rules: &mut Vec<CustomRule>, id: &uuid::Uuid, enabled: bool)
    ensures
        ({
            let k = first_where(old(rules)@, is_custom_rule(*id));
            if k >= 0 {
                final(rules)@ == old(rules)@.update(k, CustomRule { enabled, ..old(rules)@[k] })
            } else {
                final(rules)@ == old(rules)@
            }
        }),
{
    let mut i: usize = 0;
    while i < rules.len()
        invariant
            0 <= i <= rules@.len(),
            rules@ == old(rules)@,
            forall|j: int| 0 <= j < i ==> !is_custom_rule(*id)(#[trigger] rules@[j]),
        decreases rules@.len() - i,
    {
        if same_rule_id(&rules[i].id, id) {
            proof {
                lemma_first_where(rules@, is_custom_rule(*id), i as int);
            }
            let mut r = rules.remove(i);
            r.enabled = enabled;
            rules.insert(i, r);
            assert(rules@ =~= old(rules)@.update(i as int, CustomRule { enabled, ..old(rules)@[i as int] }));
            return;
        }
        i += 1;
    }
    proof {
        lemma_first_where(rules@, is_custom_rule(*id), i as int);
    }
}

pub open spec fn is_system_rule(kind: SystemRuleType) -> spec_fn(SystemRule) -> bool {
    |r: SystemRule| r.rule_type == kind
}

/// Switches the first system rule of this kind; nothing changes when there
/// is none.
pub fn set_system_rule_enabled(rules: &mut Vec<SystemRule>, kind: SystemRuleType, enabled: bool)
    ensures
        ({
            let k = first_where(old(rules)@, is_system_rule(kind));
            if k >= 0 {
                final(rules)@ == old(rules)@.update(k, SystemRule { enabled, ..old(rules)@[k] })
            } else {
                final(rules)@ == old(rules)@
            }
        }),
{
    let mut i: usize = 0;
    while i < rules.len()
        invariant
            0 <= i <= rules@.len(),
            rules@ == old(rules)@,
            forall|j: int| 0 <= j < i ==> !is_system_rule(kind)(#[trigger] rules@[j]),
        decreases rules@.len() - i,
    {
        if rules[i].rule_type == kind {
            proof {
                lemma_first_where(rules@, is_system_rule(kind), i as int);
            }
            let mut r = rules.remove(i);
            r.enabled = enabled;
            rules.insert(i, r);
            assert(rules@ =~= old(rules)@.update(i as int, SystemRule { enabled, ..old(rules)@[i as int] }));
            return;
        }
        i += 1;
    }
    proof {
        lemma_first_where(rules@, is_system_rule(kind), i as int);
    }
}

} // verus!
