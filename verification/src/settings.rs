//! User settings: appearance, language, the cleanup schedule and the safety
//! limits, with the rules that keep them within bounds.
use vstd::prelude::*;
use crate::text::{concat, zero_padded, zero_padded_chars};
use crate::outside::string_from_chars;

verus! {

#[derive(Clone, Copy, Debug, PartialEq, Eq, Structural)]
pub enum ColorScheme {
    System,
    Light,
    Dark,
}

impl Default for ColorScheme {
    fn default() -> (r: Self)
        ensures
            r == ColorScheme::System,
    {
        ColorScheme::System
    }
}

#[derive(Clone, Copy, Debug, PartialEq, Eq, Structural)]
pub enum AppLanguage {
    Automatic,
    English,
    Greek,
    Italian,
    Spanish,
    German,
    French,
}

impl Default for AppLanguage {
    fn default() -> (r: Self)
        ensures
            r == AppLanguage::Automatic,
    {
        AppLanguage::Automatic
    }
}

impl AppLanguage {
    pub open spec fn spec_index(self) -> u32 {
        match self {
            AppLanguage::Automatic => 0,
            AppLanguage::English => 1,
            AppLanguage::Greek => 2,
            AppLanguage::Italian => 3,
            AppLanguage::Spanish => 4,
            AppLanguage::German => 5,
            AppLanguage::French => 6,
        }
    }

    pub open spec fn spec_from_index(index: u32) -> AppLanguage {
        if index == 1 {
            AppLanguage::English
        } else if index == 2 {
            AppLanguage::Greek
        } else if index == 3 {
            AppLanguage::Italian
        } else if index == 4 {
            AppLanguage::Spanish
        } else if index == 5 {
            AppLanguage::German
        } else if index == 6 {
            AppLanguage::French
        } else {
            AppLanguage::Automatic
        }
    }

    /// The position of the language in the settings list.
    pub fn settings_index(self) -> (r: u32)
        ensures
            r == self.spec_index(),
    {
        match self {
            AppLanguage::Automatic => 0,
            AppLanguage::English => 1,
            AppLanguage::Greek => 2,
            AppLanguage::Italian => 3,
            AppLanguage::Spanish => 4,
            AppLanguage::German => 5,
            AppLanguage::French => 6,
        }
    }

    /// The language at a position of the settings list; `Automatic` for any
    /// position past the list.
    pub fn from_settings_index(index: u32) -> (r: Self)
        ensures
            r == Self::spec_from_index(index),
    {
        match index {
            1 => AppLanguage::English,
            2 => AppLanguage::Greek,
            3 => AppLanguage::Italian,
            4 => AppLanguage::Spanish,
            5 => AppLanguage::German,
            6 => AppLanguage::French,
            _ => AppLanguage::Automatic,
        }
    }
}

/// The settings list position of a language gives the language back, and a
/// position gives itself back when it names a language (`Automatic` for the
/// rest).
pub proof fn lemma_language_index_roundtrip(l: AppLanguage, index: u32)
    ensures
        AppLanguage::spec_from_index(l.spec_index()) == l,
        AppLanguage::spec_from_index(index).spec_index() == (if index <= 6 {
            index
        } else {
            0
        }),
{
}

/// A day of the week.
#[derive(Clone, Copy, Debug, PartialEq, Eq, Structural)]
pub enum Weekday {
    Mon,
    Tue,
    Wed,
    Thu,
    Fri,
    Sat,
    Sun,
}

#[derive(Clone, Copy, Debug, PartialEq, Eq, Structural)]
pub enum ScheduleDay {
    EveryDay,
    Monday,
    Tuesday,
    Wednesday,
    Thursday,
    Friday,
    Saturday,
    Sunday,
}

impl Default for ScheduleDay {
    fn default() -> (r: Self)
        ensures
            r == ScheduleDay::EveryDay,
    {
        ScheduleDay::EveryDay
    }
}

/// The seven single days, Monday first.
pub open spec fn weekday_seq() -> Seq<ScheduleDay> {
    seq![
        ScheduleDay::Monday,
        ScheduleDay::Tuesday,
        ScheduleDay::Wednesday,
        ScheduleDay::Thursday,
        ScheduleDay::Friday,
        ScheduleDay::Saturday,
        ScheduleDay::Sunday,
    ]
}

/// Whether a schedule day covers a weekday.
pub open spec fn day_matches(d: ScheduleDay, w: Weekday) -> bool {
    match d {
        ScheduleDay::EveryDay => true,
        ScheduleDay::Monday => w == Weekday::Mon,
        ScheduleDay::Tuesday => w == Weekday::Tue,
        ScheduleDay::Wednesday => w == Weekday::Wed,
        ScheduleDay::Thursday => w == Weekday::Thu,
        ScheduleDay::Friday => w == Weekday::Fri,
        ScheduleDay::Saturday => w == Weekday::Sat,
        ScheduleDay::Sunday => w == Weekday::Sun,
    }
}

impl ScheduleDay {
    pub fn display_name(self) -> (r: &'static str)
        ensures
            r@ == match self {
                ScheduleDay::EveryDay => "Every day"@,
                ScheduleDay::Monday => "Monday"@,
                ScheduleDay::Tuesday => "Tuesday"@,
                ScheduleDay::Wednesday => "Wednesday"@,
                ScheduleDay::Thursday => "Thursday"@,
                ScheduleDay::Friday => "Friday"@,
                ScheduleDay::Saturday => "Saturday"@,
                ScheduleDay::Sunday => "Sunday"@,
            },
    {
        match self {
            ScheduleDay::EveryDay => "Every day",
            ScheduleDay::Monday => "Monday",
            ScheduleDay::Tuesday => "Tuesday",
            ScheduleDay::Wednesday => "Wednesday",
            ScheduleDay::Thursday => "Thursday",
            ScheduleDay::Friday => "Friday",
            ScheduleDay::Saturday => "Saturday",
            ScheduleDay::Sunday => "Sunday",
        }
    }

    /// The seven single days, Monday first.
    pub fn weekdays() -> (r: &'static [ScheduleDay])
        ensures
            r@ == weekday_seq(),
    {
        let r: &'static [ScheduleDay] = &[
            ScheduleDay::Monday,
            ScheduleDay::Tuesday,
            ScheduleDay::Wednesday,
            ScheduleDay::Thursday,
            ScheduleDay::Friday,
            ScheduleDay::Saturday,
            ScheduleDay::Sunday,
        ];
        assert(r@ =~= weekday_seq());
        r
    }

    /// Whether this schedule day covers `weekday`.
    pub fn matches(self, weekday: Weekday) -> (r: bool)
        ensures
            r == day_matches(self, weekday),
    {
        match self {
            ScheduleDay::EveryDay => true,
            ScheduleDay::Monday => weekday == Weekday::Mon,
            ScheduleDay::Tuesday => weekday == Weekday::Tue,
            ScheduleDay::Wednesday => weekday == Weekday::Wed,
            ScheduleDay::Thursday => weekday == Weekday::Thu,
            ScheduleDay::Friday => weekday == Weekday::Fri,
            ScheduleDay::Saturday => weekday == Weekday::Sat,
            ScheduleDay::Sunday => weekday == Weekday::Sun,
        }
    }
}

/// The days of `ws` that `days` holds, in the order of `ws`.
pub open spec fn select_days(ws: Seq<ScheduleDay>, days: Seq<ScheduleDay>) -> Seq<ScheduleDay>
    decreases ws.len(),
{
    if ws.len() == 0 {
        ws
    } else {
        let r = select_days(ws.drop_last(), days);
        if days.contains(ws.last()) {
            r.push(ws.last())
        } else {
            r
        }
    }
}

/// The single days a one-day schedule stands for.
pub open spec fn single_day_days(day: ScheduleDay) -> Seq<ScheduleDay> {
    if day == ScheduleDay::EveryDay {
        weekday_seq()
    } else {
        seq![day]
    }
}

/// The days the schedule runs on: the saved selection when there is one
/// (every weekday when it holds `EveryDay`), otherwise the single saved day.
pub open spec fn effective_days(saved: Option<Seq<ScheduleDay>>, day: ScheduleDay) -> Seq<
    ScheduleDay,
> {
    match saved {
        Some(s) => if s.contains(ScheduleDay::EveryDay) {
            weekday_seq()
        } else if select_days(weekday_seq(), s).len() > 0 {
            select_days(weekday_seq(), s)
        } else {
            single_day_days(day)
        },
        None => single_day_days(day),
    }
}

pub struct AppSettings {
    /// When the last cleanup ran, in seconds since the Unix epoch.
    pub last_cleanup: Option<i64>,
    pub confirm_before_clean: bool,
    pub show_cleanup_summary: bool,
    pub scheduled_cleanup_enabled: bool,
    pub scheduled_cleanup_day: ScheduleDay,
    /// The selected days; `None` in settings older than the multi-day
    /// choice, which fall back to `scheduled_cleanup_day`.
    pub scheduled_cleanup_days: Option<Vec<ScheduleDay>>,
    pub scheduled_cleanup_hour: u8,
    pub scheduled_cleanup_minute: u8,
    pub application_log_cleanup_enabled: bool,
    pub system_journal_cleanup_enabled: bool,
    pub log_retention_days: u32,
    pub max_files_per_operation: usize,
    /// In bytes.
    pub max_size_per_operation: u64,
    pub follow_symlinks: bool,
    pub verbose_logging: bool,
    pub color_scheme: ColorScheme,
    pub language: AppLanguage,
}

pub open spec fn saved_days(s: &AppSettings) -> Option<Seq<ScheduleDay>> {
    match s.scheduled_cleanup_days {
        Some(v) => Some(v@),
        None => None,
    }
}

pub open spec fn clamp_int(v: int, lo: int, hi: int) -> int {
    if v < lo {
        lo
    } else if v > hi {
        hi
    } else {
        v
    }
}

/// The largest operation size that can be configured: one TiB.
pub open spec fn max_size_limit() -> int {
    1024int * 1024 * 1024 * 1024
}

/// The limits as `clamp_values` leaves them.
pub open spec fn limits_clamped(s: &AppSettings) -> bool {
    &&& 100 <= s.max_files_per_operation <= 10_000_000
    &&& 1024 * 1024 <= s.max_size_per_operation <= max_size_limit()
    &&& s.scheduled_cleanup_hour <= 23
    &&& s.scheduled_cleanup_minute <= 59
    &&& 1 <= s.log_retention_days <= 3650
    &&& !s.follow_symlinks
}

fn selected_weekdays(days: &Vec<ScheduleDay>) -> (r: Vec<ScheduleDay>)
    ensures
        r@ == select_days(weekday_seq(), days@),
{
    let ws = ScheduleDay::weekdays();
    let mut out: Vec<ScheduleDay> = Vec::new();
    let mut i: usize = 0;
    while i < ws.len()
        invariant
            0 <= i <= ws@.len(),
            ws@ == weekday_seq(),
            out@ == select_days(ws@.take(i as int), days@),
        decreases ws@.len() - i,
    {
        let d = ws[i];
        assert(ws@.take(i + 1).drop_last() =~= ws@.take(i as int));
        assert(ws@.take(i + 1).last() == d);
        if contains_day(days, d) {
            out.push(d);
        }
        i += 1;
    }
    assert(ws@.take(ws@.len() as int) =~= ws@);
    out
}

fn contains_day(days: &Vec<ScheduleDay>, d: ScheduleDay) -> (r: bool)
    ensures
        r == days@.contains(d),
{
    let mut i: usize = 0;
    while i < days.len()
        invariant
            0 <= i <= days@.len(),
            forall|k: int| 0 <= k < i ==> days@[k] != d,
        decreases days@.len() - i,
    {
        if days[i] == d {
            assert(days@[i as int] == d);
            return true;
        }
        i += 1;
    }
    false
}

fn all_weekdays() -> (r: Vec<ScheduleDay>)
    ensures
        r@ == weekday_seq(),
{
    let ws = ScheduleDay::weekdays();
    let mut out: Vec<ScheduleDay> = Vec::new();
    let mut i: usize = 0;
    while i < ws.len()
        invariant
            0 <= i <= ws@.len(),
            ws@ == weekday_seq(),
            out@ == ws@.take(i as int),
        decreases ws@.len() - i,
    {
        out.push(ws[i]);
        i += 1;
        assert(out@ =~= ws@.take(i as int));
    }
    assert(ws@.take(7) =~= ws@);
    out
}

/// The hour a schedule runs at when saved settings do not say (03:00).
pub fn default_scheduled_cleanup_hour() -> (r: u8)
    ensures
        r == 3,
{
    3
}

/// How many days logs are kept when saved settings do not say.
pub fn default_log_retention_days() -> (r: u32)
    ensures
        r == 30,
{
    30
}

impl Default for AppSettings {
    fn default() -> (r: Self)
        ensures
            r.last_cleanup is None,
            r.confirm_before_clean,
            r.show_cleanup_summary,
            !r.scheduled_cleanup_enabled,
            r.scheduled_cleanup_day == ScheduleDay::EveryDay,
            saved_days(&r) == Some(weekday_seq()),
            r.scheduled_cleanup_hour == 3,
            r.scheduled_cleanup_minute == 0,
            !r.application_log_cleanup_enabled,
            !r.system_journal_cleanup_enabled,
            r.log_retention_days == 30,
            r.max_files_per_operation == 10000,
            r.max_size_per_operation == 10 * 1024 * 1024 * 1024,
            !r.follow_symlinks,
            !r.verbose_logging,
            r.color_scheme == ColorScheme::System,
            r.language == AppLanguage::Automatic,
    {
        AppSettings {
            last_cleanup: None,
            confirm_before_clean: true,
            show_cleanup_summary: true,
            scheduled_cleanup_enabled: false,
            scheduled_cleanup_day: ScheduleDay::EveryDay,
            scheduled_cleanup_days: Some(all_weekdays()),
            scheduled_cleanup_hour: default_scheduled_cleanup_hour(),
            scheduled_cleanup_minute: 0,
            application_log_cleanup_enabled: false,
            system_journal_cleanup_enabled: false,
            log_retention_days: default_log_retention_days(),
            max_files_per_operation: 10000,
            max_size_per_operation: 10 * 1024 * 1024 * 1024,
            follow_symlinks: false,
            verbose_logging: false,
            color_scheme: ColorScheme::System,
            language: AppLanguage::Automatic,
        }
    }
}

impl AppSettings {
    /// The days the schedule runs on (see `effective_days`).
    pub fn effective_scheduled_cleanup_days(&self) -> (r: Vec<ScheduleDay>)
        ensures
            r@ == effective_days(saved_days(self), self.scheduled_cleanup_day),
    {
        if let Some(saved) = &self.scheduled_cleanup_days {
            if contains_day(saved, ScheduleDay::EveryDay) {
                return all_weekdays();
            }
            let selected = selected_weekdays(saved);
            if selected.len() > 0 {
                return selected;
            }
        }
        if self.scheduled_cleanup_day == ScheduleDay::EveryDay {
            all_weekdays()
        } else {
            let mut v = Vec::new();
            v.push(self.scheduled_cleanup_day);
            assert(v@ =~= seq![self.scheduled_cleanup_day]);
            v
        }
    }

    /// Selects the schedule's days: the weekdays among `days`, in weekday
    /// order; the single saved day becomes `EveryDay` when all seven are
    /// selected and the first selected day otherwise. A selection without
    /// any weekday changes nothing.
    pub fn set_scheduled_cleanup_days(&mut self, days: Vec<ScheduleDay>)
        ensures
            ({
                let sel = select_days(weekday_seq(), days@);
                if sel.len() == 0 {
                    *final(self) == *old(self)
                } else {
                    &&& saved_days(final(self)) == Some(sel)
                    &&& final(self).scheduled_cleanup_day == (if sel.len() == 7 {
                        ScheduleDay::EveryDay
                    } else {
                        sel[0]
                    })
                    &&& final(self).last_cleanup == old(self).last_cleanup
                    &&& final(self).scheduled_cleanup_enabled == old(self).scheduled_cleanup_enabled
                    &&& final(self).scheduled_cleanup_hour == old(self).scheduled_cleanup_hour
                    &&& final(self).scheduled_cleanup_minute == old(self).scheduled_cleanup_minute
                    &&& final(self).max_files_per_operation == old(self).max_files_per_operation
                    &&& final(self).max_size_per_operation == old(self).max_size_per_operation
                    &&& final(self).log_retention_days == old(self).log_retention_days
                }
            }),
    {
        let selected = selected_weekdays(&days);
        if selected.len() == 0 {
            return;
        }
        self.scheduled_cleanup_day = if selected.len() == 7 {
            ScheduleDay::EveryDay
        } else {
            selected[0]
        };
        self.scheduled_cleanup_days = Some(selected);
    }

    /// Whether the schedule runs on `weekday`.
    pub fn scheduled_cleanup_matches(&self, weekday: Weekday) -> (r: bool)
        ensures
            r == exists|i: int|
                0 <= i < effective_days(saved_days(self), self.scheduled_cleanup_day).len()
                    && day_matches(
                    #[trigger] effective_days(saved_days(self), self.scheduled_cleanup_day)[i],
                    weekday,
                ),
    {
        let days = self.effective_scheduled_cleanup_days();
        let mut i: usize = 0;
        while i < days.len()
            invariant
                0 <= i <= days@.len(),
                days@ == effective_days(saved_days(self), self.scheduled_cleanup_day),
                forall|k: int| 0 <= k < i ==> !day_matches(#[trigger] days@[k], weekday),
            decreases days@.len() - i,
        {
            if days[i].matches(weekday) {
                return true;
            }
            i += 1;
        }
        false
    }

    /// Brings the limits within their bounds: 100 to 10,000,000 files, 1 MiB
    /// to 1 TiB, hour at most 23, minute at most 59, 1 to 3650 days of log
    /// retention; symbolic links are never followed.
    pub fn clamp_values(&mut self)
        ensures
            final(self).max_files_per_operation == clamp_int(
                old(self).max_files_per_operation as int,
                100,
                10_000_000,
            ),
            final(self).max_size_per_operation == clamp_int(
                old(self).max_size_per_operation as int,
                1024int * 1024,
                max_size_limit(),
            ),
            final(self).scheduled_cleanup_hour == clamp_int(
                old(self).scheduled_cleanup_hour as int,
                0,
                23,
            ),
            final(self).scheduled_cleanup_minute == clamp_int(
                old(self).scheduled_cleanup_minute as int,
                0,
                59,
            ),
            final(self).log_retention_days == clamp_int(old(self).log_retention_days as int, 1, 3650),
            !final(self).follow_symlinks,
            limits_clamped(final(self)),
            final(self).last_cleanup == old(self).last_cleanup,
            final(self).confirm_before_clean == old(self).confirm_before_clean,
            final(self).show_cleanup_summary == old(self).show_cleanup_summary,
            final(self).scheduled_cleanup_enabled == old(self).scheduled_cleanup_enabled,
            final(self).scheduled_cleanup_day == old(self).scheduled_cleanup_day,
            final(self).scheduled_cleanup_days == old(self).scheduled_cleanup_days,
            final(self).application_log_cleanup_enabled == old(
                self,
            ).application_log_cleanup_enabled,
            final(self).system_journal_cleanup_enabled == old(self).system_journal_cleanup_enabled,
            final(self).verbose_logging == old(self).verbose_logging,
            final(self).color_scheme == old(self).color_scheme,
            final(self).language == old(self).language,
    {
        if self.max_files_per_operation < 100 {
            self.max_files_per_operation = 100;
        } else if self.max_files_per_operation > 10_000_000 {
            self.max_files_per_operation = 10_000_000;
        }
        self.follow_symlinks = false;
        if self.max_size_per_operation < 1024 * 1024 {
            self.max_size_per_operation = 1024 * 1024;
        } else if self.max_size_per_operation > 1024 * 1024 * 1024 * 1024 {
            self.max_size_per_operation = 1024 * 1024 * 1024 * 1024;
        }
        if self.scheduled_cleanup_hour > 23 {
            self.scheduled_cleanup_hour = 23;
        }
        if self.scheduled_cleanup_minute > 59 {
            self.scheduled_cleanup_minute = 59;
        }
        if self.log_retention_days < 1 {
            self.log_retention_days = 1;
        } else if self.log_retention_days > 3650 {
            self.log_retention_days = 3650;
        }
    }
}

/// Clamping a value already in range keeps it.
pub proof fn lemma_clamp_idempotent(v: int, lo: int, hi: int)
    requires
        lo <= hi,
    ensures
        clamp_int(clamp_int(v, lo, hi), lo, hi) == clamp_int(v, lo, hi),
        lo <= clamp_int(v, lo, hi) <= hi,
        lo <= v <= hi ==> clamp_int(v, lo, hi) == v,
{
}

/// The selection of days keeps weekday order and holds only single days,
/// each at most once.
pub proof fn lemma_selected_days_ordered(days: Seq<ScheduleDay>)
    ensures
        forall|i: int, j: int|
            0 <= i < j < select_days(weekday_seq(), days).len() ==> select_days(
                weekday_seq(),
                days,
            )[i] != select_days(weekday_seq(), days)[j],
        forall|i: int|
            0 <= i < select_days(weekday_seq(), days).len() ==> weekday_seq().contains(
                #[trigger] select_days(weekday_seq(), days)[i],
            ) && days.contains(select_days(weekday_seq(), days)[i]),
        forall|d: ScheduleDay|
            weekday_seq().contains(d) && days.contains(d) ==> #[trigger] select_days(
                weekday_seq(),
                days,
            ).contains(d),
{
    let ws = weekday_seq();
    lemma_select_prefix(days, 7);
    assert(ws.take(7) =~= ws);
}

/// `select_days` over the first `n` weekdays: distinct, in the given set,
/// and holding every selected one of them.
proof fn lemma_select_prefix(days: Seq<ScheduleDay>, n: int)
    requires
        0 <= n <= 7,
    ensures
        ({
            let ws = weekday_seq().take(n);
            let s = select_days(ws, days);
            &&& forall|i: int, j: int| 0 <= i < j < s.len() ==> s[i] != s[j]
            &&& forall|i: int| 0 <= i < s.len() ==> ws.contains(#[trigger] s[i]) && days.contains(s[i])
            &&& forall|d: ScheduleDay| ws.contains(d) && days.contains(d) ==> #[trigger] s.contains(d)
        }),
    decreases n,
{
    let ws = weekday_seq().take(n);
    if n > 0 {
        lemma_select_prefix(days, n - 1);
        let prev = weekday_seq().take(n - 1);
        assert(ws.drop_last() =~= prev);
        let last = weekday_seq()[n - 1];
        assert(ws.last() == last);
        let r = select_days(prev, days);
        assert(!prev.contains(last)) by {
            if prev.contains(last) {
                let k = choose|k: int| 0 <= k < prev.len() && prev[k] == last;
                assert(weekday_seq()[k] == last);
            }
        }
        let s = select_days(ws, days);
        assert forall|i: int| 0 <= i < s.len() implies ws.contains(#[trigger] s[i]) && days.contains(
            s[i],
        ) by {
            if days.contains(last) && i == r.len() {
                assert(ws[n - 1] == last);
            } else {
                assert(s[i] == r[i]);
                let k = choose|k: int| 0 <= k < prev.len() && prev[k] == r[i];
                assert(ws[k] == prev[k]);
            }
        }
        assert forall|d: ScheduleDay| ws.contains(d) && days.contains(d) implies #[trigger] s.contains(
            d,
        ) by {
            let k = choose|k: int| 0 <= k < ws.len() && ws[k] == d;
            if k == n - 1 {
                assert(s[r.len() as int] == d);
            } else {
                assert(prev[k] == d);
                assert(prev.contains(d));
                assert(r.contains(d));
                let w = choose|w: int| 0 <= w < r.len() && r[w] == d;
                assert(s[w] == d);
            }
        }
        assert forall|i: int, j: int| 0 <= i < j < s.len() implies s[i] != s[j] by {
            if days.contains(last) && j == r.len() {
                assert(s[i] == r[i]);
                assert(prev.contains(r[i]));
            } else {
                assert(s[i] == r[i] && s[j] == r[j]);
            }
        }
    }
}

/// What a selection saves is what the schedule then runs on, when the
/// selection holds a weekday.
pub proof fn lemma_set_days_then_effective(days: Seq<ScheduleDay>, day: ScheduleDay)
    requires
        select_days(weekday_seq(), days).len() > 0,
    ensures
        effective_days(Some(select_days(weekday_seq(), days)), day) == select_days(
            weekday_seq(),
            days,
        ),
{
    let s = select_days(weekday_seq(), days);
    lemma_selected_days_ordered(days);
    lemma_selected_days_ordered(s);
    assert(!s.contains(ScheduleDay::EveryDay)) by {
        if s.contains(ScheduleDay::EveryDay) {
            let k = choose|k: int| 0 <= k < s.len() && s[k] == ScheduleDay::EveryDay;
            assert(weekday_seq().contains(s[k]));
        }
    }
    lemma_select_of_selection(days);
}

/// Selecting again from a selection gives the selection.
proof fn lemma_select_of_selection(days: Seq<ScheduleDay>)
    ensures
        select_days(weekday_seq(), select_days(weekday_seq(), days)) == select_days(
            weekday_seq(),
            days,
        ),
{
    let s = select_days(weekday_seq(), days);
    lemma_selected_days_ordered(days);
    lemma_select_again_prefix(days, s, 7);
    assert(weekday_seq().take(7) =~= weekday_seq());
}

proof fn lemma_select_again_prefix(days: Seq<ScheduleDay>, s: Seq<ScheduleDay>, n: int)
    requires
        0 <= n <= 7,
        s == select_days(weekday_seq(), days),
        forall|d: ScheduleDay| weekday_seq().contains(d) ==> (s.contains(d) <==> days.contains(d)),
    ensures
        select_days(weekday_seq().take(n), s) == select_days(weekday_seq().take(n), days),
    decreases n,
{
    if n > 0 {
        lemma_select_again_prefix(days, s, n - 1);
        let ws = weekday_seq().take(n);
        assert(ws.drop_last() =~= weekday_seq().take(n - 1));
        assert(weekday_seq().contains(ws.last())) by {
            assert(weekday_seq()[n - 1] == ws.last());
        }
    }
}

/// The schedule always runs on at least one day, and only on single days.
pub proof fn lemma_effective_days_nonempty(saved: Option<Seq<ScheduleDay>>, day: ScheduleDay)
    ensures
        effective_days(saved, day).len() > 0,
        forall|i: int|
            0 <= i < effective_days(saved, day).len() ==> #[trigger] effective_days(saved, day)[i]
                != ScheduleDay::EveryDay,
{
    match saved {
        Some(s) => {
            lemma_selected_days_ordered(s);
            let sel = select_days(weekday_seq(), s);
            assert forall|i: int| 0 <= i < sel.len() implies #[trigger] sel[i] != ScheduleDay::EveryDay by {
                assert(weekday_seq().contains(sel[i]));
            }
        },
        None => {},
    }
}

// ---------------------------------------------------------------------------
// When a scheduled cleanup is due
// ---------------------------------------------------------------------------
/// A local date and time, to the minute.
#[derive(Clone, Copy, Debug, PartialEq, Eq, Structural)]
pub struct LocalTime {
    pub year: i32,
    pub month: u32,
    pub day: u32,
    pub hour: u32,
    pub minute: u32,
    pub weekday: Weekday,
}

/// The text of a year as `{:04}` writes it (a sign before negative years).
pub open spec fn year_text(y: int) -> Seq<char> {
    if y < 0 {
        seq!['-'] + zero_padded((-y) as nat, 3)
    } else {
        zero_padded(y as nat, 4)
    }
}

/// The minute a scheduled cleanup belongs to: `YYYY-MM-DD HH:MM`.
pub open spec fn slot_text(t: LocalTime) -> Seq<char> {
    year_text(t.year as int) + seq!['-'] + zero_padded(t.month as nat, 2) + seq!['-'] + zero_padded(
        t.day as nat,
        2,
    ) + seq![' '] + zero_padded(t.hour as nat, 2) + seq![':'] + zero_padded(t.minute as nat, 2)
}

/// The minute a scheduled cleanup belongs to, as text.
pub fn schedule_slot(t: LocalTime) -> (r: String)
    ensures
        r@ == slot_text(t),
{
    let mut out: Vec<char> = Vec::new();
    if t.year < 0 {
        out.push('-');
        let y: u64 = if t.year == i32::MIN {
            2147483648
        } else {
            (-t.year) as u64
        };
        let ys = zero_padded_chars(y, 3);
        crate::text::push_all(&mut out, ys.as_slice());
    } else {
        let ys = zero_padded_chars(t.year as u64, 4);
        crate::text::push_all(&mut out, ys.as_slice());
    }
    out.push('-');
    let m = zero_padded_chars(t.month as u64, 2);
    crate::text::push_all(&mut out, m.as_slice());
    out.push('-');
    let d = zero_padded_chars(t.day as u64, 2);
    crate::text::push_all(&mut out, d.as_slice());
    out.push(' ');
    let h = zero_padded_chars(t.hour as u64, 2);
    crate::text::push_all(&mut out, h.as_slice());
    out.push(':');
    let mi = zero_padded_chars(t.minute as u64, 2);
    crate::text::push_all(&mut out, mi.as_slice());
    assert(out@ =~= slot_text(t));
    string_from_chars(out.as_slice())
}

/// The slot to start a scheduled cleanup in, if one is due at `now`: the
/// schedule is on, covers the weekday, hour and minute of `now`, and did
/// not already run in this minute (`last_slot`).
pub open spec fn due_slot(s: &AppSettings, now: LocalTime, last_slot: Option<Seq<char>>) -> Option<
    Seq<char>,
> {
    let runs_today = exists|i: int|
        0 <= i < effective_days(saved_days(s), s.scheduled_cleanup_day).len() && day_matches(
            #[trigger] effective_days(saved_days(s), s.scheduled_cleanup_day)[i],
            now.weekday,
        );
    if !s.scheduled_cleanup_enabled {
        None
    } else if !runs_today || s.scheduled_cleanup_hour as int != now.hour as int
        || s.scheduled_cleanup_minute as int != now.minute as int {
        None
    } else if last_slot == Some(slot_text(now)) {
        None
    } else {
        Some(slot_text(now))
    }
}

/// Whether a scheduled cleanup is due at `now` (see `due_slot`); returns the
/// slot to remember once it started.
pub fn scheduled_cleanup_due(settings: &AppSettings, now: LocalTime, last_slot: Option<&str>) -> (r:
    Option<String>)
    ensures
        match r {
            Some(slot) => due_slot(settings, now, crate::security::opt_view(last_slot)) == Some(
                slot@,
            ),
            None => due_slot(settings, now, crate::security::opt_view(last_slot)) is None,
        },
{
    if !settings.scheduled_cleanup_enabled {
        return None;
    }
    if !settings.scheduled_cleanup_matches(now.weekday) || settings.scheduled_cleanup_hour as u32
        != now.hour || settings.scheduled_cleanup_minute as u32 != now.minute {
        return None;
    }
    let slot = schedule_slot(now);
    match last_slot {
        Some(last) => {
            if crate::paths::paths_text_equal(last, slot.as_str()) {
                return None;
            }
        },
        None => {},
    }
    Some(slot)
}

/// A scheduled cleanup starts at most once in its minute: once the slot it
/// was due in is remembered, the same moment is no longer due.
pub proof fn lemma_slot_runs_once(s: &AppSettings, now: LocalTime, last_slot: Option<Seq<char>>)
    ensures
        due_slot(s, now, last_slot) matches Some(slot) ==> due_slot(s, now, Some(slot)) is None,
{
}

/// The days of a schedule line up with the week: taking both Monday first,
/// the k-th single schedule day covers the k-th day of the week and no
/// other, and every day of the week is covered by `EveryDay`.
pub proof fn lemma_days_follow_the_week(k: int, j: int, w: Weekday)
    requires
        0 <= k < 7,
        0 <= j < 7,
    ensures
        day_matches(
            seq![
                ScheduleDay::Monday,
                ScheduleDay::Tuesday,
                ScheduleDay::Wednesday,
                ScheduleDay::Thursday,
                ScheduleDay::Friday,
                ScheduleDay::Saturday,
                ScheduleDay::Sunday,
            ][k],
            seq![Weekday::Mon, Weekday::Tue, Weekday::Wed, Weekday::Thu, Weekday::Fri, Weekday::Sat, Weekday::Sun][j],
        ) <==> k == j,
        day_matches(ScheduleDay::EveryDay, w),
{
}

/// A schedule on the k-th day of the week only (Monday first), with no
/// selection saved, starts at its hour and minute on that day of the week
/// when it has not run in that minute yet, and never on another day.
pub proof fn lemma_single_day_schedule_runs_on_its_day(
    s: &AppSettings,
    now: LocalTime,
    last_slot: Option<Seq<char>>,
    k: int,
)
    requires
        0 <= k < 7,
        s.scheduled_cleanup_enabled,
        s.scheduled_cleanup_days is None,
        s.scheduled_cleanup_day == seq![
            ScheduleDay::Monday,
            ScheduleDay::Tuesday,
            ScheduleDay::Wednesday,
            ScheduleDay::Thursday,
            ScheduleDay::Friday,
            ScheduleDay::Saturday,
            ScheduleDay::Sunday,
        ][k],
        s.scheduled_cleanup_hour as int == now.hour as int,
        s.scheduled_cleanup_minute as int == now.minute as int,
        last_slot != Some(slot_text(now)),
    ensures
        due_slot(s, now, last_slot) is Some <==> now.weekday == seq![
            Weekday::Mon,
            Weekday::Tue,
            Weekday::Wed,
            Weekday::Thu,
            Weekday::Fri,
            Weekday::Sat,
            Weekday::Sun,
        ][k],
{
    let days = effective_days(saved_days(s), s.scheduled_cleanup_day);
    assert(days =~= seq![s.scheduled_cleanup_day]);
    if day_matches(days[0], now.weekday) {
        assert(0 <= 0 < days.len() && day_matches(days[0], now.weekday));
    }
}

} // verus!
