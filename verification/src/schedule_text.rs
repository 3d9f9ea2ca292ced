//! How the settings page describes the cleanup schedule.
use vstd::prelude::*;
use crate::cleanup_log::{catalog_view, tr_with, tra, trs};
use crate::i18n::{rep_views, tr, Catalog};
use crate::settings::{effective_days, saved_days, AppSettings, ScheduleDay};
use crate::strings::{join, join_strings, strs};
use crate::text::{concat, zero_padded, zero_padded_chars};
use crate::outside::string_from_chars;

verus! {

/// The English name of a schedule day.
pub open spec fn day_name(d: ScheduleDay) -> Seq<char> {
    match d {
        ScheduleDay::EveryDay => "Every day"@,
        ScheduleDay::Monday => "Monday"@,
        ScheduleDay::Tuesday => "Tuesday"@,
        ScheduleDay::Wednesday => "Wednesday"@,
        ScheduleDay::Thursday => "Thursday"@,
        ScheduleDay::Friday => "Friday"@,
        ScheduleDay::Saturday => "Saturday"@,
        ScheduleDay::Sunday => "Sunday"@,
    }
}

/// The days the schedule runs on, as `AppSettings` says.
pub open spec fn schedule_days(s: &AppSettings) -> Seq<ScheduleDay> {
    effective_days(saved_days(s), s.scheduled_cleanup_day)
}

/// "Every day" when all seven days are chosen, otherwise their translated
/// names joined by commas.
pub open spec fn days_text(c: Option<Map<Seq<char>, Seq<char>>>, days: Seq<ScheduleDay>) -> Seq<char> {
    if days.len() == 7 {
        "Every day"@
    } else {
        join(Seq::new(days.len(), |i: int| trs(c, day_name(days[i]))), ", "@)
    }
}

/// The schedule in a sentence, or how to turn it on.
pub open spec fn schedule_text(c: Option<Map<Seq<char>, Seq<char>>>, s: &AppSettings) -> Seq<char> {
    if s.scheduled_cleanup_enabled {
        let days = schedule_days(s);
        let phrase = if days.len() == 7 {
            trs(c, "every day"@)
        } else {
            trs(c, "on"@) + " "@ + days_text(c, days)
        };
        let time = zero_padded(s.scheduled_cleanup_hour as nat, 2) + ":"@ + zero_padded(
            s.scheduled_cleanup_minute as nat,
            2,
        );
        tra(
            c,
            "Runs selected rules {days} at {time} while the app is open"@,
            seq![("{days}"@, phrase), ("{time}"@, time)],
        )
    } else {
        trs(c, "Off. Enable to run selected rules at the chosen day and time"@)
    }
}

fn days_status(catalog: Option<&Catalog>, days: &Vec<ScheduleDay>) -> (r: String)
    ensures
        r@ == days_text(catalog_view(catalog), days@),
{
    if days.len() == 7 {
        return crate::text::owned("Every day");
    }
    let ghost names = Seq::new(days@.len(), |i: int| trs(catalog_view(catalog), day_name(days@[i])));
    let mut out: Vec<String> = Vec::new();
    let mut i: usize = 0;
    while i < days.len()
        invariant
            0 <= i <= days@.len(),
            names == Seq::new(days@.len(), |i: int| trs(catalog_view(catalog), day_name(days@[i]))),
            strs(out@) == names.take(i as int),
        decreases days@.len() - i,
    {
        let name = tr(catalog, days[i].display_name());
        let ghost before = strs(out@);
        out.push(name);
        assert(strs(out@) =~= before.push(name@));
        assert(names.take(i + 1) =~= names.take(i as int).push(name@));
        i += 1;
    }
    assert(names.take(days@.len() as int) =~= names);
    join_strings(&out, ", ")
}

/// The description of the chosen days.
pub fn schedule_days_status(catalog: Option<&Catalog>, settings: &AppSettings) -> (r: String)
    ensures
        r@ == days_text(catalog_view(catalog), schedule_days(settings)),
{
    let days = settings.effective_scheduled_cleanup_days();
    days_status(catalog, &days)
}

/// Two digits at least, as `{:02}` writes a number.
fn two_digits(n: u8) -> (r: String)
    ensures
        r@ == zero_padded(n as nat, 2),
{
    let c = zero_padded_chars(n as u64, 2);
    string_from_chars(c.as_slice())
}

/// The schedule in a sentence, or how to turn it on.
pub fn schedule_status(catalog: Option<&Catalog>, settings: &AppSettings) -> (r: String)
    ensures
        r@ == schedule_text(catalog_view(catalog), settings),
{
    if !settings.scheduled_cleanup_enabled {
        return tr(catalog, "Off. Enable to run selected rules at the chosen day and time");
    }
    let days = settings.effective_scheduled_cleanup_days();
    let phrase = if days.len() == 7 {
        tr(catalog, "every day")
    } else {
        let on = tr(catalog, "on");
        let with_space = concat(on.as_str(), " ");
        let list = days_status(catalog, &days);
        concat(with_space.as_str(), list.as_str())
    };
    let hour = two_digits(settings.scheduled_cleanup_hour);
    let minute = two_digits(settings.scheduled_cleanup_minute);
    let hour_colon = concat(hour.as_str(), ":");
    let time = concat(hour_colon.as_str(), minute.as_str());
    let reps = [("{days}", phrase.as_str()), ("{time}", time.as_str())];
    assert(rep_views(reps@) =~= seq![("{days}"@, phrase@), ("{time}"@, time@)]);
    tr_with(catalog, "Runs selected rules {days} at {time} while the app is open", &reps)
}

} // verus!
