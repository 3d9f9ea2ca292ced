use data_cleaner::schedule_text::{schedule_days_status, schedule_status};
use data_cleaner::settings::{AppSettings, ScheduleDay};

#[test]
fn schedule_off_explains_how_to_turn_it_on() {
    let settings = AppSettings::default();
    assert_eq!(schedule_status(None, &settings), "Off. Enable to run selected rules at the chosen day and time");
    assert_eq!(schedule_days_status(None, &settings), "Every day");
}

#[test]
fn schedule_every_day_with_padded_time() {
    let settings = AppSettings { scheduled_cleanup_enabled: true, scheduled_cleanup_hour: 3, scheduled_cleanup_minute: 5, ..AppSettings::default() };
    assert_eq!(schedule_status(None, &settings), "Runs selected rules every day at 03:05 while the app is open");
}

#[test]
fn schedule_on_chosen_days() {
    let settings = AppSettings {
        scheduled_cleanup_enabled: true,
        scheduled_cleanup_days: Some(vec![ScheduleDay::Friday, ScheduleDay::Monday]),
        scheduled_cleanup_hour: 22,
        scheduled_cleanup_minute: 30,
        ..AppSettings::default()
    };
    assert_eq!(schedule_days_status(None, &settings), "Monday, Friday");
    assert_eq!(schedule_status(None, &settings), "Runs selected rules on Monday, Friday at 22:30 while the app is open");
}
