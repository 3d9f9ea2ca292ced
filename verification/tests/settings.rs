use data_cleaner::settings::{
    scheduled_cleanup_due, schedule_slot, AppLanguage, AppSettings, LocalTime, ScheduleDay, Weekday,
};

#[test]
fn test_clamp_values() {
    let mut settings = AppSettings {
        max_files_per_operation: 5000,
        max_size_per_operation: 5 * 1024 * 1024 * 1024,
        ..Default::default()
    };

    // Values within bounds should not change
    settings.clamp_values();
    assert_eq!(settings.max_files_per_operation, 5000);
    assert_eq!(settings.max_size_per_operation, 5 * 1024 * 1024 * 1024);

    // Values below minimum should be clamped up
    settings.max_files_per_operation = 50;
    settings.max_size_per_operation = 1024;
    settings.clamp_values();
    assert_eq!(settings.max_files_per_operation, 100);
    assert_eq!(settings.max_size_per_operation, 1024 * 1024);

    // Values above maximum should be clamped down
    settings.max_files_per_operation = 100_000_000;
    settings.max_size_per_operation = 1024u64.pow(4) + 1;
    settings.clamp_values();
    assert_eq!(settings.max_files_per_operation, 10_000_000);
    assert_eq!(settings.max_size_per_operation, 1024u64.pow(4));

    settings.scheduled_cleanup_hour = 99;
    settings.scheduled_cleanup_minute = 99;
    settings.log_retention_days = 0;
    settings.clamp_values();
    assert_eq!(settings.scheduled_cleanup_hour, 23);
    assert_eq!(settings.scheduled_cleanup_minute, 59);
    assert_eq!(settings.log_retention_days, 1);
}

#[test]
fn schedule_day_matches_only_the_selected_weekday() {
    assert!(ScheduleDay::EveryDay.matches(Weekday::Sun));
    assert!(ScheduleDay::Wednesday.matches(Weekday::Wed));
    assert!(!ScheduleDay::Wednesday.matches(Weekday::Thu));
}

#[test]
fn multi_day_schedule_matches_each_selected_weekday() {
    let mut settings = AppSettings::default();
    settings.set_scheduled_cleanup_days(vec![
        ScheduleDay::Monday,
        ScheduleDay::Wednesday,
        ScheduleDay::Friday,
    ]);

    assert!(settings.scheduled_cleanup_matches(Weekday::Mon));
    assert!(settings.scheduled_cleanup_matches(Weekday::Wed));
    assert!(settings.scheduled_cleanup_matches(Weekday::Fri));
    assert!(!settings.scheduled_cleanup_matches(Weekday::Tue));
}

#[test]
fn legacy_single_day_schedule_is_preserved() {
    // A settings file written before the multi-day choice: one saved day, no
    // day list.
    let settings = AppSettings {
        scheduled_cleanup_day: ScheduleDay::Wednesday,
        scheduled_cleanup_days: None,
        ..Default::default()
    };
    assert_eq!(
        settings.effective_scheduled_cleanup_days(),
        vec![ScheduleDay::Wednesday]
    );
}

#[test]
fn selecting_days_keeps_weekday_order_and_ignores_empty_choices() {
    let mut settings = AppSettings::default();
    settings.set_scheduled_cleanup_days(vec![ScheduleDay::Friday, ScheduleDay::Monday, ScheduleDay::Friday]);
    assert_eq!(settings.scheduled_cleanup_days, Some(vec![ScheduleDay::Monday, ScheduleDay::Friday]));
    assert_eq!(settings.scheduled_cleanup_day, ScheduleDay::Monday);
    settings.set_scheduled_cleanup_days(vec![ScheduleDay::EveryDay]);
    assert_eq!(settings.scheduled_cleanup_days, Some(vec![ScheduleDay::Monday, ScheduleDay::Friday]));
    settings.set_scheduled_cleanup_days(ScheduleDay::weekdays().to_vec());
    assert_eq!(settings.scheduled_cleanup_day, ScheduleDay::EveryDay);
    assert_eq!(settings.effective_scheduled_cleanup_days(), ScheduleDay::weekdays().to_vec());
}

#[test]
fn defaults_and_language_positions() {
    let s = AppSettings::default();
    assert_eq!(s.scheduled_cleanup_hour, 3);
    assert_eq!(s.log_retention_days, 30);
    assert_eq!(s.max_files_per_operation, 10000);
    assert_eq!(s.effective_scheduled_cleanup_days(), ScheduleDay::weekdays().to_vec());
    for l in [
        AppLanguage::Automatic,
        AppLanguage::English,
        AppLanguage::Greek,
        AppLanguage::Italian,
        AppLanguage::Spanish,
        AppLanguage::German,
        AppLanguage::French,
    ] {
        assert_eq!(AppLanguage::from_settings_index(l.settings_index()), l);
    }
    assert_eq!(AppLanguage::from_settings_index(42), AppLanguage::Automatic);
    assert_eq!(AppLanguage::French.settings_index(), 6);
    assert_eq!(ScheduleDay::Sunday.display_name(), "Sunday");
}

#[test]
fn a_scheduled_cleanup_is_due_once_per_slot() {
    let mut s = AppSettings::default();
    s.scheduled_cleanup_enabled = true;
    s.scheduled_cleanup_hour = 3;
    s.scheduled_cleanup_minute = 5;
    s.set_scheduled_cleanup_days(vec![ScheduleDay::Tuesday]);
    let now = LocalTime { year: 2024, month: 3, day: 5, hour: 3, minute: 5, weekday: Weekday::Tue };
    assert_eq!(schedule_slot(now), "2024-03-05 03:05");
    let slot = scheduled_cleanup_due(&s, now, None).unwrap();
    assert_eq!(slot, "2024-03-05 03:05");
    assert_eq!(scheduled_cleanup_due(&s, now, Some(&slot)), None);
    let wednesday = LocalTime { weekday: Weekday::Wed, ..now };
    assert_eq!(scheduled_cleanup_due(&s, wednesday, None), None);
    let later = LocalTime { minute: 6, ..now };
    assert_eq!(scheduled_cleanup_due(&s, later, None), None);
    s.scheduled_cleanup_enabled = false;
    assert_eq!(scheduled_cleanup_due(&s, now, None), None);
}
