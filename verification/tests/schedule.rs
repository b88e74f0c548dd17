use windows_task::model::{TaskDateTime, TaskDuration, Trigger, Weekday};
use windows_task::schedule::{every, weekly, CronSchedule, ScheduleError};
use windows_task::{Error, ErrorKind};

#[test]
fn compiles_weekday_cron() {
    let cron = CronSchedule::parse("30 8 * * mon-fri").expect("cron");
    let first = TaskDateTime::parse("2026-09-02T00:00:00").expect("anchor");
    let triggers = cron.compile(&first).expect("native schedule");
    assert_eq!(triggers.len(), 1);
    assert!(matches!(triggers[0], Trigger::Weekly(_)));
}

#[test]
fn rejects_posix_or_overlap() {
    let cron = CronSchedule::parse("0 0 1 * mon").expect("cron");
    let first = TaskDateTime::parse("2026-09-02T00:00:00").expect("anchor");
    assert!(matches!(
        cron.compile(&first),
        Err(ScheduleError::NotRepresentable { .. })
    ));
}

#[test]
fn enforces_native_trigger_limit() {
    let cron = CronSchedule::parse("0,15,30,45 * * * *").expect("cron");
    let first = TaskDateTime::parse("2026-09-02T00:00:00Z").expect("anchor");
    assert!(matches!(
        cron.compile(&first),
        Err(ScheduleError::NotRepresentable { .. })
    ));
}

#[test]
fn expands_a_stepped_single_value_to_the_field_max() {
    let cron = CronSchedule::parse("5/10 0 * * *").expect("cron");
    let first = TaskDateTime::parse("2026-09-02T00:00:00Z").expect("anchor");
    let triggers = cron.compile(&first).expect("native schedule");
    assert_eq!(triggers.len(), 6);
}

#[test]
fn schedule_failures_convert_to_invalid_definition() {
    let error: Error = every(
        TaskDateTime::parse("2026-09-05T06:00:00").expect("anchor"),
        TaskDuration::from_secs(0),
    )
    .expect_err("zero repetition")
    .into();
    assert_eq!(error.kind(), ErrorKind::InvalidDefinition);
}

#[test]
fn cron_boundaries_keep_the_anchor_date_and_offset() {
    let cron = CronSchedule::parse("5/20 7 * * *").expect("cron");
    let first = TaskDateTime::parse("2026-09-02T23:59:00+09:00").expect("anchor");
    let triggers = cron.compile(&first).expect("native schedule");
    let starts: Vec<&str> = triggers
        .iter()
        .map(|trigger| match trigger {
            Trigger::Daily(daily) => daily.common.start_boundary.as_ref().expect("start").as_str(),
            _ => panic!("expected daily triggers"),
        })
        .collect();
    assert_eq!(
        starts,
        ["2026-09-02T07:05:00+09:00", "2026-09-02T07:25:00+09:00", "2026-09-02T07:45:00+09:00"]
    );
}

#[test]
fn cron_month_and_weekday_names_select_monthly_weekday_triggers() {
    let cron = CronSchedule::parse("0 12 * JAN,mar SUN,7,sat").expect("cron");
    assert_eq!(cron.as_str(), "0 12 * JAN,mar SUN,7,sat");
    let first = TaskDateTime::parse("2026-01-01T00:00:00").expect("anchor");
    let triggers = cron.compile(&first).expect("native schedule");
    assert_eq!(triggers.len(), 1);
    match &triggers[0] {
        Trigger::MonthlyDow(monthly) => {
            assert_eq!(monthly.days_of_week, [Weekday::Sunday, Weekday::Saturday]);
            assert_eq!(monthly.weeks_of_month.len(), 4);
            assert!(monthly.run_on_last_week);
            assert_eq!(monthly.months.len(), 2);
        }
        _ => panic!("expected a monthly day-of-week trigger"),
    }
}

#[test]
fn cron_day_of_month_selects_monthly_days() {
    let cron = CronSchedule::parse("0 0 1-3,15 * *").expect("cron");
    let first = TaskDateTime::parse("2026-01-01T00:00:00").expect("anchor");
    match &cron.compile(&first).expect("native schedule")[0] {
        Trigger::Monthly(monthly) => {
            assert_eq!(monthly.days_of_month, [1, 2, 3, 15]);
            assert_eq!(monthly.months.len(), 12);
            assert!(!monthly.run_on_last_day);
        }
        _ => panic!("expected a monthly trigger"),
    }
}

#[test]
fn malformed_cron_fields_are_invalid() {
    for input in [
        "* * * *",
        "60 * * * *",
        "* 24 * * *",
        "* * 0 * *",
        "* * * 13 *",
        "* * * * 8",
        "*/0 * * * *",
        "5-1 * * * *",
        "a * * * *",
        "1,,2 * * * *",
        "* * * * * *",
    ] {
        assert!(matches!(CronSchedule::parse(input), Err(ScheduleError::Invalid(_))), "{input}");
    }
}

#[test]
fn cron_limit_reports_the_expanded_trigger_count() {
    let cron = CronSchedule::parse("* 0 * * *").expect("cron");
    let first = TaskDateTime::parse("2026-09-02T00:00:00").expect("anchor");
    match cron.compile(&first) {
        Err(ScheduleError::NotRepresentable { required_triggers, .. }) => {
            assert_eq!(required_triggers, Some(60));
        }
        other => panic!("unexpected {other:?}"),
    }
    let quarter_hours = CronSchedule::parse("0,15,30,45 * * * *").expect("cron");
    let utc = TaskDateTime::parse("2026-09-02T00:00:00Z").expect("anchor");
    match quarter_hours.compile(&utc) {
        Err(ScheduleError::NotRepresentable { required_triggers, .. }) => {
            assert_eq!(required_triggers, Some(96));
        }
        other => panic!("unexpected {other:?}"),
    }
}

#[test]
fn weekly_recipe_orders_days_once() {
    let first = TaskDateTime::parse("2026-09-02T08:00:00").expect("anchor");
    match weekly(first, &[Weekday::Friday, Weekday::Monday, Weekday::Friday]) {
        Trigger::Weekly(trigger) => {
            assert_eq!(trigger.days_of_week, [Weekday::Monday, Weekday::Friday]);
            assert_eq!(trigger.weeks_interval, 1);
        }
        _ => panic!("expected a weekly trigger"),
    }
}

#[test]
fn schedule_error_messages_name_their_kind() {
    let error = every(
        TaskDateTime::parse("2026-09-05T06:00:00").expect("anchor"),
        TaskDuration::from_secs(0),
    )
    .expect_err("zero repetition");
    assert_eq!(error.message(), "invalid schedule: repeat interval must be greater than zero");
}
