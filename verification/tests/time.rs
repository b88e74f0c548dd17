use windows_task::model::{TaskDateTime, TaskDuration, TimeBasis};

#[test]
fn separates_wall_clock_and_offset_boundaries() {
    let local = TaskDateTime::parse("2026-09-02T08:30:00").expect("local boundary");
    let fixed = TaskDateTime::parse("2026-09-02T08:30:00+09:00").expect("fixed boundary");
    assert_eq!(local.basis(), TimeBasis::LocalWallClock);
    assert_eq!(fixed.basis(), TimeBasis::FixedOffset);
    TaskDateTime::parse("2026-09-02T08:30:00+14:01").expect_err("XSD time zones stop at 14:00");
}

#[test]
fn fixed_durations_reject_calendar_units_overflow_and_ambiguous_fractions() {
    for input in [
        "",
        "P",
        "1S",
        "-PT1S",
        "P1Y",
        "P1M",
        "P1W",
        "P-1D",
        "P1.5D",
        "PT1HT1M",
        "PT1H1H",
        "PT1.2H",
        "PT1.2M",
        "PT1M2",
        "PT.S",
        "PT1.1234567890S",
        "PT1.2.3S",
        "PT1Q",
        "P18446744073709551615D",
        "PT18446744073709551615H",
        "PT18446744073709551616S",
    ] {
        TaskDuration::parse(input).expect_err("unsupported fixed duration");
    }
    for duration in [
        std::time::Duration::ZERO,
        std::time::Duration::from_nanos(1),
        std::time::Duration::new(3661, 123_400_000),
        std::time::Duration::from_secs(u64::MAX),
    ] {
        let task = TaskDuration::from_std(duration);
        assert_eq!(
            TaskDuration::parse(&task.to_string())
                .expect("canonical duration")
                .as_std(),
            duration
        );
        assert_eq!(
            TaskDuration::parse(&task.to_string()).expect("owned string conversion"),
            task
        );
    }
}

#[test]
fn timestamp_calendar_and_offset_boundaries_remain_distinct() {
    for input in [
        "",
        "2026-02-29T00:00:00",
        "2026-04-31T00:00:00",
        "2026-09-05T25:00:00",
        "2026-09-05T00:00:00+15:00",
        "2026-09-05T00:00:00-14:01",
        "2026-09-05T00:00:00+09:60",
        "2026-09-05T00:00:00+9:00",
        "2026-09-05T00:00:00+09",
    ] {
        TaskDateTime::parse(input).expect_err("invalid calendar or offset");
    }
    for input in [
        "2024-02-29T00:00:00",
        "2026-09-05T00:00:00+14:00",
        "2026-09-05T00:00:00-14:00",
        "1969-12-31T23:59:59.5Z",
    ] {
        let timestamp = TaskDateTime::parse(input).expect("boundary timestamp");
        assert_eq!(timestamp.as_str(), input);
    }
}

#[test]
fn duration_round_trips() {
    for input in ["PT0S", "P0D", "PT15M", "P2D", "P2DT3H4M5.25S"] {
        let duration = TaskDuration::parse(input).expect("duration");
        assert_eq!(
            TaskDuration::parse(&duration.to_string()).expect("canonical"),
            duration
        );
    }
}

#[test]
fn duration_rejects_empty_or_out_of_order_time_parts() {
    for input in ["P3DT", "PT1M2H", "PT1.S", "PT"] {
        TaskDuration::parse(input).expect_err("empty or out-of-order time parts must be rejected");
    }
    assert_eq!(TaskDuration::from_secs(3 * 86_400).to_string(), "P3D");
}

#[test]
fn canonical_duration_text_has_exact_fields() {
    assert_eq!(TaskDuration::parse("P2DT3H4M5.25S").expect("d").to_string(), "P2DT3H4M5.25S");
    assert_eq!(TaskDuration::from_mins(90).to_string(), "PT1H30M");
    assert_eq!(TaskDuration::from_secs(0).to_string(), "PT0S");
    assert!(TaskDuration::from_secs(0).is_zero());
    assert_eq!(TaskDuration::from_hours(u64::MAX).secs(), u64::MAX);
}

#[test]
fn wall_clock_boundaries_are_written_with_padding() {
    let boundary = TaskDateTime::wall_clock(2026, 9, 5, 6, 0, 0).expect("anchor");
    assert_eq!(boundary.as_str(), "2026-09-05T06:00:00");
    assert_eq!(boundary.basis(), TimeBasis::LocalWallClock);
}

#[test]
fn days_become_saturated_standard_durations() {
    assert_eq!(TaskDuration::from_days(3).as_std(), std::time::Duration::from_secs(259_200));
    assert_eq!(
        TaskDuration::from_days(u64::MAX).as_std(),
        std::time::Duration::from_secs(u64::MAX)
    );
    let std = std::time::Duration::new(7, 250_000_000);
    let task = TaskDuration::from_std(std);
    assert_eq!(task.secs(), 7);
    assert_eq!(task.subsec_nanos(), 250_000_000);
    assert_eq!(task.as_std(), std);
}

#[test]
fn utc_and_wall_clock_accept_the_same_civil_times() {
    assert!(TaskDateTime::utc(2026, 9, 2, 8, 30, 0).is_ok());
    assert!(TaskDateTime::wall_clock(2026, 9, 2, 8, 30, 0).is_ok());
    assert!(TaskDateTime::utc(2026, 2, 30, 8, 30, 0).is_err());
    assert!(TaskDateTime::wall_clock(2026, 2, 30, 8, 30, 0).is_err());
}
