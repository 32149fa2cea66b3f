use chrono::{Local, Offset, TimeZone};
use kimai_timer::calendar::{Date, LocalNow};
use kimai_timer::cmd::add::{AddPrompt, AddStep};
use kimai_timer::cmd::CommandAdd;
use kimai_timer::error::KtError;
use kimai_timer::store::Store;
use kimai_timer::wrappers::local_now;

fn today() -> Date {
    local_now().date
}

fn at_nine(date: Date) -> LocalNow {
    LocalNow { date, hour: 9, minute: 0 }
}

fn command(task: &str) -> CommandAdd {
    CommandAdd {
        task: Some(task.to_string()),
        future: false,
        start_date: None,
        start_time: None,
        stop_date: None,
        stop_time: None,
    }
}

#[test]
fn build_time_options_full_day() {
    let times = CommandAdd::build_time_options(1437);
    assert_eq!(times.len(), 480);
    assert_eq!(times.first().map(String::as_str), Some("00:00"));
    assert_eq!(times.last().map(String::as_str), Some("23:57"));
}

#[test]
fn build_time_options_past_date_snaps_to_1437() {
    // cap 1439 floors to (1439/3)*3 = 1437, giving the same full grid as allow_future
    let cap = (1439u16 / 3) * 3;
    let times = CommandAdd::build_time_options(cap);
    assert_eq!(times.len(), 480);
    assert_eq!(times.last().map(String::as_str), Some("23:57"));
}

#[test]
fn build_time_options_now_on_3min_boundary() {
    // now = 14:06 → raw_cap = 846, snaps to (846/3)*3 = 846; last entry must be "14:06"
    let cap = (846u16 / 3) * 3;
    let times = CommandAdd::build_time_options(cap);
    assert_eq!(times.last().map(String::as_str), Some("14:06"));
    assert!(!times.contains(&"14:09".to_string()));
}

#[test]
fn build_time_options_now_between_boundaries() {
    // now = 14:07 → raw_cap = 847, snaps to (847/3)*3 = 846; last entry must be "14:06"
    let cap = (847u16 / 3) * 3;
    let times = CommandAdd::build_time_options(cap);
    assert_eq!(times.last().map(String::as_str), Some("14:06"));
    assert!(!times.contains(&"14:09".to_string()));
}

#[test]
fn build_time_options_midnight() {
    // now = 00:00 → raw_cap = 0, snaps to 0; only "00:00" in the list
    let cap = 0u16;
    let times = CommandAdd::build_time_options(cap);
    assert_eq!(times.len(), 1);
    assert_eq!(times[0], "00:00");
}

#[test]
fn parse_date_valid_past() {
    let today = Date { year: 2026, month: 6, day: 27 };
    let past = Date { year: 2026, month: 6, day: 1 };
    let result = CommandAdd::parse_date("2026-06-01", "--start-date", today, false);
    assert_eq!(result.unwrap(), past);
}

#[test]
fn parse_date_rejects_future_without_flag() {
    let today = Date { year: 2026, month: 6, day: 27 };
    let err = CommandAdd::parse_date("2099-01-01", "--start-date", today, false).unwrap_err();
    assert!(err.message().contains("--start-date"));
    assert!(err.message().contains("--future"));
}

#[test]
fn parse_date_accepts_future_with_flag() {
    let today = Date { year: 2026, month: 6, day: 27 };
    let result = CommandAdd::parse_date("2099-01-01", "--start-date", today, true);
    assert!(result.is_ok());
}

#[test]
fn parse_date_rejects_malformed_string() {
    let today = Date { year: 2026, month: 6, day: 27 };
    let err = CommandAdd::parse_date("27/06/2026", "--start-date", today, false).unwrap_err();
    assert!(err.message().contains("expected YYYY-MM-DD"));
}

#[test]
fn parse_date_rejects_invalid_month() {
    let today = Date { year: 2026, month: 6, day: 27 };
    let err = CommandAdd::parse_date("2026-13-01", "--start-date", today, false).unwrap_err();
    assert!(err.message().contains("expected YYYY-MM-DD"));
}

#[test]
fn parse_time_flag_valid_time() {
    let date = Date { year: 2026, month: 1, day: 1 };
    let now = local_now();
    let result = CommandAdd::parse_time_flag("09:00", "--start-time", date, now, false);
    assert_eq!(result.unwrap(), "09:00");
}

#[test]
fn parse_time_flag_normalises_output() {
    let date = Date { year: 2026, month: 1, day: 1 };
    let now = local_now();
    let result = CommandAdd::parse_time_flag("9:00", "--start-time", date, now, false);
    assert_eq!(result.unwrap(), "09:00");
}

#[test]
fn parse_time_flag_accepts_off_boundary() {
    let date = Date { year: 2026, month: 1, day: 1 };
    let now = local_now();
    let result = CommandAdd::parse_time_flag("14:07", "--start-time", date, now, false);
    assert_eq!(result.unwrap(), "14:07");
}

#[test]
fn parse_time_flag_rejects_malformed() {
    let date = Date { year: 2026, month: 1, day: 1 };
    let now = local_now();
    let err = CommandAdd::parse_time_flag("9am", "--start-time", date, now, false).unwrap_err();
    assert!(err.message().contains("expected HH:MM"));
}

#[test]
fn parse_time_flag_rejects_invalid_hour() {
    let date = Date { year: 2026, month: 1, day: 1 };
    let now = local_now();
    let err = CommandAdd::parse_time_flag("25:00", "--start-time", date, now, false).unwrap_err();
    assert!(err.message().contains("expected HH:MM"));
}

#[test]
fn parse_time_flag_rejects_future_on_today_without_flag() {
    // Use a fixed time of 09:00 today; 23:59 should be rejected.
    let today = today();
    let now = at_nine(today);
    let err = CommandAdd::parse_time_flag("23:59", "--stop-time", today, now, false).unwrap_err();
    assert!(err.message().contains("--future"));
}

#[test]
fn parse_time_flag_accepts_future_on_today_with_flag() {
    let today = today();
    let now = at_nine(today);
    let result = CommandAdd::parse_time_flag("23:59", "--stop-time", today, now, true);
    assert_eq!(result.unwrap(), "23:59");
}

#[test]
fn parse_time_flag_allows_future_time_on_past_date() {
    // "Future" time on a past date is fine even without --future.
    let past_date = Date { year: 2026, month: 1, day: 1 };
    let now = local_now();
    let result = CommandAdd::parse_time_flag("23:59", "--stop-time", past_date, now, false);
    assert!(result.is_ok());
}

#[test]
fn parse_date_reads_the_calendar_date() {
    let today = Date { year: 2026, month: 6, day: 27 };
    let date = CommandAdd::parse_date("2024-02-29", "--stop-date", today, false).unwrap();
    assert_eq!(date, Date { year: 2024, month: 2, day: 29 });
    let err = CommandAdd::parse_date("2023-02-29", "--stop-date", today, false).unwrap_err();
    assert_eq!(err.message(), "invalid --stop-date: '2023-02-29' (expected YYYY-MM-DD)");
}

#[test]
fn parse_date_today_is_not_future() {
    let today = Date { year: 2026, month: 6, day: 27 };
    let date = CommandAdd::parse_date("2026-06-27", "--start-date", today, false).unwrap();
    assert_eq!(date, today);
    let err = CommandAdd::parse_date("2026-06-28", "--start-date", today, false).unwrap_err();
    assert_eq!(err.message(), "--start-date '2026-06-28' is in the future: pass --future to allow it");
}

#[test]
fn parse_time_flag_current_minute_is_not_future() {
    let today = Date { year: 2026, month: 6, day: 27 };
    let now = LocalNow { date: today, hour: 14, minute: 7 };
    assert_eq!(CommandAdd::parse_time_flag("14:07", "--stop-time", today, now, false).unwrap(), "14:07");
    let err = CommandAdd::parse_time_flag("14:08", "--stop-time", today, now, false).unwrap_err();
    assert!(matches!(err, KtError::InFuture { .. }));
}

#[test]
fn check_date_and_time_judge_parsed_values() {
    let today = Date { year: 2026, month: 6, day: 27 };
    let ok = CommandAdd::check_date(Some((2026, 6, 26)), "x", "--start-date", today, false);
    assert_eq!(ok.unwrap(), Date { year: 2026, month: 6, day: 26 });
    let err = CommandAdd::check_date(None, "x", "--start-date", today, false).unwrap_err();
    assert!(matches!(err, KtError::InvalidDate { .. }));
    let now = LocalNow { date: today, hour: 8, minute: 0 };
    let t = CommandAdd::check_time(Some((7, 5)), "7:5", "--start-time", today, now, false);
    assert_eq!(t.unwrap(), "07:05");
    let err = CommandAdd::check_time(None, "x", "--start-time", today, now, false).unwrap_err();
    assert!(matches!(err, KtError::InvalidTimeFlag { .. }));
}

#[test]
fn time_cap_snaps_to_picker_step() {
    let today = Date { year: 2026, month: 6, day: 27 };
    let now = LocalNow { date: today, hour: 14, minute: 7 };
    assert_eq!(CommandAdd::time_cap(today, now, false), 846);
    assert_eq!(CommandAdd::time_cap(today, now, true), 1437);
    let other = Date { year: 2026, month: 6, day: 26 };
    assert_eq!(CommandAdd::time_cap(other, now, false), 1437);
}

#[test]
fn combine_date_time_reads_hours_and_minutes() {
    let date = Date { year: 2026, month: 6, day: 27 };
    let err = CommandAdd::combine_date_time(date, "1230").unwrap_err();
    assert_eq!(err.message(), "invalid time format: 1230");
    let err = CommandAdd::combine_date_time(date, "24:00").unwrap_err();
    assert_eq!(err.message(), "invalid time: 24:00");
    let err = CommandAdd::combine_date_time(date, "7:60").unwrap_err();
    assert_eq!(err.message(), "invalid time: 07:60");
    let expected = Local
        .with_ymd_and_hms(2026, 6, 27, 12, 30, 0)
        .single()
        .map(|dt| dt.timestamp());
    match expected {
        Some(t) => assert_eq!(CommandAdd::combine_date_time(date, "12:30").unwrap(), t),
        None => assert!(CommandAdd::combine_date_time(date, "12:30").is_err()),
    }
}

#[test]
fn add_interval_refuses_stop_not_after_start() {
    let mut store = Store::new();
    let err = CommandAdd::add_interval(&mut store, "a", 100, 100).unwrap_err();
    assert_eq!(err.message(), "stop time must be after start time");
    assert!(store.fetch_events().is_empty());
    let iv = CommandAdd::add_interval(&mut store, "a", 100, 160).unwrap();
    assert_eq!((iv.start, iv.end), (100, 160));
    assert_eq!(store.fetch_events().len(), 1);
}

#[test]
fn execute_asks_for_missing_values_in_order() {
    let mut store = Store::new();
    store.add_task("work").unwrap();
    let today = Date { year: 2026, month: 6, day: 27 };
    let now = LocalNow { date: today, hour: 14, minute: 7 };
    let mut cmd = command("work");
    cmd.task = None;
    assert!(matches!(cmd.execute(&mut store, now).unwrap(), AddStep::Ask(AddPrompt::Task)));
    cmd.task = Some("work".to_string());
    match cmd.execute(&mut store, now).unwrap() {
        AddStep::Ask(AddPrompt::StartDate { latest }) => assert_eq!(latest, Some(today)),
        other => panic!("unexpected {other:?}"),
    }
    cmd.start_date = Some("2026-06-27".to_string());
    match cmd.execute(&mut store, now).unwrap() {
        AddStep::Ask(AddPrompt::StartTime { cap }) => assert_eq!(cap, 846),
        other => panic!("unexpected {other:?}"),
    }
    cmd.start_time = Some("9:00".to_string());
    match cmd.execute(&mut store, now).unwrap() {
        AddStep::Ask(AddPrompt::StopDate { start, latest }) => {
            assert_eq!(start, today);
            assert_eq!(latest, Some(today));
        }
        other => panic!("unexpected {other:?}"),
    }
    cmd.stop_date = Some("2026-06-27".to_string());
    assert!(matches!(
        cmd.execute(&mut store, now).unwrap(),
        AddStep::Ask(AddPrompt::StopTime { cap: 846 })
    ));
    assert!(store.fetch_events().is_empty());
}

#[test]
fn execute_refuses_unknown_task_and_bad_flags() {
    let mut store = Store::new();
    store.add_task("work").unwrap();
    let today = Date { year: 2026, month: 6, day: 27 };
    let now = LocalNow { date: today, hour: 14, minute: 7 };
    let err = command("play").execute(&mut store, now).unwrap_err();
    assert_eq!(err.message(), "invalid task: play (must use previously created task)");
    let mut cmd = command("work");
    cmd.start_date = Some("2099-01-01".to_string());
    let err = cmd.execute(&mut store, now).unwrap_err();
    assert!(err.message().contains("--start-date"));
    cmd.start_date = Some("2026-06-27".to_string());
    cmd.start_time = Some("23:00".to_string());
    let err = cmd.execute(&mut store, now).unwrap_err();
    assert!(err.message().starts_with("--start-time '23:00' is in the future"));
}

#[test]
fn execute_adds_interval_with_all_flags() {
    let mut store = Store::new();
    store.add_task("work").unwrap();
    let now = local_now();
    let cmd = CommandAdd {
        task: Some("work".to_string()),
        future: false,
        start_date: Some("2026-01-02".to_string()),
        start_time: Some("9:00".to_string()),
        stop_date: Some("2026-01-02".to_string()),
        stop_time: Some("10:30".to_string()),
    };
    match cmd.execute(&mut store, now) {
        Ok(AddStep::Added { interval, start_time, stop_time }) => {
            assert_eq!(start_time, "09:00");
            assert_eq!(stop_time, "10:30");
            assert_eq!(interval.task, "work");
            assert_eq!(interval.end - interval.start, 5400);
            assert_eq!(store.fetch_events().len(), 1);
        }
        Ok(other) => panic!("unexpected {other:?}"),
        Err(e) => assert!(matches!(e, KtError::AmbiguousLocalTime { .. })),
    }
}

#[test]
fn execute_refuses_stop_before_start() {
    let mut store = Store::new();
    store.add_task("work").unwrap();
    let now = local_now();
    let cmd = CommandAdd {
        task: Some("work".to_string()),
        future: false,
        start_date: Some("2026-01-02".to_string()),
        start_time: Some("10:00".to_string()),
        stop_date: Some("2026-01-02".to_string()),
        stop_time: Some("09:00".to_string()),
    };
    let err = cmd.execute(&mut store, now).unwrap_err();
    assert!(matches!(err, KtError::StopNotAfterStart | KtError::AmbiguousLocalTime { .. }));
    assert!(store.fetch_events().is_empty());
}

#[test]
fn combine_date_time_instant_shows_the_wall_time() {
    for (y, m, d, text) in [(2026, 6, 27, "12:30"), (2024, 2, 29, "00:00"), (1999, 12, 31, "23:59")] {
        let date = Date { year: y, month: m, day: d };
        if let Ok(t) = CommandAdd::combine_date_time(date, text) {
            let utc = chrono::DateTime::from_timestamp(t, 0).unwrap();
            let offset = Local.offset_from_utc_datetime(&utc.naive_utc()).fix().local_minus_utc();
            let (h, mi) = kimai_timer::text::split_hm(text).unwrap();
            let wall = chrono::NaiveDate::from_ymd_opt(y, m, d)
                .unwrap()
                .and_hms_opt(h, mi, 0)
                .unwrap()
                .and_utc()
                .timestamp();
            assert_eq!(t + offset as i64, wall);
        }
    }
}

#[test]
fn parse_time_flag_output_parses_again() {
    let date = Date { year: 2026, month: 1, day: 1 };
    let now = LocalNow { date, hour: 23, minute: 59 };
    for input in ["9:00", "09:5", "14:07", "0:0", "23:59"] {
        let once = CommandAdd::parse_time_flag(input, "--start-time", date, now, false).unwrap();
        let twice = CommandAdd::parse_time_flag(&once, "--start-time", date, now, false).unwrap();
        assert_eq!(once, twice);
    }
}
