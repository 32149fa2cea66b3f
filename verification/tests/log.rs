use kimai_timer::cmd::log::{DayRange, LogOutput, RoundingMode, TaskDuration};
use kimai_timer::cmd::CommandLog;
use kimai_timer::store::{CurrentTask, Store, StoreEvent, TimeInterval};

const DAY: i64 = 86_400;
// 2026-06-27 00:00:00 UTC, a Saturday.
const SAT: i64 = 1_782_518_400;

fn log_cmd(days: Option<i64>, raw: bool, json: bool) -> CommandLog {
    CommandLog { days, json, period: false, raw, week: false }
}

fn interval(task: &str, start: i64, end: i64) -> TimeInterval {
    TimeInterval::new(task, start, end)
}

#[test]
fn window_length_priority() {
    assert_eq!(CommandLog { days: Some(3), json: false, period: true, raw: false, week: true }.window_length(), 3);
    assert_eq!(CommandLog { days: None, json: false, period: true, raw: false, week: true }.window_length(), 14);
    assert_eq!(CommandLog { days: None, json: false, period: false, raw: false, week: true }.window_length(), 7);
    assert_eq!(log_cmd(None, false, false).window_length(), 1);
}

#[test]
fn day_range_ends_today() {
    let range = log_cmd(Some(3), false, false).day_range_at(SAT + 3_600 * 15, 0);
    assert_eq!(range.days, vec![SAT - 2 * DAY, SAT - DAY, SAT]);
    // 23:30 UTC is already the next day at UTC+1.
    let range = log_cmd(None, false, false).day_range_at(SAT + 23 * 3_600 + 1_800, 3_600);
    assert_eq!(range.days, vec![SAT + DAY]);
    assert_eq!(range.offset, 3_600);
}

#[test]
fn compute_day_range_reads_the_clock() {
    let range = log_cmd(Some(7), false, false).compute_day_range(0).unwrap();
    assert_eq!(range.days.len(), 7);
    let now = time::OffsetDateTime::now_utc().unix_timestamp();
    let today = now - now.rem_euclid(DAY);
    let last = *range.days.last().unwrap();
    assert!(last == today || last == today + DAY);
    assert!(log_cmd(Some(10_000_000), false, false).compute_day_range(0).is_none());
}

#[test]
fn filter_keeps_intervals_ending_in_window() {
    let events = vec![
        Ok(StoreEvent::CreateInterval(interval("a", SAT - 7_200, SAT - 3_600))),
        Ok(StoreEvent::CreateInterval(interval("b", SAT - 3_600, SAT + 3_600))),
        Ok(StoreEvent::CreateInterval(interval("c", SAT + 60, SAT + 120))),
    ];
    let kept = CommandLog::filter_events_in_range(&events, SAT, 0).unwrap();
    let names: Vec<&str> = kept.iter().map(|i| i.task.as_str()).collect();
    assert_eq!(names, vec!["b", "c"]);
    let broken = vec![
        Ok(StoreEvent::CreateInterval(interval("a", SAT, SAT + 1))),
        Err("line 2: bad json".to_string()),
        Err("line 3: bad json".to_string()),
    ];
    let err = CommandLog::filter_events_in_range(&broken, SAT, 0).unwrap_err();
    assert_eq!(err.message(), "failed to fetch events from log: line 2: bad json");
}

#[test]
fn table_splits_intervals_at_midnight() {
    let range = DayRange { offset: 0, days: vec![SAT - DAY, SAT] };
    let ivs = vec![
        interval("b", SAT - 1_800, SAT + 3_600),
        interval("a", SAT + 600, SAT + 1_200),
        interval("b", SAT - DAY - 600, SAT - DAY + 600),
    ];
    let table = CommandLog::build_table_at(&ivs, None, &range, SAT + 7_200);
    let rows = &table.day_durations_by_task;
    assert_eq!(rows.len(), 2);
    assert_eq!(rows[0].task, "a");
    assert_eq!(rows[0].durations, vec![0, 600]);
    assert_eq!(rows[1].task, "b");
    assert_eq!(rows[1].durations, vec![1_800 + 600, 3_600]);
    assert!(table.current_task.is_none());
}

#[test]
fn table_counts_running_task_up_to_now() {
    let range = DayRange { offset: 0, days: vec![SAT] };
    let current = CurrentTask { task: "run".to_string(), start: SAT + 3_600 };
    let table = CommandLog::build_table_at(&Vec::new(), Some(&current), &range, SAT + 3_600 + 5_400);
    assert_eq!(table.day_durations_by_task[0].durations, vec![5_400]);
    assert_eq!(table.current_task.as_deref(), Some("run"));
    let summary = CommandLog::summarize_table(&table, 1);
    assert!(summary.rows[0].is_current);
    assert_eq!(summary.rows[0].highlighted, vec![true]);
    assert!(!summary.show_multiday_totals);
}

#[test]
fn summary_rounds_and_totals() {
    let range = DayRange { offset: 0, days: vec![SAT - DAY, SAT] };
    let ivs = vec![
        interval("a", SAT - DAY, SAT - DAY + 89),
        interval("a", SAT, SAT + 91),
        interval("b", SAT, SAT + 3_600),
    ];
    let table = CommandLog::build_table_at(&ivs, None, &range, SAT + 7_200);
    let summary = CommandLog::summarize_table(&table, 2);
    assert_eq!(summary.rows[0].cells, vec![0, 180]);
    assert_eq!(summary.rows[0].total, 180);
    assert_eq!(summary.rows[1].cells, vec![0, 3_600]);
    assert_eq!(summary.day_totals, vec![0, 3_780]);
    assert_eq!(summary.total, 3_780);
    assert!(summary.show_multiday_totals);
    assert_eq!(summary.rows[0].highlighted, vec![false, false]);
}

#[test]
fn rounding_goes_to_nearest_three_minutes() {
    let mode = RoundingMode::default();
    assert_eq!(TaskDuration::new(89).rounded(&mode), 0);
    assert_eq!(TaskDuration::new(90).rounded(&mode), 180);
    assert_eq!(TaskDuration::new(269).rounded(&mode), 180);
    assert_eq!(TaskDuration::new(270).rounded(&mode), 360);
    assert_eq!(TaskDuration::new(-90).rounded(&mode), -180);
    assert_eq!(TaskDuration::new(3_600).rounded(&RoundingMode::Classic(15)), 3_600);
}

#[test]
fn rounding_with_other_steps_and_at_the_edge() {
    assert_eq!(TaskDuration::new(29).rounded(&RoundingMode::Classic(1)), 0);
    assert_eq!(TaskDuration::new(30).rounded(&RoundingMode::Classic(1)), 60);
    assert_eq!(TaskDuration::new(-30).rounded(&RoundingMode::Classic(1)), -60);
    assert_eq!(TaskDuration::new(1_799).rounded(&RoundingMode::Classic(60)), 0);
    assert_eq!(TaskDuration::new(1_800).rounded(&RoundingMode::Classic(60)), 3_600);
    let mode = RoundingMode::default();
    assert_eq!(TaskDuration::new(i64::MAX - 90).rounded(&mode), 9_223_372_036_854_775_800);
    assert_eq!(TaskDuration::new(-(i64::MAX - 90)).rounded(&mode), -9_223_372_036_854_775_800);
}

#[test]
fn durations_format_as_hours_and_minutes() {
    assert_eq!(CommandLog::format_duration(5_400), "01:30");
    assert_eq!(CommandLog::format_duration(0), "00:00");
    assert_eq!(CommandLog::format_duration(59), "00:00");
    assert_eq!(CommandLog::format_duration(36_000 + 60 * 59), "10:59");
    assert_eq!(CommandLog::format_duration(360_000), "100:00");
}

#[test]
fn raw_line_shows_local_times() {
    let iv = interval("work", SAT + 9 * 3_600, SAT + 10 * 3_600 + 1_800);
    assert_eq!(
        CommandLog::raw_line(&iv, 7_200).unwrap(),
        "work 2026-06-27 11:00:00 - 2026-06-27 12:30:00 (01:30)"
    );
}

#[test]
fn day_headers_name_weekday_and_date() {
    let headers = CommandLog::day_headers(&vec![SAT, SAT + DAY, 0]).unwrap();
    assert_eq!(headers[0].weekday, "Sat");
    assert_eq!(headers[0].month_day, "06/27");
    assert_eq!(headers[1].weekday, "Sun");
    assert_eq!(headers[1].month_day, "06/28");
    assert_eq!(headers[2].weekday, "Thu");
    assert_eq!(headers[2].month_day, "01/01");
}

#[test]
fn current_line_names_task_and_start() {
    let c = CurrentTask { task: "work".to_string(), start: SAT + 8 * 3_600 };
    assert_eq!(
        CommandLog::current_line(&c, -3_600).unwrap().unwrap(),
        " current: work (started 2026-06-27 07:00:00)"
    );
    let bad = CurrentTask { task: "work".to_string(), start: i64::MAX };
    assert!(CommandLog::current_line(&bad, 0).unwrap().is_none());
}

fn store_with_intervals(ivs: Vec<TimeInterval>, current: Option<CurrentTask>) -> Store {
    let events = ivs.into_iter().map(|iv| Ok(StoreEvent::CreateInterval(iv))).collect();
    Store::from_persisted(Ok(vec!["a".to_string(), "b".to_string()]), Ok(current), String::new(), events)
}

#[test]
fn execute_shows_raw_json_and_table() {
    let now = SAT + 12 * 3_600;
    let store = store_with_intervals(
        vec![interval("a", SAT + 3_600, SAT + 7_200), interval("b", SAT - 3 * DAY, SAT - 3 * DAY + 60)],
        None,
    );
    match log_cmd(None, true, false).execute_at(&store, 0, now).unwrap() {
        LogOutput::Raw(lines) => {
            assert_eq!(lines, vec!["a 2026-06-27 01:00:00 - 2026-06-27 02:00:00 (01:00)"]);
        }
        _ => panic!("expected raw lines"),
    }
    match log_cmd(None, false, true).execute_at(&store, 0, now).unwrap() {
        LogOutput::Json(ivs) => assert_eq!(ivs.len(), 1),
        _ => panic!("expected intervals"),
    }
    match log_cmd(Some(7), false, false).execute_at(&store, 0, now).unwrap() {
        LogOutput::Table(t) => {
            assert_eq!(t.headers.len(), 7);
            assert_eq!(t.headers[6].weekday, "Sat");
            assert_eq!(t.summary.total, 3_600 + 0);
            assert_eq!(t.summary.rows.len(), 2);
            assert!(t.current_line.is_none());
        }
        _ => panic!("expected a table"),
    }
}

#[test]
fn execute_shows_nothing_for_an_empty_window() {
    let now = SAT + 12 * 3_600;
    let store = store_with_intervals(vec![interval("b", SAT - 3 * DAY, SAT - 3 * DAY + 60)], None);
    assert!(matches!(log_cmd(None, false, false).execute_at(&store, 0, now).unwrap(), LogOutput::Empty));
}

#[test]
fn execute_counts_the_running_task() {
    let now = SAT + 12 * 3_600;
    let current = CurrentTask { task: "b".to_string(), start: SAT + 11 * 3_600 };
    let store = store_with_intervals(Vec::new(), Some(current));
    match log_cmd(None, false, false).execute_at(&store, 0, now).unwrap() {
        LogOutput::Table(t) => {
            assert_eq!(t.summary.total, 3_600);
            assert!(t.summary.rows[0].is_current);
            assert_eq!(t.current_line.unwrap(), " current: b (started 2026-06-27 11:00:00)");
        }
        _ => panic!("expected a table"),
    }
}

#[test]
fn execute_refuses_intervals_after_the_window() {
    let now = SAT + 12 * 3_600;
    let store = store_with_intervals(vec![interval("a", SAT + DAY, SAT + DAY + 60)], None);
    let err = log_cmd(None, false, false).execute_at(&store, 0, now).unwrap_err();
    assert_eq!(err.message(), "time log data outside the log window or the supported range of dates");
}

#[test]
fn execute_reports_unreadable_state() {
    let now = SAT + 12 * 3_600;
    let store = Store::from_persisted(Ok(Vec::new()), Err("bad".to_string()), String::new(), Vec::new());
    let err = log_cmd(None, false, false).execute_at(&store, 0, now).unwrap_err();
    assert_eq!(err.message(), "failed to parse current task: bad");
    let store = Store::from_persisted(Ok(Vec::new()), Ok(None), String::new(), vec![Err("eof".to_string())]);
    let err = log_cmd(None, true, false).execute_at(&store, 0, now).unwrap_err();
    assert_eq!(err.message(), "failed to fetch events from log: eof");
}

#[test]
fn picker_step_durations_are_not_rounded() {
    let mode = RoundingMode::default();
    for k in [-3i64, 0, 1, 7, 480] {
        assert_eq!(TaskDuration::new(k * 180).rounded(&mode), k * 180);
    }
}

#[test]
fn build_table_counts_running_task_in_todays_window() {
    let now = time::OffsetDateTime::now_utc().unix_timestamp();
    let today = now - now.rem_euclid(DAY);
    let range = DayRange { offset: 0, days: vec![today - DAY, today, today + DAY] };
    let current = CurrentTask { task: "run".to_string(), start: today - 3_600 };
    let table = CommandLog::build_table(&Vec::new(), Some(&current), &range).unwrap();
    let row = &table.day_durations_by_task[0];
    assert_eq!(row.durations[0], 3_600);
    assert!(row.durations[1] >= now - today - 5);
    let past = DayRange { offset: 0, days: vec![today - 3 * DAY] };
    let recent = CurrentTask { task: "run".to_string(), start: today - 3 * DAY + 60 };
    assert!(CommandLog::build_table(&Vec::new(), Some(&recent), &past).is_none());
    assert!(CommandLog::build_table(&Vec::new(), None, &past).is_some());
}
