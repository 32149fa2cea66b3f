use kimai_timer::calendar::{Date, LocalNow};
use kimai_timer::cli::{run_main, Command, CommandOutcome};
use kimai_timer::cmd::list::ListMark;
use kimai_timer::cmd::punch_in::{similar_tasks, InOutcome};
use kimai_timer::cmd::{
    CommandIn, CommandList, CommandLog, CommandNew, CommandOut, CommandSwitch,
};
use kimai_timer::error::KtError;
use kimai_timer::store::Store;

fn store_with(tasks: &[&str]) -> Store {
    let mut store = Store::new();
    for t in tasks {
        store.add_task(t).unwrap();
    }
    store
}

fn punch_in(store: &mut Store, task: Option<&str>) -> Result<InOutcome, KtError> {
    CommandIn { task: task.map(|t| t.to_string()) }.execute(store)
}

#[test]
fn new_creates_task_once() {
    let mut store = Store::new();
    CommandNew { task: "my-project".to_string() }.execute(&mut store).unwrap();
    let err = CommandNew { task: "my-project".to_string() }.execute(&mut store).unwrap_err();
    assert_eq!(err.message(), "task my-project already exists");
    let err = CommandNew { task: String::new() }.execute(&mut store).unwrap_err();
    assert_eq!(err.message(), "task name cannot be empty");
    let err = CommandNew { task: "-x".to_string() }.execute(&mut store).unwrap_err();
    assert!(matches!(err, KtError::InvalidTaskName));
    assert_eq!(store.get_tasks().unwrap(), vec!["my-project"]);
}

#[test]
fn in_starts_task_and_out_records_interval() {
    let mut store = store_with(&["my-project"]);
    match punch_in(&mut store, Some("my-project")).unwrap() {
        InOutcome::PunchedIn { task, punched_out, .. } => {
            assert_eq!(task, "my-project");
            assert!(punched_out.is_none());
        }
        other => panic!("unexpected {other:?}"),
    }
    assert!(matches!(
        punch_in(&mut store, Some("my-project")).unwrap(),
        InOutcome::AlreadyPunchedIn(_)
    ));
    let interval = CommandOut {}.execute(&mut store).unwrap().unwrap();
    assert_eq!(interval.task, "my-project");
    assert!(interval.end >= interval.start);
    assert!(store.get_current_task().unwrap().is_none());
    assert_eq!(store.get_last_task().unwrap(), "my-project");
    assert_eq!(store.fetch_events().len(), 1);
    assert!(CommandOut {}.execute(&mut store).unwrap().is_none());
}

#[test]
fn in_other_task_punches_out_first() {
    let mut store = store_with(&["my-project", "my-other-project"]);
    punch_in(&mut store, Some("my-project")).unwrap();
    match punch_in(&mut store, Some("my-other-project")).unwrap() {
        InOutcome::PunchedIn { task, punched_out, .. } => {
            assert_eq!(task, "my-other-project");
            assert_eq!(punched_out.unwrap().task, "my-project");
        }
        other => panic!("unexpected {other:?}"),
    }
    assert_eq!(store.get_last_task().unwrap(), "my-project");
    assert_eq!(store.get_current_task().unwrap().unwrap().task, "my-other-project");
    assert_eq!(store.fetch_events().len(), 1);
}

#[test]
fn out_then_in_resumes_last_task() {
    let mut store = store_with(&["my-project"]);
    punch_in(&mut store, Some("my-project")).unwrap();
    CommandOut {}.execute(&mut store).unwrap();
    match punch_in(&mut store, None).unwrap() {
        InOutcome::PunchedIn { task, .. } => assert_eq!(task, "my-project"),
        other => panic!("unexpected {other:?}"),
    }
}

#[test]
fn in_without_task_or_last_task_fails() {
    let mut store = store_with(&["my-project"]);
    let err = punch_in(&mut store, None).unwrap_err();
    assert_eq!(err.message(), "missing task and no last task is set");
}

#[test]
fn in_unknown_task_suggests_similar_names() {
    let mut store = store_with(&["my-project", "groceries"]);
    let err = punch_in(&mut store, Some("my-projet")).unwrap_err();
    match &err {
        KtError::UnknownTask { task, similar } => {
            assert_eq!(task, "my-projet");
            assert!(similar.iter().all(|s| s == "my-project" || s == "groceries"));
            assert!(similar.contains(&"my-project".to_string()));
        }
        other => panic!("unexpected {other:?}"),
    }
    assert!(err.message().starts_with("task does not exist: my-projet: similar tasks: "));
    assert!(store.get_current_task().unwrap().is_none());
}

#[test]
fn similar_tasks_come_from_the_task_set() {
    let tasks = vec!["alpha".to_string(), "beta".to_string()];
    let similar = similar_tasks(&tasks, "alpah");
    assert!(similar.iter().all(|s| tasks.contains(s)));
    let none = similar_tasks(&tasks, "zzzzzzzz");
    assert!(none.is_empty());
}

#[test]
fn switch_swaps_current_and_last() {
    let mut store = store_with(&["a", "b"]);
    let err = CommandSwitch {}.execute(&mut store).unwrap_err();
    assert_eq!(err.message(), "no current task to switch from");
    punch_in(&mut store, Some("a")).unwrap();
    let err = CommandSwitch {}.execute(&mut store).unwrap_err();
    assert_eq!(err.message(), "no last task to switch to");
    punch_in(&mut store, Some("b")).unwrap();
    assert_eq!(store.get_last_task().unwrap(), "a");
    CommandSwitch {}.execute(&mut store).unwrap();
    assert_eq!(store.get_current_task().unwrap().unwrap().task, "a");
    assert_eq!(store.get_last_task().unwrap(), "b");
    CommandSwitch {}.execute(&mut store).unwrap();
    assert_eq!(store.get_current_task().unwrap().unwrap().task, "b");
    assert_eq!(store.get_last_task().unwrap(), "a");
}

#[test]
fn list_marks_current_and_last() {
    let mut store = store_with(&["c", "a", "b"]);
    assert!(CommandList {}.execute(&Store::new()).unwrap().is_empty());
    punch_in(&mut store, Some("a")).unwrap();
    punch_in(&mut store, Some("b")).unwrap();
    let entries = CommandList {}.execute(&store).unwrap();
    let names: Vec<&str> = entries.iter().map(|e| e.task.as_str()).collect();
    assert_eq!(names, vec!["a", "b", "c"]);
    assert_eq!(entries[0].mark, ListMark::Last);
    assert_eq!(entries[1].mark, ListMark::Current);
    assert_eq!(entries[2].mark, ListMark::Plain);
}

#[test]
fn out_refuses_start_outside_supported_range() {
    let mut store = store_with(&["a"]);
    store.set_current_task("a", i64::MAX);
    let err = CommandOut {}.execute(&mut store).unwrap_err();
    assert_eq!(err.message(), "invalid start timestamp in current task");
    assert!(store.get_current_task().unwrap().is_some());
}

#[test]
fn run_main_dispatches_each_command() {
    let mut store = Store::new();
    let now = LocalNow { date: Date { year: 2026, month: 6, day: 27 }, hour: 9, minute: 0 };
    let out = run_main(Command::New(CommandNew { task: "a".to_string() }), &mut store, now, 0);
    assert!(matches!(out, Ok(CommandOutcome::New)));
    let out = run_main(Command::List(CommandList {}), &mut store, now, 0).unwrap();
    match out {
        CommandOutcome::List(entries) => assert_eq!(entries.len(), 1),
        _ => panic!("unexpected outcome"),
    }
    let out = run_main(Command::In(CommandIn { task: Some("a".to_string()) }), &mut store, now, 0);
    assert!(matches!(out, Ok(CommandOutcome::In(InOutcome::PunchedIn { .. }))));
    let out = run_main(Command::Out(CommandOut {}), &mut store, now, 0);
    assert!(matches!(out, Ok(CommandOutcome::Out(Some(_)))));
    let out = run_main(Command::Switch(CommandSwitch {}), &mut store, now, 0);
    assert!(matches!(out, Err(KtError::NoCurrentTask)));
    let log = CommandLog { days: None, json: true, period: false, raw: false, week: false };
    match run_main(Command::Log(log), &mut store, now, 0).unwrap() {
        CommandOutcome::Log(_) => {}
        _ => panic!("unexpected outcome"),
    }
}

#[test]
fn error_messages_match_each_variant() {
    let d = Date { year: 2026, month: 3, day: 8 };
    let cases: Vec<(KtError, &str)> = vec![
        (KtError::MissingTask, "missing task and no last task is set"),
        (KtError::NoLastTask, "no last task to switch to"),
        (KtError::InvalidTask("x".to_string()), "invalid task: x (must use previously created task)"),
        (
            KtError::InvalidTimeFlag { flag: "--stop-time".to_string(), input: "9am".to_string() },
            "invalid --stop-time: '9am' (expected HH:MM)",
        ),
        (KtError::InvalidTime { hours: 5, minutes: 75 }, "invalid time: 05:75"),
        (
            KtError::AmbiguousLocalTime { date: d, time: "02:30".to_string() },
            "ambiguous or invalid local datetime: 2026-03-08 02:30",
        ),
        (KtError::EventFetch("bad json".to_string()), "failed to fetch events from log: bad json"),
        (
            KtError::UnknownTask { task: "x".to_string(), similar: vec![] },
            "task does not exist: x",
        ),
        (
            KtError::UnknownTask {
                task: "x".to_string(),
                similar: vec!["xa".to_string(), "xb".to_string()],
            },
            "task does not exist: x: similar tasks: xa, xb",
        ),
    ];
    for (e, text) in cases {
        assert_eq!(e.message(), text);
    }
}

#[test]
fn date_text_follows_chrono_display() {
    for (y, m, d) in [(2026, 6, 1), (12345, 1, 2), (-5, 12, 31), (0, 2, 29), (9999, 12, 31)] {
        let date = Date { year: y, month: m, day: d };
        let expected = chrono::NaiveDate::from_ymd_opt(y, m, d).unwrap().to_string();
        assert_eq!(date.text(), expected);
    }
}

#[test]
fn new_task_shows_up_in_list() {
    let mut store = store_with(&["b"]);
    CommandNew { task: "a".to_string() }.execute(&mut store).unwrap();
    let entries = CommandList {}.execute(&store).unwrap();
    assert!(entries.iter().any(|e| e.task == "a"));
    assert!(entries.iter().all(|e| e.mark == ListMark::Plain));
}

#[test]
fn in_and_out_at_a_given_time_record_that_time() {
    let mut store = store_with(&["a", "b"]);
    match (CommandIn { task: Some("a".to_string()) }).execute_at(&mut store, 1_000).unwrap() {
        InOutcome::PunchedIn { start, punched_out, .. } => {
            assert_eq!(start, 1_000);
            assert!(punched_out.is_none());
        }
        other => panic!("unexpected {other:?}"),
    }
    assert_eq!(store.get_current_task().unwrap().unwrap().start, 1_000);
    match (CommandIn { task: Some("b".to_string()) }).execute_at(&mut store, 4_600).unwrap() {
        InOutcome::PunchedIn { task, start, punched_out } => {
            assert_eq!(task, "b");
            assert_eq!(start, 4_600);
            let iv = punched_out.unwrap();
            assert_eq!((iv.task.as_str(), iv.start, iv.end), ("a", 1_000, 4_600));
        }
        other => panic!("unexpected {other:?}"),
    }
    let iv = CommandOut {}.execute_at(&mut store, 8_200).unwrap().unwrap();
    assert_eq!((iv.task.as_str(), iv.start, iv.end), ("b", 4_600, 8_200));
    assert!(store.get_current_task().unwrap().is_none());
    assert!(CommandOut {}.execute_at(&mut store, 9_000).unwrap().is_none());
}

#[test]
fn switch_at_a_given_time_swaps_at_that_time() {
    let mut store = store_with(&["a", "b"]);
    (CommandIn { task: Some("a".to_string()) }).execute_at(&mut store, 1_000).unwrap();
    (CommandIn { task: Some("b".to_string()) }).execute_at(&mut store, 2_000).unwrap();
    match (CommandSwitch {}).execute_at(&mut store, 3_000).unwrap() {
        InOutcome::PunchedIn { task, start, punched_out } => {
            assert_eq!(task, "a");
            assert_eq!(start, 3_000);
            let iv = punched_out.unwrap();
            assert_eq!((iv.task.as_str(), iv.start, iv.end), ("b", 2_000, 3_000));
        }
        other => panic!("unexpected {other:?}"),
    }
    assert_eq!(store.get_last_task().unwrap(), "b");
}
