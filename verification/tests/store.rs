use kimai_timer::store::{current_task_from_text, tasks_from_text, CurrentTask, Store, StoreEvent, TimeInterval};

#[test]
fn add_and_get_tasks_roundtrip() {
    let mut store = Store::new();
    store.add_task("my-task").unwrap();
    let tasks = store.get_tasks().unwrap();
    assert!(tasks.contains(&"my-task".to_string()));
}

#[test]
fn set_and_get_current_task_roundtrip() {
    let mut store = Store::new();
    store.set_current_task("my-task", 1_000_000);
    let current = store.get_current_task().unwrap().unwrap();
    assert_eq!(current.task, "my-task");
    assert_eq!(current.start, 1_000_000);
}

#[test]
fn clear_current_task_returns_none() {
    let mut store = Store::new();
    store.set_current_task("my-task", 1_000_000);
    store.clear_current_task();
    assert!(store.get_current_task().unwrap().is_none());
}

#[test]
fn set_and_get_last_task_roundtrip() {
    let mut store = Store::new();
    store.set_last_task("my-task");
    let last = store.get_last_task().unwrap();
    assert_eq!(last, "my-task");
}

#[test]
fn append_and_fetch_interval_roundtrip() {
    let mut store = Store::new();
    let interval = TimeInterval::new("my-task", 1_000_000, 1_003_600);
    let id = interval.id.clone();
    store.append_interval(interval);
    let events = store.fetch_events();
    assert_eq!(events.len(), 1);
    let StoreEvent::CreateInterval(fetched) = events[0].as_ref().unwrap();
    assert_eq!(fetched.id, id);
    assert_eq!(fetched.task, "my-task");
}

#[test]
fn add_task_refuses_bad_names_and_keeps_tasks_sorted() {
    let mut store = Store::new();
    let err = store.add_task("1abc").unwrap_err();
    assert_eq!(
        err.message(),
        "invalid task name: must start with letter and only contain alphanumerics or dashes"
    );
    assert!(store.add_task("has space").is_err());
    store.add_task("zeta").unwrap();
    store.add_task("Alpha-2").unwrap();
    store.add_task("beta").unwrap();
    store.add_task("beta").unwrap();
    assert_eq!(store.get_tasks().unwrap(), vec!["Alpha-2", "beta", "zeta"]);
}

#[test]
fn empty_last_task_reads_as_none() {
    let mut store = Store::new();
    assert!(store.get_last_task().is_none());
    store.set_last_task("");
    assert!(store.get_last_task().is_none());
}

#[test]
fn persisted_state_is_read_back() {
    let store = Store::from_persisted(
        Ok(vec!["b".to_string(), "a".to_string(), "b".to_string()]),
        Ok(Some(CurrentTask { task: "a".to_string(), start: 5 })),
        "b".to_string(),
        vec![Err("broken line".to_string())],
    );
    assert_eq!(store.get_tasks().unwrap(), vec!["a", "b"]);
    assert_eq!(store.get_current_task().unwrap().unwrap().start, 5);
    assert_eq!(store.get_last_task().unwrap(), "b");
    assert!(store.fetch_events()[0].is_err());

    let broken = Store::from_persisted(
        Err("expected value at line 1".to_string()),
        Err("EOF while parsing".to_string()),
        String::new(),
        Vec::new(),
    );
    assert_eq!(
        broken.get_tasks().unwrap_err().message(),
        "failed to parse taskset: expected value at line 1"
    );
    assert_eq!(
        broken.get_current_task().unwrap_err().message(),
        "failed to parse current task: EOF while parsing"
    );
}

#[test]
fn new_interval_gets_fresh_v4_id_and_creation_time() {
    let a = TimeInterval::new("t", 10, 20);
    let b = TimeInterval::new("t", 10, 20);
    assert_ne!(a.id, b.id);
    let parsed = uuid::Uuid::parse_str(&a.id).unwrap();
    assert_eq!(parsed.get_version_num(), 4);
    assert_eq!(a.id, a.id.to_lowercase());
    assert_eq!(a.id.len(), 36);
    let now = time::OffsetDateTime::now_utc().unix_timestamp();
    assert!((now - a.created_at).abs() < 60);
    assert!(a.updated_at.is_none());
}

#[test]
fn local_interval_shifts_by_offset() {
    let iv = TimeInterval::new("t", 1_000, 2_000);
    let local = iv.to_local(3_600);
    assert_eq!(local.start, 4_600);
    assert_eq!(local.end, 5_600);
    assert_eq!(local.created_at, iv.created_at + 3_600);
    assert_eq!(local.task, "t");
}

#[test]
fn empty_task_name_is_refused() {
    let mut store = Store::new();
    let err = store.add_task("").unwrap_err();
    assert!(matches!(err, kimai_timer::error::KtError::InvalidTaskName));
    assert!(store.get_tasks().unwrap().is_empty());
}

#[test]
fn local_interval_shifts_update_time_too() {
    let mut iv = TimeInterval::new("t", 1_000, 2_000);
    iv.updated_at = Some(1_500);
    let local = iv.to_local(-600);
    assert_eq!(local.updated_at, Some(900));
    assert_eq!(local.start, 400);
}

#[test]
fn interval_created_at_keeps_the_given_time() {
    let iv = TimeInterval::created_at("my-project", 1_000, 4_600, 5_000);
    assert_eq!(iv.task, "my-project");
    assert_eq!((iv.start, iv.end, iv.created_at), (1_000, 4_600, 5_000));
    assert!(iv.updated_at.is_none());
    assert_eq!(iv.id.len(), 36);
    assert_eq!(iv.id.chars().nth(14), Some('4'));
}

#[test]
fn task_set_text_is_read_in_name_order() {
    assert_eq!(tasks_from_text("").unwrap(), Vec::<String>::new());
    assert_eq!(tasks_from_text("[]").unwrap(), Vec::<String>::new());
    assert_eq!(tasks_from_text(r#"["b","a"]"#).unwrap(), vec!["a", "b"]);
    assert_eq!(tasks_from_text(r#"["a","a"]"#).unwrap(), vec!["a"]);
    assert!(tasks_from_text("not json").is_err());
    assert!(tasks_from_text(r#"{"a": 1}"#).is_err());
}

#[test]
fn running_task_text_reads_empty_as_none() {
    let parsed = Ok(CurrentTask { task: "a".to_string(), start: 5 });
    assert!(current_task_from_text("", parsed).unwrap().is_none());
    let parsed = Ok(CurrentTask { task: "a".to_string(), start: 5 });
    let c = current_task_from_text(r#"{"task":"a","start":5}"#, parsed).unwrap().unwrap();
    assert_eq!((c.task.as_str(), c.start), ("a", 5));
    let err = current_task_from_text("x", Err("bad record".to_string())).unwrap_err();
    assert_eq!(err, "bad record");
}
