//! The persisted state of Kimai Timer.
//!
//! [`Store`] holds each piece of state the application keeps between runs: the set of task
//! names, the task being timed right now, the last task punched out of, and the append-only
//! timelog of [`StoreEvent`]s. The application loads it from the data directory before a command
//! and writes back what the command changed; the store itself only decides what each operation
//! means. A file that could not be parsed is kept as its parse error, which the operations that
//! read it report.

use vstd::prelude::*;
use crate::text::{chars_lt, lemma_chars_lt_strict_total_order, str_eq, str_lt};
use crate::wrappers::{new_interval_id, now_utc_timestamp, parse_taskset_json, taskset_json, uuid_v4_text};
use crate::error::KtError;

verus! {

/// An atomic unit of time spent on a task, with a definite start and end (Unix seconds).
#[derive(Debug)]
pub struct TimeInterval {
    /// The unique ID of the interval (allows deduplication and later modification).
    pub id: String,
    /// When the interval was created.
    pub created_at: i64,
    /// When the interval was last updated; `None` if it was never modified after creation.
    pub updated_at: Option<i64>,
    /// The task the interval belongs to.
    pub task: String,
    /// The start of the interval.
    pub start: i64,
    /// The end of the interval.
    pub end: i64,
}

/// The mathematical content of a [`TimeInterval`].
pub struct IntervalView {
    pub id: Seq<char>,
    pub created_at: int,
    pub updated_at: Option<i64>,
    pub task: Seq<char>,
    pub start: int,
    pub end: int,
}

impl View for TimeInterval {
    type V = IntervalView;

    open spec fn view(&self) -> IntervalView {
        IntervalView {
            id: self.id@,
            created_at: self.created_at as int,
            updated_at: self.updated_at,
            task: self.task@,
            start: self.start as int,
            end: self.end as int,
        }
    }
}

impl TimeInterval {
    /// Creates an interval for `task` from `start` to `end`, with a fresh random UUID and the
    /// current time as its creation time.
    pub fn new(task: &str, start: i64, end: i64) -> (interval: TimeInterval)
        ensures
            interval.task@ == task@,
            interval.start == start,
            interval.end == end,
            interval.updated_at is None,
            uuid_v4_text(interval.id@),
            crate::clock::in_time_range(interval.created_at as int),
    {
        Self::created_at(task, start, end, now_utc_timestamp())
    }

    /// Creates an interval for `task` from `start` to `end`, created at `created_at` (Unix
    /// seconds), with a fresh random UUID.
    pub fn created_at(task: &str, start: i64, end: i64, created_at: i64) -> (interval: TimeInterval)
        ensures
            interval.task@ == task@,
            interval.start == start,
            interval.end == end,
            interval.created_at == created_at,
            interval.updated_at is None,
            uuid_v4_text(interval.id@),
    {
        TimeInterval {
            id: new_interval_id(),
            created_at,
            updated_at: None,
            task: task.to_string(),
            start,
            end,
        }
    }

    /// A copy of this interval with all its timestamps (creation, update, start and end) given
    /// as wall-clock times under the UTC offset `offset` (in seconds); see [`LocalInterval`].
    pub fn to_local(&self, offset: i32) -> (local: LocalInterval)
        requires
            crate::clock::in_time_range(self.created_at + offset),
            self.updated_at matches Some(u) ==> crate::clock::in_time_range(u + offset),
            crate::clock::in_time_range(self.start + offset),
            crate::clock::in_time_range(self.end + offset),
        ensures
            local.id@ == self.id@,
            local.task@ == self.task@,
            local.created_at == self.created_at + offset,
            match self.updated_at {
                Some(u) => local.updated_at == Some((u + offset) as i64),
                None => local.updated_at is None,
            },
            local.start == self.start + offset,
            local.end == self.end + offset,
    {
        let updated_at = match self.updated_at {
            Some(u) => Some(u + offset as i64),
            None => None,
        };
        LocalInterval {
            id: self.id.clone(),
            created_at: self.created_at + offset as i64,
            updated_at,
            task: self.task.clone(),
            start: self.start + offset as i64,
            end: self.end + offset as i64,
        }
    }

    /// A copy of this interval.
    pub fn duplicate(&self) -> (copy: TimeInterval)
        ensures
            copy@ == self@,
    {
        TimeInterval {
            id: self.id.clone(),
            created_at: self.created_at,
            updated_at: self.updated_at,
            task: self.task.clone(),
            start: self.start,
            end: self.end,
        }
    }
}

/// A [`TimeInterval`] seen under a fixed UTC offset: each of its timestamps is a wall-clock
/// time (the instant plus the offset).
pub struct LocalInterval {
    pub id: String,
    pub created_at: i64,
    pub updated_at: Option<i64>,
    pub task: String,
    pub start: i64,
    pub end: i64,
}

/// An event stored in the append-only timelog.
#[derive(Debug)]
pub enum StoreEvent {
    /// Records the addition of a completed time interval.
    CreateInterval(TimeInterval),
}

impl View for StoreEvent {
    type V = IntervalView;

    open spec fn view(&self) -> IntervalView {
        match self {
            StoreEvent::CreateInterval(interval) => interval@,
        }
    }
}

impl StoreEvent {
    /// A copy of this event.
    pub fn duplicate(&self) -> (copy: StoreEvent)
        ensures
            copy@ == self@,
    {
        match self {
            StoreEvent::CreateInterval(interval) => StoreEvent::CreateInterval(interval.duplicate()),
        }
    }
}

/// The state of the task being timed right now.
#[derive(Debug)]
pub struct CurrentTask {
    /// Name of the task being tracked.
    pub task: String,
    /// When the task was started (Unix seconds).
    pub start: i64,
}

/// The mathematical content of a [`CurrentTask`].
pub struct CurrentView {
    pub task: Seq<char>,
    pub start: int,
}

impl View for CurrentTask {
    type V = CurrentView;

    open spec fn view(&self) -> CurrentView {
        CurrentView { task: self.task@, start: self.start as int }
    }
}

impl CurrentTask {
    /// A copy of this state.
    pub fn duplicate(&self) -> (copy: CurrentTask)
        ensures
            copy@ == self@,
    {
        CurrentTask { task: self.task.clone(), start: self.start }
    }
}

} // verus!

verus! {

/// A task name follows the naming rules: it starts with an ASCII letter and holds only ASCII
/// letters, digits and dashes.
pub open spec fn valid_task_name(t: Seq<char>) -> bool {
    &&& t.len() > 0
    &&& is_ascii_letter(t[0])
    &&& forall|i: int| 0 <= i < t.len() ==> is_name_char(#[trigger] t[i])
}

/// An ASCII letter.
pub open spec fn is_ascii_letter(c: char) -> bool {
    (65 <= (c as u32) <= 90) || (97 <= (c as u32) <= 122)
}

/// A character allowed in a task name: an ASCII letter or digit, or a dash.
pub open spec fn is_name_char(c: char) -> bool {
    is_ascii_letter(c) || (48 <= (c as u32) <= 57) || c == '-'
}

/// Whether `t` is a valid task name (see [`valid_task_name`]).
pub fn is_valid_task_name(t: &str) -> (ok: bool)
    requires
        t@.len() > 0,
    ensures
        ok == valid_task_name(t@),
{
    let n = t.unicode_len();
    let c0 = t.get_char(0);
    let u0 = c0 as u32;
    if !((65 <= u0 && u0 <= 90) || (97 <= u0 && u0 <= 122)) {
        return false;
    }
    let mut i: usize = 0;
    while i < n
        invariant
            n == t@.len(),
            i <= n,
            forall|j: int| 0 <= j < i ==> is_name_char(#[trigger] t@[j]),
        decreases n - i,
    {
        let c = t.get_char(i);
        let u = c as u32;
        if !((65 <= u && u <= 90) || (97 <= u && u <= 122) || (48 <= u && u <= 57) || c == '-') {
            return false;
        }
        i = i + 1;
    }
    true
}

/// Task names in strictly increasing order (so each name appears once).
pub open spec fn names_sorted(names: Seq<Seq<char>>) -> bool {
    forall|i: int, j: int| 0 <= i < j < names.len() ==> chars_lt(#[trigger] names[i], #[trigger] names[j])
}

/// The views of a list of strings.
pub open spec fn string_views(v: Seq<String>) -> Seq<Seq<char>> {
    v.map_values(|s: String| s@)
}

/// What the store holds, as mathematical values: the task set (or the parse error of its file),
/// the running task (or the parse error of its file), the last task's file content (empty when
/// none is recorded), and the timelog's events (or the read error of each unreadable one).
pub struct StoreView {
    pub tasks: Result<Set<Seq<char>>, Seq<char>>,
    pub current: Result<Option<CurrentView>, Seq<char>>,
    pub last: Seq<char>,
    pub timelog: Seq<Result<IntervalView, Seq<char>>>,
}

/// The view of one timelog entry.
pub open spec fn event_view(e: Result<StoreEvent, String>) -> Result<IntervalView, Seq<char>> {
    match e {
        Ok(ev) => Ok(ev@),
        Err(m) => Err(m@),
    }
}

/// The views of the timelog's entries.
pub open spec fn timelog_view(log: Seq<Result<StoreEvent, String>>) -> Seq<Result<IntervalView, Seq<char>>> {
    log.map_values(|e: Result<StoreEvent, String>| event_view(e))
}

impl StoreView {
    /// The store after `add_task(t)` succeeded.
    pub open spec fn with_task(self, t: Seq<char>) -> StoreView {
        StoreView { tasks: Ok(self.tasks->Ok_0.insert(t)), ..self }
    }

    /// The store after `set_current_task(t, start)`.
    pub open spec fn with_current(self, t: Seq<char>, start: int) -> StoreView {
        StoreView { current: Ok(Some(CurrentView { task: t, start })), ..self }
    }

    /// The store after `clear_current_task()`.
    pub open spec fn without_current(self) -> StoreView {
        StoreView { current: Ok(None), ..self }
    }

    /// The store after `set_last_task(t)`.
    pub open spec fn with_last(self, t: Seq<char>) -> StoreView {
        StoreView { last: t, ..self }
    }

    /// The store after `append_interval(iv)`.
    pub open spec fn with_interval(self, iv: IntervalView) -> StoreView {
        StoreView { timelog: self.timelog.push(Ok(iv)), ..self }
    }

    /// What `get_last_task()` gives: nothing when the recorded content is empty.
    pub open spec fn last_task(self) -> Option<Seq<char>> {
        if self.last.len() == 0 {
            None
        } else {
            Some(self.last)
        }
    }
}


/// Adds `t` to a sorted list of names, keeping it sorted; nothing changes if `t` is present.
fn insert_sorted(names: &mut Vec<String>, t: &str)
    requires
        names_sorted(string_views(old(names)@)),
    ensures
        names_sorted(string_views(final(names)@)),
        string_views(final(names)@).to_set() == string_views(old(names)@).to_set().insert(t@),
{
    let ghost old_views = string_views(names@);
    let mut p: usize = 0;
    while p < names.len()
        invariant
            p <= names@.len(),
            old_views == string_views(names@),
            names_sorted(old_views),
            forall|i: int| 0 <= i < p ==> chars_lt(#[trigger] old_views[i], t@),
        ensures
            p <= names@.len(),
            old_views == string_views(names@),
            forall|i: int| 0 <= i < p ==> chars_lt(#[trigger] old_views[i], t@),
            p < names@.len() ==> !chars_lt(old_views[p as int], t@),
        decreases names@.len() - p,
    {
        if !str_lt(names[p].as_str(), t) {
            break;
        }
        p = p + 1;
    }
    if p < names.len() && str_eq(names[p].as_str(), t) {
        assert(old_views.to_set().insert(t@) =~= old_views.to_set()) by {
            assert(old_views[p as int] == t@);
        }
        return;
    }
    proof {
        if p < names@.len() {
            assert(!chars_lt(old_views[p as int], t@));
            assert(old_views[p as int] != t@);
            lemma_chars_lt_strict_total_order(old_views[p as int], t@, old_views[p as int]);
            assert(chars_lt(t@, old_views[p as int]));
        }
    }
    names.insert(p, t.to_string());
    let ghost new_views = string_views(names@);
    assert(new_views =~= old_views.insert(p as int, t@));
    assert forall|i: int, j: int| 0 <= i < j < new_views.len() implies chars_lt(
        #[trigger] new_views[i],
        #[trigger] new_views[j],
    ) by {
        if j < p {
        } else if j == p {
        } else if i < p {
            lemma_chars_lt_strict_total_order(new_views[i], t@, new_views[j]);
            lemma_chars_lt_strict_total_order(t@, old_views[p as int], new_views[j]);
        } else if i == p {
            lemma_chars_lt_strict_total_order(t@, old_views[p as int], new_views[j]);
        } else {
            assert(new_views[i] == old_views[i - 1]);
            assert(new_views[j] == old_views[j - 1]);
        }
    }
    assert forall|x: Seq<char>| new_views.to_set().contains(x) == old_views.to_set().insert(t@).contains(x) by {
        if new_views.to_set().contains(x) {
            let i = choose|i: int| 0 <= i < new_views.len() && new_views[i] == x;
            if i < p {
                assert(old_views[i] == x);
            } else if i > p {
                assert(old_views[i - 1] == x);
            }
        }
        if old_views.to_set().contains(x) {
            let i = choose|i: int| 0 <= i < old_views.len() && old_views[i] == x;
            if i < p {
                assert(new_views[i] == x);
            } else {
                assert(new_views[i + 1] == x);
            }
        }
        if x == t@ {
            assert(new_views[p as int] == x);
        }
    }
    assert(new_views.to_set() =~= old_views.to_set().insert(t@));
}

/// Manages all state persisted by Kimai Timer between runs.
pub struct Store {
    tasks: Result<Vec<String>, String>,
    current: Result<Option<CurrentTask>, String>,
    last: String,
    timelog: Vec<Result<StoreEvent, String>>,
}

impl View for Store {
    type V = StoreView;

    closed spec fn view(&self) -> StoreView {
        StoreView {
            tasks: match self.tasks {
                Ok(v) => Ok(string_views(v@).to_set()),
                Err(m) => Err(m@),
            },
            current: match self.current {
                Ok(Some(c)) => Ok(Some(c@)),
                Ok(None) => Ok(None),
                Err(m) => Err(m@),
            },
            last: self.last@,
            timelog: timelog_view(self.timelog@),
        }
    }
}

impl Store {
    #[verifier::type_invariant]
    closed spec fn tasks_in_order(self) -> bool {
        self.tasks matches Ok(v) ==> names_sorted(string_views(v@))
    }

    /// A store with nothing recorded yet: no tasks, no running task, no last task and an empty
    /// timelog (the state of a fresh data directory).
    pub fn new() -> (store: Store)
        ensures
            store@ == (StoreView {
                tasks: Ok(Set::empty()),
                current: Ok(None),
                last: Seq::empty(),
                timelog: Seq::empty(),
            }),
    {
        let store = Store { tasks: Ok(Vec::new()), current: Ok(None), last: String::new(), timelog: Vec::new() };
        assert(string_views(Seq::<String>::empty()).to_set() =~= Set::empty());
        assert(timelog_view(Seq::empty()) =~= Seq::empty());
        store
    }
}

/// A copy of a list of strings.
pub fn clone_strings(v: &Vec<String>) -> (copy: Vec<String>)
    ensures
        string_views(copy@) == string_views(v@),
{
    let mut copy: Vec<String> = Vec::new();
    let mut i: usize = 0;
    while i < v.len()
        invariant
            i <= v@.len(),
            copy@.len() == i,
            forall|j: int| 0 <= j < i ==> #[trigger] copy@[j]@ == v@[j]@,
        decreases v@.len() - i,
    {
        let c = v[i].clone();
        copy.push(c);
        i = i + 1;
    }
    assert(string_views(copy@) =~= string_views(v@));
    copy
}

/// A copy of timelog entries.
fn clone_events(v: &Vec<Result<StoreEvent, String>>) -> (copy: Vec<Result<StoreEvent, String>>)
    ensures
        timelog_view(copy@) == timelog_view(v@),
{
    let mut copy: Vec<Result<StoreEvent, String>> = Vec::new();
    let mut i: usize = 0;
    while i < v.len()
        invariant
            i <= v@.len(),
            copy@.len() == i,
            forall|j: int| 0 <= j < i ==> event_view(#[trigger] copy@[j]) == event_view(v@[j]),
        decreases v@.len() - i,
    {
        let e = match &v[i] {
            Ok(ev) => Ok(ev.duplicate()),
            Err(m) => Err(m.clone()),
        };
        copy.push(e);
        i = i + 1;
    }
    assert(timelog_view(copy@) =~= timelog_view(v@));
    copy
}

impl Store {
    /// A store holding what was read from the data directory: the task names (in any order,
    /// possibly repeated) or the parse error of the task-set file, the running task or the
    /// parse error of its file, the content of the last-task file, and the timelog's entries.
    pub fn from_persisted(
        tasks: Result<Vec<String>, String>,
        current: Result<Option<CurrentTask>, String>,
        last: String,
        timelog: Vec<Result<StoreEvent, String>>,
    ) -> (store: Store)
        ensures
            store@.tasks == (match tasks {
                Ok(v) => Ok(string_views(v@).to_set()),
                Err(m) => Err(m@),
            }),
            store@.current == (match current {
                Ok(Some(c)) => Ok(Some(c@)),
                Ok(None) => Ok(None),
                Err(m) => Err(m@),
            }),
            store@.last == last@,
            store@.timelog == timelog_view(timelog@),
    {
        let tasks = match tasks {
            Ok(v) => {
                let mut names: Vec<String> = Vec::new();
                let mut i: usize = 0;
                assert(string_views(names@).to_set() =~= string_views(v@.take(0)).to_set());
                while i < v.len()
                    invariant
                        i <= v@.len(),
                        names_sorted(string_views(names@)),
                        string_views(names@).to_set() == string_views(v@.take(i as int)).to_set(),
                    decreases v@.len() - i,
                {
                    insert_sorted(&mut names, v[i].as_str());
                    let ghost prev = string_views(v@.take(i as int));
                    let ghost next = string_views(v@.take(i + 1));
                    assert(next =~= prev.push(v@[i as int]@));
                    assert forall|x: Seq<char>| next.to_set().contains(x) == prev.to_set().insert(v@[i as int]@).contains(x) by {
                        if next.to_set().contains(x) {
                            let j = choose|j: int| 0 <= j < next.len() && next[j] == x;
                            if j < i {
                                assert(prev[j] == x);
                            }
                        }
                        if prev.to_set().contains(x) {
                            let j = choose|j: int| 0 <= j < prev.len() && prev[j] == x;
                            assert(next[j] == x);
                        }
                        if x == v@[i as int]@ {
                            assert(next[i as int] == x);
                        }
                    }
                    assert(next.to_set() =~= prev.to_set().insert(v@[i as int]@));
                    i = i + 1;
                }
                assert(v@.take(i as int) =~= v@);
                Ok(names)
            },
            Err(m) => Err(m),
        };
        Store { tasks, current, last, timelog }
    }

    /// Appends a `CreateInterval` event to the timelog.
    pub fn append_interval(&mut self, interval: TimeInterval)
        ensures
            final(self)@ == old(self)@.with_interval(interval@),
    {
        proof {
            use_type_invariant(&*self);
        }
        let ghost before = self.timelog@;
        let mut log: Vec<Result<StoreEvent, String>> = Vec::new();
        std::mem::swap(&mut log, &mut self.timelog);
        log.push(Ok(StoreEvent::CreateInterval(interval)));
        self.timelog = log;
        assert(timelog_view(self.timelog@) =~= timelog_view(before).push(Ok(interval@)));
    }

    /// The timelog's entries, oldest first: each event, or the error met reading it.
    pub fn fetch_events(&self) -> (events: Vec<Result<StoreEvent, String>>)
        ensures
            timelog_view(events@) == self@.timelog,
    {
        clone_events(&self.timelog)
    }

    /// Adds `task` to the task set after checking the naming rules: it must start with an
    /// ASCII letter and contain only ASCII letters, digits and dashes.
    pub fn add_task(&mut self, task: &str) -> (res: Result<(), KtError>)
        ensures
            !valid_task_name(task@) ==> (res matches Err(KtError::InvalidTaskName) && final(self)@
                == old(self)@),
            valid_task_name(task@) && old(self)@.tasks is Err ==> (res matches Err(
                KtError::MalformedTaskSet(m),
            ) && m@ == old(self)@.tasks->Err_0) && final(self)@ == old(self)@,
            valid_task_name(task@) && old(self)@.tasks is Ok ==> res is Ok && final(self)@
                == old(self)@.with_task(task@),
    {
        proof {
            use_type_invariant(&*self);
        }
        if task.unicode_len() == 0 || !is_valid_task_name(task) {
            return Err(KtError::InvalidTaskName);
        }
        match &self.tasks {
            Err(m) => Err(KtError::MalformedTaskSet(m.clone())),
            Ok(v) => {
                let mut names = clone_strings(v);
                insert_sorted(&mut names, task);
                self.tasks = Ok(names);
                Ok(())
            },
        }
    }

    /// The task set in name order, or the parse error of the task-set file.
    pub fn get_tasks(&self) -> (res: Result<Vec<String>, KtError>)
        ensures
            self@.tasks matches Ok(set) ==> (res matches Ok(v) && names_sorted(string_views(v@))
                && string_views(v@).to_set() == set),
            self@.tasks matches Err(m) ==> (res matches Err(KtError::MalformedTaskSet(e))
                && e@ == m),
    {
        proof {
            use_type_invariant(self);
        }
        match &self.tasks {
            Ok(v) => Ok(clone_strings(v)),
            Err(m) => Err(KtError::MalformedTaskSet(m.clone())),
        }
    }

    /// The running task, `None` if no task is running, or the parse error of its file.
    pub fn get_current_task(&self) -> (res: Result<Option<CurrentTask>, KtError>)
        ensures
            self@.current matches Ok(Some(c)) ==> (res matches Ok(Some(r)) && r@ == c),
            self@.current matches Ok(None) ==> res matches Ok(None),
            self@.current matches Err(m) ==> (res matches Err(KtError::MalformedCurrentTask(e))
                && e@ == m),
    {
        match &self.current {
            Ok(Some(c)) => Ok(Some(c.duplicate())),
            Ok(None) => Ok(None),
            Err(m) => Err(KtError::MalformedCurrentTask(m.clone())),
        }
    }

    /// Records `task` as running since `start` (Unix seconds).
    pub fn set_current_task(&mut self, task: &str, start: i64)
        ensures
            final(self)@ == old(self)@.with_current(task@, start as int),
    {
        proof {
            use_type_invariant(&*self);
        }
        self.current = Ok(Some(CurrentTask { task: task.to_string(), start }));
    }

    /// Records that no task is running.
    pub fn clear_current_task(&mut self)
        ensures
            final(self)@ == old(self)@.without_current(),
    {
        proof {
            use_type_invariant(&*self);
        }
        self.current = Ok(None);
    }

    /// The last task punched out of, or `None` if none is recorded (or the record is empty).
    pub fn get_last_task(&self) -> (res: Option<String>)
        ensures
            res matches Some(t) ==> self@.last_task() == Some(t@),
            res is None ==> self@.last_task() is None,
    {
        if self.last.as_str().unicode_len() == 0 {
            None
        } else {
            Some(self.last.clone())
        }
    }

    /// Records `task` as the last task punched out of, so `kt in` can resume it.
    pub fn set_last_task(&mut self, task: &str)
        ensures
            final(self)@ == old(self)@.with_last(task@),
    {
        proof {
            use_type_invariant(&*self);
        }
        self.last = task.to_string();
    }
}

} // verus!

verus! {

/// Recording a running task and reading it back gives that task and its start.
pub proof fn law_running_task_read_back(s: StoreView, task: Seq<char>, start: int)
    ensures
        s.with_current(task, start).current == Ok::<Option<CurrentView>, Seq<char>>(
            Some(CurrentView { task, start }),
        ),
{
}

/// After clearing the running task, reading it gives none.
pub proof fn law_cleared_task_reads_none(s: StoreView)
    ensures
        s.without_current().current == Ok::<Option<CurrentView>, Seq<char>>(None),
{
}

/// Recording a (non-empty) last task and reading it back gives that task.
pub proof fn law_last_task_read_back(s: StoreView, task: Seq<char>)
    requires
        task.len() > 0,
    ensures
        s.with_last(task).last_task() == Some(task),
{
}

/// A task added to a readable task set is in it afterwards, next to all the earlier ones.
pub proof fn law_added_task_listed(s: StoreView, task: Seq<char>)
    requires
        s.tasks is Ok,
    ensures
        s.with_task(task).tasks is Ok,
        s.with_task(task).tasks->Ok_0.contains(task),
        forall|t: Seq<char>| s.tasks->Ok_0.contains(t) ==> s.with_task(task).tasks->Ok_0.contains(t),
{
}

/// The timelog is append-only: appending an interval keeps every earlier entry and puts the
/// interval last, and no other operation touches the timelog.
pub proof fn law_timelog_append_only(s: StoreView, iv: IntervalView, task: Seq<char>, start: int)
    ensures
        s.with_interval(iv).timelog.len() == s.timelog.len() + 1,
        s.with_interval(iv).timelog.take(s.timelog.len() as int) == s.timelog,
        s.with_interval(iv).timelog.last() == Ok::<IntervalView, Seq<char>>(iv),
        s.with_current(task, start).timelog == s.timelog,
        s.without_current().timelog == s.timelog,
        s.with_last(task).timelog == s.timelog,
        s.tasks is Ok ==> s.with_task(task).timelog == s.timelog,
{
    assert(s.with_interval(iv).timelog.take(s.timelog.len() as int) =~= s.timelog);
}

/// The task set held by the task-set file's text: none for an empty file; otherwise the names
/// `serde_json` reads from it, in name order, or the message of its parse error.
pub fn tasks_from_text(text: &str) -> (r: Result<Vec<String>, String>)
    ensures
        text@.len() == 0 ==> (r matches Ok(v) && v@.len() == 0),
        text@.len() > 0 ==> match r {
            Ok(v) => (taskset_json(text@) matches Ok(n) && n == string_views(v@)) && names_sorted(
                string_views(v@),
            ),
            Err(m) => taskset_json(text@) matches Err(e) && e == m@,
        },
{
    if text.unicode_len() == 0 {
        return Ok(Vec::new());
    }
    parse_taskset_json(text)
}

/// The running task held by the running-task file's text, given what parsing that text as a
/// running-task record gave: none for an empty file (no task is running); otherwise the parsed
/// record, or the message of its parse error.
pub fn current_task_from_text(
    text: &str,
    parsed: Result<CurrentTask, String>,
) -> (r: Result<Option<CurrentTask>, String>)
    ensures
        text@.len() == 0 ==> r matches Ok(None),
        text@.len() > 0 ==> match parsed {
            Ok(c) => r matches Ok(Some(d)) && d@ == c@,
            Err(m) => r matches Err(e) && e@ == m@,
        },
{
    if text.unicode_len() == 0 {
        return Ok(None);
    }
    match parsed {
        Ok(c) => Ok(Some(c)),
        Err(m) => Err(m),
    }
}

/// The naming rules of task names, character by character: a name is valid exactly when it is
/// non-empty, its first character is an ASCII letter (code points 65-90 or 97-122), and every
/// character is an ASCII letter of either case, an ASCII digit (48-57) or `-`.
pub proof fn law_task_name_rules(t: Seq<char>)
    ensures
        valid_task_name(t) <==> {
            &&& t.len() > 0
            &&& (65 <= (t[0] as u32) <= 90 || 97 <= (t[0] as u32) <= 122)
            &&& forall|i: int|
                #![trigger t[i]]
                0 <= i < t.len() ==> (65 <= (t[i] as u32) <= 90 || 97 <= (t[i] as u32) <= 122
                    || 48 <= (t[i] as u32) <= 57 || t[i] == '-')
        },
{
}

} // verus!
