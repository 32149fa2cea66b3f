//! The `kt in` subcommand: punching in to a task.
//!
//! Without a task, resumes the last task punched out of. If a different task is running, it is
//! punched out of first. An unknown task name is refused with a list of similar task names.

use vstd::prelude::*;
use crate::clock::in_time_range;
use crate::cmd::out::{punch_out_outcome, CommandOut};
use crate::error::KtError;
use crate::store::{names_sorted, string_views, CurrentView, Store, StoreView, TimeInterval};
use crate::text::str_eq;
use crate::wrappers::{
    engine_default_options, engine_entries, engine_insert, engine_search, new_engine,
    now_utc_timestamp, search_hits,
};

verus! {

/// Arguments of the `kt in` subcommand.
pub struct CommandIn {
    /// The task to punch in to; when absent, the last task punched out of.
    pub task: Option<String>,
}

/// What `kt in` did.
#[derive(Debug)]
pub enum InOutcome {
    /// The task was already running; nothing changed.
    AlreadyPunchedIn(String),
    /// The task is now running since `start` (Unix seconds); `punched_out` is the interval
    /// recorded for the task that was running before, if any.
    PunchedIn { task: String, start: i64, punched_out: Option<TimeInterval> },
}

/// Each of `similar` is one of `names`.
pub open spec fn drawn_from(similar: Seq<Seq<char>>, names: Set<Seq<char>>) -> bool {
    forall|k: int| 0 <= k < similar.len() ==> names.contains(#[trigger] similar[k])
}

/// Punching in to `task` from the store `mid` (where no other task runs any more): the task
/// runs from `start`, a valid instant.
pub open spec fn started(
    mid: StoreView,
    new_store: StoreView,
    task: Seq<char>,
    res: Result<InOutcome, KtError>,
    punched_out: Option<TimeInterval>,
) -> bool {
    &&& res matches Ok(InOutcome::PunchedIn { task: t, start, punched_out: p })
    &&& t@ == task
    &&& in_time_range(start as int)
    &&& p == punched_out
    &&& new_store == mid.with_current(task, start as int)
}

/// What `kt in` does to the store, when asked for `requested` (or the last task when `None`)
/// and the call returns `res`. The task set is read first and the running task second; an
/// unparsable record of either is reported and nothing changes. Then:
/// - no task requested: if a task is running, it is reported as already running; otherwise the
///   last task is started, or `MissingTask` is reported when none is recorded;
/// - a task requested that is not in the task set: `UnknownTask`, with the names the fuzzy
///   search suggests among the task names in name order (see [`suggests`]), and nothing
///   changes;
/// - the requested task already running: reported as such, nothing changes;
/// - another task running: it is punched out of first (as `kt out` does; if that fails, its
///   error is reported and nothing changes), then the requested task is started;
/// - no task running: the requested task is started.
pub open spec fn punch_in_outcome(
    old_store: StoreView,
    new_store: StoreView,
    requested: Option<Seq<char>>,
    res: Result<InOutcome, KtError>,
) -> bool {
    match old_store.tasks {
        Err(m) => (res matches Err(KtError::MalformedTaskSet(e)) && e@ == m) && new_store
            == old_store,
        Ok(tasks) => match old_store.current {
            Err(m) => (res matches Err(KtError::MalformedCurrentTask(e)) && e@ == m) && new_store
                == old_store,
            Ok(current) => match requested {
                None => match current {
                    Some(c) => (res matches Ok(InOutcome::AlreadyPunchedIn(t)) && t@ == c.task)
                        && new_store == old_store,
                    None => match old_store.last_task() {
                        None => res matches Err(KtError::MissingTask) && new_store == old_store,
                        Some(l) => started(old_store, new_store, l, res, None),
                    },
                },
                Some(t) => if !tasks.contains(t) {
                    &&& res matches Err(KtError::UnknownTask { task, similar })
                    &&& task@ == t
                    &&& drawn_from(string_views(similar@), tasks)
                    &&& exists|names: Seq<Seq<char>>|
                        #![trigger suggests(names, t, string_views(similar@))]
                        names_sorted(names) && names.to_set() == tasks && suggests(
                            names,
                            t,
                            string_views(similar@),
                        )
                    &&& new_store == old_store
                } else {
                    match current {
                        None => started(old_store, new_store, t, res, None),
                        Some(c) => if c.task == t {
                            (res matches Ok(InOutcome::AlreadyPunchedIn(n)) && n@ == t) && new_store
                                == old_store
                        } else if !crate::wrappers::in_chrono_range(c.start) {
                            res matches Err(KtError::InvalidStartTimestamp) && new_store
                                == old_store
                        } else {
                            exists|mid: StoreView, iv: TimeInterval|
                                #![trigger punch_out_outcome(old_store, mid, Ok(Some(iv)))]
                                punch_out_outcome(old_store, mid, Ok(Some(iv))) && started(
                                    mid,
                                    new_store,
                                    t,
                                    res,
                                    Some(iv),
                                )
                        },
                    }
                },
            },
        },
    }
}

/// Names indexed by their position in `names`, as the search engine holds them.
pub open spec fn name_index(names: Seq<Seq<char>>) -> Map<usize, Seq<char>> {
    Map::new(|i: usize| (i as int) < names.len(), |i: usize| names[i as int])
}

/// `similar` is what the fuzzy search suggests for `task` among `names`: the names at the
/// positions the engine finds, each position once, in the engine's order.
pub open spec fn suggests(names: Seq<Seq<char>>, task: Seq<char>, similar: Seq<Seq<char>>) -> bool {
    exists|ids: Seq<usize>|
        {
            &&& #[trigger] ids.to_set() == search_hits(name_index(names), task)
            &&& ids.no_duplicates()
            &&& ids.len() == similar.len()
            &&& forall|j: int|
                0 <= j < ids.len() ==> ids[j] < names.len() && #[trigger] similar[j]
                    == names[ids[j] as int]
        }
}

/// The task names that look like `task`, best match first, as the fuzzy search engine ranks
/// them (see [`suggests`]). Each is one of `tasks`, and none comes twice when the task names
/// are distinct.
pub fn similar_tasks(tasks: &Vec<String>, task: &str) -> (similar: Vec<String>)
    ensures
        suggests(string_views(tasks@), task@, string_views(similar@)),
        forall|j: int|
            0 <= j < similar@.len() ==> string_views(tasks@).contains(#[trigger] similar@[j]@),
        string_views(tasks@).no_duplicates() ==> string_views(similar@).no_duplicates(),
{
    let mut engine = new_engine();
    assert(engine_entries(engine) =~= Map::new(|x: usize| (x as int) < 0, |x: usize| tasks@[x as int]@));
    let mut i: usize = 0;
    while i < tasks.len()
        invariant
            i <= tasks@.len(),
            engine_default_options(engine),
            engine_entries(engine) == Map::new(
                |x: usize| (x as int) < i,
                |x: usize| tasks@[x as int]@,
            ),
        decreases tasks@.len() - i,
    {
        engine_insert(&mut engine, i, tasks[i].as_str());
        assert(engine_entries(engine) =~= Map::new(
            |x: usize| (x as int) < i + 1,
            |x: usize| tasks@[x as int]@,
        ));
        i = i + 1;
    }
    assert(engine_entries(engine) =~= name_index(string_views(tasks@)));
    let ids = engine_search(&engine, task);
    let mut found: Vec<String> = Vec::new();
    let mut k: usize = 0;
    while k < ids.len()
        invariant
            k <= ids@.len(),
            found@.len() == k,
            engine_entries(engine) == name_index(string_views(tasks@)),
            forall|j: int|
                0 <= j < ids@.len() ==> engine_entries(engine).dom().contains(#[trigger] ids@[j]),
            forall|j: int|
                0 <= j < k ==> ids@[j] < tasks@.len() && #[trigger] found@[j]@ == tasks@[ids@[j] as int]@,
        decreases ids@.len() - k,
    {
        let id = ids[k];
        assert(engine_entries(engine).dom().contains(ids@[k as int]));
        let ghost before = found@;
        found.push(tasks[id].clone());
        assert(found@[k as int]@ == tasks@[id as int]@);
        assert(forall|j: int| 0 <= j < k ==> found@[j] == before[j]);
        k = k + 1;
    }
    assert forall|j: int| 0 <= j < found@.len() implies string_views(tasks@).contains(
        #[trigger] found@[j]@,
    ) by {
        let m = ids@[j] as int;
        assert(string_views(tasks@)[m] == found@[j]@);
    }
    proof {
        if string_views(tasks@).no_duplicates() {
            assert forall|a: int, b: int|
                0 <= a < b < found@.len() implies string_views(found@)[a] != string_views(
                found@,
            )[b] by {
                assert(string_views(tasks@)[ids@[a] as int] == found@[a]@);
                assert(string_views(tasks@)[ids@[b] as int] == found@[b]@);
            }
        }
        assert forall|a: int, b: int|
            0 <= a < ids@.len() && 0 <= b < ids@.len() && a != b implies ids@[a] != ids@[b] by {
            if a > b {
                assert(ids@[b] != ids@[a]);
            }
        }
        assert(ids@.to_set() == search_hits(name_index(string_views(tasks@)), task@));
        assert(ids@.len() == found@.len());
        assert forall|j: int| 0 <= j < ids@.len() implies ids@[j] < tasks@.len() && #[trigger] string_views(found@)[j]
            == string_views(tasks@)[ids@[j] as int] by {
            assert(found@[j]@ == tasks@[ids@[j] as int]@);
        }
    }
    found
}

impl CommandIn {
    /// A `kt in` for `task`, as `kt switch` uses it.
    pub fn for_task(task: &str) -> (cmd: CommandIn)
        ensures
            cmd.task matches Some(t) && t@ == task@,
    {
        CommandIn { task: Some(task.to_string()) }
    }

    /// Punches in to the requested task (or the last one), reading the clock now (to the
    /// second) for the start, and for the end of any running task punched out of first.
    pub fn execute(self, store: &mut Store) -> (res: Result<InOutcome, KtError>)
        ensures
            punch_in_outcome(
                old(store)@,
                final(store)@,
                match self.task {
                    Some(t) => Some(t@),
                    None => None,
                },
                res,
            ),
    {
        let now = now_utc_timestamp();
        self.execute_at(store, now)
    }

    /// Punches in to the requested task (or the last one) at `now` (Unix seconds), punching out
    /// of any other running task first: the task starts at `now`, and the interval recorded for
    /// the task punched out of ends at `now`.
    pub fn execute_at(self, store: &mut Store, now: i64) -> (res: Result<InOutcome, KtError>)
        requires
            in_time_range(now as int),
        ensures
            punch_in_outcome(
                old(store)@,
                final(store)@,
                match self.task {
                    Some(t) => Some(t@),
                    None => None,
                },
                res,
            ),
            res matches Ok(InOutcome::PunchedIn { start, punched_out, .. }) ==> start == now && (
            punched_out matches Some(iv) ==> iv.end == now),
    {
        let tasks = match store.get_tasks() {
            Ok(t) => t,
            Err(e) => return Err(e),
        };
        let current_task = match store.get_current_task() {
            Ok(c) => c,
            Err(e) => return Err(e),
        };
        let ghost old_store = store@;
        let mut punched_out: Option<TimeInterval> = None;
        let task = match self.task {
            None => {
                if let Some(c) = current_task {
                    return Ok(InOutcome::AlreadyPunchedIn(c.task));
                }
                match store.get_last_task() {
                    Some(l) => l,
                    None => return Err(KtError::MissingTask),
                }
            },
            Some(task) => {
                if !contains_name(&tasks, task.as_str()) {
                    let similar = similar_tasks(&tasks, task.as_str());
                    proof {
                        assert forall|k: int| 0 <= k < similar@.len() implies old_store.tasks->Ok_0.contains(
                            #[trigger] string_views(similar@)[k],
                        ) by {
                            assert(string_views(tasks@).contains(similar@[k]@));
                        }
                        assert(suggests(string_views(tasks@), task@, string_views(similar@)));
                    }
                    return Err(KtError::UnknownTask { task, similar });
                }
                if let Some(c) = current_task {
                    if str_eq(c.task.as_str(), task.as_str()) {
                        return Ok(InOutcome::AlreadyPunchedIn(task));
                    }
                    let ghost before_out = store@;
                    match (CommandOut {}).execute_at(store, now) {
                        Ok(p) => {
                            punched_out = p;
                        },
                        Err(e) => return Err(e),
                    }
                    proof {
                        let iv = punched_out->0;
                        assert(punch_out_outcome(before_out, store@, Ok(Some(iv))));
                    }
                }
                task
            },
        };
        store.set_current_task(task.as_str(), now);
        Ok(InOutcome::PunchedIn { task, start: now, punched_out })
    }
}

/// Whether `name` is one of `names`.
pub fn contains_name(names: &Vec<String>, name: &str) -> (found: bool)
    ensures
        found == string_views(names@).contains(name@),
{
    let mut i: usize = 0;
    while i < names.len()
        invariant
            i <= names@.len(),
            forall|j: int| 0 <= j < i ==> names@[j]@ != name@,
        decreases names@.len() - i,
    {
        if str_eq(names[i].as_str(), name) {
            assert(string_views(names@)[i as int] == name@);
            return true;
        }
        i = i + 1;
    }
    proof {
        if string_views(names@).contains(name@) {
            let j = choose|j: int| 0 <= j < names@.len() && string_views(names@)[j] == name@;
            assert(names@[j]@ == name@);
        }
    }
    false
}

} // verus!

verus! {

/// After `kt in` punches in to a task, that task is the running one, started at the reported
/// start.
pub proof fn law_punched_in_task_runs(
    old_store: StoreView,
    new_store: StoreView,
    requested: Option<Seq<char>>,
    res: Result<InOutcome, KtError>,
)
    requires
        punch_in_outcome(old_store, new_store, requested, res),
        res is Ok,
        res->Ok_0 is PunchedIn,
    ensures
        ({
            let o = res->Ok_0;
            new_store.current == Ok::<Option<CurrentView>, Seq<char>>(
                Some(CurrentView { task: o->task@, start: o->start as int }),
            )
        }),
{
    if old_store.tasks is Ok && old_store.current is Ok {
        if let Some(t) = requested {
            if old_store.tasks->Ok_0.contains(t) && old_store.current->Ok_0 is Some {
                let c = old_store.current->Ok_0->0;
                if c.task != t && crate::wrappers::in_chrono_range(c.start) {
                    let (mid, iv) = choose|mid: StoreView, iv: TimeInterval|
                        #![trigger punch_out_outcome(old_store, mid, Ok(Some(iv)))]
                        punch_out_outcome(old_store, mid, Ok(Some(iv))) && started(
                            mid,
                            new_store,
                            t,
                            res,
                            Some(iv),
                        );
                    assert(started(mid, new_store, t, res, Some(iv)));
                }
            }
        }
    }
}

/// After `kt out` records an interval, no task runs, the interval is the last timelog entry,
/// the task it belongs to is the last task, and it spans from the recorded start of the task
/// that was running.
pub proof fn law_punched_out_recorded(old_store: StoreView, new_store: StoreView, iv: TimeInterval)
    requires
        punch_out_outcome(old_store, new_store, Ok(Some(iv))),
    ensures
        new_store.current == Ok::<Option<CurrentView>, Seq<char>>(None),
        new_store.timelog == old_store.timelog.push(Ok(iv@)),
        new_store.last == iv.task@,
        new_store.tasks == old_store.tasks,
        old_store.current == Ok::<Option<CurrentView>, Seq<char>>(
            Some(CurrentView { task: iv.task@, start: iv.start as int }),
        ),
{
}

/// `kt in` without a task after `kt out` resumes the task just punched out of (a task with a
/// non-empty name, with a readable task set).
pub proof fn law_out_then_in_resumes(
    s0: StoreView,
    s1: StoreView,
    s2: StoreView,
    iv: TimeInterval,
    res: Result<InOutcome, KtError>,
)
    requires
        punch_out_outcome(s0, s1, Ok(Some(iv))),
        punch_in_outcome(s1, s2, None, res),
        s0.tasks is Ok,
        iv.task@.len() > 0,
    ensures
        res matches Ok(InOutcome::PunchedIn { task, start, punched_out }) && task@ == iv.task@
            && punched_out is None,
        s2.current matches Ok(Some(c)) && c.task == iv.task@,
{
    assert(s1.last_task() == Some(iv.task@));
}

} // verus!

verus! {

/// Punching in to another task while one runs first punches out of the running one: its
/// interval is recorded last in the timelog and it becomes the last task.
pub proof fn law_in_punches_out_first(
    old_store: StoreView,
    new_store: StoreView,
    task: Seq<char>,
    res: Result<InOutcome, KtError>,
)
    requires
        punch_in_outcome(old_store, new_store, Some(task), res),
        old_store.current matches Ok(Some(c)) && c.task != task,
        res matches Ok(InOutcome::PunchedIn { .. }),
    ensures
        ({
            let c = old_store.current->Ok_0->0;
            &&& res->Ok_0->punched_out matches Some(iv) && iv.task@ == c.task && iv.start
                == c.start
            &&& new_store.timelog == old_store.timelog.push(Ok(res->Ok_0->punched_out->0@))
            &&& new_store.last == c.task
        }),
{
    let (mid, iv) = choose|mid: StoreView, iv: TimeInterval|
        #![trigger punch_out_outcome(old_store, mid, Ok(Some(iv)))]
        punch_out_outcome(old_store, mid, Ok(Some(iv))) && started(
            mid,
            new_store,
            task,
            res,
            Some(iv),
        );
    assert(started(mid, new_store, task, res, Some(iv)));
}

/// `kt in` never moves the start of a task that is already running: whatever is asked, if the
/// task that was running is running afterwards, it still runs since the same instant. With no
/// task named while a task runs (and a readable task set), nothing changes at all and the
/// running task is reported as already punched in.
pub proof fn law_in_keeps_running_start(
    old_store: StoreView,
    new_store: StoreView,
    requested: Option<Seq<char>>,
    res: Result<InOutcome, KtError>,
)
    requires
        punch_in_outcome(old_store, new_store, requested, res),
        old_store.current matches Ok(Some(c)),
    ensures
        ({
            let c = old_store.current->Ok_0->0;
            &&& new_store.current matches Ok(Some(d)) ==> (d.task == c.task ==> d.start
                == c.start)
            &&& (requested is None && old_store.tasks is Ok) ==> (new_store == old_store && (
            res matches Ok(InOutcome::AlreadyPunchedIn(t)) && t@ == c.task))
        }),
{
    let c = old_store.current->Ok_0->0;
    if old_store.tasks is Ok {
        if let Some(t) = requested {
            if old_store.tasks->Ok_0.contains(t) && c.task != t && crate::wrappers::in_chrono_range(
                c.start,
            ) {
                let (mid, iv) = choose|mid: StoreView, iv: TimeInterval|
                    #![trigger punch_out_outcome(old_store, mid, Ok(Some(iv)))]
                    punch_out_outcome(old_store, mid, Ok(Some(iv))) && started(
                        mid,
                        new_store,
                        t,
                        res,
                        Some(iv),
                    );
                assert(started(mid, new_store, t, res, Some(iv)));
                assert(new_store.current->Ok_0->0.task == t);
            }
        }
    }
}

} // verus!

