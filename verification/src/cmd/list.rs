//! The `kt list` subcommand: all task aliases, marking the running one and the last one.

use vstd::prelude::*;
use crate::cmd::new::new_outcome;
use crate::error::KtError;
use crate::store::{names_sorted, string_views, Store, StoreView};
use crate::text::str_eq;

verus! {

/// Arguments of the `kt list` subcommand (none).
pub struct CommandList {}

/// How a task is marked in the list.
#[derive(Debug, PartialEq, Eq, Structural)]
pub enum ListMark {
    /// The running task (shown with `*`).
    Current,
    /// The last task punched out of (shown with `-`).
    Last,
    /// Any other task.
    Plain,
}

/// One line of the task list.
#[derive(Debug)]
pub struct ListEntry {
    pub mark: ListMark,
    pub task: String,
}

/// What `kt list` returns for the store `store`: the tasks in name order, each marked as
/// running, last, or neither; an empty list for an empty task set. The running task is only
/// read when there are tasks to list.
pub open spec fn list_outcome(store: StoreView, res: Result<Vec<ListEntry>, KtError>) -> bool {
    match store.tasks {
        Err(m) => res matches Err(KtError::MalformedTaskSet(e)) && e@ == m,
        Ok(tasks) => if tasks.is_empty() {
            res matches Ok(v) && v@.len() == 0
        } else {
            match store.current {
                Err(m) => res matches Err(KtError::MalformedCurrentTask(e)) && e@ == m,
                Ok(current) => {
                    &&& res matches Ok(entries)
                    &&& names_sorted(entries@.map_values(|e: ListEntry| e.task@))
                    &&& entries@.map_values(|e: ListEntry| e.task@).to_set() == tasks
                    &&& forall|i: int|
                        0 <= i < entries@.len() ==> (#[trigger] entries@[i]).mark == if current
                            matches Some(c) && c.task == entries@[i].task@ {
                            ListMark::Current
                        } else if store.last_task() == Some(entries@[i].task@) {
                            ListMark::Last
                        } else {
                            ListMark::Plain
                        }
                },
            }
        },
    }
}

impl CommandList {
    /// The tasks in name order, each marked as running, last, or neither; an empty list means
    /// the task set is empty. The running task and the last task are only read when there are
    /// tasks to list.
    pub fn execute(self, store: &Store) -> (res: Result<Vec<ListEntry>, KtError>)
        ensures
            list_outcome(store@, res),
    {
        let tasks = match store.get_tasks() {
            Ok(t) => t,
            Err(e) => return Err(e),
        };
        if tasks.len() == 0 {
            proof {
                assert(string_views(tasks@) =~= Seq::empty());
                assert(string_views(tasks@).to_set() =~= Set::empty());
            }
            return Ok(Vec::new());
        }
        proof {
            assert(string_views(tasks@)[0] == tasks@[0]@);
            assert(string_views(tasks@).to_set().contains(tasks@[0]@));
        }
        let current_task = match store.get_current_task() {
            Ok(c) => c,
            Err(e) => return Err(e),
        };
        let last_task = store.get_last_task();
        let mut entries: Vec<ListEntry> = Vec::new();
        let mut i: usize = 0;
        while i < tasks.len()
            invariant
                i <= tasks@.len(),
                entries@.len() == i,
                forall|j: int| 0 <= j < i ==> (#[trigger] entries@[j]).task@ == tasks@[j]@,
                forall|j: int|
                    0 <= j < i ==> (#[trigger] entries@[j]).mark == if store@.current matches Ok(
                        Some(c),
                    ) && c.task == entries@[j].task@ {
                        ListMark::Current
                    } else if store@.last_task() == Some(entries@[j].task@) {
                        ListMark::Last
                    } else {
                        ListMark::Plain
                    },
                store@.current is Ok,
                match store@.current {
                    Ok(Some(c)) => current_task matches Some(r) && r@ == c,
                    _ => current_task is None,
                },
                last_task matches Some(l) ==> store@.last_task() == Some(l@),
                last_task is None ==> store@.last_task() is None,
            decreases tasks@.len() - i,
        {
            let t = &tasks[i];
            let is_current = match &current_task {
                Some(c) => str_eq(c.task.as_str(), t.as_str()),
                None => false,
            };
            let is_last = match &last_task {
                Some(l) => str_eq(l.as_str(), t.as_str()),
                None => false,
            };
            let mark = if is_current {
                ListMark::Current
            } else if is_last {
                ListMark::Last
            } else {
                ListMark::Plain
            };
            entries.push(ListEntry { mark, task: t.clone() });
            i = i + 1;
        }
        assert(entries@.map_values(|e: ListEntry| e.task@) =~= string_views(tasks@));
        Ok(entries)
    }
}

} // verus!

verus! {

/// A task created with `kt new` shows up in `kt list` (when the running-task record is
/// readable).
pub proof fn law_new_task_listed(
    s0: StoreView,
    s1: StoreView,
    task: Seq<char>,
    res: Result<Vec<ListEntry>, KtError>,
)
    requires
        new_outcome(s0, s1, task, Ok(())),
        list_outcome(s1, res),
        s1.current is Ok,
    ensures
        res matches Ok(entries) && exists|i: int|
            0 <= i < entries@.len() && (#[trigger] entries@[i]).task@ == task,
{
    let tasks = s1.tasks->Ok_0;
    assert(tasks.contains(task));
    assert(!tasks.is_empty()) by {
        if tasks.is_empty() {
            assert(tasks =~= Set::<Seq<char>>::empty());
        }
    }
    let entries = res->Ok_0;
    let names = entries@.map_values(|e: ListEntry| e.task@);
    assert(names.to_set().contains(task));
    let i = choose|i: int| 0 <= i < names.len() && names[i] == task;
    assert(entries@[i].task@ == task);
}

/// The marks of `kt list` for every listed task: `Current` exactly for the running task,
/// `Last` exactly for the last task when it is not the running one, `Plain` otherwise. So the
/// running task is marked as running even when it is also the last task.
pub proof fn law_list_marks(store: StoreView, res: Result<Vec<ListEntry>, KtError>)
    requires
        list_outcome(store, res),
        res is Ok,
    ensures
        forall|i: int|
            #![trigger res->Ok_0@[i]]
            0 <= i < res->Ok_0@.len() ==> {
                let e = res->Ok_0@[i];
                let running = store.current is Ok && store.current->Ok_0 is Some
                    && store.current->Ok_0->0.task == e.task@;
                let last = store.last.len() > 0 && store.last == e.task@;
                &&& (e.mark == ListMark::Current) == running
                &&& (e.mark == ListMark::Last) == (last && !running)
                &&& (e.mark == ListMark::Plain) == (!last && !running)
            },
{
    let entries = res->Ok_0;
    if store.tasks is Ok && !store.tasks->Ok_0.is_empty() {
        assert forall|i: int| #![trigger entries@[i]] 0 <= i < entries@.len() implies ({
            let e = entries@[i];
            let running = store.current is Ok && store.current->Ok_0 is Some
                && store.current->Ok_0->0.task == e.task@;
            let last = store.last.len() > 0 && store.last == e.task@;
            &&& (e.mark == ListMark::Current) == running
            &&& (e.mark == ListMark::Last) == (last && !running)
            &&& (e.mark == ListMark::Plain) == (!last && !running)
        }) by {
            assert(store.current is Ok);
        }
    }
}

} // verus!

