//! The `kt new` subcommand: creating a task alias.
//!
//! Task names must be unique and follow the naming rules of the store (an ASCII letter first,
//! then ASCII letters, digits and dashes).

use vstd::prelude::*;
use crate::cmd::punch_in::contains_name;
use crate::error::KtError;
use crate::store::{law_task_name_rules, valid_task_name, Store, StoreView};

verus! {

/// Arguments of the `kt new` subcommand.
pub struct CommandNew {
    /// The name of the new task alias; the command fails if the task already exists.
    pub task: String,
}

/// What `kt new` does when asked to create `task` and returning `res`: an empty name, a name
/// already in the task set, an unreadable task set and a name breaking the naming rules are
/// refused and change nothing; otherwise the task joins the task set.
pub open spec fn new_outcome(
    old_store: StoreView,
    new_store: StoreView,
    task: Seq<char>,
    res: Result<(), KtError>,
) -> bool {
    if task.len() == 0 {
        res matches Err(KtError::EmptyTaskName) && new_store == old_store
    } else {
        match old_store.tasks {
            Err(m) => (res matches Err(KtError::MalformedTaskSet(e)) && e@ == m) && new_store
                == old_store,
            Ok(tasks) => if tasks.contains(task) {
                (res matches Err(KtError::TaskExists(t)) && t@ == task) && new_store == old_store
            } else if !valid_task_name(task) {
                res matches Err(KtError::InvalidTaskName) && new_store == old_store
            } else {
                res is Ok && new_store == old_store.with_task(task)
            },
        }
    }
}

impl CommandNew {
    /// Validates the new task alias and adds it to the task set.
    pub fn execute(self, store: &mut Store) -> (res: Result<(), KtError>)
        ensures
            new_outcome(old(store)@, final(store)@, self.task@, res),
    {
        if self.task.as_str().unicode_len() == 0 {
            return Err(KtError::EmptyTaskName);
        }
        let tasks = match store.get_tasks() {
            Ok(t) => t,
            Err(e) => return Err(e),
        };
        if contains_name(&tasks, self.task.as_str()) {
            return Err(KtError::TaskExists(self.task));
        }
        store.add_task(self.task.as_str())
    }
}

/// `kt new` creates every name that follows the naming rules and is not yet a task (with a
/// readable task set): a first character that is an ASCII letter (code points 65-90 or
/// 97-122), then only ASCII letters of either case, digits (48-57) and `-`. The task set then
/// holds the name besides the tasks it held.
pub proof fn law_new_accepts_rule_names(
    old_store: StoreView,
    new_store: StoreView,
    task: Seq<char>,
    res: Result<(), KtError>,
)
    requires
        new_outcome(old_store, new_store, task, res),
        old_store.tasks is Ok,
        !old_store.tasks->Ok_0.contains(task),
        task.len() > 0,
        65 <= (task[0] as u32) <= 90 || 97 <= (task[0] as u32) <= 122,
        forall|i: int|
            #![trigger task[i]]
            0 <= i < task.len() ==> (65 <= (task[i] as u32) <= 90 || 97 <= (task[i] as u32) <= 122
                || 48 <= (task[i] as u32) <= 57 || task[i] == '-'),
    ensures
        res is Ok,
        new_store.tasks == Ok::<Set<Seq<char>>, Seq<char>>(old_store.tasks->Ok_0.insert(task)),
{
    law_task_name_rules(task);
}

} // verus!
