//! The `kt switch` subcommand: switching between the running task and the last one.

use vstd::prelude::*;
use crate::cmd::out::punch_out_outcome;
use crate::cmd::punch_in::{punch_in_outcome, started, CommandIn, InOutcome};
use crate::error::KtError;
use crate::clock::in_time_range;
use crate::store::{Store, StoreView, TimeInterval};
use crate::wrappers::now_utc_timestamp;

verus! {

/// Arguments of the `kt switch` subcommand (none).
pub struct CommandSwitch {}

/// What `kt switch` does when it returns `res`: an unreadable running-task record, no running
/// task, or no last task is refused and changes nothing; otherwise it punches in to the last
/// task as `kt in` does.
pub open spec fn switch_outcome(
    old_store: StoreView,
    new_store: StoreView,
    res: Result<InOutcome, KtError>,
) -> bool {
    match old_store.current {
        Err(m) => (res matches Err(KtError::MalformedCurrentTask(e)) && e@ == m) && new_store
            == old_store,
        Ok(None) => res matches Err(KtError::NoCurrentTask) && new_store == old_store,
        Ok(Some(_)) => match old_store.last_task() {
            None => res matches Err(KtError::NoLastTask) && new_store == old_store,
            Some(l) => punch_in_outcome(old_store, new_store, Some(l), res),
        },
    }
}

impl CommandSwitch {
    /// Punches in to the last task (punching out of the running one), which swaps the running
    /// task and the last task; reads the clock now (to the second).
    pub fn execute(self, store: &mut Store) -> (res: Result<InOutcome, KtError>)
        ensures
            switch_outcome(old(store)@, final(store)@, res),
    {
        let now = now_utc_timestamp();
        self.execute_at(store, now)
    }

    /// Switches at `now` (Unix seconds): the last task starts at `now`, and the interval
    /// recorded for the task that was running ends at `now`.
    pub fn execute_at(self, store: &mut Store, now: i64) -> (res: Result<InOutcome, KtError>)
        requires
            in_time_range(now as int),
        ensures
            switch_outcome(old(store)@, final(store)@, res),
            res matches Ok(InOutcome::PunchedIn { start, punched_out, .. }) ==> start == now && (
            punched_out matches Some(iv) ==> iv.end == now),
    {
        match store.get_current_task() {
            Err(e) => return Err(e),
            Ok(None) => return Err(KtError::NoCurrentTask),
            Ok(Some(_)) => {},
        }
        match store.get_last_task() {
            Some(last) => CommandIn::for_task(last.as_str()).execute_at(store, now),
            None => Err(KtError::NoLastTask),
        }
    }
}

} // verus!

verus! {

/// After `kt switch` punches in, the task that was the last one runs and the task that was
/// running becomes the last one: the two trade places.
pub proof fn law_switch_swaps(s0: StoreView, s1: StoreView, res: Result<InOutcome, KtError>)
    requires
        switch_outcome(s0, s1, res),
        res is Ok,
        res->Ok_0 is PunchedIn,
    ensures
        s0.current matches Ok(Some(c)) && s1.last == c.task,
        res->Ok_0->task@ == s0.last,
        s1.current matches Ok(Some(n)) && n.task == s0.last,
{
    let c = s0.current->Ok_0->0;
    let l = s0.last;
    let (mid, iv) = choose|mid: StoreView, iv: TimeInterval|
        #![trigger punch_out_outcome(s0, mid, Ok(Some(iv)))]
        punch_out_outcome(s0, mid, Ok(Some(iv))) && started(mid, s1, l, res, Some(iv));
    assert(started(mid, s1, l, res, Some(iv)));
}

} // verus!
