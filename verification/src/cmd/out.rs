//! The `kt out` subcommand: punching out of the running task.
//!
//! Records the completed interval to the timelog, clears the running task and remembers it as
//! the last task so that `kt in` without arguments can resume it.

use vstd::prelude::*;
use crate::error::KtError;
use crate::store::{Store, StoreView, TimeInterval};
use crate::time_ext::DateTimeExt;
use crate::wrappers::{chrono_timestamp_valid, chrono_utc_now, in_chrono_range, uuid_v4_text};

verus! {

/// Arguments of the `kt out` subcommand (none).
pub struct CommandOut {}

/// What punching out of the running task does to the store, when the call returns `res`:
/// - the running-task record cannot be parsed: that error, nothing changes;
/// - no task is running: `Ok(None)`, nothing changes;
/// - the running task's start is not a valid instant: `InvalidStartTimestamp`, nothing changes;
/// - otherwise `Ok(Some(interval))`: an interval of the running task from its start to a valid
///   instant, with a fresh UUID, is appended to the timelog, the task becomes the last task and
///   no task is running any more.
pub open spec fn punch_out_outcome(
    old_store: StoreView,
    new_store: StoreView,
    res: Result<Option<TimeInterval>, KtError>,
) -> bool {
    match old_store.current {
        Err(m) => (res matches Err(KtError::MalformedCurrentTask(e)) && e@ == m) && new_store
            == old_store,
        Ok(None) => res matches Ok(None) && new_store == old_store,
        Ok(Some(c)) => if !in_chrono_range(c.start) {
            res matches Err(KtError::InvalidStartTimestamp) && new_store == old_store
        } else {
            &&& res matches Ok(Some(iv))
            &&& iv.task@ == c.task
            &&& iv.start == c.start
            &&& in_chrono_range(iv.end as int)
            &&& iv.updated_at is None
            &&& uuid_v4_text(iv.id@)
            &&& new_store == old_store.with_interval(iv@).with_last(c.task).without_current()
        },
    }
}

impl CommandOut {
    /// Punches out of the running task at `now` (Unix seconds): the recorded interval runs from
    /// the task's start to `now` (see [`punch_out_outcome`]). Returns the recorded interval, or
    /// `None` when no task is running.
    pub fn execute_at(self, store: &mut Store, now: i64) -> (res: Result<Option<TimeInterval>, KtError>)
        requires
            in_chrono_range(now as int),
        ensures
            punch_out_outcome(old(store)@, final(store)@, res),
            res matches Ok(Some(iv)) ==> iv.end == now,
    {
        match store.get_current_task() {
            Err(e) => Err(e),
            Ok(None) => Ok(None),
            Ok(Some(current)) => {
                if !chrono_timestamp_valid(current.start) {
                    return Err(KtError::InvalidStartTimestamp);
                }
                let interval = TimeInterval::new(current.task.as_str(), current.start, now);
                let recorded = interval.duplicate();
                store.append_interval(interval);
                store.set_last_task(current.task.as_str());
                store.clear_current_task();
                Ok(Some(recorded))
            },
        }
    }

    /// Punches out of the running task, reading the clock now (to the second) for the end of
    /// the recorded interval.
    pub fn execute(self, store: &mut Store) -> (res: Result<Option<TimeInterval>, KtError>)
        ensures
            punch_out_outcome(old(store)@, final(store)@, res),
    {
        let end = chrono_utc_now().truncate_to_second();
        self.execute_at(store, end.seconds)
    }
}

} // verus!
