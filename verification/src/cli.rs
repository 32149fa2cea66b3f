//! The command line of `kt`: its configuration, its subcommands, and the dispatch of one
//! subcommand against the store.

use vstd::prelude::*;
use crate::calendar::{valid_now, LocalNow};
use crate::cmd::add::{add_outcome, AddStep};
use crate::cmd::list::{list_outcome, ListEntry};
use crate::cmd::log::{log_result_at, valid_offset, window_length, LogOutput};
use crate::cmd::new::new_outcome;
use crate::cmd::out::punch_out_outcome;
use crate::cmd::punch_in::{punch_in_outcome, InOutcome};
use crate::cmd::switch::switch_outcome;
use crate::cmd::{
    CommandAdd, CommandIn, CommandList, CommandLog, CommandNew, CommandOut, CommandSwitch,
};
use crate::clock::in_time_range;
use crate::error::KtError;
use crate::store::{Store, StoreView, TimeInterval};

verus! {

/// The parsed command line of `kt`.
pub struct CliConfig {
    /// The directory holding the data files, overriding the default (also set by the
    /// `KT_DATA_DIR` environment variable).
    pub data_dir: Option<String>,
    /// The subcommand to execute.
    pub command: Command,
}

/// The subcommands of `kt`.
pub enum Command {
    /// Add a new time interval for a task.
    Add(CommandAdd),
    /// List the task aliases.
    List(CommandList),
    /// Show the time spent on tasks, by day.
    Log(CommandLog),
    /// Punch in to a task (start).
    In(CommandIn),
    /// Create a new task alias.
    New(CommandNew),
    /// Punch out of the running task (stop).
    Out(CommandOut),
    /// Switch between the running task and the last one.
    Switch(CommandSwitch),
}

/// What a subcommand produced, for the caller to show.
pub enum CommandOutcome {
    /// `add` ran with the given command; when it asks for a value, the caller fills in that
    /// field of the command and runs it again.
    Add(CommandAdd, AddStep),
    /// The task list.
    List(Vec<ListEntry>),
    /// What the log shows.
    Log(LogOutput),
    /// What `in` did.
    In(InOutcome),
    /// The task alias was created.
    New,
    /// The interval recorded by `out`, or `None` when no task was running.
    Out(Option<TimeInterval>),
    /// What `switch` did.
    Switch(InOutcome),
}

/// What running `command` does to the store, given the clock reading `now` and the local UTC
/// offset `offset`, when it returns `res`: exactly what the subcommand does on its own.
pub open spec fn run_outcome(
    command: Command,
    old_store: StoreView,
    new_store: StoreView,
    now: LocalNow,
    offset: int,
    res: Result<CommandOutcome, KtError>,
) -> bool {
    match command {
        Command::Add(c) => match res {
            Ok(CommandOutcome::Add(back, step)) => back == c && add_outcome(
                old_store,
                new_store,
                c,
                now,
                Ok(step),
            ),
            Err(e) => add_outcome(old_store, new_store, c, now, Err(e)),
            _ => false,
        },
        Command::List(_) => new_store == old_store && match res {
            Ok(CommandOutcome::List(v)) => list_outcome(old_store, Ok(v)),
            Err(e) => list_outcome(old_store, Err(e)),
            _ => false,
        },
        Command::Log(c) => new_store == old_store && exists|t: int|
            in_time_range(t) && match res {
                Ok(CommandOutcome::Log(o)) => log_result_at(c, old_store, offset, t, Ok(o)),
                Err(e) => log_result_at(c, old_store, offset, t, Err(e)),
                _ => false,
            },
        Command::In(c) => {
            let requested = match c.task {
                Some(t) => Some(t@),
                None => None,
            };
            match res {
                Ok(CommandOutcome::In(o)) => punch_in_outcome(
                    old_store,
                    new_store,
                    requested,
                    Ok(o),
                ),
                Err(e) => punch_in_outcome(old_store, new_store, requested, Err(e)),
                _ => false,
            }
        },
        Command::New(c) => match res {
            Ok(CommandOutcome::New) => new_outcome(old_store, new_store, c.task@, Ok(())),
            Err(e) => new_outcome(old_store, new_store, c.task@, Err(e)),
            _ => false,
        },
        Command::Out(_) => match res {
            Ok(CommandOutcome::Out(o)) => punch_out_outcome(old_store, new_store, Ok(o)),
            Err(e) => punch_out_outcome(old_store, new_store, Err(e)),
            _ => false,
        },
        Command::Switch(_) => match res {
            Ok(CommandOutcome::Switch(o)) => switch_outcome(old_store, new_store, Ok(o)),
            Err(e) => switch_outcome(old_store, new_store, Err(e)),
            _ => false,
        },
    }
}

/// Runs one subcommand against the store. The caller takes the clock reading `now` once and
/// the local UTC offset `offset` before, so that the subcommand sees one moment throughout.
pub fn run_main(command: Command, store: &mut Store, now: LocalNow, offset: i32) -> (res: Result<
    CommandOutcome,
    KtError,
>)
    requires
        valid_now(now),
        valid_offset(offset as int),
        command matches Command::Log(c) ==> window_length(c) >= 1,
    ensures
        run_outcome(command, old(store)@, final(store)@, now, offset as int, res),
{
    match command {
        Command::Add(c) => match c.execute(store, now) {
            Ok(step) => Ok(CommandOutcome::Add(c, step)),
            Err(e) => Err(e),
        },
        Command::List(c) => match c.execute(store) {
            Ok(v) => Ok(CommandOutcome::List(v)),
            Err(e) => Err(e),
        },
        Command::Log(c) => {
            let ghost cmd = c;
            let r = c.execute(store, offset);
            let res = match r {
                Ok(o) => Ok(CommandOutcome::Log(o)),
                Err(e) => Err(e),
            };
            assert(exists|t: int|
                in_time_range(t) && match res {
                    Ok(CommandOutcome::Log(o)) => log_result_at(cmd, store@, offset as int, t, Ok(o)),
                    Err(e) => log_result_at(cmd, store@, offset as int, t, Err(e)),
                    _ => false,
                });
            res
        },
        Command::In(c) => match c.execute(store) {
            Ok(o) => Ok(CommandOutcome::In(o)),
            Err(e) => Err(e),
        },
        Command::New(c) => match c.execute(store) {
            Ok(()) => Ok(CommandOutcome::New),
            Err(e) => Err(e),
        },
        Command::Out(c) => match c.execute(store) {
            Ok(o) => Ok(CommandOutcome::Out(o)),
            Err(e) => Err(e),
        },
        Command::Switch(c) => match c.execute(store) {
            Ok(o) => Ok(CommandOutcome::Switch(o)),
            Err(e) => Err(e),
        },
    }
}

} // verus!
