//! The errors the commands report, each with the message the user sees.

use vstd::prelude::*;
use vstd::string::StringExecFns;
use crate::calendar::{date_text, Date};
use crate::cmd::add::clock_text;
use crate::text::{push_char, push_pad2};

verus! {

/// Why a command failed.
#[derive(Debug)]
pub enum KtError {
    /// The task-set file could not be parsed (the parser's message).
    MalformedTaskSet(String),
    /// The current-task file could not be parsed (the parser's message).
    MalformedCurrentTask(String),
    /// A task name breaks the naming rules.
    InvalidTaskName,
    /// `kt new` was given an empty name.
    EmptyTaskName,
    /// `kt new` was given a name that is already in use.
    TaskExists(String),
    /// `kt in` without a task while no last task is recorded.
    MissingTask,
    /// `kt in` named a task that does not exist; similar task names are suggested.
    UnknownTask { task: String, similar: Vec<String> },
    /// The current task's start is not a valid timestamp.
    InvalidStartTimestamp,
    /// `kt switch` while no task is running.
    NoCurrentTask,
    /// `kt switch` while no last task is recorded.
    NoLastTask,
    /// `kt add` named a task that does not exist.
    InvalidTask(String),
    /// A date flag that is not `YYYY-MM-DD`.
    InvalidDate { flag: String, input: String },
    /// A time flag that is not `HH:MM`.
    InvalidTimeFlag { flag: String, input: String },
    /// A date or time flag in the future without `--future`.
    InFuture { flag: String, input: String },
    /// A time text that is not `H:M` with numbers.
    InvalidTimeFormat(String),
    /// Hours or minutes out of range.
    InvalidTime { hours: u32, minutes: u32 },
    /// The local date and time does not name exactly one instant.
    AmbiguousLocalTime { date: Date, time: String },
    /// The stop time is not after the start time.
    StopNotAfterStart,
    /// An event of the timelog could not be read (the reader's message).
    EventFetch(String),
    /// The log window, or a time it has to show, lies outside the supported range of dates, or
    /// an interval ends on a day after the window.
    LogOutOfRange,
    /// A time of the log could not be formatted with its layout.
    TimeFormat,
}

/// The names of `items` separated by `, `.
pub open spec fn comma_list(items: Seq<Seq<char>>) -> Seq<char>
    decreases items.len(),
{
    if items.len() == 0 {
        Seq::empty()
    } else if items.len() == 1 {
        items[0]
    } else {
        comma_list(items.drop_last()) + ", "@ + items.last()
    }
}

/// The suggestion that follows an unknown task's name: nothing when there are no similar
/// tasks, otherwise `: similar tasks: ` and their names.
pub open spec fn similar_text(similar: Seq<Seq<char>>) -> Seq<char> {
    if similar.len() == 0 {
        Seq::empty()
    } else {
        ": similar tasks: "@ + comma_list(similar)
    }
}

/// The message the user sees for an error.
pub open spec fn error_text(e: KtError) -> Seq<char> {
    match e {
        KtError::MalformedTaskSet(m) => "failed to parse taskset: "@ + m@,
        KtError::MalformedCurrentTask(m) => "failed to parse current task: "@ + m@,
        KtError::InvalidTaskName => "invalid task name: must start with letter and only contain alphanumerics or dashes"@,
        KtError::EmptyTaskName => "task name cannot be empty"@,
        KtError::TaskExists(t) => "task "@ + t@ + " already exists"@,
        KtError::MissingTask => "missing task and no last task is set"@,
        KtError::UnknownTask { task, similar } => "task does not exist: "@ + task@ + similar_text(
            similar@.map_values(|s: String| s@),
        ),
        KtError::InvalidStartTimestamp => "invalid start timestamp in current task"@,
        KtError::NoCurrentTask => "no current task to switch from"@,
        KtError::NoLastTask => "no last task to switch to"@,
        KtError::InvalidTask(t) => "invalid task: "@ + t@ + " (must use previously created task)"@,
        KtError::InvalidDate { flag, input } => "invalid "@ + flag@ + ": '"@ + input@
            + "' (expected YYYY-MM-DD)"@,
        KtError::InvalidTimeFlag { flag, input } => "invalid "@ + flag@ + ": '"@ + input@
            + "' (expected HH:MM)"@,
        KtError::InFuture { flag, input } => flag@ + " '"@ + input@
            + "' is in the future: pass --future to allow it"@,
        KtError::InvalidTimeFormat(t) => "invalid time format: "@ + t@,
        KtError::InvalidTime { hours, minutes } => "invalid time: "@ + clock_text(
            hours as int,
            minutes as int,
        ),
        KtError::AmbiguousLocalTime { date, time } => "ambiguous or invalid local datetime: "@
            + date_text(date) + " "@ + time@,
        KtError::StopNotAfterStart => "stop time must be after start time"@,
        KtError::EventFetch(m) => "failed to fetch events from log: "@ + m@,
        KtError::LogOutOfRange => "time log data outside the log window or the supported range of dates"@,
        KtError::TimeFormat => "failed to format a time for the log"@,
    }
}

/// Appends the names of `items` separated by `, `.
fn push_comma_list(s: &mut String, items: &Vec<String>)
    ensures
        final(s)@ == old(s)@ + comma_list(items@.map_values(|t: String| t@)),
{
    let ghost views = items@.map_values(|t: String| t@);
    let mut i: usize = 0;
    while i < items.len()
        invariant
            i <= items@.len(),
            views == items@.map_values(|t: String| t@),
            s@ == old(s)@ + comma_list(views.take(i as int)),
        decreases items@.len() - i,
    {
        proof {
            assert(views.take(i as int + 1).drop_last() =~= views.take(i as int));
            assert(views.take(i as int + 1).last() == items@[i as int]@);
            assert(views.take(0) =~= Seq::<Seq<char>>::empty());
            if i == 0 {
                assert(views.take(1) =~= seq![items@[0]@]);
            }
        }
        if i > 0 {
            s.append(", ");
        }
        s.append(items[i].as_str());
        proof {
            assert(s@ =~= old(s)@ + comma_list(views.take(i as int + 1)));
        }
        i = i + 1;
    }
    assert(views.take(items@.len() as int) =~= views);
}

impl KtError {
    /// The message the user sees (see [`error_text`]).
    pub fn message(&self) -> (s: String)
        ensures
            s@ == error_text(*self),
    {
        let mut s = String::new();
        match self {
            KtError::MalformedTaskSet(m) => {
                s.append("failed to parse taskset: ");
                s.append(m.as_str());
            },
            KtError::MalformedCurrentTask(m) => {
                s.append("failed to parse current task: ");
                s.append(m.as_str());
            },
            KtError::InvalidTaskName => {
                s.append(
                    "invalid task name: must start with letter and only contain alphanumerics or dashes",
                );
            },
            KtError::EmptyTaskName => {
                s.append("task name cannot be empty");
            },
            KtError::TaskExists(t) => {
                s.append("task ");
                s.append(t.as_str());
                s.append(" already exists");
            },
            KtError::MissingTask => {
                s.append("missing task and no last task is set");
            },
            KtError::UnknownTask { task, similar } => {
                s.append("task does not exist: ");
                s.append(task.as_str());
                if similar.len() > 0 {
                    s.append(": similar tasks: ");
                    push_comma_list(&mut s, similar);
                }
            },
            KtError::InvalidStartTimestamp => {
                s.append("invalid start timestamp in current task");
            },
            KtError::NoCurrentTask => {
                s.append("no current task to switch from");
            },
            KtError::NoLastTask => {
                s.append("no last task to switch to");
            },
            KtError::InvalidTask(t) => {
                s.append("invalid task: ");
                s.append(t.as_str());
                s.append(" (must use previously created task)");
            },
            KtError::InvalidDate { flag, input } => {
                s.append("invalid ");
                s.append(flag.as_str());
                s.append(": '");
                s.append(input.as_str());
                s.append("' (expected YYYY-MM-DD)");
            },
            KtError::InvalidTimeFlag { flag, input } => {
                s.append("invalid ");
                s.append(flag.as_str());
                s.append(": '");
                s.append(input.as_str());
                s.append("' (expected HH:MM)");
            },
            KtError::InFuture { flag, input } => {
                s.append(flag.as_str());
                s.append(" '");
                s.append(input.as_str());
                s.append("' is in the future: pass --future to allow it");
            },
            KtError::InvalidTimeFormat(t) => {
                s.append("invalid time format: ");
                s.append(t.as_str());
            },
            KtError::InvalidTime { hours, minutes } => {
                s.append("invalid time: ");
                push_pad2(&mut s, *hours as i64);
                push_char(&mut s, ':');
                push_pad2(&mut s, *minutes as i64);
            },
            KtError::AmbiguousLocalTime { date, time } => {
                s.append("ambiguous or invalid local datetime: ");
                let d = date.text();
                s.append(d.as_str());
                s.append(" ");
                s.append(time.as_str());
            },
            KtError::StopNotAfterStart => {
                s.append("stop time must be after start time");
            },
            KtError::EventFetch(m) => {
                s.append("failed to fetch events from log: ");
                s.append(m.as_str());
            },
            KtError::LogOutOfRange => {
                s.append("time log data outside the log window or the supported range of dates");
            },
            KtError::TimeFormat => {
                s.append("failed to format a time for the log");
            },
        }
        proof {
            assert(s@ =~= error_text(*self));
        }
        s
    }
}

} // verus!
