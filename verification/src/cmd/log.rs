//! The `kt log` subcommand: time-tracking history by task and day.
//!
//! The command reads the store's events, keeps the intervals that reach into a window of days
//! ending today, and reports them as a table, as raw one-line records, or as JSON lines. The
//! table groups time by task and day and splits intervals that span midnight so that each day
//! only receives the part of the work done on that day.

use vstd::prelude::*;
use vstd::string::StringExecFns;
use crate::clock::{day_floor, imax, imin, in_time_range, truncate_to_day, SECONDS_PER_DAY};
use crate::text::{chars_lt, lemma_chars_lt_strict_total_order, str_eq, str_lt};
use crate::store::{
    event_view, timelog_view, CurrentTask, CurrentView, IntervalView, Store, StoreEvent, StoreView,
    TimeInterval,
};
use crate::error::KtError;
use crate::clock::{div_trunc, rem_trunc, tdiv, trem, TIME_MAX_TS, TIME_MIN_TS};
use crate::text::{pad2, push_char, push_pad2};
use crate::wrappers::{format_time, time_format_text};
use crate::wrappers::{now_utc_timestamp, timestamp_in_range};

verus! {

/// Arguments of the `kt log` subcommand: the window of days and the output format. The window
/// length is taken from `days`, else 14 days for `period`, else 7 for `week`, else one day.
pub struct CommandLog {
    /// The number of days to show (overrides `period` and `week`).
    pub days: Option<i64>,
    /// Output JSON lines, one store event per line.
    pub json: bool,
    /// Show the past two weeks (a typical pay period).
    pub period: bool,
    /// Output raw interval records, one per line.
    pub raw: bool,
    /// Show the past week.
    pub week: bool,
}

/// The accumulated seconds of one task on each day of the window.
#[derive(Debug)]
pub struct TaskDays {
    /// The task name.
    pub task: String,
    /// Seconds spent on the task, one entry per day of the window, oldest first.
    pub durations: Vec<i64>,
}

/// Rows are ordered strictly by task name (so each task has at most one row).
pub open spec fn rows_sorted(rows: Seq<TaskDays>) -> bool {
    forall|i: int, j: int|
        0 <= i < j < rows.len() ==> chars_lt(#[trigger] rows[i].task@, #[trigger] rows[j].task@)
}

/// Every row has one entry per day of a window of `n` days.
pub open spec fn rows_width(rows: Seq<TaskDays>, n: int) -> bool {
    forall|i: int| 0 <= i < rows.len() ==> (#[trigger] rows[i]).durations@.len() == n
}

/// Every entry of every row lies within `[-b, b]`.
pub open spec fn rows_bounded(rows: Seq<TaskDays>, b: int) -> bool {
    forall|i: int, k: int|
        0 <= i < rows.len() && 0 <= k < rows[i].durations@.len() ==> -b <= #[trigger] rows[i].durations@[k]
            <= b
}

/// Some row is for task `t`.
pub open spec fn rows_have(rows: Seq<TaskDays>, t: Seq<char>) -> bool {
    exists|i: int| 0 <= i < rows.len() && #[trigger] rows[i].task@ == t
}

/// The position of a row for task `t`, if there is one.
pub open spec fn row_index(rows: Seq<TaskDays>, t: Seq<char>) -> int {
    choose|i: int| 0 <= i < rows.len() && #[trigger] rows[i].task@ == t
}

/// The rows as a map from task name to per-day seconds.
pub open spec fn rows_view(rows: Seq<TaskDays>) -> Map<Seq<char>, Seq<i64>> {
    Map::new(|t: Seq<char>| rows_have(rows, t), |t: Seq<char>| rows[row_index(rows, t)].durations@)
}

/// Seconds of the interval `[start, end)` (wall-clock times) that fall on the day starting at
/// midnight `d`, for the days the interval touches; zero for other days.
pub open spec fn day_portion(start: int, end: int, d: int) -> int {
    if day_floor(start) <= d <= day_floor(end) {
        imin(d + 86400, end) - imax(d, start)
    } else {
        0
    }
}

/// `base` with the portions of `[start, end)` added to each day of the window that starts at
/// midnight `first`, counting only the days strictly before `upto`.
pub open spec fn add_portions_before(
    base: Seq<i64>,
    start: int,
    end: int,
    first: int,
    upto: int,
) -> Seq<i64> {
    Seq::new(
        base.len(),
        |k: int|
            if first + k * 86400 < upto {
                (base[k] + day_portion(start, end, first + k * 86400)) as i64
            } else {
                base[k]
            },
    )
}

/// `base` with the portions of `[start, end)` added to each day of the window.
pub open spec fn add_portions(base: Seq<i64>, start: int, end: int, first: int) -> Seq<i64> {
    add_portions_before(base, start, end, first, day_floor(end) + 86400)
}

/// A row of zeros for a window of `n` days.
pub open spec fn zero_days(n: int) -> Seq<i64> {
    Seq::new(n as nat, |k: int| 0i64)
}

/// The interval `[start, end)` touches some day at or after the window's first day `first`.
pub open spec fn reaches_window(start: int, end: int, first: int) -> bool {
    day_floor(start) <= day_floor(end) && first <= day_floor(end)
}

/// The table after adding the interval `[start, end)` of `task` to the window of `n` days
/// starting at midnight `first`: the task's row (a new row of zeros if it had none) receives the
/// interval's portion of each day, provided the interval reaches into the window at all.
pub open spec fn table_after(
    view: Map<Seq<char>, Seq<i64>>,
    task: Seq<char>,
    start: int,
    end: int,
    first: int,
    n: int,
) -> Map<Seq<char>, Seq<i64>> {
    if reaches_window(start, end, first) {
        let base = if view.contains_key(task) {
            view[task]
        } else {
            zero_days(n)
        };
        view.insert(task, add_portions(base, start, end, first))
    } else {
        view
    }
}

/// The table part way through adding `[start, end)`: only the days before `upto` are counted.
pub open spec fn table_before(
    view: Map<Seq<char>, Seq<i64>>,
    task: Seq<char>,
    start: int,
    end: int,
    first: int,
    n: int,
    upto: int,
) -> Map<Seq<char>, Seq<i64>> {
    if day_floor(start) < upto && first < upto && first <= day_floor(end) {
        let base = if view.contains_key(task) {
            view[task]
        } else {
            zero_days(n)
        };
        view.insert(task, add_portions_before(base, start, end, first, upto))
    } else {
        view
    }
}

/// In sorted rows, the row of a task is the one the view gives for that task.
proof fn lemma_rows_view_at(rows: Seq<TaskDays>, i: int)
    requires
        rows_sorted(rows),
        0 <= i < rows.len(),
    ensures
        rows_view(rows).contains_key(rows[i].task@),
        rows_view(rows)[rows[i].task@] == rows[i].durations@,
{
    let t = rows[i].task@;
    assert(rows_have(rows, t));
    let j = row_index(rows, t);
    if j != i {
        lemma_chars_lt_strict_total_order(t, t, t);
        if j < i {
            assert(chars_lt(rows[j].task@, rows[i].task@));
        } else {
            assert(chars_lt(rows[i].task@, rows[j].task@));
        }
    }
    assert(rows_view(rows)[t] == rows[j].durations@);
}

/// Replacing the row at `p` by a row for the same task keeps the rows sorted and changes the
/// view only at that task.
proof fn lemma_rows_replace(rows: Seq<TaskDays>, p: int, row: TaskDays)
    requires
        rows_sorted(rows),
        0 <= p < rows.len(),
        row.task@ == rows[p].task@,
    ensures
        rows_sorted(rows.update(p, row)),
        rows_view(rows.update(p, row)) == rows_view(rows).insert(row.task@, row.durations@),
{
    let new_rows = rows.update(p, row);
    assert(rows_sorted(new_rows));
    let t = row.task@;
    assert forall|k: Seq<char>| #![auto] rows_have(new_rows, k) == rows_view(rows).insert(t, row.durations@).contains_key(k) by {
        if rows_have(new_rows, k) {
            let i = choose|i: int| 0 <= i < new_rows.len() && #[trigger] new_rows[i].task@ == k;
            if i != p {
                lemma_rows_view_at(rows, i);
            }
        }
        if rows_view(rows).contains_key(k) {
            let i = choose|i: int| 0 <= i < rows.len() && #[trigger] rows[i].task@ == k;
            assert(new_rows[i].task@ == k);
        }
        if k == t {
            assert(new_rows[p].task@ == k);
        }
    }
    assert forall|k: Seq<char>| #[trigger] rows_view(new_rows).contains_key(k) implies rows_view(new_rows)[k]
        == rows_view(rows).insert(t, row.durations@)[k] by {
        let i = choose|i: int| 0 <= i < new_rows.len() && #[trigger] new_rows[i].task@ == k;
        lemma_rows_view_at(new_rows, i);
        if i != p {
            lemma_rows_view_at(rows, i);
            lemma_chars_lt_strict_total_order(k, k, k);
            if i < p {
                assert(chars_lt(rows[i].task@, rows[p].task@));
            } else {
                assert(chars_lt(rows[p].task@, rows[i].task@));
            }
            assert(k != t);
        }
    }
    assert(rows_view(new_rows) =~= rows_view(rows).insert(t, row.durations@));
}

/// Inserting a row for a new task at its sorted position keeps the rows sorted and adds the
/// task to the view.
proof fn lemma_rows_insert(rows: Seq<TaskDays>, p: int, row: TaskDays)
    requires
        rows_sorted(rows),
        0 <= p <= rows.len(),
        forall|i: int| 0 <= i < p ==> chars_lt(#[trigger] rows[i].task@, row.task@),
        forall|i: int| p <= i < rows.len() ==> chars_lt(row.task@, #[trigger] rows[i].task@),
    ensures
        rows_sorted(rows.insert(p, row)),
        !rows_view(rows).contains_key(row.task@),
        rows_view(rows.insert(p, row)) == rows_view(rows).insert(row.task@, row.durations@),
{
    let new_rows = rows.insert(p, row);
    let t = row.task@;
    assert forall|i: int, j: int| 0 <= i < j < new_rows.len() implies chars_lt(
        #[trigger] new_rows[i].task@,
        #[trigger] new_rows[j].task@,
    ) by {
        if j < p {
        } else if j == p {
        } else if i < p {
            lemma_chars_lt_strict_total_order(new_rows[i].task@, t, new_rows[j].task@);
        } else if i == p {
        } else {
            assert(new_rows[i] == rows[i - 1]);
            assert(new_rows[j] == rows[j - 1]);
        }
    }
    if rows_have(rows, t) {
        let i = choose|i: int| 0 <= i < rows.len() && #[trigger] rows[i].task@ == t;
        lemma_chars_lt_strict_total_order(t, t, t);
        if i < p {
            assert(chars_lt(rows[i].task@, t));
        } else {
            assert(chars_lt(t, rows[i].task@));
        }
    }
    assert forall|k: Seq<char>| #![auto] rows_have(new_rows, k) == rows_view(rows).insert(t, row.durations@).contains_key(k) by {
        if rows_have(new_rows, k) {
            let i = choose|i: int| 0 <= i < new_rows.len() && #[trigger] new_rows[i].task@ == k;
            if i < p {
                assert(rows[i].task@ == k);
            } else if i > p {
                assert(rows[i - 1].task@ == k);
            }
        }
        if rows_view(rows).contains_key(k) {
            let i = choose|i: int| 0 <= i < rows.len() && #[trigger] rows[i].task@ == k;
            if i < p {
                assert(new_rows[i].task@ == k);
            } else {
                assert(new_rows[i + 1].task@ == k);
            }
        }
        if k == t {
            assert(new_rows[p].task@ == k);
        }
    }
    assert forall|k: Seq<char>| #[trigger] rows_view(new_rows).contains_key(k) implies rows_view(new_rows)[k]
        == rows_view(rows).insert(t, row.durations@)[k] by {
        let i = choose|i: int| 0 <= i < new_rows.len() && #[trigger] new_rows[i].task@ == k;
        lemma_rows_view_at(new_rows, i);
        if i < p {
            lemma_rows_view_at(rows, i);
        } else if i > p {
            lemma_rows_view_at(rows, i - 1);
        }
    }
    assert(rows_view(new_rows) =~= rows_view(rows).insert(t, row.durations@));
}

/// Where task `t` stands among sorted rows: at `p` if `found`, otherwise it would be inserted
/// at `p` to keep the rows sorted.
fn find_row(rows: &Vec<TaskDays>, t: &str) -> (res: (bool, usize))
    requires
        rows_sorted(rows@),
    ensures
        res.1 <= rows@.len(),
        res.0 ==> res.1 < rows@.len() && rows@[res.1 as int].task@ == t@,
        !res.0 ==> forall|i: int| 0 <= i < res.1 ==> chars_lt(#[trigger] rows@[i].task@, t@),
        !res.0 ==> forall|i: int|
            res.1 <= i < rows@.len() ==> chars_lt(t@, #[trigger] rows@[i].task@),
{
    let mut p: usize = 0;
    while p < rows.len()
        invariant
            p <= rows@.len(),
            rows_sorted(rows@),
            forall|i: int| 0 <= i < p ==> chars_lt(#[trigger] rows@[i].task@, t@),
        decreases rows@.len() - p,
    {
        if !str_lt(rows[p].task.as_str(), t) {
            if str_eq(rows[p].task.as_str(), t) {
                return (true, p);
            }
            assert forall|i: int| p <= i < rows@.len() implies chars_lt(
                t@,
                #[trigger] rows@[i].task@,
            ) by {
                lemma_chars_lt_strict_total_order(t@, rows@[p as int].task@, rows@[i].task@);
                lemma_chars_lt_strict_total_order(rows@[p as int].task@, t@, rows@[i].task@);
            }
            return (false, p);
        }
        p = p + 1;
    }
    (false, p)
}


/// The days of a window: consecutive midnights (wall-clock times), at least one of them, all
/// within the supported range together with the midnight that follows the last one.
pub open spec fn window_days(days: Seq<i64>) -> bool {
    &&& days.len() >= 1
    &&& days[0] % 86400 == 0
    &&& forall|k: int| 0 <= k < days.len() ==> #[trigger] days[k] == days[0] + k * 86400
    &&& in_time_range(days[0] as int)
    &&& in_time_range(days[0] + days.len() * 86400)
}

/// The midnight that starts the last day of a window.
pub open spec fn last_day(days: Seq<i64>) -> int {
    days[0] + (days.len() - 1) * 86400
}

/// Adding the interval `[start, end)` to the table cannot reach a day after the window: the
/// interval either stays before the window or ends on one of its days.
pub open spec fn fits_window(start: int, end: int, days: Seq<i64>) -> bool {
    reaches_window(start, end, days[0] as int) ==> day_floor(end) <= last_day(days)
}

/// The part of `[start, end)` on the day starting at `d` never exceeds a day either way.
proof fn lemma_day_portion_bounded(start: int, end: int, d: int)
    requires
        d % 86400 == 0,
        day_floor(start) <= d <= day_floor(end),
    ensures
        -86400 <= day_portion(start, end, d) <= 86400,
{
}


/// Counting one more day of the window: only the entry of day `sd` changes.
proof fn lemma_add_portions_step(base: Seq<i64>, start: int, end: int, first: int, sd: int, idx: int)
    requires
        0 <= idx < base.len(),
        sd == first + idx * 86400,
    ensures
        add_portions_before(base, start, end, first, sd + 86400) == add_portions_before(
            base,
            start,
            end,
            first,
            sd,
        ).update(idx, (base[idx] + day_portion(start, end, sd)) as i64),
        add_portions_before(base, start, end, first, sd)[idx] == base[idx],
{
    assert(add_portions_before(base, start, end, first, sd + 86400) =~= add_portions_before(
        base,
        start,
        end,
        first,
        sd,
    ).update(idx, (base[idx] + day_portion(start, end, sd)) as i64));
}

/// Before the window's first day, or before the interval's first day, nothing has been counted.
proof fn lemma_add_portions_none_yet(base: Seq<i64>, start: int, end: int, first: int, sd: int)
    requires
        sd == first || sd == day_floor(start),
        first % 86400 == 0,
    ensures
        add_portions_before(base, start, end, first, sd) == base,
{
    assert forall|k: int| 0 <= k < base.len() implies #[trigger] add_portions_before(base, start, end, first, sd)[k] == base[k] by {
        if first + k * 86400 < sd {
            assert(day_portion(start, end, first + k * 86400) == 0);
        }
    }
    assert(add_portions_before(base, start, end, first, sd) =~= base);
}

/// Adds the time from `start` to `end` (wall-clock times) to the row of `task`, splitting it at
/// each midnight so that each day of the window receives only the part spent on that day.
/// Days before the window are skipped; a row of zeros is created for the task on first use.
/// Rows whose entries lie within `-b..=b` keep them within a day more either way.
#[verifier::spinoff_prover]
#[verifier::rlimit(40)]
pub fn update_table(
    start: i64,
    end: i64,
    task: &str,
    day_durations_by_task: &mut Vec<TaskDays>,
    day_range: &Vec<i64>,
    Ghost(b): Ghost<int>,
)
    requires
        window_days(day_range@),
        in_time_range(start as int),
        in_time_range(end as int),
        fits_window(start as int, end as int, day_range@),
        rows_sorted(old(day_durations_by_task)@),
        rows_width(old(day_durations_by_task)@, day_range@.len() as int),
        rows_bounded(old(day_durations_by_task)@, b),
        0 <= b,
        b + 86400 <= i64::MAX,
    ensures
        rows_sorted(final(day_durations_by_task)@),
        rows_width(final(day_durations_by_task)@, day_range@.len() as int),
        rows_bounded(final(day_durations_by_task)@, b + 86400),
        rows_view(final(day_durations_by_task)@) == table_after(
            rows_view(old(day_durations_by_task)@),
            task@,
            start as int,
            end as int,
            day_range@[0] as int,
            day_range@.len() as int,
        ),
{
    let ghost old_view = rows_view(day_durations_by_task@);
    let ghost n = day_range@.len() as int;
    let day_range_start = day_range[0];
    let ghost first = day_range_start as int;
    let mut cur_start = start;
    let mut start_day = truncate_to_day(start);
    let stop_day = truncate_to_day(end);
    let ghost ds = start_day as int;
    let ghost de = stop_day as int;
    let ghost base = if old_view.contains_key(task@) {
        old_view[task@]
    } else {
        zero_days(n)
    };
    assert(base.len() == n) by {
        if old_view.contains_key(task@) {
            let i = choose|i: int| 0 <= i < day_durations_by_task@.len() && #[trigger] day_durations_by_task@[i].task@ == task@;
            lemma_rows_view_at(day_durations_by_task@, i);
        }
    }
    assert(add_portions_before(base, start as int, end as int, first, ds) =~= base);
    while start_day <= stop_day
        invariant
            window_days(day_range@),
            n == day_range@.len(),
            first == day_range@[0],
            day_range_start == first,
            0 <= b,
            b + 86400 <= i64::MAX,
            in_time_range(start as int),
            in_time_range(end as int),
            fits_window(start as int, end as int, day_range@),
            ds == day_floor(start as int),
            de == day_floor(end as int),
            stop_day == de,
            ds % 86400 == 0,
            de % 86400 == 0,
            start_day % 86400 == 0,
            ds <= start_day,
            start_day <= de + 86400 || start_day == ds,
            start_day <= de ==> cur_start == imax(start_day as int, start as int),
            base.len() == n,
            old_view.contains_key(task@) ==> base == old_view[task@],
            !old_view.contains_key(task@) ==> base == zero_days(n),
            rows_sorted(day_durations_by_task@),
            rows_width(day_durations_by_task@, n),
            rows_bounded(day_durations_by_task@, b + 86400),
            forall|i: int, k: int|
                0 <= i < day_durations_by_task@.len() && 0 <= k < n && day_durations_by_task@[i].task@
                    != task@ ==> -b <= #[trigger] day_durations_by_task@[i].durations@[k] <= b,
            forall|i: int, k: int|
                0 <= i < day_durations_by_task@.len() && 0 <= k < n && day_durations_by_task@[i].task@
                    == task@ && first + k * 86400 >= start_day ==> -b
                    <= #[trigger] day_durations_by_task@[i].durations@[k] <= b,
            rows_view(day_durations_by_task@) == table_before(
                old_view,
                task@,
                start as int,
                end as int,
                first,
                n,
                start_day as int,
            ),
        decreases de + 86400 - start_day,
    {
        let next_day = start_day + SECONDS_PER_DAY;
        let dur_to_next_day = next_day - cur_start;
        let cur_dur_remaining = end - cur_start;
        let dur = if dur_to_next_day <= cur_dur_remaining {
            dur_to_next_day
        } else {
            cur_dur_remaining
        };
        assert(dur == day_portion(start as int, end as int, start_day as int));
        proof {
            lemma_day_portion_bounded(start as int, end as int, start_day as int);
        }
        let ghost sd = start_day as int;
        let ghost pre_rows = day_durations_by_task@;
        if start_day >= day_range_start {
            assert(reaches_window(start as int, end as int, first));
            assert(sd <= last_day(day_range@));
            let diff: i64 = start_day - day_range_start;
            let idx: usize = (diff / SECONDS_PER_DAY) as usize;
            assert(sd == first + idx * 86400 && idx < n) by (nonlinear_arith)
                requires
                    sd % 86400 == 0,
                    first % 86400 == 0,
                    diff == sd - first,
                    0 <= diff,
                    idx == diff / 86400,
                    sd <= first + (n - 1) * 86400,
            ;
            let (found, p) = find_row(day_durations_by_task, task);
            let ghost pre_view = rows_view(pre_rows);
            let ghost cond = ds < sd && first < sd && first <= de;
            proof {
                lemma_add_portions_step(base, start as int, end as int, first, sd, idx as int);
                if !cond {
                    lemma_add_portions_none_yet(base, start as int, end as int, first, sd);
                }
            }
            if found {
                proof {
                    lemma_rows_view_at(pre_rows, p as int);
                    assert(pre_view.contains_key(task@));
                    if !cond {
                        assert(old_view.contains_key(task@));
                    }
                }
                let mut row = day_durations_by_task.remove(p);
                let cell = row.durations[idx];
                assert(-b <= cell <= b);
                row.durations.set(idx, cell + dur);
                day_durations_by_task.insert(p, row);
                proof {
                    assert(day_durations_by_task@ =~= pre_rows.update(p as int, row));
                    lemma_rows_replace(pre_rows, p as int, row);
                    assert(row.durations@ == add_portions_before(
                        base,
                        start as int,
                        end as int,
                        first,
                        sd + 86400,
                    ));
                    assert(rows_view(day_durations_by_task@) =~= table_before(
                        old_view,
                        task@,
                        start as int,
                        end as int,
                        first,
                        n,
                        sd + 86400,
                    ));
                }
            } else {
                let mut durations: Vec<i64> = vec![0i64; day_range.len()];
                durations.set(idx, dur);
                let row = TaskDays { task: task.to_string(), durations };
                proof {
                    lemma_rows_insert(pre_rows, p as int, row);
                    assert(!cond);
                    assert(!old_view.contains_key(task@));
                    assert(row.durations@ =~= zero_days(n).update(idx as int, dur));
                    assert(row.durations@ == add_portions_before(
                        base,
                        start as int,
                        end as int,
                        first,
                        sd + 86400,
                    ));
                }
                day_durations_by_task.insert(p, row);
                proof {
                    assert(rows_view(day_durations_by_task@) =~= table_before(
                        old_view,
                        task@,
                        start as int,
                        end as int,
                        first,
                        n,
                        sd + 86400,
                    ));
                }
            }
        }
        start_day = next_day;
        cur_start = cur_start + dur;
    }
}

/// The window of days shown by the log: the UTC offset (seconds) under which days are counted,
/// and the midnights (wall-clock times) of the days, oldest first.
#[derive(Debug)]
pub struct DayRange {
    pub offset: i32,
    pub days: Vec<i64>,
}

/// A UTC offset the `time` crate can represent: less than 26 hours either way.
pub open spec fn valid_offset(offset: int) -> bool {
    -93599 <= offset <= 93599
}

/// The per-task, per-day table built from intervals and the running task, ready for display.
#[derive(Debug)]
pub struct IntervalTable {
    /// One row per task, ordered by task name.
    pub day_durations_by_task: Vec<TaskDays>,
    /// The task being timed right now, if any (highlighted in the table).
    pub current_task: Option<String>,
}

/// Each interval can be seen under `offset` and stays out of days after the window.
pub open spec fn intervals_fit(ivs: Seq<IntervalView>, offset: int, days: Seq<i64>) -> bool {
    forall|i: int|
        #![trigger ivs[i]]
        0 <= i < ivs.len() ==> {
            &&& in_time_range(ivs[i].created_at + offset)
            &&& (ivs[i].updated_at matches Some(u) ==> in_time_range(u + offset))
            &&& in_time_range(ivs[i].start + offset)
            &&& in_time_range(ivs[i].end + offset)
            &&& fits_window(ivs[i].start + offset, ivs[i].end + offset, days)
        }
}

/// The table after adding, in order, each interval (seen under `offset`) to an empty table.
pub open spec fn table_of_intervals(
    ivs: Seq<IntervalView>,
    offset: int,
    first: int,
    n: int,
) -> Map<Seq<char>, Seq<i64>>
    decreases ivs.len(),
{
    if ivs.len() == 0 {
        Map::empty()
    } else {
        let iv = ivs.last();
        table_after(
            table_of_intervals(ivs.drop_last(), offset, first, n),
            iv.task,
            iv.start + offset,
            iv.end + offset,
            first,
            n,
        )
    }
}

/// The running task counted as if it ended at `now`, when its start is a valid instant.
pub open spec fn current_counts(current: Option<CurrentView>) -> bool {
    current is Some && in_time_range(current->0.start)
}

/// The table of intervals, plus the running task's time up to `now` when it counts.
pub open spec fn table_of(
    ivs: Seq<IntervalView>,
    current: Option<CurrentView>,
    offset: int,
    now: int,
    first: int,
    n: int,
) -> Map<Seq<char>, Seq<i64>> {
    let base = table_of_intervals(ivs, offset, first, n);
    if current_counts(current) {
        table_after(base, current->0.task, current->0.start + offset, now + offset, first, n)
    } else {
        base
    }
}

/// The running task (if it counts) can be seen under `offset` up to `now` and stays out of days
/// after the window.
pub open spec fn current_fits(
    current: Option<CurrentView>,
    offset: int,
    now: int,
    days: Seq<i64>,
) -> bool {
    current_counts(current) ==> {
        &&& in_time_range(current->0.start + offset)
        &&& in_time_range(now + offset)
        &&& fits_window(current->0.start + offset, now + offset, days)
    }
}

/// The views of a list of intervals.
pub open spec fn interval_views(ivs: Seq<TimeInterval>) -> Seq<IntervalView> {
    ivs.map_values(|iv: TimeInterval| iv@)
}

/// The view of an optional current task.
pub open spec fn current_view(current: Option<&CurrentTask>) -> Option<CurrentView> {
    match current {
        Some(c) => Some(c@),
        None => None,
    }
}

/// The sum of a sequence of seconds.
pub open spec fn seq_total(s: Seq<i64>) -> int
    decreases s.len(),
{
    if s.len() == 0 {
        0
    } else {
        seq_total(s.drop_last()) + s.last()
    }
}

/// The seconds of `[start, end)` that fall before `x`.
pub open spec fn time_before(start: int, end: int, x: int) -> int {
    imax(imin(x, end), start) - start
}

proof fn lemma_time_before_step(start: int, end: int, d: int)
    requires
        d % 86400 == 0,
        start <= end,
    ensures
        time_before(start, end, d + 86400) - time_before(start, end, d) == day_portion(start, end, d),
{
    let ds = day_floor(start);
    let de = day_floor(end);
    assert(ds <= start < ds + 86400);
    assert(de <= end < de + 86400);
    assert(ds % 86400 == 0);
    assert(de % 86400 == 0);
    if d < ds {
        assert(d + 86400 <= ds);
    } else if d > de {
        assert(d >= de + 86400);
    }
}

proof fn lemma_split_prefix(base: Seq<i64>, start: int, end: int, first: int, k: int)
    requires
        first % 86400 == 0,
        start <= end,
        0 <= k <= base.len(),
        forall|j: int| 0 <= j < base.len() ==> -(i64::MAX - 86400) <= #[trigger] base[j] <= i64::MAX - 86400,
    ensures
        seq_total(add_portions(base, start, end, first).take(k)) == seq_total(base.take(k))
            + time_before(start, end, first + k * 86400) - time_before(start, end, first),
    decreases k,
{
    let added = add_portions(base, start, end, first);
    if k > 0 {
        lemma_split_prefix(base, start, end, first, k - 1);
        assert(added.take(k).drop_last() =~= added.take(k - 1));
        assert(base.take(k).drop_last() =~= base.take(k - 1));
        let d = first + (k - 1) * 86400;
        assert(d % 86400 == 0);
        lemma_time_before_step(start, end, d);
        if d < day_floor(end) + 86400 {
            lemma_day_portion_bounded_any(start, end, d);
        } else {
            assert(day_portion(start, end, d) == 0);
        }
    }
}

proof fn lemma_day_portion_bounded_any(start: int, end: int, d: int)
    requires
        d % 86400 == 0,
    ensures
        -86400 <= day_portion(start, end, d) <= 86400,
{
    if day_floor(start) <= d <= day_floor(end) {
        lemma_day_portion_bounded(start, end, d);
    }
}

/// Splitting an interval at midnights neither loses nor adds time: when `[start, end)` lies
/// within the window that starts at midnight `first` (and spans `base.len()` days), adding it
/// to a row raises the row's total by exactly `end - start`.
pub proof fn law_split_conserves_duration(base: Seq<i64>, start: int, end: int, first: int)
    requires
        first % 86400 == 0,
        start <= end,
        first <= day_floor(start),
        day_floor(end) < first + base.len() * 86400,
        forall|j: int| 0 <= j < base.len() ==> -(i64::MAX - 86400) <= #[trigger] base[j] <= i64::MAX - 86400,
    ensures
        seq_total(add_portions(base, start, end, first)) == seq_total(base) + (end - start),
{
    lemma_split_prefix(base, start, end, first, base.len() as int);
    let added = add_portions(base, start, end, first);
    assert(added.take(base.len() as int) =~= added);
    assert(base.take(base.len() as int) =~= base);
    assert(day_floor(end) <= end < day_floor(end) + 86400);
    assert(day_floor(start) <= start);
}

/// Each day of the window receives only what was spent on that day: a share between nothing
/// and a whole day, for intervals that run forward in time.
pub proof fn law_day_share_within_day(start: int, end: int, d: int)
    requires
        d % 86400 == 0,
        start <= end,
    ensures
        0 <= day_portion(start, end, d) <= 86400,
        day_portion(start, end, d) == imax(0, imin(d + 86400, end) - imax(d, start)),
{
    assert(day_floor(start) <= start < day_floor(start) + 86400);
    assert(day_floor(end) <= end < day_floor(end) + 86400);
    assert(day_floor(start) % 86400 == 0);
    assert(day_floor(end) % 86400 == 0);
}

/// What adding an interval does to the table, day by day: for an interval `[start, end)` that
/// runs forward and ends no later than the last day of a window of `n` days starting at
/// midnight `first`, the task's entry for day `k` becomes its old entry (zero for a new task)
/// plus the length of `[start, end)` intersected with that day. The task gains a row exactly
/// when it had none and the interval ends on or after the window's first day; time before the
/// window is dropped, and the rows of other tasks are untouched.
pub proof fn law_update_adds_day_overlap(
    view: Map<Seq<char>, Seq<i64>>,
    task: Seq<char>,
    other: Seq<char>,
    start: int,
    end: int,
    first: int,
    n: int,
    k: int,
)
    requires
        first % 86400 == 0,
        start <= end,
        0 <= k < n,
        day_floor(end) < first + n * 86400,
        view.contains_key(task) ==> view[task].len() == n,
        view.contains_key(task) ==> -(i64::MAX - 86400) <= view[task][k] <= i64::MAX - 86400,
        other != task,
    ensures
        ({
            let after = table_after(view, task, start, end, first, n);
            let d = first + k * 86400;
            let old_entry = if view.contains_key(task) { view[task][k] as int } else { 0 };
            &&& after.contains_key(task) <==> (view.contains_key(task) || first <= day_floor(end))
            &&& day_floor(end) < first ==> after == view
            &&& first <= day_floor(end) ==> after[task].len() == n && after[task][k] == old_entry
                + imax(0, imin(d + 86400, end) - imax(d, start))
            &&& after.contains_key(other) == view.contains_key(other)
            &&& view.contains_key(other) ==> after[other] == view[other]
        }),
{
    let d = first + k * 86400;
    assert(d % 86400 == 0) by (nonlinear_arith)
        requires
            first % 86400 == 0,
            d == first + k * 86400,
    ;
    assert(day_floor(start) <= start < day_floor(start) + 86400);
    assert(day_floor(end) <= end < day_floor(end) + 86400);
    assert(day_floor(start) % 86400 == 0);
    assert(day_floor(end) % 86400 == 0);
    assert(day_floor(start) <= day_floor(end));
    law_day_share_within_day(start, end, d);
    if first <= day_floor(end) {
        let base = if view.contains_key(task) {
            view[task]
        } else {
            zero_days(n)
        };
        let row = add_portions(base, start, end, first);
        assert(row.len() == n);
        if d < day_floor(end) + 86400 {
            assert(row[k] == (base[k] + day_portion(start, end, d)) as i64);
        } else {
            assert(end < d);
            assert(row[k] == base[k]);
        }
    }
}

impl CommandLog {
    /// Aggregates the intervals, and the running task counted up to `now` (Unix seconds), into
    /// per-task, per-day seconds for the days of `day_range`. Every task row holds an entry for
    /// each day, so days without activity show as zero.
    pub fn build_table_at(
        intervals: &Vec<TimeInterval>,
        current: Option<&CurrentTask>,
        day_range: &DayRange,
        now: i64,
    ) -> (table: IntervalTable)
        requires
            window_days(day_range.days@),
            valid_offset(day_range.offset as int),
            intervals@.len() < 100_000_000_000_000,
            intervals_fit(interval_views(intervals@), day_range.offset as int, day_range.days@),
            current_fits(current_view(current), day_range.offset as int, now as int, day_range.days@),
        ensures
            rows_sorted(table.day_durations_by_task@),
            rows_width(table.day_durations_by_task@, day_range.days@.len() as int),
            rows_view(table.day_durations_by_task@) == table_of(
                interval_views(intervals@),
                current_view(current),
                day_range.offset as int,
                now as int,
                day_range.days@[0] as int,
                day_range.days@.len() as int,
            ),
            match current {
                Some(c) => table.current_task is Some && table.current_task->0@ == c.task@,
                None => table.current_task is None,
            },
    {
        let offset = day_range.offset;
        let ghost first = day_range.days@[0] as int;
        let ghost n = day_range.days@.len() as int;
        let ghost ivs = interval_views(intervals@);
        let mut day_durations_by_task: Vec<TaskDays> = Vec::new();
        assert(rows_view(day_durations_by_task@) =~= Map::empty());
        let mut i: usize = 0;
        while i < intervals.len()
            invariant
                window_days(day_range.days@),
                valid_offset(offset as int),
                offset == day_range.offset,
                first == day_range.days@[0],
                n == day_range.days@.len(),
                ivs == interval_views(intervals@),
                intervals@.len() < 100_000_000_000_000,
                intervals_fit(ivs, offset as int, day_range.days@),
                i <= intervals@.len(),
                rows_sorted(day_durations_by_task@),
                rows_width(day_durations_by_task@, n),
                rows_bounded(day_durations_by_task@, i * 86400),
                rows_view(day_durations_by_task@) == table_of_intervals(
                    ivs.take(i as int),
                    offset as int,
                    first,
                    n,
                ),
            decreases intervals@.len() - i,
        {
            let interval = &intervals[i];
            assert(ivs[i as int] == interval@);
            let local = interval.to_local(offset);
            update_table(
                local.start,
                local.end,
                local.task.as_str(),
                &mut day_durations_by_task,
                &day_range.days,
                Ghost(i * 86400),
            );
            assert(ivs.take(i + 1).drop_last() =~= ivs.take(i as int));
            i = i + 1;
        }
        assert(ivs.take(i as int) =~= ivs);
        let current_task = match current {
            Some(cur) => {
                if timestamp_in_range(cur.start) {
                    let local_start = cur.start + offset as i64;
                    let local_end = now + offset as i64;
                    update_table(
                        local_start,
                        local_end,
                        cur.task.as_str(),
                        &mut day_durations_by_task,
                        &day_range.days,
                        Ghost(i * 86400),
                    );
                }
                Some(cur.task.clone())
            },
            None => None,
        };
        IntervalTable { day_durations_by_task, current_task }
    }
}

/// The number of days the window covers: `days` if given, else 14 for `period`, else 7 for
/// `week`, else 1.
pub open spec fn window_length(cmd: CommandLog) -> int {
    if cmd.days is Some {
        cmd.days->0 as int
    } else if cmd.period {
        14
    } else if cmd.week {
        7
    } else {
        1
    }
}

/// The midnight that starts the first day of the window, for the clock reading `now` under
/// `offset`.
pub open spec fn window_start(cmd: CommandLog, now: int, offset: int) -> int {
    day_floor(now + offset) - (window_length(cmd) - 1) * 86400
}

/// The window can be computed for the clock reading `now` under `offset` without leaving the
/// supported range of instants.
pub open spec fn window_computable(cmd: CommandLog, now: int, offset: int) -> bool {
    &&& window_length(cmd) > i64::MIN
    &&& in_time_range(now + offset)
    &&& in_time_range(window_start(cmd, now, offset))
}

/// The events before the first one that could not be read.
pub open spec fn first_error(events: Seq<Result<IntervalView, Seq<char>>>) -> int
    decreases events.len(),
{
    if events.len() == 0 {
        0
    } else if first_error(events.drop_last()) < events.len() - 1 {
        first_error(events.drop_last())
    } else if events.last() is Err {
        events.len() - 1
    } else {
        events.len() as int
    }
}

/// The intervals among `events` that end at or after the wall-clock time `start` under
/// `offset` (that is, at or after the instant `start - offset`), in order.
pub open spec fn kept_intervals(
    events: Seq<Result<IntervalView, Seq<char>>>,
    start: int,
    offset: int,
) -> Seq<IntervalView>
    decreases events.len(),
{
    if events.len() == 0 {
        Seq::empty()
    } else {
        let rest = kept_intervals(events.drop_last(), start, offset);
        match events.last() {
            Ok(ev) => if ev.end + offset >= start {
                rest.push(ev)
            } else {
                rest
            },
            Err(_) => rest,
        }
    }
}

/// Every readable event before the first unreadable one ends at an instant that can be seen
/// under `offset`.
pub open spec fn events_viewable(events: Seq<Result<IntervalView, Seq<char>>>, offset: int) -> bool {
    forall|i: int|
        0 <= i < first_error(events) ==> match #[trigger] events[i] {
            Ok(ev) => in_time_range(ev.end + offset),
            Err(_) => true,
        }
}

/// Which intervals the log keeps for a window whose first day starts at the wall-clock midnight
/// `start`, under the local UTC offset `offset`: exactly the readable intervals whose end, seen
/// in local time (`end + offset`), is at or after that midnight. An interval that ended the
/// evening before in local time is left out, whatever its end is in UTC.
pub proof fn law_kept_by_local_end(
    events: Seq<Result<IntervalView, Seq<char>>>,
    start: int,
    offset: int,
    iv: IntervalView,
)
    ensures
        kept_intervals(events, start, offset).contains(iv) <==> (events.contains(Ok(iv))
            && iv.end + offset >= start),
    decreases events.len(),
{
    if events.len() > 0 {
        let init = events.drop_last();
        law_kept_by_local_end(init, start, offset, iv);
        let rest = kept_intervals(init, start, offset);
        assert(events =~= init.push(events.last()));
        assert(events.contains(Ok(iv)) <==> (init.contains(Ok(iv)) || events.last() == Ok::<
            IntervalView,
            Seq<char>,
        >(iv))) by {
            if events.contains(Ok(iv)) {
                let j = choose|j: int| 0 <= j < events.len() && events[j] == Ok::<IntervalView, Seq<char>>(iv);
                if j < events.len() - 1 {
                    assert(init[j] == events[j]);
                }
            }
            if init.contains(Ok(iv)) {
                let j = choose|j: int| 0 <= j < init.len() && init[j] == Ok::<IntervalView, Seq<char>>(iv);
                assert(events[j] == init[j]);
            }
            if events.last() == Ok::<IntervalView, Seq<char>>(iv) {
                assert(events[events.len() - 1] == events.last());
            }
        }
        match events.last() {
            Ok(ev) => {
                if ev.end + offset >= start {
                    let r2 = rest.push(ev);
                    if r2.contains(iv) {
                        let j = choose|j: int| 0 <= j < r2.len() && r2[j] == iv;
                        if j < rest.len() {
                            assert(rest[j] == r2[j]);
                        }
                    }
                    if rest.contains(iv) {
                        let j = choose|j: int| 0 <= j < rest.len() && rest[j] == iv;
                        assert(r2[j] == rest[j]);
                    }
                    if ev == iv {
                        assert(r2[rest.len() as int] == iv);
                    }
                }
            },
            Err(_) => {},
        }
    }
}

proof fn lemma_first_error_bounds(events: Seq<Result<IntervalView, Seq<char>>>)
    ensures
        0 <= first_error(events) <= events.len(),
        first_error(events) < events.len() ==> events[first_error(events)] is Err,
        forall|i: int| 0 <= i < first_error(events) ==> #[trigger] events[i] is Ok,
    decreases events.len(),
{
    if events.len() > 0 {
        lemma_first_error_bounds(events.drop_last());
        assert forall|i: int| 0 <= i < first_error(events) implies #[trigger] events[i] is Ok by {
            if i < events.len() - 1 {
                assert(events.drop_last()[i] == events[i]);
            }
        }
    }
}

proof fn lemma_first_error_prefix(events: Seq<Result<IntervalView, Seq<char>>>, k: int)
    requires
        0 <= k <= first_error(events),
    ensures
        first_error(events.take(k)) == k,
    decreases k,
{
    lemma_first_error_bounds(events);
    if k > 0 {
        lemma_first_error_prefix(events, k - 1);
        assert(events.take(k).drop_last() =~= events.take(k - 1));
    }
}

proof fn lemma_first_error_stops(events: Seq<Result<IntervalView, Seq<char>>>, k: int)
    requires
        0 <= k < events.len(),
        forall|i: int| 0 <= i < k ==> #[trigger] events[i] is Ok,
        events[k] is Err,
    ensures
        first_error(events) == k,
{
    lemma_first_error_bounds(events);
    if first_error(events) > k {
        assert(events[k] is Ok);
    }
}

proof fn lemma_first_error_none(events: Seq<Result<IntervalView, Seq<char>>>)
    requires
        forall|i: int| 0 <= i < events.len() ==> #[trigger] events[i] is Ok,
    ensures
        first_error(events) == events.len(),
{
    lemma_first_error_bounds(events);
    if first_error(events) < events.len() {
        assert(events[first_error(events)] is Ok);
    }
}

impl CommandLog {
    /// The number of days the window covers (see [`window_length`]).
    pub fn window_length(&self) -> (days: i64)
        ensures
            days == window_length(*self),
    {
        if let Some(d) = self.days {
            d
        } else if self.period {
            14
        } else if self.week {
            7
        } else {
            1
        }
    }

    /// The window of days to show for the clock reading `now` (Unix seconds) under `offset`:
    /// the days from the earliest through the day of `now`, one midnight each. A window of
    /// zero or fewer days is empty.
    pub fn day_range_at(&self, now: i64, offset: i32) -> (range: DayRange)
        requires
            valid_offset(offset as int),
            window_computable(*self, now as int, offset as int),
        ensures
            range.offset == offset,
            range.days@.len() == imax(window_length(*self), 0),
            forall|k: int|
                0 <= k < range.days@.len() ==> #[trigger] range.days@[k] == window_start(
                    *self,
                    now as int,
                    offset as int,
                ) + k * 86400,
            range.days@.len() > 0 ==> range.days@.last() == day_floor(now + offset),
    {
        let today = truncate_to_day(now + offset as i64);
        let days = self.window_length();
        let days_to_go_back = days - 1;
        let start_day = today - days_to_go_back * SECONDS_PER_DAY;
        let mut result: Vec<i64> = Vec::new();
        let mut i: i64 = 0;
        while i <= days_to_go_back
            invariant
                0 <= i,
                days_to_go_back == window_length(*self) - 1,
                i <= imax(window_length(*self), 0),
                start_day == window_start(*self, now as int, offset as int),
                in_time_range(start_day as int),
                in_time_range(today as int),
                today == start_day + days_to_go_back * 86400,
                result@.len() == i,
                forall|k: int| 0 <= k < i ==> #[trigger] result@[k] == start_day + k * 86400,
            decreases days_to_go_back + 1 - i,
        {
            result.push(start_day + i * SECONDS_PER_DAY);
            i = i + 1;
        }
        DayRange { offset, days: result }
    }

    /// Whether the window can be computed for the clock reading `now` under `offset` (see
    /// [`window_computable`]).
    pub fn window_fits(&self, now: i64, offset: i32) -> (ok: bool)
        requires
            valid_offset(offset as int),
        ensures
            ok == window_computable(*self, now as int, offset as int),
    {
        let days = self.window_length();
        if days == i64::MIN || now < TIME_MIN_TS - 93599 || now > TIME_MAX_TS + 93599 {
            return false;
        }
        let local_now = now + offset as i64;
        if local_now < TIME_MIN_TS || local_now > TIME_MAX_TS {
            return false;
        }
        let today = truncate_to_day(local_now);
        let back = days - 1;
        if back >= 0 {
            let q = (today - TIME_MIN_TS) / SECONDS_PER_DAY;
            if back > q {
                assert(today - back * 86400 < TIME_MIN_TS) by (nonlinear_arith)
                    requires
                        q == (today - TIME_MIN_TS) / 86400,
                        back >= q + 1,
                        today - TIME_MIN_TS >= 0,
                ;
                return false;
            }
            assert(back * 86400 <= today - TIME_MIN_TS) by (nonlinear_arith)
                requires
                    q == (today - TIME_MIN_TS) / 86400,
                    0 <= back <= q,
                    today - TIME_MIN_TS >= 0,
            ;
        } else {
            let q = (TIME_MAX_TS - today) / SECONDS_PER_DAY;
            if back < -q {
                assert(today - back * 86400 > TIME_MAX_TS) by (nonlinear_arith)
                    requires
                        q == (TIME_MAX_TS - today) / 86400,
                        -back >= q + 1,
                        TIME_MAX_TS - today >= 0,
                ;
                return false;
            }
            assert(-back * 86400 <= TIME_MAX_TS - today) by (nonlinear_arith)
                requires
                    q == (TIME_MAX_TS - today) / 86400,
                    0 < -back <= q,
                    TIME_MAX_TS - today >= 0,
            ;
        }
        true
    }

    /// The window of days to show, reading the clock now: for the clock reading, the days that
    /// [`Self::day_range_at`] gives, or `None` exactly when the window cannot be computed for
    /// it (it reaches past the supported range of dates).
    pub fn compute_day_range(&self, offset: i32) -> (range: Option<DayRange>)
        requires
            valid_offset(offset as int),
        ensures
            range matches Some(r) ==> r.offset == offset && r.days@.len() == imax(
                window_length(*self),
                0,
            ),
            exists|now: int|
                #![trigger window_computable(*self, now, offset as int)]
                in_time_range(now) && match range {
                    None => !window_computable(*self, now, offset as int),
                    Some(r) => window_computable(*self, now, offset as int) && forall|k: int|
                        0 <= k < r.days@.len() ==> #[trigger] r.days@[k] == window_start(
                            *self,
                            now,
                            offset as int,
                        ) + k * 86400,
                },
    {
        let now = now_utc_timestamp();
        if !self.window_fits(now, offset) {
            assert(!window_computable(*self, now as int, offset as int));
            return None;
        }
        let range = self.day_range_at(now, offset);
        assert(forall|k: int|
            0 <= k < range.days@.len() ==> #[trigger] range.days@[k] == window_start(
                *self,
                now as int,
                offset as int,
            ) + k * 86400);
        assert(window_computable(*self, now as int, offset as int));
        Some(range)
    }

    /// Keeps the intervals of `events` that end at or after the wall-clock time `start` under
    /// `offset`, in order. Filtering by end time keeps intervals that began before the window
    /// but finished inside it. The first event that could not be read fails the whole call.
    pub fn filter_events_in_range(
        all_events: &Vec<Result<StoreEvent, String>>,
        start: i64,
        offset: i32,
    ) -> (res: Result<Vec<TimeInterval>, KtError>)
        requires
            events_viewable(timelog_view(all_events@), offset as int),
        ensures
            ({
                let log = timelog_view(all_events@);
                &&& first_error(log) < log.len() ==> (res matches Err(KtError::EventFetch(msg))
                    && (log[first_error(log)] matches Err(m) && msg@ == m))
                &&& first_error(log) == log.len() ==> (res matches Ok(ivs) && interval_views(ivs@)
                    == kept_intervals(log, start as int, offset as int))
            }),
    {
        let ghost log = timelog_view(all_events@);
        let mut intervals: Vec<TimeInterval> = Vec::new();
        let mut i: usize = 0;
        proof {
            lemma_first_error_bounds(log);
        }
        while i < all_events.len()
            invariant
                i <= all_events@.len(),
                log == timelog_view(all_events@),
                log.len() == all_events@.len(),
                events_viewable(log, offset as int),
                0 <= first_error(log) <= log.len(),
                forall|j: int| 0 <= j < i ==> #[trigger] log[j] is Ok,
                interval_views(intervals@) == kept_intervals(
                    log.take(i as int),
                    start as int,
                    offset as int,
                ),
            decreases all_events@.len() - i,
        {
            assert(log.take(i + 1).drop_last() =~= log.take(i as int));
            assert(log[i as int] == event_view(all_events@[i as int]));
            match &all_events[i] {
                Ok(StoreEvent::CreateInterval(interval)) => {
                    proof {
                        if first_error(log) <= i {
                            lemma_first_error_bounds(log);
                            assert(log[first_error(log)] is Ok);
                        }
                        assert(log[i as int] is Ok);
                    }
                    let local_end = interval.end + offset as i64;
                    if local_end >= start {
                        let ghost before = intervals@;
                        intervals.push(interval.duplicate());
                        assert(interval_views(intervals@) =~= interval_views(before).push(interval@));
                    }
                },
                Err(e) => {
                    proof {
                        lemma_first_error_stops(log, i as int);
                    }
                    return Err(KtError::EventFetch(e.clone()));
                },
            }
            i = i + 1;
        }
        proof {
            lemma_first_error_none(log);
            assert(log.take(i as int) =~= log);
        }
        Ok(intervals)
    }
}

/// How displayed durations are rounded.
pub enum RoundingMode {
    /// To the nearest multiple of the given number of minutes, halves away from zero.
    Classic(u32),
}

impl Default for RoundingMode {
    /// Three-minute steps, the minimum billing boundary (and the step of the `add` time picker).
    fn default() -> (mode: Self)
        ensures
            mode == RoundingMode::Classic(3),
    {
        RoundingMode::Classic(3)
    }
}

/// The absolute value of `x`.
pub open spec fn abs_int(x: int) -> int {
    if x >= 0 { x } else { -x }
}

/// `d` seconds rounded to the nearest multiple of `step` seconds, halves away from zero.
pub open spec fn round_classic(d: int, step: int) -> int {
    if d >= 0 {
        ((d + step / 2) / step) * step
    } else {
        -((((-d) + step / 2) / step) * step)
    }
}

/// A length of time in seconds, as shown in the log table.
pub struct TaskDuration {
    pub seconds: i64,
}

impl TaskDuration {
    /// Wraps a number of seconds.
    pub fn new(seconds: i64) -> (d: TaskDuration)
        ensures
            d.seconds == seconds,
    {
        TaskDuration { seconds }
    }

    /// The duration rounded according to `mode`. The rounded value lies at most half a step
    /// further from zero than the duration, so the step's half beyond the duration must still
    /// be an `i64`.
    pub fn rounded(&self, mode: &RoundingMode) -> (r: i64)
        requires
            match mode {
                RoundingMode::Classic(m) => *m > 0 && abs_int(self.seconds as int) + (m * 60) / 2
                    <= i64::MAX,
            },
        ensures
            match mode {
                RoundingMode::Classic(m) => {
                    &&& r == round_classic(self.seconds as int, m * 60)
                    &&& abs_int(r as int) <= abs_int(self.seconds as int) + (m * 60) / 2
                },
            },
    {
        let RoundingMode::Classic(m) = mode;
        let step: i64 = (*m as i64) * 60;
        let d = self.seconds;
        if d >= 0 {
            let q = (d + step / 2) / step;
            assert(q * step <= d + step / 2) by (nonlinear_arith)
                requires
                    q == (d + step / 2) as int / step as int,
                    step > 0,
                    d >= 0,
            ;
            assert(q * step >= 0) by (nonlinear_arith)
                requires
                    q >= 0,
                    step > 0,
            ;
            q * step
        } else {
            let q = ((-d) + step / 2) / step;
            assert(q * step <= (-d) + step / 2) by (nonlinear_arith)
                requires
                    q == ((-d) + step / 2) as int / step as int,
                    step > 0,
                    -d >= 0,
            ;
            assert(q * step >= 0) by (nonlinear_arith)
                requires
                    q >= 0,
                    step > 0,
            ;
            -(q * step)
        }
    }
}

/// The `HH:MM` text of a duration: whole hours, then the minutes beyond them (Rust's
/// truncating division and remainder, so negative durations carry a minus sign).
pub open spec fn duration_text(dur: int) -> Seq<char> {
    pad2(tdiv(dur, 3600)) + seq![':'] + pad2(trem(tdiv(dur, 60), 60))
}

/// The layout (a `time` format description) of local dates and times in the log.
pub open spec fn datetime_layout() -> Seq<char> {
    "[year]-[month]-[day] [hour]:[minute]:[second]"@
}

/// The layout of the weekday header of a day column.
pub open spec fn weekday_layout() -> Seq<char> {
    "[weekday repr:short]"@
}

/// The layout of the month-and-day header of a day column.
pub open spec fn month_day_layout() -> Seq<char> {
    "[month]/[day]"@
}

/// The local date and time of the instant `t` under `offset`, as the log writes it; `None`
/// when `time` cannot format it.
pub open spec fn local_text(t: int, offset: int) -> Option<Seq<char>> {
    time_format_text(t, offset, datetime_layout())
}

/// One raw record of the log: task, local start, local end and the duration; `None` when a
/// time cannot be formatted.
pub open spec fn raw_line_text(iv: IntervalView, offset: int) -> Option<Seq<char>> {
    match (local_text(iv.start, offset), local_text(iv.end, offset)) {
        (Some(a), Some(b)) => Some(
            iv.task + seq![' '] + a + seq![' ', '-', ' '] + b + seq![' ', '('] + duration_text(
                iv.end - iv.start,
            ) + seq![')'],
        ),
        _ => None,
    }
}

impl CommandLog {
    /// Formats a duration as `HH:MM` (90 minutes are `01:30`, not `00:90`).
    pub fn format_duration(dur: i64) -> (s: String)
        ensures
            s@ == duration_text(dur as int),
    {
        let mut s = String::new();
        push_pad2(&mut s, div_trunc(dur, 3600));
        push_char(&mut s, ':');
        push_pad2(&mut s, rem_trunc(div_trunc(dur, 60), 60));
        s
    }

    /// The raw record of an interval: `<task> <start> - <end> (HH:MM)`, with the start and end
    /// shown as local date and time under `offset`; `TimeFormat` when `time` cannot format them.
    pub fn raw_line(interval: &TimeInterval, offset: i32) -> (line: Result<String, KtError>)
        requires
            valid_offset(offset as int),
            in_time_range(interval.start as int),
            in_time_range(interval.end as int),
            in_time_range(interval.start + offset),
            in_time_range(interval.end + offset),
        ensures
            match raw_line_text(interval@, offset as int) {
                Some(x) => line matches Ok(l) && l@ == x,
                None => line matches Err(KtError::TimeFormat),
            },
    {
        let start = match format_time(
            interval.start,
            offset,
            "[year]-[month]-[day] [hour]:[minute]:[second]",
        ) {
            Some(t) => t,
            None => return Err(KtError::TimeFormat),
        };
        let end = match format_time(
            interval.end,
            offset,
            "[year]-[month]-[day] [hour]:[minute]:[second]",
        ) {
            Some(t) => t,
            None => return Err(KtError::TimeFormat),
        };
        let mut line = interval.task.clone();
        push_char(&mut line, ' ');
        line.append(start.as_str());
        push_char(&mut line, ' ');
        push_char(&mut line, '-');
        push_char(&mut line, ' ');
        line.append(end.as_str());
        push_char(&mut line, ' ');
        push_char(&mut line, '(');
        line.append(Self::format_duration(interval.end - interval.start).as_str());
        push_char(&mut line, ')');
        assert(line@ =~= raw_line_text(interval@, offset as int)->0);
        Ok(line)
    }
}

/// The rounding step of the log table, in seconds (three minutes).
pub open spec fn table_step() -> int {
    180
}

/// The displayed (rounded) seconds of row `r` on day `k`.
pub open spec fn shown(rows: Seq<TaskDays>, r: int, k: int) -> int {
    round_classic(rows[r].durations@[k] as int, table_step())
}

/// The sum of the displayed seconds of row `r` over its first `k` days.
pub open spec fn row_prefix(rows: Seq<TaskDays>, r: int, k: int) -> int
    decreases k,
{
    if k <= 0 {
        0
    } else {
        row_prefix(rows, r, k - 1) + shown(rows, r, k - 1)
    }
}

/// The sum of the displayed seconds of day `k` over the first `r` rows.
pub open spec fn col_prefix(rows: Seq<TaskDays>, k: int, r: int) -> int
    decreases r,
{
    if r <= 0 {
        0
    } else {
        col_prefix(rows, k, r - 1) + shown(rows, r - 1, k)
    }
}

/// The sum of all displayed seconds of the first `r` rows (each of `n` days), then the first
/// `k` days of row `r`: the running grand total, row by row.
pub open spec fn grand_prefix(rows: Seq<TaskDays>, n: int, r: int, k: int) -> int
    decreases r,
{
    if r <= 0 {
        row_prefix(rows, 0, k)
    } else {
        grand_prefix(rows, n, r - 1, n) + row_prefix(rows, r, k)
    }
}

/// `x` fits in an `i64`.
pub open spec fn fits_i64(x: int) -> bool {
    i64::MIN <= x <= i64::MAX
}

/// None of the table's running totals (per task, per day, overall) overflows, and every entry
/// can be rounded.
pub open spec fn totals_fit(rows: Seq<TaskDays>, n: int) -> bool {
    &&& rows_width(rows, n)
    &&& rows_bounded(rows, i64::MAX - 100_000_000)
    &&& forall|r: int, k: int|
        0 <= r < rows.len() && 0 <= k <= n ==> fits_i64(#[trigger] row_prefix(rows, r, k))
    &&& forall|r: int, k: int|
        0 <= r < rows.len() && 0 <= k <= n ==> fits_i64(#[trigger] grand_prefix(rows, n, r, k))
    &&& forall|k: int, r: int|
        0 <= k < n && 0 <= r <= rows.len() ==> fits_i64(#[trigger] col_prefix(rows, k, r))
}

/// One row of the displayed table.
#[derive(Debug)]
pub struct SummaryRow {
    /// The task name.
    pub task: String,
    /// The task is the one running now.
    pub is_current: bool,
    /// Rounded seconds per day.
    pub cells: Vec<i64>,
    /// Which cells show running time (the running task's days with any time).
    pub highlighted: Vec<bool>,
    /// The task's total over the window.
    pub total: i64,
}

/// The displayed table: rounded cells, per-task totals, per-day totals and the grand total.
#[derive(Debug)]
pub struct TableSummary {
    pub rows: Vec<SummaryRow>,
    pub day_totals: Vec<i64>,
    pub total: i64,
    /// The window spans more than one day, so a TOTAL column is shown.
    pub show_multiday_totals: bool,
}

/// The grand total of all displayed seconds.
pub open spec fn grand_total(rows: Seq<TaskDays>, n: int) -> int {
    if rows.len() == 0 {
        0
    } else {
        grand_prefix(rows, n, rows.len() - 1, n)
    }
}

/// The sum over the first `m` days of the per-day totals of the first `r` rows.
pub open spec fn cols_sum(rows: Seq<TaskDays>, r: int, m: int) -> int
    decreases m,
{
    if m <= 0 {
        0
    } else {
        cols_sum(rows, r, m - 1) + col_prefix(rows, m - 1, r)
    }
}

/// The sum of the totals of the first `r` rows (each over `n` days).
pub open spec fn rows_sum(rows: Seq<TaskDays>, n: int, r: int) -> int
    decreases r,
{
    if r <= 0 {
        0
    } else {
        rows_sum(rows, n, r - 1) + row_prefix(rows, r - 1, n)
    }
}

proof fn lemma_cols_sum_zero_rows(rows: Seq<TaskDays>, m: int)
    ensures
        cols_sum(rows, 0, m) == 0,
    decreases m,
{
    if m > 0 {
        lemma_cols_sum_zero_rows(rows, m - 1);
    }
}

proof fn lemma_cols_sum_add_row(rows: Seq<TaskDays>, r: int, m: int)
    requires
        0 <= r,
    ensures
        cols_sum(rows, r + 1, m) == cols_sum(rows, r, m) + row_prefix(rows, r, m),
    decreases m,
{
    if m > 0 {
        lemma_cols_sum_add_row(rows, r, m - 1);
    }
}

proof fn lemma_cols_sum_is_grand(rows: Seq<TaskDays>, n: int, r: int)
    requires
        0 <= r,
    ensures
        cols_sum(rows, r + 1, n) == grand_prefix(rows, n, r, n),
        rows_sum(rows, n, r + 1) == grand_prefix(rows, n, r, n),
    decreases r,
{
    lemma_cols_sum_add_row(rows, r, n);
    assert(rows_sum(rows, n, r + 1) == rows_sum(rows, n, r) + row_prefix(rows, r, n));
    if r == 0 {
        assert(rows_sum(rows, n, 0) == 0);
        lemma_cols_sum_zero_rows(rows, n);
    } else {
        lemma_cols_sum_is_grand(rows, n, r - 1);
    }
}

/// The table's totals agree: the grand total equals the sum of the per-day totals and the sum
/// of the per-task totals.
pub proof fn law_table_totals_agree(rows: Seq<TaskDays>, n: int)
    ensures
        cols_sum(rows, rows.len() as int, n) == grand_total(rows, n),
        rows_sum(rows, n, rows.len() as int) == grand_total(rows, n),
{
    if rows.len() == 0 {
        lemma_cols_sum_zero_rows(rows, n);
    } else {
        lemma_cols_sum_is_grand(rows, n, rows.len() - 1);
    }
}

/// `summary` is the displayed form of `table` over `n` days: each entry rounded to the display
/// step, with the totals per task, per day and overall, and the running task's row and its days
/// with time marked.
pub open spec fn summarizes(table: IntervalTable, n: int, summary: TableSummary) -> bool {
    &&& summary.rows@.len() == table.day_durations_by_task@.len()
    &&& summary.day_totals@.len() == n
    &&& summary.show_multiday_totals == (n > 1)
    &&& summary.total == grand_total(table.day_durations_by_task@, n)
    &&& forall|k: int|
        0 <= k < n ==> #[trigger] summary.day_totals@[k] == col_prefix(
            table.day_durations_by_task@,
            k,
            table.day_durations_by_task@.len() as int,
        )
    &&& forall|r: int|
        #![trigger summary.rows@[r]]
        0 <= r < summary.rows@.len() ==> {
            let row = table.day_durations_by_task@[r];
            let out = summary.rows@[r];
            &&& out.task@ == row.task@
            &&& out.is_current == (table.current_task matches Some(c) && c@ == row.task@)
            &&& out.cells@.len() == n
            &&& out.highlighted@.len() == n
            &&& out.total == row_prefix(table.day_durations_by_task@, r, n)
            &&& forall|k: int|
                0 <= k < n ==> #[trigger] out.cells@[k] == shown(
                    table.day_durations_by_task@,
                    r,
                    k,
                )
            &&& forall|k: int|
                0 <= k < n ==> #[trigger] out.highlighted@[k] == (out.is_current
                    && row.durations@[k] != 0)
        }
}

impl CommandLog {
    /// Rounds each entry of the table to the display step and adds up the totals per task, per
    /// day and overall, marking the running task's row and its days with time.
    pub fn summarize_table(table: &IntervalTable, n: usize) -> (summary: TableSummary)
        requires
            totals_fit(table.day_durations_by_task@, n as int),
        ensures
            summarizes(*table, n as int, summary),
    {
        let ghost rows = table.day_durations_by_task@;
        let mode = RoundingMode::default();
        let mut day_totals: Vec<i64> = vec![0i64; n];
        let mut total: i64 = 0;
        let mut out_rows: Vec<SummaryRow> = Vec::new();
        let mut r: usize = 0;
        while r < table.day_durations_by_task.len()
            invariant
                rows == table.day_durations_by_task@,
                totals_fit(rows, n as int),
                mode == RoundingMode::Classic(3),
                r <= rows.len(),
                day_totals@.len() == n,
                forall|k: int| 0 <= k < n ==> #[trigger] day_totals@[k] == col_prefix(rows, k, r as int),
                total == (if r == 0 { 0 } else { grand_prefix(rows, n as int, r - 1, n as int) }),
                out_rows@.len() == r,
                forall|i: int|
                    #![trigger out_rows@[i]]
                    0 <= i < r ==> {
                        let row = rows[i];
                        let out = out_rows@[i];
                        &&& out.task@ == row.task@
                        &&& out.is_current == (table.current_task matches Some(c) && c@ == row.task@)
                        &&& out.cells@.len() == n
                        &&& out.highlighted@.len() == n
                        &&& out.total == row_prefix(rows, i, n as int)
                        &&& forall|k: int| 0 <= k < n ==> #[trigger] out.cells@[k] == shown(rows, i, k)
                        &&& forall|k: int|
                            0 <= k < n ==> #[trigger] out.highlighted@[k] == (out.is_current
                                && row.durations@[k] != 0)
                    },
            decreases rows.len() - r,
        {
            let row = &table.day_durations_by_task[r];
            let is_current = match &table.current_task {
                Some(c) => str_eq(c.as_str(), row.task.as_str()),
                None => false,
            };
            let mut cells: Vec<i64> = Vec::new();
            let mut highlighted: Vec<bool> = Vec::new();
            let mut task_total: i64 = 0;
            let mut k: usize = 0;
            while k < n
                invariant
                    rows == table.day_durations_by_task@,
                    totals_fit(rows, n as int),
                    mode == RoundingMode::Classic(3),
                    r < rows.len(),
                    *row == rows[r as int],
                    k <= n,
                    day_totals@.len() == n,
                    forall|j: int|
                        0 <= j < k ==> #[trigger] day_totals@[j] == col_prefix(rows, j, r + 1),
                    forall|j: int|
                        k <= j < n ==> #[trigger] day_totals@[j] == col_prefix(rows, j, r as int),
                    total == (if r == 0 { row_prefix(rows, 0, k as int) } else { grand_prefix(
                        rows,
                        n as int,
                        r - 1,
                        n as int,
                    ) + row_prefix(rows, r as int, k as int) }),
                    task_total == row_prefix(rows, r as int, k as int),
                    cells@.len() == k,
                    highlighted@.len() == k,
                    forall|j: int| 0 <= j < k ==> #[trigger] cells@[j] == shown(rows, r as int, j),
                    forall|j: int|
                        0 <= j < k ==> #[trigger] highlighted@[j] == (is_current
                            && row.durations@[j] != 0),
                decreases n - k,
            {
                let dur = row.durations[k];
                let rounded = TaskDuration::new(dur).rounded(&mode);
                assert(row_prefix(rows, r as int, k + 1) == task_total + rounded);
                assert(fits_i64(row_prefix(rows, r as int, k + 1)));
                task_total = task_total + rounded;
                assert(fits_i64(grand_prefix(rows, n as int, r as int, k + 1)));
                total = total + rounded;
                assert(fits_i64(col_prefix(rows, k as int, r + 1)));
                let d = day_totals[k];
                day_totals.set(k, d + rounded);
                let ghost old_cells = cells@;
                let ghost old_high = highlighted@;
                cells.push(rounded);
                highlighted.push(is_current && dur != 0);
                assert(rounded == shown(rows, r as int, k as int));
                assert(forall|j: int| 0 <= j < k ==> cells@[j] == old_cells[j] && highlighted@[j] == old_high[j]);
                k = k + 1;
            }
            let ghost old_out = out_rows@;
            out_rows.push(SummaryRow { task: row.task.clone(), is_current, cells, highlighted, total: task_total });
            assert(forall|i: int| 0 <= i < r ==> out_rows@[i] == old_out[i]);
            let ghost out = out_rows@[r as int];
            assert(out.task@ == rows[r as int].task@);
            assert(out.is_current == (table.current_task matches Some(c) && c@ == rows[r as int].task@));
            assert(out.total == row_prefix(rows, r as int, n as int));
            assert(forall|k: int| 0 <= k < n ==> #[trigger] out.cells@[k] == shown(rows, r as int, k));
            assert(forall|k: int| 0 <= k < n ==> #[trigger] out.highlighted@[k] == (out.is_current && rows[r as int].durations@[k] != 0));
            assert(out.cells@.len() == n && out.highlighted@.len() == n);
            r = r + 1;
        }
        TableSummary { rows: out_rows, day_totals, total, show_multiday_totals: n > 1 }
    }
}

impl CommandLog {
    /// Aggregates the intervals and the running task (counted up to the clock's current time)
    /// into per-task, per-day seconds for the days of `day_range`; see [`Self::build_table_at`].
    /// For the clock reading, the table is exactly what `build_table_at` gives, or `None` exactly
    /// when the running task's time up to that reading cannot be held by the window (it reaches
    /// a day after the window's last day, or leaves the supported range). Without a running task
    /// that counts, the table is always built.
    pub fn build_table(
        intervals: &Vec<TimeInterval>,
        current: Option<&CurrentTask>,
        day_range: &DayRange,
    ) -> (table: Option<IntervalTable>)
        requires
            window_days(day_range.days@),
            valid_offset(day_range.offset as int),
            intervals@.len() < 100_000_000_000_000,
            intervals_fit(interval_views(intervals@), day_range.offset as int, day_range.days@),
            current_counts(current_view(current)) ==> in_time_range(
                current_view(current)->0.start + day_range.offset,
            ),
        ensures
            !current_counts(current_view(current)) ==> table is Some,
            exists|now: int|
                #![trigger current_fits(current_view(current), day_range.offset as int, now, day_range.days@)]
                in_time_range(now) && if current_fits(
                    current_view(current),
                    day_range.offset as int,
                    now,
                    day_range.days@,
                ) {
                    table matches Some(t) && rows_view(t.day_durations_by_task@) == table_of(
                        interval_views(intervals@),
                        current_view(current),
                        day_range.offset as int,
                        now,
                        day_range.days@[0] as int,
                        day_range.days@.len() as int,
                    )
                } else {
                    table is None
                },
            table matches Some(t) ==> rows_sorted(t.day_durations_by_task@) && rows_width(
                t.day_durations_by_task@,
                day_range.days@.len() as int,
            ),
            table matches Some(t) ==> match current {
                Some(c) => t.current_task is Some && t.current_task->0@ == c.task@,
                None => t.current_task is None,
            },
    {
        let now = now_utc_timestamp();
        let fits = match current {
            Some(cur) => {
                if timestamp_in_range(cur.start) {
                    let local_start = cur.start + day_range.offset as i64;
                    let local_end = now + day_range.offset as i64;
                    TIME_MIN_TS <= local_end && local_end <= TIME_MAX_TS && fits_window_check(
                        local_start,
                        local_end,
                        &day_range.days,
                    )
                } else {
                    true
                }
            },
            None => true,
        };
        assert(fits == current_fits(
            current_view(current),
            day_range.offset as int,
            now as int,
            day_range.days@,
        ));
        if !fits {
            return None;
        }
        let table = Self::build_table_at(intervals, current, day_range, now);
        Some(table)
    }

    /// Whether `days` are the days of a window (see [`window_days`]).
    pub fn window_days_check(days: &Vec<i64>) -> (ok: bool)
        ensures
            ok == window_days(days@),
    {
        if days.len() == 0 {
            return false;
        }
        let first = days[0];
        if first < TIME_MIN_TS || first > TIME_MAX_TS || first % SECONDS_PER_DAY != 0 {
            return false;
        }
        let n = days.len();
        if n as u64 > ((TIME_MAX_TS - first) / SECONDS_PER_DAY) as u64 {
            assert(!in_time_range(days@[0] + days@.len() * 86400)) by (nonlinear_arith)
                requires
                    n > (TIME_MAX_TS - first) / 86400,
                    n == days@.len(),
                    first == days@[0],
                    TIME_MAX_TS - first >= 0,
            ;
            return false;
        }
        assert(in_time_range(days@[0] + days@.len() * 86400)) by (nonlinear_arith)
            requires
                n <= (TIME_MAX_TS - first) / 86400,
                n == days@.len(),
                first == days@[0],
                TIME_MAX_TS - first >= 0,
                first >= TIME_MIN_TS,
        ;
        let mut k: usize = 0;
        while k < n
            invariant
                n == days@.len(),
                first == days@[0],
                k <= n,
                first + n * 86400 <= TIME_MAX_TS,
                first >= TIME_MIN_TS,
                forall|j: int| 0 <= j < k ==> #[trigger] days@[j] == days@[0] + j * 86400,
            decreases n - k,
        {
            assert(k * 86400 <= n * 86400) by (nonlinear_arith)
                requires
                    k < n,
            ;
            if days[k] != first + (k as i64) * SECONDS_PER_DAY {
                return false;
            }
            k = k + 1;
        }
        true
    }

    /// Whether every interval can be seen under `offset` and stays out of days after the
    /// window (see [`intervals_fit`]).
    pub fn intervals_fit_check(intervals: &Vec<TimeInterval>, offset: i32, days: &Vec<i64>) -> (ok: bool)
        requires
            window_days(days@),
            valid_offset(offset as int),
        ensures
            ok == intervals_fit(interval_views(intervals@), offset as int, days@),
    {
        let ghost ivs = interval_views(intervals@);
        let mut i: usize = 0;
        while i < intervals.len()
            invariant
                window_days(days@),
                valid_offset(offset as int),
                ivs == interval_views(intervals@),
                i <= intervals@.len(),
                forall|j: int|
                    #![trigger ivs[j]]
                    0 <= j < i ==> {
                        &&& in_time_range(ivs[j].created_at + offset)
                        &&& (ivs[j].updated_at matches Some(u) ==> in_time_range(u + offset))
                        &&& in_time_range(ivs[j].start + offset)
                        &&& in_time_range(ivs[j].end + offset)
                        &&& fits_window(ivs[j].start + offset, ivs[j].end + offset, days@)
                    },
            decreases intervals@.len() - i,
        {
            let iv = &intervals[i];
            assert(ivs[i as int] == iv@);
            let c = iv.created_at as i128 + offset as i128;
            let s = iv.start as i128 + offset as i128;
            let e = iv.end as i128 + offset as i128;
            let lo = TIME_MIN_TS as i128;
            let hi = TIME_MAX_TS as i128;
            if c < lo || c > hi || s < lo || s > hi || e < lo || e > hi {
                return false;
            }
            if let Some(u) = iv.updated_at {
                let ul = u as i128 + offset as i128;
                if ul < lo || ul > hi {
                    return false;
                }
            }
            if !fits_window_check(s as i64, e as i64, days) {
                return false;
            }
            i = i + 1;
        }
        true
    }
}

/// Whether adding `[start, end)` stays out of days after the window (see [`fits_window`]).
pub fn fits_window_check(start: i64, end: i64, days: &Vec<i64>) -> (ok: bool)
    requires
        window_days(days@),
        in_time_range(start as int),
        in_time_range(end as int),
    ensures
        ok == fits_window(start as int, end as int, days@),
{
    let ds = truncate_to_day(start);
    let de = truncate_to_day(end);
    let first = days[0];
    let last = first + ((days.len() - 1) as i64) * SECONDS_PER_DAY;
    assert(days@[days@.len() - 1] == last);
    !(ds <= de && first <= de) || de <= last
}

impl CommandLog {
    /// Whether the table's totals can be computed without overflow (see [`totals_fit`]).
    pub fn totals_fit_check(table: &IntervalTable, n: usize) -> (ok: bool)
        ensures
            ok == totals_fit(table.day_durations_by_task@, n as int),
    {
        let ghost rows = table.day_durations_by_task@;
        let bound: i64 = i64::MAX - 100_000_000;
        let mut r: usize = 0;
        while r < table.day_durations_by_task.len()
            invariant
                rows == table.day_durations_by_task@,
                bound == i64::MAX - 100_000_000,
                r <= rows.len(),
                forall|i: int| 0 <= i < r ==> (#[trigger] rows[i]).durations@.len() == n,
                forall|i: int, k: int|
                    0 <= i < r && 0 <= k < rows[i].durations@.len() ==> -bound
                        <= #[trigger] rows[i].durations@[k] <= bound,
            decreases rows.len() - r,
        {
            let row = &table.day_durations_by_task[r];
            if row.durations.len() != n {
                return false;
            }
            let mut k: usize = 0;
            while k < n
                invariant
                    rows == table.day_durations_by_task@,
                    bound == i64::MAX - 100_000_000,
                    r < rows.len(),
                    *row == rows[r as int],
                    row.durations@.len() == n,
                    k <= n,
                    forall|j: int| 0 <= j < k ==> -bound <= #[trigger] row.durations@[j] <= bound,
                decreases n - k,
            {
                let v = row.durations[k];
                if v < -bound || v > bound {
                    assert(!rows_bounded(rows, i64::MAX - 100_000_000));
                    return false;
                }
                k = k + 1;
            }
            r = r + 1;
        }
        assert(rows_width(rows, n as int));
        assert(rows_bounded(rows, i64::MAX - 100_000_000));
        let mode = RoundingMode::default();
        let lo: i128 = i64::MIN as i128;
        let hi: i128 = i64::MAX as i128;
        let mut col_sums: Vec<i128> = vec![0i128; n];
        let mut grand: i128 = 0;
        let mut r: usize = 0;
        while r < table.day_durations_by_task.len()
            invariant
                rows == table.day_durations_by_task@,
                rows_width(rows, n as int),
                rows_bounded(rows, i64::MAX - 100_000_000),
                mode == RoundingMode::Classic(3),
                lo == i64::MIN,
                hi == i64::MAX,
                r <= rows.len(),
                col_sums@.len() == n,
                forall|k: int| 0 <= k < n ==> #[trigger] col_sums@[k] == col_prefix(rows, k, r as int),
                forall|k: int| 0 <= k < n ==> fits_i64(#[trigger] col_prefix(rows, k, r as int)),
                grand == (if r == 0 { 0 } else { grand_prefix(rows, n as int, r - 1, n as int) }),
                fits_i64(grand as int),
                forall|i: int, k: int|
                    0 <= i < r && 0 <= k <= n ==> fits_i64(#[trigger] row_prefix(rows, i, k)),
                forall|i: int, k: int|
                    0 <= i < r && 0 <= k <= n ==> fits_i64(#[trigger] grand_prefix(rows, n as int, i, k)),
                forall|k: int, i: int|
                    0 <= k < n && 0 <= i <= r ==> fits_i64(#[trigger] col_prefix(rows, k, i)),
            decreases rows.len() - r,
        {
            let row = &table.day_durations_by_task[r];
            let mut row_sum: i128 = 0;
            let mut g: i128 = grand;
            let mut k: usize = 0;
            assert(row_prefix(rows, r as int, 0) == 0);
            assert(g == (if r == 0 { row_prefix(rows, 0, 0) } else { grand_prefix(rows, n as int, r - 1, n as int) + row_prefix(rows, r as int, 0) }));
            while k < n
                invariant
                    rows == table.day_durations_by_task@,
                    rows_width(rows, n as int),
                    rows_bounded(rows, i64::MAX - 100_000_000),
                    mode == RoundingMode::Classic(3),
                    lo == i64::MIN,
                    hi == i64::MAX,
                    r < rows.len(),
                    *row == rows[r as int],
                    k <= n,
                    col_sums@.len() == n,
                    forall|j: int| 0 <= j < k ==> #[trigger] col_sums@[j] == col_prefix(rows, j, r + 1),
                    forall|j: int| k <= j < n ==> #[trigger] col_sums@[j] == col_prefix(rows, j, r as int),
                    forall|j: int| 0 <= j < k ==> fits_i64(#[trigger] col_prefix(rows, j, r + 1)),
                    forall|j: int| 0 <= j < n ==> fits_i64(#[trigger] col_prefix(rows, j, r as int)),
                    row_sum == row_prefix(rows, r as int, k as int),
                    g == (if r == 0 { row_prefix(rows, 0, k as int) } else { grand_prefix(
                        rows,
                        n as int,
                        r - 1,
                        n as int,
                    ) + row_prefix(rows, r as int, k as int) }),
                    forall|j: int| 0 <= j <= k ==> fits_i64(#[trigger] row_prefix(rows, r as int, j)),
                    forall|j: int|
                        0 <= j <= k ==> fits_i64(#[trigger] grand_prefix(rows, n as int, r as int, j)),
                    fits_i64(grand_prefix(rows, n as int, r as int, k as int)),
                    fits_i64(row_sum as int),
                    fits_i64(g as int),
                decreases n - k,
            {
                let rounded = TaskDuration::new(row.durations[k]).rounded(&mode);
                assert(rounded == shown(rows, r as int, k as int));
                row_sum = row_sum + rounded as i128;
                g = g + rounded as i128;
                let c = col_sums[k] + rounded as i128;
                assert(row_sum == row_prefix(rows, r as int, k + 1));
                assert(g == grand_prefix(rows, n as int, r as int, k + 1));
                assert(c == col_prefix(rows, k as int, r + 1));
                if row_sum < lo || row_sum > hi {
                    assert(!fits_i64(row_prefix(rows, r as int, k + 1)));
                    return false;
                }
                if g < lo || g > hi {
                    assert(!fits_i64(grand_prefix(rows, n as int, r as int, k + 1)));
                    return false;
                }
                if c < lo || c > hi {
                    assert(!fits_i64(col_prefix(rows, k as int, r + 1)));
                    return false;
                }
                col_sums.set(k, c);
                k = k + 1;
            }
            grand = g;
            r = r + 1;
        }
        true
    }
}

} // verus!

verus! {

/// Every interval can be shown as a raw record under `offset`: its start and end are valid
/// instants and stay valid as local times.
pub open spec fn raw_showable(ivs: Seq<IntervalView>, offset: int) -> bool {
    forall|i: int|
        #![trigger ivs[i]]
        0 <= i < ivs.len() ==> {
            &&& in_time_range(ivs[i].start)
            &&& in_time_range(ivs[i].end)
            &&& in_time_range(ivs[i].start + offset)
            &&& in_time_range(ivs[i].end + offset)
        }
}

/// The line under the table naming the running task and when it started (local time under
/// `offset`), or `None` when its start is not a valid instant.
pub open spec fn current_line_text(c: CurrentView, offset: int) -> Option<Seq<char>> {
    if in_time_range(c.start) {
        Some(" current: "@ + c.task + " (started "@ + local_text(c.start, offset)->0 + ")"@)
    } else {
        None
    }
}

/// The line naming the running task can be written: its start, when a valid instant, can be
/// formatted.
pub open spec fn current_line_formattable(c: CurrentView, offset: int) -> bool {
    in_time_range(c.start) ==> local_text(c.start, offset) is Some
}

/// The weekday header of the day starting at wall-clock midnight `d`.
pub open spec fn weekday_text(d: int) -> Option<Seq<char>> {
    time_format_text(d, 0, weekday_layout())
}

/// The month-and-day header of the day starting at wall-clock midnight `d`.
pub open spec fn month_day_text(d: int) -> Option<Seq<char>> {
    time_format_text(d, 0, month_day_layout())
}

/// Both headers of every day of `days` can be formatted.
pub open spec fn headers_formattable(days: Seq<i64>) -> bool {
    forall|k: int|
        0 <= k < days.len() ==> weekday_text(#[trigger] days[k] as int) is Some && month_day_text(
            days[k] as int,
        ) is Some
}

/// Every interval's raw record can be formatted.
pub open spec fn raw_formattable(ivs: Seq<IntervalView>, offset: int) -> bool {
    forall|i: int| 0 <= i < ivs.len() ==> raw_line_text(#[trigger] ivs[i], offset) is Some
}

/// The midnights of the window for the clock reading `now` under `offset`, oldest first.
pub open spec fn window_days_at(cmd: CommandLog, now: int, offset: int) -> Seq<i64> {
    Seq::new(
        window_length(cmd) as nat,
        |k: int| (window_start(cmd, now, offset) + k * 86400) as i64,
    )
}

/// The running task recorded in the store, or `None` when none is running or its record is
/// unreadable.
pub open spec fn running(store: StoreView) -> Option<CurrentView> {
    match store.current {
        Ok(c) => c,
        Err(_) => None,
    }
}

/// The table can be built for the window `days`: the window stays within the supported range,
/// and every kept interval and the running task (counted up to `now`) can be seen under
/// `offset` without reaching a day after the window.
pub open spec fn table_fits(
    kept: Seq<IntervalView>,
    cur: Option<CurrentView>,
    offset: int,
    now: int,
    days: Seq<i64>,
) -> bool {
    &&& window_days(days)
    &&& kept.len() < 100_000_000_000_000
    &&& intervals_fit(kept, offset, days)
    &&& (current_counts(cur) ==> in_time_range(cur->0.start + offset))
    &&& current_fits(cur, offset, now, days)
}

/// The headers of one day column: the short weekday name and the month and day.
#[derive(Debug)]
pub struct DayHeader {
    pub weekday: String,
    pub month_day: String,
}

/// The log as a table: the day headers, the per-task, per-day seconds, their displayed form
/// with totals, and the line naming the running task.
#[derive(Debug)]
pub struct LogTable {
    pub headers: Vec<DayHeader>,
    pub table: IntervalTable,
    pub summary: TableSummary,
    pub current_line: Option<String>,
}

/// What `kt log` shows.
#[derive(Debug)]
pub enum LogOutput {
    /// One raw record per interval (`--raw`).
    Raw(Vec<String>),
    /// The intervals, each to be written as a JSON store event on a line of its own (`--json`).
    Json(Vec<TimeInterval>),
    /// Nothing happened in the window.
    Empty,
    /// The table of the window.
    Table(LogTable),
}

/// `t` shows the table `map` of the window of `n` days starting at midnight `start`.
pub open spec fn table_shows(
    t: LogTable,
    map: Map<Seq<char>, Seq<i64>>,
    cur: Option<CurrentView>,
    offset: int,
    start: int,
    n: int,
) -> bool {
    &&& rows_view(t.table.day_durations_by_task@) == map
    &&& rows_sorted(t.table.day_durations_by_task@)
    &&& rows_width(t.table.day_durations_by_task@, n)
    &&& match cur {
        Some(c) => t.table.current_task matches Some(x) && x@ == c.task,
        None => t.table.current_task is None,
    }
    &&& summarizes(t.table, n, t.summary)
    &&& t.headers@.len() == n
    &&& forall|k: int|
        #![trigger t.headers@[k]]
        0 <= k < n ==> t.headers@[k].weekday@ == weekday_text(start + k * 86400)->0
            && t.headers@[k].month_day@ == month_day_text(start + k * 86400)->0
    &&& match cur {
        Some(c) => match current_line_text(c, offset) {
            Some(l) => t.current_line matches Some(x) && x@ == l,
            None => t.current_line is None,
        },
        None => t.current_line is None,
    }
}

/// What `kt log` gives for the store `store`, the clock reading `now` (Unix seconds) and the
/// local UTC offset `offset`. In order: the window must lie within the supported range; the
/// running-task record must be readable; the events before the first unreadable one must be
/// viewable under `offset`, and an unreadable event is reported. Then the intervals ending in or
/// after the window are shown raw, as JSON, or as a table; nothing is shown when there is
/// nothing to count. `LogOutOfRange` reports data the window cannot hold.
pub open spec fn log_result_at(
    cmd: CommandLog,
    store: StoreView,
    offset: int,
    now: int,
    res: Result<LogOutput, KtError>,
) -> bool {
    let log = store.timelog;
    let start = window_start(cmd, now, offset);
    let days = window_days_at(cmd, now, offset);
    let n = window_length(cmd);
    let kept = kept_intervals(log, start, offset);
    let cur = running(store);
    if !window_computable(cmd, now, offset) {
        res matches Err(KtError::LogOutOfRange)
    } else if store.current is Err {
        res matches Err(KtError::MalformedCurrentTask(e)) && store.current == Err::<
            Option<CurrentView>,
            Seq<char>,
        >(e@)
    } else if !events_viewable(log, offset) {
        res matches Err(KtError::LogOutOfRange)
    } else if first_error(log) < log.len() {
        res matches Err(KtError::EventFetch(e)) && log[first_error(log)] == Err::<
            IntervalView,
            Seq<char>,
        >(e@)
    } else if cmd.raw {
        if !raw_showable(kept, offset) {
            res matches Err(KtError::LogOutOfRange)
        } else if raw_formattable(kept, offset) {
            &&& res matches Ok(LogOutput::Raw(lines))
            &&& lines@.len() == kept.len()
            &&& forall|i: int|
                0 <= i < kept.len() ==> #[trigger] lines@[i]@ == raw_line_text(kept[i], offset)->0
        } else {
            res matches Err(KtError::TimeFormat)
        }
    } else if cmd.json {
        res matches Ok(LogOutput::Json(ivs)) && interval_views(ivs@) == kept
    } else if kept.len() == 0 && cur is None {
        res matches Ok(LogOutput::Empty)
    } else if !table_fits(kept, cur, offset, now, days) {
        res matches Err(KtError::LogOutOfRange)
    } else {
        let map = table_of(kept, cur, offset, now, start, n);
        if map == Map::<Seq<char>, Seq<i64>>::empty() {
            res matches Ok(LogOutput::Empty)
        } else {
            let formattable = headers_formattable(days) && match cur {
                Some(c) => current_line_formattable(c, offset),
                None => true,
            };
            ||| res matches Err(KtError::LogOutOfRange) && exists|rows: Seq<TaskDays>|
                rows_sorted(rows) && rows_view(rows) == map && !totals_fit(rows, n)
            ||| res matches Err(KtError::TimeFormat) && !formattable && exists|rows: Seq<TaskDays>|
                rows_sorted(rows) && rows_view(rows) == map && totals_fit(rows, n)
            ||| res matches Ok(LogOutput::Table(t)) && formattable && table_shows(
                t,
                map,
                cur,
                offset,
                start,
                n,
            )
        }
    }
}

impl CommandLog {
    /// Whether the events of `events` before the first unreadable one can be viewed under
    /// `offset` (see [`events_viewable`]).
    pub fn events_viewable_check(events: &Vec<Result<StoreEvent, String>>, offset: i32) -> (ok:
        bool)
        requires
            valid_offset(offset as int),
        ensures
            ok == events_viewable(timelog_view(events@), offset as int),
    {
        let ghost log = timelog_view(events@);
        proof {
            lemma_first_error_bounds(log);
        }
        let mut i: usize = 0;
        while i < events.len()
            invariant
                i <= events@.len(),
                valid_offset(offset as int),
                log == timelog_view(events@),
                log.len() == events@.len(),
                0 <= first_error(log) <= log.len(),
                forall|j: int|
                    0 <= j < i ==> match #[trigger] log[j] {
                        Ok(ev) => in_time_range(ev.end + offset),
                        Err(_) => false,
                    },
            decreases events@.len() - i,
        {
            assert(log[i as int] == event_view(events@[i as int]));
            match &events[i] {
                Ok(StoreEvent::CreateInterval(iv)) => {
                    if iv.end < TIME_MIN_TS - 93599 || iv.end > TIME_MAX_TS + 93599 {
                        proof {
                            lemma_first_error_bounds(log);
                            if first_error(log) <= i {
                                assert(log[first_error(log)] is Ok);
                            }
                            assert(log[i as int] is Ok);
                        }
                        return false;
                    }
                    let e = iv.end + offset as i64;
                    if e < TIME_MIN_TS || e > TIME_MAX_TS {
                        proof {
                            lemma_first_error_bounds(log);
                            if first_error(log) <= i {
                                assert(log[first_error(log)] is Ok);
                            }
                            assert(log[i as int] is Ok);
                        }
                        return false;
                    }
                },
                Err(_) => {
                    proof {
                        lemma_first_error_stops(log, i as int);
                    }
                    return true;
                },
            }
            i = i + 1;
        }
        proof {
            lemma_first_error_none(log);
        }
        true
    }

    /// Whether every interval can be shown as a raw record under `offset` (see
    /// [`raw_showable`]).
    pub fn raw_showable_check(intervals: &Vec<TimeInterval>, offset: i32) -> (ok: bool)
        requires
            valid_offset(offset as int),
        ensures
            ok == raw_showable(interval_views(intervals@), offset as int),
    {
        let ghost ivs = interval_views(intervals@);
        let mut i: usize = 0;
        while i < intervals.len()
            invariant
                i <= intervals@.len(),
                valid_offset(offset as int),
                ivs == interval_views(intervals@),
                forall|j: int|
                    #![trigger ivs[j]]
                    0 <= j < i ==> {
                        &&& in_time_range(ivs[j].start)
                        &&& in_time_range(ivs[j].end)
                        &&& in_time_range(ivs[j].start + offset)
                        &&& in_time_range(ivs[j].end + offset)
                    },
            decreases intervals@.len() - i,
        {
            let iv = &intervals[i];
            assert(ivs[i as int] == iv@);
            if iv.start < TIME_MIN_TS || iv.start > TIME_MAX_TS || iv.end < TIME_MIN_TS || iv.end
                > TIME_MAX_TS {
                return false;
            }
            let s = iv.start + offset as i64;
            let e = iv.end + offset as i64;
            if s < TIME_MIN_TS || s > TIME_MAX_TS || e < TIME_MIN_TS || e > TIME_MAX_TS {
                return false;
            }
            i = i + 1;
        }
        true
    }

    /// The raw records of the intervals, one line each (see [`Self::raw_line`]);
    /// `TimeFormat` when one of them cannot be formatted.
    pub fn raw_lines(intervals: &Vec<TimeInterval>, offset: i32) -> (lines: Result<
        Vec<String>,
        KtError,
    >)
        requires
            valid_offset(offset as int),
            raw_showable(interval_views(intervals@), offset as int),
        ensures
            raw_formattable(interval_views(intervals@), offset as int) ==> {
                &&& lines matches Ok(v)
                &&& v@.len() == intervals@.len()
                &&& forall|i: int|
                    0 <= i < intervals@.len() ==> #[trigger] v@[i]@ == raw_line_text(
                        intervals@[i]@,
                        offset as int,
                    )->0
            },
            !raw_formattable(interval_views(intervals@), offset as int) ==> lines matches Err(
                KtError::TimeFormat,
            ),
    {
        let ghost ivs = interval_views(intervals@);
        let mut lines: Vec<String> = Vec::new();
        let mut i: usize = 0;
        while i < intervals.len()
            invariant
                i <= intervals@.len(),
                valid_offset(offset as int),
                ivs == interval_views(intervals@),
                raw_showable(ivs, offset as int),
                lines@.len() == i,
                forall|j: int| 0 <= j < i ==> raw_line_text(#[trigger] ivs[j], offset as int) is Some,
                forall|j: int|
                    0 <= j < i ==> #[trigger] lines@[j]@ == raw_line_text(
                        intervals@[j]@,
                        offset as int,
                    )->0,
            decreases intervals@.len() - i,
        {
            assert(ivs[i as int] == intervals@[i as int]@);
            match Self::raw_line(&intervals[i], offset) {
                Ok(line) => lines.push(line),
                Err(e) => return Err(e),
            }
            i = i + 1;
        }
        Ok(lines)
    }

    /// The headers of the day columns: each day's short weekday name and its month and day;
    /// `TimeFormat` when one of them cannot be formatted.
    pub fn day_headers(days: &Vec<i64>) -> (headers: Result<Vec<DayHeader>, KtError>)
        requires
            forall|k: int| 0 <= k < days@.len() ==> in_time_range(#[trigger] days@[k] as int),
        ensures
            headers_formattable(days@) ==> {
                &&& headers matches Ok(h)
                &&& h@.len() == days@.len()
                &&& forall|k: int|
                    #![trigger h@[k]]
                    0 <= k < days@.len() ==> h@[k].weekday@ == weekday_text(days@[k] as int)->0
                        && h@[k].month_day@ == month_day_text(days@[k] as int)->0
            },
            !headers_formattable(days@) ==> headers matches Err(KtError::TimeFormat),
    {
        let mut headers: Vec<DayHeader> = Vec::new();
        let mut k: usize = 0;
        while k < days.len()
            invariant
                k <= days@.len(),
                forall|j: int| 0 <= j < days@.len() ==> in_time_range(#[trigger] days@[j] as int),
                headers@.len() == k,
                forall|j: int|
                    0 <= j < k ==> weekday_text(#[trigger] days@[j] as int) is Some
                        && month_day_text(days@[j] as int) is Some,
                forall|j: int|
                    #![trigger headers@[j]]
                    0 <= j < k ==> headers@[j].weekday@ == weekday_text(days@[j] as int)->0
                        && headers@[j].month_day@ == month_day_text(days@[j] as int)->0,
            decreases days@.len() - k,
        {
            let d = days[k];
            let weekday = match format_time(d, 0, "[weekday repr:short]") {
                Some(t) => t,
                None => return Err(KtError::TimeFormat),
            };
            let month_day = match format_time(d, 0, "[month]/[day]") {
                Some(t) => t,
                None => return Err(KtError::TimeFormat),
            };
            headers.push(DayHeader { weekday, month_day });
            k = k + 1;
        }
        Ok(headers)
    }

    /// The line naming the running task and when it started, as local time under `offset`;
    /// `None` when its start is not a valid instant, `TimeFormat` when it cannot be formatted.
    pub fn current_line(current: &CurrentTask, offset: i32) -> (line: Result<
        Option<String>,
        KtError,
    >)
        requires
            valid_offset(offset as int),
            in_time_range(current.start as int) ==> in_time_range(current.start + offset),
        ensures
            !current_line_formattable(current@, offset as int) ==> line matches Err(
                KtError::TimeFormat,
            ),
            current_line_formattable(current@, offset as int) ==> match current_line_text(
                current@,
                offset as int,
            ) {
                Some(l) => line matches Ok(Some(x)) && x@ == l,
                None => line matches Ok(None),
            },
    {
        if !timestamp_in_range(current.start) {
            return Ok(None);
        }
        let started = match format_time(
            current.start,
            offset,
            "[year]-[month]-[day] [hour]:[minute]:[second]",
        ) {
            Some(t) => t,
            None => return Err(KtError::TimeFormat),
        };
        let mut s = String::new();
        s.append(" current: ");
        s.append(current.task.as_str());
        s.append(" (started ");
        s.append(started.as_str());
        s.append(")");
        Ok(Some(s))
    }

    /// Builds what `kt log` shows for the clock reading `now` (Unix seconds) under the local
    /// UTC offset `offset` (see [`log_result_at`]).
    pub fn execute_at(&self, store: &Store, offset: i32, now: i64) -> (res: Result<
        LogOutput,
        KtError,
    >)
        requires
            valid_offset(offset as int),
            window_length(*self) >= 1,
        ensures
            log_result_at(*self, store@, offset as int, now as int, res),
    {
        if !self.window_fits(now, offset) {
            return Err(KtError::LogOutOfRange);
        }
        let day_range = self.day_range_at(now, offset);
        let ghost days = window_days_at(*self, now as int, offset as int);
        let ghost start = window_start(*self, now as int, offset as int);
        assert(day_range.days@ =~= days);
        let current = match store.get_current_task() {
            Ok(c) => c,
            Err(e) => return Err(e),
        };
        let ghost cur = running(store@);
        let cur_ref = current.as_ref();
        assert(current_view(cur_ref) == cur);
        let all_events = store.fetch_events();
        if !Self::events_viewable_check(&all_events, offset) {
            return Err(KtError::LogOutOfRange);
        }
        let first_day = day_range.days[0];
        let intervals = match Self::filter_events_in_range(&all_events, first_day, offset) {
            Ok(v) => v,
            Err(e) => return Err(e),
        };
        let ghost kept = kept_intervals(store@.timelog, start, offset as int);
        assert(interval_views(intervals@) == kept);
        if self.raw {
            if !Self::raw_showable_check(&intervals, offset) {
                return Err(KtError::LogOutOfRange);
            }
            let lines = match Self::raw_lines(&intervals, offset) {
                Ok(v) => v,
                Err(e) => return Err(e),
            };
            assert forall|i: int| 0 <= i < kept.len() implies #[trigger] lines@[i]@
                == raw_line_text(kept[i], offset as int)->0 by {
                assert(kept[i] == intervals@[i]@);
            }
            return Ok(LogOutput::Raw(lines));
        }
        if self.json {
            return Ok(LogOutput::Json(intervals));
        }
        if intervals.len() == 0 && current.is_none() {
            return Ok(LogOutput::Empty);
        }
        if !Self::window_days_check(&day_range.days) || intervals.len() as u64 >= 100_000_000_000_000u64
            || !Self::intervals_fit_check(&intervals, offset, &day_range.days) {
            return Err(KtError::LogOutOfRange);
        }
        let current_ok = match &current {
            Some(c) => {
                if timestamp_in_range(c.start) {
                    let local_start = c.start + offset as i64;
                    let local_end = now + offset as i64;
                    TIME_MIN_TS <= local_start && local_start <= TIME_MAX_TS && fits_window_check(
                        local_start,
                        local_end,
                        &day_range.days,
                    )
                } else {
                    true
                }
            },
            None => true,
        };
        if !current_ok {
            return Err(KtError::LogOutOfRange);
        }
        assert(table_fits(kept, cur, offset as int, now as int, days));
        let table = Self::build_table_at(&intervals, cur_ref, &day_range, now);
        let ghost map = table_of(kept, cur, offset as int, now as int, start, days.len() as int);
        assert(rows_view(table.day_durations_by_task@) == map);
        if table.day_durations_by_task.len() == 0 {
            assert(rows_view(table.day_durations_by_task@) =~= Map::<Seq<char>, Seq<i64>>::empty());
            return Ok(LogOutput::Empty);
        }
        proof {
            let rows = table.day_durations_by_task@;
            assert(rows_have(rows, rows[0].task@));
            assert(map.dom().contains(rows[0].task@));
            assert(map != Map::<Seq<char>, Seq<i64>>::empty());
        }
        let n = day_range.days.len();
        if !Self::totals_fit_check(&table, n) {
            assert(rows_sorted(table.day_durations_by_task@) && rows_view(
                table.day_durations_by_task@,
            ) == map && !totals_fit(table.day_durations_by_task@, n as int));
            return Err(KtError::LogOutOfRange);
        }
        let summary = Self::summarize_table(&table, n);
        let headers = match Self::day_headers(&day_range.days) {
            Ok(h) => h,
            Err(e) => return Err(e),
        };
        let current_line = match &current {
            Some(c) => match Self::current_line(c, offset) {
                Ok(l) => l,
                Err(e) => return Err(e),
            },
            None => None,
        };
        let t = LogTable { headers, table, summary, current_line };
        assert(table_shows(t, map, cur, offset as int, start, n as int));
        Ok(LogOutput::Table(t))
    }

    /// Builds what `kt log` shows, reading the clock now (see [`log_result_at`]).
    pub fn execute(self, store: &Store, offset: i32) -> (res: Result<LogOutput, KtError>)
        requires
            valid_offset(offset as int),
            window_length(self) >= 1,
        ensures
            exists|now: int| in_time_range(now) && log_result_at(self, store@, offset as int, now, res),
    {
        let now = now_utc_timestamp();
        self.execute_at(store, offset, now)
    }
}

} // verus!

verus! {

/// Classic rounding gives a multiple of the step within half a step of the original.
pub proof fn law_rounding_nearest(d: int, step: int)
    requires
        step > 0,
    ensures
        round_classic(d, step) % step == 0,
        2 * (round_classic(d, step) - d) <= step,
        2 * (d - round_classic(d, step)) <= step,
{
    let h = step / 2;
    let a = if d >= 0 { d } else { -d };
    let q = (a + h) / step;
    assert(q * step <= a + h < q * step + step) by (nonlinear_arith)
        requires
            q == (a + h) / step,
            step > 0,
            a + h >= 0,
    ;
    vstd::arithmetic::div_mod::lemma_mod_multiples_basic(q, step);
    vstd::arithmetic::div_mod::lemma_mod_multiples_basic(-q, step);
    assert((-q) * step == -(q * step)) by (nonlinear_arith);
    assert(2 * h <= step <= 2 * h + 1);
}

/// A duration that is a whole number of steps is shown unrounded: intervals between times of
/// the `add` picker (three minutes apart) keep their exact length in the log table.
pub proof fn law_whole_steps_not_rounded(k: int, step: int)
    requires
        step > 0,
    ensures
        round_classic(k * step, step) == k * step,
{
    let h = step / 2;
    if k >= 0 {
        assert((k * step + h) / step == k) by (nonlinear_arith)
            requires
                k >= 0,
                step > 0,
                0 <= h < step,
        ;
        assert(k * step >= 0) by (nonlinear_arith)
            requires
                k >= 0,
                step > 0,
        ;
    } else {
        assert((-(k * step) + h) / step == -k) by (nonlinear_arith)
            requires
                k < 0,
                step > 0,
                0 <= h < step,
        ;
        assert(k * step < 0 && (-k) * step == -(k * step)) by (nonlinear_arith)
            requires
                k < 0,
                step > 0,
        ;
    }
}

} // verus!
