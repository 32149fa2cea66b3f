//! The `kt add` subcommand: manually inserting a time interval for a task.
//!
//! Used to amend missed or incorrectly tracked sessions. The command asks for a task, a start
//! date and time and a stop date and time, then appends the interval to the timelog. Unless
//! `--future` is given, dates and times after "now" are refused so that accidental future entries
//! cannot be created.

use vstd::prelude::*;
use crate::calendar::{
    date_after, law_date_order_is_calendar_order, local_instant, now_minutes, valid_date, valid_now, wall_seconds, ymd_date, Date,
    LocalNow,
};
use crate::cmd::punch_in::contains_name;
use crate::error::KtError;
use crate::store::{Store, StoreView, TimeInterval};
use crate::text::{
    all_digits, colon_from, decimal, digit_char, digits_value, hm_text, pad2, push_char, push_pad2,
    split_hm,
};
use crate::wrappers::{
    chrono_date_parse, chrono_time_parse, in_chrono_range, local_to_utc, parse_date_with,
    parse_time_with, uuid_v4_text,
};

verus! {

/// Arguments of the `kt add` subcommand.
#[derive(Debug)]
pub struct CommandAdd {
    /// The task to add a time interval for (must have been created with `new`).
    pub task: Option<String>,
    /// Allow dates and times in the future (e.g. for pre-entering PTO or holidays).
    pub future: bool,
    /// Start date in YYYY-MM-DD format.
    pub start_date: Option<String>,
    /// Start time in HH:MM format.
    pub start_time: Option<String>,
    /// Stop date in YYYY-MM-DD format.
    pub stop_date: Option<String>,
    /// Stop time in HH:MM format.
    pub stop_time: Option<String>,
}

/// Minutes in a day.
pub const MINUTES_PER_DAY: u16 = 1440;

/// The granularity of the interactive time picker, in minutes.
pub const PICKER_STEP: u16 = 3;

/// The layout date flags are read with (`chrono`'s `YYYY-MM-DD`).
pub open spec fn date_flag_layout() -> Seq<char> {
    "%Y-%m-%d"@
}

/// The layout time flags are read with (`chrono`'s `HH:MM`).
pub open spec fn time_flag_layout() -> Seq<char> {
    "%H:%M"@
}

/// The `HH:MM` text of the time `m` minutes after midnight.
pub open spec fn hhmm(m: int) -> Seq<char> {
    pad2(m / 60) + seq![':'] + pad2(m % 60)
}

/// How many picker entries (multiples of the step within a day) are at or before `cap`.
pub open spec fn time_option_count(cap: int) -> int {
    if cap >= 1437 {
        480
    } else {
        cap / 3 + 1
    }
}

impl CommandAdd {
    /// Builds the list of selectable times `00:00`, `00:03`, ... up to and including
    /// `cap_minutes` (and never past `23:57`).
    pub fn build_time_options(cap_minutes: u16) -> (times: Vec<String>)
        ensures
            times@.len() == time_option_count(cap_minutes as int),
            forall|i: int| 0 <= i < times@.len() ==> #[trigger] times@[i]@ == hhmm(3 * i),
    {
        let mut times: Vec<String> = Vec::new();
        let mut m: u16 = 0;
        while m < MINUTES_PER_DAY
            invariant
                m % 3 == 0,
                m <= 1440,
                m <= cap_minutes + 3,
                times@.len() == m / 3,
                forall|i: int| 0 <= i < times@.len() ==> #[trigger] times@[i]@ == hhmm(3 * i),
            ensures
                times@.len() == time_option_count(cap_minutes as int),
                forall|i: int| 0 <= i < times@.len() ==> #[trigger] times@[i]@ == hhmm(3 * i),
            decreases 1440 - m,
        {
            if m > cap_minutes {
                break;
            }
            let mut s = String::new();
            push_pad2(&mut s, (m / 60) as i64);
            push_char(&mut s, ':');
            push_pad2(&mut s, (m % 60) as i64);
            assert(s@ == hhmm(m as int));
            times.push(s);
            m = m + PICKER_STEP;
        }
        times
    }
}

/// The text `HH:MM` of hours `h` and minutes `m`, each zero-padded to two digits.
pub open spec fn clock_text(h: int, m: int) -> Seq<char> {
    pad2(h) + seq![':'] + pad2(m)
}

/// Minutes since midnight of the hours and minutes `p`.
pub open spec fn hm_minutes(p: (u32, u32)) -> int {
    p.0 * 60 + p.1
}

/// A date flag is accepted: `chrono` read a date from it (`parsed`), and that date is not after
/// `today` unless future dates are allowed.
pub open spec fn date_accepted(
    parsed: Option<(i32, u32, u32)>,
    today: Date,
    allow_future: bool,
) -> bool {
    parsed matches Some(p) && (allow_future || !date_after(ymd_date(p), today))
}

/// `e` is the error refusing the date flag `flag` given as `input`: malformed when `chrono` read
/// no date from it, otherwise in the future.
pub open spec fn date_refusal(
    parsed: Option<(i32, u32, u32)>,
    input: Seq<char>,
    flag: Seq<char>,
    e: KtError,
) -> bool {
    match parsed {
        None => e matches KtError::InvalidDate { flag: f, input: i } && f@ == flag && i@ == input,
        Some(_) => e matches KtError::InFuture { flag: f, input: i } && f@ == flag && i@ == input,
    }
}

/// What checking the date flag `flag`, given as `input` and read by `chrono` as `parsed`, gives.
pub open spec fn date_flag_result(
    parsed: Option<(i32, u32, u32)>,
    input: Seq<char>,
    flag: Seq<char>,
    today: Date,
    allow_future: bool,
    res: Result<Date, KtError>,
) -> bool {
    if date_accepted(parsed, today, allow_future) {
        res == Ok::<Date, KtError>(ymd_date(parsed->0))
    } else {
        res matches Err(e) && date_refusal(parsed, input, flag, e)
    }
}

/// A time flag is accepted: `chrono` read a time of day from it (`parsed`), and unless future
/// times are allowed, it is not after the current minute when `date` is today.
pub open spec fn time_accepted(
    parsed: Option<(u32, u32)>,
    date: Date,
    now: LocalNow,
    allow_future: bool,
) -> bool {
    parsed matches Some(p) && (allow_future || date != now.date || hm_minutes(p) <= now_minutes(
        now,
    ))
}

/// `e` is the error refusing the time flag `flag` given as `input`: malformed when `chrono`
/// read no time from it, otherwise in the future.
pub open spec fn time_refusal(
    parsed: Option<(u32, u32)>,
    input: Seq<char>,
    flag: Seq<char>,
    e: KtError,
) -> bool {
    match parsed {
        None => e matches KtError::InvalidTimeFlag { flag: f, input: i } && f@ == flag && i@
            == input,
        Some(_) => e matches KtError::InFuture { flag: f, input: i } && f@ == flag && i@ == input,
    }
}

/// What checking the time flag `flag`, given as `input` and read by `chrono` as `parsed`,
/// gives: the time normalised to `HH:MM`, or the refusal.
pub open spec fn time_flag_result(
    parsed: Option<(u32, u32)>,
    input: Seq<char>,
    flag: Seq<char>,
    date: Date,
    now: LocalNow,
    allow_future: bool,
    res: Result<String, KtError>,
) -> bool {
    if time_accepted(parsed, date, now, allow_future) {
        let p = parsed->0;
        res matches Ok(s) && s@ == clock_text(p.0 as int, p.1 as int)
    } else {
        res matches Err(e) && time_refusal(parsed, input, flag, e)
    }
}

/// The latest time the picker offers on `date`, in minutes since midnight: the current minute
/// when `date` is today and future times are not allowed, the end of the day otherwise; then
/// snapped down to the picker's step.
pub open spec fn picker_cap(date: Date, now: LocalNow, allow_future: bool) -> int {
    let raw = if !allow_future && date == now.date {
        now_minutes(now)
    } else {
        1439
    };
    raw / 3 * 3
}

/// A value the `add` command still needs from the user.
#[derive(Debug)]
pub enum AddPrompt {
    /// The task, one of the task set.
    Task,
    /// The start date; `latest` is the latest date offered (`None`: no limit).
    StartDate { latest: Option<Date> },
    /// The start time, one of `build_time_options(cap)`.
    StartTime { cap: u16 },
    /// The stop date, offered starting at `start`; `latest` as for the start date.
    StopDate { start: Date, latest: Option<Date> },
    /// The stop time, one of `build_time_options(cap)`.
    StopTime { cap: u16 },
}

/// Where the `add` command stands after a run.
#[derive(Debug)]
pub enum AddStep {
    /// A value is missing: the caller asks the user, fills it in, and runs the command again.
    Ask(AddPrompt),
    /// The interval was appended to the timelog; the start and stop times as `HH:MM`.
    Added { interval: TimeInterval, start_time: String, stop_time: String },
}

/// The latest date the date pickers offer.
pub open spec fn latest_date(now: LocalNow, allow_future: bool) -> Option<Date> {
    if allow_future {
        None
    } else {
        Some(now.date)
    }
}

/// The last step of `add`: the local start and stop become instants in the machine's time zone
/// (which fails when the zone skips or repeats that local time, the start being tried first),
/// and the interval between them is appended when the stop instant is after the start instant.
pub open spec fn finish_outcome(
    old_store: StoreView,
    new_store: StoreView,
    task: Seq<char>,
    start_date: Date,
    start: (u32, u32),
    stop_date: Date,
    stop: (u32, u32),
    res: Result<AddStep, KtError>,
) -> bool {
    let start_text = clock_text(start.0 as int, start.1 as int);
    let stop_text = clock_text(stop.0 as int, stop.1 as int);
    ||| res matches Err(KtError::AmbiguousLocalTime { date, time }) && date == start_date && time@
        == start_text
    ||| {
        &&& res matches Err(KtError::AmbiguousLocalTime { date, time })
        &&& date == stop_date
        &&& time@ == stop_text
        &&& exists|s: int|
            #![trigger local_instant(s, start_date, start.0 as int, start.1 as int)]
            in_chrono_range(s) && local_instant(s, start_date, start.0 as int, start.1 as int)
    }
    ||| exists|s: int, e: int|
        #![trigger local_instant(s, start_date, start.0 as int, start.1 as int), local_instant(e, stop_date, stop.0 as int, stop.1 as int)]
        {
            &&& in_chrono_range(s)
            &&& local_instant(s, start_date, start.0 as int, start.1 as int)
            &&& in_chrono_range(e)
            &&& local_instant(e, stop_date, stop.0 as int, stop.1 as int)
            &&& if s < e {
                &&& res matches Ok(AddStep::Added { interval, start_time, stop_time })
                &&& start_time@ == start_text
                &&& stop_time@ == stop_text
                &&& interval.task@ == task
                &&& interval.start == s
                &&& interval.end == e
                &&& interval.updated_at is None
                &&& uuid_v4_text(interval.id@)
                &&& new_store == old_store.with_interval(interval@)
            } else {
                res matches Err(KtError::StopNotAfterStart)
            }
        }
}

/// `add` once the start date and time and the stop date are accepted.
pub open spec fn stop_time_outcome(
    old_store: StoreView,
    new_store: StoreView,
    task: Seq<char>,
    start_date: Date,
    start: (u32, u32),
    stop_date: Date,
    cmd: CommandAdd,
    now: LocalNow,
    res: Result<AddStep, KtError>,
) -> bool {
    match cmd.stop_time {
        None => res matches Ok(AddStep::Ask(AddPrompt::StopTime { cap })) && cap == picker_cap(
            stop_date,
            now,
            cmd.future,
        ),
        Some(pt) => {
            let q = chrono_time_parse(pt@, time_flag_layout());
            if !time_accepted(q, stop_date, now, cmd.future) {
                res matches Err(e) && time_refusal(q, pt@, "--stop-time"@, e)
            } else {
                finish_outcome(old_store, new_store, task, start_date, start, stop_date, q->0, res)
            }
        },
    }
}

/// `add` once the start date and time are accepted.
pub open spec fn stop_date_outcome(
    old_store: StoreView,
    new_store: StoreView,
    task: Seq<char>,
    start_date: Date,
    start: (u32, u32),
    cmd: CommandAdd,
    now: LocalNow,
    res: Result<AddStep, KtError>,
) -> bool {
    match cmd.stop_date {
        None => res matches Ok(AddStep::Ask(AddPrompt::StopDate { start: s, latest })) && s
            == start_date && latest == latest_date(now, cmd.future),
        Some(pd) => {
            let p = chrono_date_parse(pd@, date_flag_layout());
            if !date_accepted(p, now.date, cmd.future) {
                res matches Err(e) && date_refusal(p, pd@, "--stop-date"@, e)
            } else {
                stop_time_outcome(
                    old_store,
                    new_store,
                    task,
                    start_date,
                    start,
                    ymd_date(p->0),
                    cmd,
                    now,
                    res,
                )
            }
        },
    }
}

/// `add` once the start date is accepted.
pub open spec fn start_time_outcome(
    old_store: StoreView,
    new_store: StoreView,
    task: Seq<char>,
    start_date: Date,
    cmd: CommandAdd,
    now: LocalNow,
    res: Result<AddStep, KtError>,
) -> bool {
    match cmd.start_time {
        None => res matches Ok(AddStep::Ask(AddPrompt::StartTime { cap })) && cap == picker_cap(
            start_date,
            now,
            cmd.future,
        ),
        Some(st) => {
            let q = chrono_time_parse(st@, time_flag_layout());
            if !time_accepted(q, start_date, now, cmd.future) {
                res matches Err(e) && time_refusal(q, st@, "--start-time"@, e)
            } else {
                stop_date_outcome(old_store, new_store, task, start_date, q->0, cmd, now, res)
            }
        },
    }
}

/// `add` once the task is accepted.
pub open spec fn start_date_outcome(
    old_store: StoreView,
    new_store: StoreView,
    task: Seq<char>,
    cmd: CommandAdd,
    now: LocalNow,
    res: Result<AddStep, KtError>,
) -> bool {
    match cmd.start_date {
        None => res matches Ok(AddStep::Ask(AddPrompt::StartDate { latest })) && latest
            == latest_date(now, cmd.future),
        Some(sd) => {
            let p = chrono_date_parse(sd@, date_flag_layout());
            if !date_accepted(p, now.date, cmd.future) {
                res matches Err(e) && date_refusal(p, sd@, "--start-date"@, e)
            } else {
                start_time_outcome(old_store, new_store, task, ymd_date(p->0), cmd, now, res)
            }
        },
    }
}

/// What one run of `add` does, given the command `cmd` and the clock reading `now`, when it
/// returns `res`. Only an added interval changes the store. In order: the task set must be
/// readable; the task is asked for when absent and must belong to the task set; the start date,
/// start time, stop date and stop time are each asked for when absent, and refused when `chrono`
/// cannot read them or, without `--future`, when they lie after `now`; finally the interval is
/// added (see [`finish_outcome`]).
pub open spec fn add_outcome(
    old_store: StoreView,
    new_store: StoreView,
    cmd: CommandAdd,
    now: LocalNow,
    res: Result<AddStep, KtError>,
) -> bool {
    &&& (!(res matches Ok(step) && step is Added) ==> new_store == old_store)
    &&& match old_store.tasks {
        Err(m) => res matches Err(KtError::MalformedTaskSet(e)) && e@ == m,
        Ok(tasks) => match cmd.task {
            None => res matches Ok(AddStep::Ask(AddPrompt::Task)),
            Some(task) => if !tasks.contains(task@) {
                res matches Err(KtError::InvalidTask(t)) && t@ == task@
            } else {
                start_date_outcome(old_store, new_store, task@, cmd, now, res)
            },
        },
    }
}

/// The two digits of `n` (below 100) as `pad2` writes them, read back.
proof fn lemma_pad2_reads_back(n: int)
    requires
        0 <= n < 100,
    ensures
        pad2(n).len() == 2,
        all_digits(pad2(n)),
        digits_value(pad2(n)) == n,
        pad2(n)[0] != '+',
        pad2(n)[0] != ':',
        pad2(n)[1] != ':',
{
    let s = pad2(n);
    if n < 10 {
        assert(s =~= seq!['0', digit_char(n)]);
    } else {
        assert(decimal((n / 10) as nat) == seq![digit_char(n / 10)]);
        assert(s == decimal((n / 10) as nat).push(digit_char(n % 10)));
        assert(s =~= seq![digit_char(n / 10), digit_char(n % 10)]);
    }
    let d0 = if n < 10 { 0 } else { n / 10 };
    assert(s[0] == digit_char(d0));
    assert(s[1] == digit_char(n % 10));
    assert((digit_char(d0) as u32) == 48 + d0);
    assert((digit_char(n % 10) as u32) == 48 + n % 10);
    assert(s.drop_last() =~= seq![s[0]]);
    assert(seq![s[0]].drop_last() =~= Seq::<char>::empty());
    assert(digits_value(Seq::<char>::empty()) == 0);
    assert(seq![s[0]].last() == s[0]);
    assert(digits_value(seq![s[0]]) == d0);
    assert(digits_value(s) == d0 * 10 + n % 10);
}

/// A time as `parse_time_flag` normalises it (`HH:MM`, see [`clock_text`]) reads back, as
/// `combine_date_time` reads times, as the same hours and minutes.
pub proof fn law_clock_text_reads_back(h: int, m: int)
    requires
        0 <= h < 100,
        0 <= m < 100,
    ensures
        hm_text(clock_text(h, m)) == Some((h as u32, m as u32)),
{
    let s = clock_text(h, m);
    lemma_pad2_reads_back(h);
    lemma_pad2_reads_back(m);
    assert(s.len() == 5);
    assert(s[0] == pad2(h)[0] && s[1] == pad2(h)[1] && s[2] == ':');
    assert(s[3] == pad2(m)[0] && s[4] == pad2(m)[1]);
    assert(colon_from(s, 2) == 2);
    assert(colon_from(s, 1) == 2);
    assert(colon_from(s, 0) == 2);
    assert(colon_from(s, 5) == 5);
    assert(colon_from(s, 4) == 5);
    assert(colon_from(s, 3) == 5);
    assert(s.subrange(0, 2) =~= pad2(h));
    assert(s.subrange(3, 5) =~= pad2(m));
}

impl CommandAdd {
    /// Judges a date flag once `chrono` has read it (`parsed`): refused when unreadable, or when
    /// it lies after `today` and future dates are not allowed.
    pub fn check_date(
        parsed: Option<(i32, u32, u32)>,
        input: &str,
        flag: &str,
        today: Date,
        allow_future: bool,
    ) -> (res: Result<Date, KtError>)
        ensures
            date_flag_result(parsed, input@, flag@, today, allow_future, res),
    {
        match parsed {
            None => Err(KtError::InvalidDate { flag: flag.to_string(), input: input.to_string() }),
            Some((y, m, d)) => {
                let date = Date { year: y, month: m, day: d };
                if !allow_future && date.is_after(&today) {
                    Err(KtError::InFuture { flag: flag.to_string(), input: input.to_string() })
                } else {
                    Ok(date)
                }
            },
        }
    }

    /// Parses the date flag `flag`, given as `s` in `YYYY-MM-DD` form, refusing a date after
    /// `today` unless `allow_future`.
    pub fn parse_date(s: &str, flag: &str, today: Date, allow_future: bool) -> (res: Result<
        Date,
        KtError,
    >)
        ensures
            date_flag_result(chrono_date_parse(s@, date_flag_layout()), s@, flag@, today, allow_future, res),
            res matches Ok(d) ==> valid_date(d),
    {
        let parsed = parse_date_with(s, "%Y-%m-%d");
        Self::check_date(parsed, s, flag, today, allow_future)
    }

    /// Judges a time flag once `chrono` has read it (`parsed`): refused when unreadable, or,
    /// unless `allow_future`, when `date` is today and the time is after the current minute.
    /// An accepted time comes back as `HH:MM`.
    pub fn check_time(
        parsed: Option<(u32, u32)>,
        input: &str,
        flag: &str,
        date: Date,
        now: LocalNow,
        allow_future: bool,
    ) -> (res: Result<String, KtError>)
        ensures
            time_flag_result(parsed, input@, flag@, date, now, allow_future, res),
    {
        match parsed {
            None => Err(
                KtError::InvalidTimeFlag { flag: flag.to_string(), input: input.to_string() },
            ),
            Some((h, m)) => {
                let provided: u64 = (h as u64) * 60 + (m as u64);
                let current: u64 = (now.hour as u64) * 60 + (now.minute as u64);
                if !allow_future && date == now.date && provided > current {
                    return Err(
                        KtError::InFuture { flag: flag.to_string(), input: input.to_string() },
                    );
                }
                let mut s = String::new();
                push_pad2(&mut s, h as i64);
                push_char(&mut s, ':');
                push_pad2(&mut s, m as i64);
                proof {
                    assert(s@ =~= clock_text(h as int, m as int));
                }
                Ok(s)
            },
        }
    }

    /// Parses the time flag `flag`, given as `s` in `HH:MM` form (any minute, not only those of
    /// the picker), refusing a time after `now` on today's date unless `allow_future`. Returns
    /// the time normalised to a zero-padded `HH:MM`.
    pub fn parse_time_flag(
        s: &str,
        flag: &str,
        date: Date,
        now: LocalNow,
        allow_future: bool,
    ) -> (res: Result<String, KtError>)
        ensures
            time_flag_result(chrono_time_parse(s@, time_flag_layout()), s@, flag@, date, now, allow_future, res),
            res is Ok ==> (chrono_time_parse(s@, time_flag_layout()) matches Some(p) && p.0 < 24 && p.1 < 60),
    {
        let parsed = parse_time_with(s, "%H:%M");
        Self::check_time(parsed, s, flag, date, now, allow_future)
    }

    /// The latest time the picker offers on `date` (see [`picker_cap`]).
    pub fn time_cap(date: Date, now: LocalNow, allow_future: bool) -> (cap: u16)
        requires
            valid_now(now),
        ensures
            cap == picker_cap(date, now, allow_future),
    {
        let raw: u16 = if !allow_future && date == now.date {
            (now.hour * 60 + now.minute) as u16
        } else {
            1439
        };
        raw / 3 * 3
    }

    /// Turns the local date `date` and time `time_str` (`H:M`) into an instant in the machine's
    /// time zone.
    pub fn combine_date_time(date: Date, time_str: &str) -> (res: Result<i64, KtError>)
        requires
            valid_date(date),
        ensures
            match hm_text(time_str@) {
                None => res matches Err(KtError::InvalidTimeFormat(t)) && t@ == time_str@,
                Some(p) => if p.0 >= 24 || p.1 >= 60 {
                    res matches Err(KtError::InvalidTime { hours, minutes }) && hours == p.0
                        && minutes == p.1
                } else {
                    ||| res matches Ok(t) && in_chrono_range(t as int) && local_instant(
                        t as int,
                        date,
                        p.0 as int,
                        p.1 as int,
                    )
                    ||| res matches Err(KtError::AmbiguousLocalTime { date: d, time: t }) && d
                        == date && t@ == time_str@
                },
            },
    {
        let (hours, minutes) = match split_hm(time_str) {
            Some(p) => p,
            None => return Err(KtError::InvalidTimeFormat(time_str.to_string())),
        };
        if hours >= 24 || minutes >= 60 {
            return Err(KtError::InvalidTime { hours, minutes });
        }
        match local_to_utc(date, hours, minutes) {
            Some((t, offset)) => {
                assert(local_instant(t as int, date, hours as int, minutes as int)) by {
                    assert(-86400 < offset < 86400 && t + offset == wall_seconds(
                        date,
                        hours as int,
                        minutes as int,
                    ));
                }
                Ok(t)
            },
            None => Err(KtError::AmbiguousLocalTime { date, time: time_str.to_string() }),
        }
    }

    /// Appends an interval of `task` from `start` to `stop` to the timelog; refused when `stop`
    /// is not after `start`.
    pub fn add_interval(store: &mut Store, task: &str, start: i64, stop: i64) -> (res: Result<
        TimeInterval,
        KtError,
    >)
        ensures
            stop <= start ==> (res matches Err(KtError::StopNotAfterStart) && final(store)@
                == old(store)@),
            start < stop ==> {
                &&& res matches Ok(iv)
                &&& iv.task@ == task@
                &&& iv.start == start
                &&& iv.end == stop
                &&& iv.updated_at is None
                &&& uuid_v4_text(iv.id@)
                &&& final(store)@ == old(store)@.with_interval(iv@)
            },
    {
        if stop <= start {
            return Err(KtError::StopNotAfterStart);
        }
        let interval = TimeInterval::new(task, start, stop);
        let recorded = interval.duplicate();
        store.append_interval(interval);
        Ok(recorded)
    }

    /// Runs the `add` command as far as the values at hand allow: checks the task, then the
    /// start date and time and the stop date and time, and appends the interval. When a value
    /// is missing it returns the prompt for it; the caller fills in the field and runs again.
    /// Every run reads the clock reading `now` the caller took once, so all checks share one
    /// boundary for "now".
    pub fn execute(&self, store: &mut Store, now: LocalNow) -> (res: Result<AddStep, KtError>)
        requires
            valid_now(now),
        ensures
            add_outcome(old(store)@, final(store)@, *self, now, res),
    {
        let tasks = match store.get_tasks() {
            Ok(t) => t,
            Err(e) => return Err(e),
        };
        let task = match &self.task {
            Some(t) => t,
            None => return Ok(AddStep::Ask(AddPrompt::Task)),
        };
        if !contains_name(&tasks, task.as_str()) {
            return Err(KtError::InvalidTask(task.clone()));
        }
        let latest = if self.future {
            None
        } else {
            Some(now.date)
        };
        let start_date = match &self.start_date {
            Some(s) => match Self::parse_date(s.as_str(), "--start-date", now.date, self.future) {
                Ok(d) => d,
                Err(e) => return Err(e),
            },
            None => return Ok(AddStep::Ask(AddPrompt::StartDate { latest })),
        };
        let start_time = match &self.start_time {
            Some(s) => match Self::parse_time_flag(
                s.as_str(),
                "--start-time",
                start_date,
                now,
                self.future,
            ) {
                Ok(t) => t,
                Err(e) => return Err(e),
            },
            None => {
                let cap = Self::time_cap(start_date, now, self.future);
                return Ok(AddStep::Ask(AddPrompt::StartTime { cap }));
            },
        };
        let stop_date = match &self.stop_date {
            Some(s) => match Self::parse_date(s.as_str(), "--stop-date", now.date, self.future) {
                Ok(d) => d,
                Err(e) => return Err(e),
            },
            None => return Ok(AddStep::Ask(AddPrompt::StopDate { start: start_date, latest })),
        };
        let stop_time = match &self.stop_time {
            Some(s) => match Self::parse_time_flag(
                s.as_str(),
                "--stop-time",
                stop_date,
                now,
                self.future,
            ) {
                Ok(t) => t,
                Err(e) => return Err(e),
            },
            None => {
                let cap = Self::time_cap(stop_date, now, self.future);
                return Ok(AddStep::Ask(AddPrompt::StopTime { cap }));
            },
        };
        proof {
            let p = chrono_time_parse(self.start_time->0@, time_flag_layout())->0;
            let q = chrono_time_parse(self.stop_time->0@, time_flag_layout())->0;
            law_clock_text_reads_back(p.0 as int, p.1 as int);
            law_clock_text_reads_back(q.0 as int, q.1 as int);
        }
        let start = match Self::combine_date_time(start_date, start_time.as_str()) {
            Ok(t) => t,
            Err(e) => return Err(e),
        };
        let stop = match Self::combine_date_time(stop_date, stop_time.as_str()) {
            Ok(t) => t,
            Err(e) => return Err(e),
        };
        proof {
            let p = chrono_time_parse(self.start_time->0@, time_flag_layout())->0;
            let q = chrono_time_parse(self.stop_time->0@, time_flag_layout())->0;
            assert(local_instant(start as int, start_date, p.0 as int, p.1 as int));
            assert(local_instant(stop as int, stop_date, q.0 as int, q.1 as int));
        }
        match Self::add_interval(store, task.as_str(), start, stop) {
            Ok(interval) => Ok(AddStep::Added { interval, start_time, stop_time }),
            Err(e) => Err(e),
        }
    }
}

} // verus!

verus! {

/// Without `--future`, the picker for today offers no time after the current minute: its cap
/// is the current minute snapped down to the picker's three-minute step, and the last option
/// (the options rise in steps of three minutes) lies at or before it.
pub proof fn law_picker_stops_at_now(now: LocalNow)
    requires
        valid_now(now),
    ensures
        ({
            let cap = picker_cap(now.date, now, false);
            &&& cap % 3 == 0
            &&& cap <= now_minutes(now) < cap + 3
            &&& 3 * (time_option_count(cap) - 1) <= now_minutes(now)
        }),
{
}

/// Without `--future`, an accepted date flag is never after today.
pub proof fn law_accepted_date_not_future(
    parsed: Option<(i32, u32, u32)>,
    input: Seq<char>,
    flag: Seq<char>,
    today: Date,
    res: Result<Date, KtError>,
)
    requires
        date_flag_result(parsed, input, flag, today, false, res),
        res is Ok,
    ensures
        !date_after(res->Ok_0, today),
{
}

/// Without `--future`, an accepted time flag on today's date is never after the current
/// minute.
pub proof fn law_accepted_time_not_future(
    parsed: Option<(u32, u32)>,
    input: Seq<char>,
    flag: Seq<char>,
    now: LocalNow,
    res: Result<String, KtError>,
)
    requires
        time_flag_result(parsed, input, flag, now.date, now, false, res),
        res is Ok,
    ensures
        parsed matches Some(p) && hm_minutes(p) <= now_minutes(now),
{
}

/// Without `--future`, every date `chrono` reads from a date flag that is not later in the
/// calendar than today (by its `YYYYMMDD` number) is accepted as that date.
pub proof fn law_past_dates_accepted(
    p: (i32, u32, u32),
    input: Seq<char>,
    flag: Seq<char>,
    today: Date,
    res: Result<Date, KtError>,
)
    requires
        date_flag_result(Some(p), input, flag, today, false, res),
        valid_date(ymd_date(p)),
        valid_date(today),
        p.0 * 10000 + p.1 * 100 + p.2 <= today.year * 10000 + today.month * 100 + today.day,
    ensures
        res == Ok::<Date, KtError>(Date { year: p.0, month: p.1, day: p.2 }),
{
    law_date_order_is_calendar_order(ymd_date(p), today);
}

} // verus!
