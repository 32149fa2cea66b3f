//! Calendar dates and local wall-clock readings, as plain integers.
//!
//! Dates follow the proleptic Gregorian calendar over the years `chrono` supports. A date is
//! written the way `chrono` writes a `NaiveDate`: `YYYY-MM-DD`, with the year zero-padded to four
//! digits, and with an explicit sign for years outside 0 through 9999.

use vstd::prelude::*;
use crate::text::{decimal, pad2, push_char, push_decimal, push_pad2};

verus! {

/// The earliest year `chrono` represents.
pub const MIN_YEAR: i32 = -262143;

/// The latest year `chrono` represents.
pub const MAX_YEAR: i32 = 262142;

/// A calendar date.
#[derive(Clone, Copy, Debug, PartialEq, Eq, Structural)]
pub struct Date {
    pub year: i32,
    /// 1 through 12.
    pub month: u32,
    /// 1 through the length of the month.
    pub day: u32,
}

/// A reading of the local wall clock, to the minute.
#[derive(Clone, Copy, Debug, PartialEq, Eq, Structural)]
pub struct LocalNow {
    pub date: Date,
    /// 0 through 23.
    pub hour: u32,
    /// 0 through 59.
    pub minute: u32,
}

/// Leap years of the proleptic Gregorian calendar (year 0 is one).
pub open spec fn is_leap_year(y: int) -> bool {
    (y % 4 == 0 && y % 100 != 0) || y % 400 == 0
}

/// The number of days of month `m` (1 through 12) of year `y`.
pub open spec fn days_in_month(y: int, m: int) -> int {
    if m == 2 {
        if is_leap_year(y) {
            29
        } else {
            28
        }
    } else if m == 4 || m == 6 || m == 9 || m == 11 {
        30
    } else {
        31
    }
}

/// Year `y`, month `m`, day `d` name a date `chrono` can represent.
pub open spec fn valid_ymd(y: int, m: int, d: int) -> bool {
    &&& MIN_YEAR <= y <= MAX_YEAR
    &&& 1 <= m <= 12
    &&& 1 <= d <= days_in_month(y, m)
}

/// `d` is a date `chrono` can represent.
pub open spec fn valid_date(d: Date) -> bool {
    valid_ymd(d.year as int, d.month as int, d.day as int)
}

/// `now` is a possible reading of the clock.
pub open spec fn valid_now(now: LocalNow) -> bool {
    valid_date(now.date) && now.hour < 24 && now.minute < 60
}

/// The date `(y, m, d)`.
pub open spec fn ymd_date(p: (i32, u32, u32)) -> Date {
    Date { year: p.0, month: p.1, day: p.2 }
}

/// The number of days from 1970-01-01 to year `y`, month `m`, day `d` of the proleptic
/// Gregorian calendar (negative before it): years are counted from March, so that the leap
/// day ends a year, in 400-year eras of 146097 days.
pub open spec fn days_from_civil(y: int, m: int, d: int) -> int {
    let yy = if m <= 2 {
        y - 1
    } else {
        y
    };
    let era = yy / 400;
    let yoe = yy - era * 400;
    let mp = if m > 2 {
        m - 3
    } else {
        m + 9
    };
    let doy = (153 * mp + 2) / 5 + d - 1;
    let doe = yoe * 365 + yoe / 4 - yoe / 100 + doy;
    era * 146097 + doe - 719468
}

/// The wall-clock time of `date` at `hour`:`minute`:00, counted in seconds as if it were UTC.
pub open spec fn wall_seconds(date: Date, hour: int, minute: int) -> int {
    days_from_civil(date.year as int, date.month as int, date.day as int) * 86400 + hour * 3600
        + minute * 60
}

/// `t` is an instant at which some UTC offset of less than a day shows the wall-clock time
/// `date` `hour`:`minute`:00 (that offset is the wall-clock time less `t`).
pub open spec fn local_instant(t: int, date: Date, hour: int, minute: int) -> bool {
    -86400 < wall_seconds(date, hour, minute) - t < 86400
}

/// Date `a` comes strictly after date `b`.
pub open spec fn date_after(a: Date, b: Date) -> bool {
    ||| a.year > b.year
    ||| a.year == b.year && a.month > b.month
    ||| a.year == b.year && a.month == b.month && a.day > b.day
}

/// The minutes since midnight of the clock reading `now`.
pub open spec fn now_minutes(now: LocalNow) -> int {
    now.hour * 60 + now.minute
}

/// `n` in decimal, zero-padded to at least four digits.
pub open spec fn pad4(n: nat) -> Seq<char> {
    if n < 10 {
        seq!['0', '0', '0'] + decimal(n)
    } else if n < 100 {
        seq!['0', '0'] + decimal(n)
    } else if n < 1000 {
        seq!['0'] + decimal(n)
    } else {
        decimal(n)
    }
}

/// The text of a year: four digits for years 0 through 9999, otherwise a sign followed by at
/// least four digits.
pub open spec fn year_text(y: int) -> Seq<char> {
    if 0 <= y <= 9999 {
        pad4(y as nat)
    } else if y < 0 {
        seq!['-'] + pad4((-y) as nat)
    } else {
        seq!['+'] + pad4(y as nat)
    }
}

/// The text of a date: `YYYY-MM-DD`.
pub open spec fn date_text(d: Date) -> Seq<char> {
    year_text(d.year as int) + seq!['-'] + pad2(d.month as int) + seq!['-'] + pad2(d.day as int)
}

/// Appends `n` zero-padded to four digits.
fn push_pad4(s: &mut String, n: u64)
    ensures
        final(s)@ == old(s)@ + pad4(n as nat),
{
    if n < 10 {
        push_char(s, '0');
        push_char(s, '0');
        push_char(s, '0');
    } else if n < 100 {
        push_char(s, '0');
        push_char(s, '0');
    } else if n < 1000 {
        push_char(s, '0');
    }
    push_decimal(s, n);
}

impl Date {
    /// Whether `self` comes strictly after `other`.
    pub fn is_after(&self, other: &Date) -> (after: bool)
        ensures
            after == date_after(*self, *other),
    {
        self.year > other.year || (self.year == other.year && self.month > other.month) || (
        self.year == other.year && self.month == other.month && self.day > other.day)
    }

    /// The date as text (see [`date_text`]).
    pub fn text(&self) -> (s: String)
        ensures
            s@ == date_text(*self),
    {
        let mut s = String::new();
        let y = self.year as i64;
        if 0 <= y && y <= 9999 {
            push_pad4(&mut s, y as u64);
        } else if y < 0 {
            push_char(&mut s, '-');
            push_pad4(&mut s, (-y) as u64);
        } else {
            push_char(&mut s, '+');
            push_pad4(&mut s, y as u64);
        }
        push_char(&mut s, '-');
        push_pad2(&mut s, self.month as i64);
        push_char(&mut s, '-');
        push_pad2(&mut s, self.day as i64);
        proof {
            assert(s@ =~= date_text(*self));
        }
        s
    }
}

/// Dates are ordered as in the calendar: for dates with a month of 1 through 12 and a day of 1
/// through 31, one comes after another exactly when its `YYYYMMDD` number
/// (`year * 10000 + month * 100 + day`) is larger; so an earlier month of the same year is
/// never after, whatever the days of the month.
pub proof fn law_date_order_is_calendar_order(a: Date, b: Date)
    requires
        1 <= a.month <= 12,
        1 <= b.month <= 12,
        1 <= a.day <= 31,
        1 <= b.day <= 31,
    ensures
        date_after(a, b) <==> a.year * 10000 + a.month * 100 + a.day > b.year * 10000 + b.month
            * 100 + b.day,
{
}

} // verus!
