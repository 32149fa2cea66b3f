//! Instants and days as plain integers.
//!
//! An instant is a count of whole seconds since the Unix epoch (UTC). A local wall-clock time
//! under a fixed UTC offset is the instant plus the offset in seconds; a local day is named by
//! the wall-clock time of its midnight. The valid range is the one of the `time` crate without
//! its `large-dates` feature: years -9999 through 9999.

use vstd::prelude::*;

verus! {

/// Seconds in a day.
pub const SECONDS_PER_DAY: i64 = 86400;

/// The earliest supported instant: -9999-01-01 00:00:00 UTC.
pub const TIME_MIN_TS: i64 = -377705116800;

/// The latest supported instant: 9999-12-31 23:59:59 UTC.
pub const TIME_MAX_TS: i64 = 253402300799;

/// `t` (an instant, or a wall-clock time) lies within the supported range.
pub open spec fn in_time_range(t: int) -> bool {
    TIME_MIN_TS <= t <= TIME_MAX_TS
}

/// The midnight that starts the day of wall-clock time `t`.
pub open spec fn day_floor(t: int) -> int {
    t - t % 86400
}

/// The smaller of two integers.
pub open spec fn imin(a: int, b: int) -> int {
    if a <= b {
        a
    } else {
        b
    }
}

/// The larger of two integers.
pub open spec fn imax(a: int, b: int) -> int {
    if a >= b {
        a
    } else {
        b
    }
}

/// Truncates a wall-clock time to the midnight that starts its day.
pub fn truncate_to_day(t: i64) -> (d: i64)
    requires
        in_time_range(t as int),
    ensures
        d == day_floor(t as int),
        d % 86400 == 0,
        d <= t < d + 86400,
        in_time_range(d as int),
{
    if t >= 0 {
        let r: i64 = ((t as u64) % 86400) as i64;
        t - r
    } else {
        let a: u64 = (-(t + 1)) as u64;
        let q: u64 = a / 86400;
        let r: u64 = a % 86400;
        assert(a == 86400 * q + r) by (nonlinear_arith)
            requires
                q == a / 86400,
                r == a % 86400,
        ;
        let d: i64 = -((q as i64) * 86400) - 86400;
        assert(d == 86400 * (-(q as int) - 1)) by (nonlinear_arith)
            requires
                d == -((q as int) * 86400) - 86400,
        ;
        assert(t == d + (86399 - (r as int)));
        assert(t % 86400 == 86399 - (r as int)) by (nonlinear_arith)
            requires
                t == 86400 * (-(q as int) - 1) + (86399 - (r as int)),
                0 <= 86399 - (r as int) < 86400,
        ;
        d
    }
}

/// Division truncating towards zero, as Rust's `/` on integers.
pub open spec fn tdiv(a: int, b: int) -> int {
    if a >= 0 {
        a / b
    } else {
        -((-a) / b)
    }
}

/// The remainder of truncating division, as Rust's `%` on integers (it has the sign of `a`).
pub open spec fn trem(a: int, b: int) -> int {
    a - tdiv(a, b) * b
}

/// Divides by a positive number, truncating towards zero.
pub fn div_trunc(a: i64, b: i64) -> (q: i64)
    requires
        b > 0,
    ensures
        q == tdiv(a as int, b as int),
{
    if a >= 0 {
        a / b
    } else if a == i64::MIN {
        let q: u64 = 9223372036854775808u64 / (b as u64);
        assert(q <= 9223372036854775808u64);
        if q == 9223372036854775808u64 {
            i64::MIN
        } else {
            -(q as i64)
        }
    } else {
        -((-a) / b)
    }
}

/// The remainder of dividing by a positive number, truncating towards zero.
pub fn rem_trunc(a: i64, b: i64) -> (r: i64)
    requires
        b > 0,
    ensures
        r == trem(a as int, b as int),
{
    let q = div_trunc(a, b);
    assert(-b < trem(a as int, b as int) < b) by (nonlinear_arith)
        requires
            b > 0,
            q == tdiv(a as int, b as int),
    ;
    assert(trem(a as int, b as int) == a - q * b);
    let p: i128 = (q as i128) * (b as i128);
    (a as i128 - p) as i64
}

} // verus!
