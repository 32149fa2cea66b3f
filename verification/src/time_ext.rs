//! An instant with sub-second precision, as `chrono`'s `DateTime<Utc>` reports the clock, and
//! the truncation helper the commands apply to it.

use vstd::prelude::*;

verus! {

/// An instant: whole Unix seconds plus nanoseconds within the second (up to two seconds' worth
/// during a leap second, as in `chrono`).
pub struct UtcDateTime {
    pub seconds: i64,
    pub nanos: u32,
}

/// Adds truncation helpers to date-time values.
pub trait DateTimeExt: Sized {
    /// Strips sub-second precision, returning a value with nanoseconds set to zero.
    fn truncate_to_second(self) -> Self;
}

impl DateTimeExt for UtcDateTime {
    fn truncate_to_second(self) -> (t: Self)
        ensures
            t.seconds == self.seconds,
            t.nanos == 0,
    {
        UtcDateTime { seconds: self.seconds, nanos: 0 }
    }
}

} // verus!
