//! Time stamps: points in time that can be subtracted into time spans.

use vstd::prelude::*;

use crate::timespan::TimeSpan;

verus! {

/// A point in time, as a nanosecond count on the system clock. Its
/// mathematical value is that count.
#[derive(Clone, Copy, Debug, PartialEq, Eq, PartialOrd, Ord, Structural)]
pub struct TimeStamp {
    nanos: u64,
}

impl View for TimeStamp {
    type V = int;

    closed spec fn view(&self) -> int {
        self.nanos as int
    }
}

impl TimeStamp {
    /// The current point in time.
    ///
    /// Relies on `std::time::SystemTime::now` and
    /// `SystemTime::duration_since(UNIX_EPOCH)`: the wall clock, read as
    /// nanoseconds since the epoch. Nothing can be promised of the clock's
    /// value, so this has no contract; a clock before the epoch reads as
    /// zero.
    #[verifier::external_body]
    pub fn now() -> TimeStamp {
        let nanos = match std::time::SystemTime::now().duration_since(std::time::UNIX_EPOCH) {
            Ok(d) => d.as_nanos() as u64,
            Err(_) => 0,
        };
        TimeStamp { nanos }
    }

    /// A time stamp at exactly `nanos` nanoseconds, for embedders with their
    /// own clock.
    pub fn from_nanoseconds(nanos: u64) -> (r: TimeStamp)
        ensures
            r@ == nanos,
    {
        TimeStamp { nanos }
    }

    /// The nanosecond count of this stamp.
    pub fn as_nanoseconds(&self) -> (r: u64)
        ensures
            r == self@,
    {
        self.nanos
    }

    /// The span from `rhs` to `self`, saturated to the representable range.
    pub fn sub(self, rhs: TimeStamp) -> (r: TimeSpan)
        ensures
            i64::MIN <= self@ - rhs@ <= i64::MAX ==> r@ == self@ - rhs@,
            self@ - rhs@ > i64::MAX ==> r@ == i64::MAX,
            self@ - rhs@ < i64::MIN ==> r@ == i64::MIN,
    {
        let diff: i128 = self.nanos as i128 - rhs.nanos as i128;
        if diff > i64::MAX as i128 {
            TimeSpan::from_nanoseconds(i64::MAX)
        } else if diff < i64::MIN as i128 {
            TimeSpan::from_nanoseconds(i64::MIN)
        } else {
            TimeSpan::from_nanoseconds(diff as i64)
        }
    }
}

} // verus!
