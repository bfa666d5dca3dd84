//! Signed spans of time, stored as whole nanoseconds.

use vstd::prelude::*;

verus! {

/// How many nanoseconds make up one second.
pub const NANOS_PER_SECOND: i64 = 1_000_000_000;

/// A signed duration. The mathematical value of a `TimeSpan` is its length in
/// nanoseconds; its view is that integer.
#[derive(Clone, Copy, Debug, PartialEq, Eq, Structural)]
pub struct TimeSpan {
    nanos: i64,
}

impl View for TimeSpan {
    type V = int;

    closed spec fn view(&self) -> int {
        self.nanos as int
    }
}

impl TimeSpan {
    /// The zero-length span.
    pub fn zero() -> (r: TimeSpan)
        ensures
            r@ == 0,
    {
        TimeSpan { nanos: 0 }
    }

    /// A span of exactly `nanos` nanoseconds.
    pub fn from_nanoseconds(nanos: i64) -> (r: TimeSpan)
        ensures
            r@ == nanos,
    {
        TimeSpan { nanos }
    }

    /// A span of `seconds` whole seconds, or `None` when that many seconds do
    /// not fit in the representation.
    pub fn from_seconds(seconds: i64) -> (r: Option<TimeSpan>)
        ensures
            r matches Some(t) ==> t@ == seconds * NANOS_PER_SECOND,
            r is Some <==> i64::MIN <= seconds * NANOS_PER_SECOND <= i64::MAX,
    {
        match seconds.checked_mul(NANOS_PER_SECOND) {
            Some(nanos) => Some(TimeSpan { nanos }),
            None => None,
        }
    }

    /// The length of the span in nanoseconds.
    pub fn total_nanoseconds(&self) -> (r: i64)
        ensures
            r == self@,
    {
        self.nanos
    }
}

/// The error of parsing a malformed or out-of-range time span.
#[derive(Clone, Copy, Debug, PartialEq, Eq, Structural)]
pub struct ParseError;

impl core::str::FromStr for TimeSpan {
    type Err = ParseError;

    /// Parses `[-][[hours:]minutes:]seconds[.fraction]`: colon-separated
    /// decimal parts folded at base sixty, with the fraction truncated to
    /// nanoseconds. Values outside the representable range are rejected.
    fn from_str(s: &str) -> Result<TimeSpan, ParseError> {
        let b = s.as_bytes();
        let blen = b.len();
        let mut i: usize = 0;
        let neg = blen > 0 && b[0] == 45;
        if neg {
            i = 1;
        }
        let mut acc: u128 = 0;
        let mut cur: u128 = 0;
        let mut run = false;
        let mut whole_done = false;
        let mut frac: u64 = 0;
        let mut scale: u64 = 100_000_000;
        while i < blen
            invariant
                blen == b@.len(),
                acc <= 0x8000_0000_0000_0000u128,
                cur <= 0x8000_0000_0000_0000u128,
                scale <= 100_000_000,
                frac + 10 * scale <= 1_000_000_000,
            decreases blen - i,
        {
            let c = b[i];
            if 48 <= c && c <= 57 {
                let d = (c - 48) as u64;
                if whole_done {
                    if scale > 0 {
                        proof {
                            assert(d * scale <= 9 * scale) by (nonlinear_arith)
                                requires
                                    d <= 9,
                                    scale >= 0,
                            ;
                            assert(10 * (scale / 10) <= scale) by (nonlinear_arith);
                        }
                        frac = frac + d * scale;
                        scale = scale / 10;
                    }
                } else {
                    cur = cur * 10 + d as u128;
                    if cur > 0x8000_0000_0000_0000u128 {
                        return Err(ParseError);
                    }
                    run = true;
                }
            } else if c == 58 && !whole_done {
                if !run {
                    return Err(ParseError);
                }
                acc = acc * 60 + cur;
                if acc > 0x8000_0000_0000_0000u128 {
                    return Err(ParseError);
                }
                cur = 0;
                run = false;
            } else if c == 46 && !whole_done {
                if !run {
                    return Err(ParseError);
                }
                acc = acc * 60 + cur;
                if acc > 0x8000_0000_0000_0000u128 {
                    return Err(ParseError);
                }
                cur = 0;
                whole_done = true;
            } else {
                return Err(ParseError);
            }
            i = i + 1;
        }
        if !whole_done && !run {
            return Err(ParseError);
        }
        if !whole_done {
            acc = acc * 60 + cur;
        }
        let total: u128 = acc * 1_000_000_000 + frac as u128;
        if neg {
            if total > 0x8000_0000_0000_0000u128 {
                return Err(ParseError);
            }
            Ok(TimeSpan { nanos: (-(total as i128)) as i64 })
        } else {
            if total > i64::MAX as u128 {
                return Err(ParseError);
            }
            Ok(TimeSpan { nanos: total as i64 })
        }
    }
}

} // verus!
