//! The tick scheduler: paces the guest's `update` calls.
//!
//! The scheduler keeps the interval between ticks and the instant the last
//! tick began, both in nanoseconds on the embedder's clock. It never sleeps
//! itself: [`Scheduler::sleep_nanos`] tells the embedder how long to wait so
//! that at least one interval lies between the starts of consecutive ticks.
//! On a saturated host the rate degrades but never exceeds the configured
//! value.
//!
//! Rates arrive from the guest in ticks per second scaled by 1000
//! (millihertz), so fractional rates need no floating point. A rate of `0` is
//! invalid and leaves the interval unchanged.

use vstd::prelude::*;

use vstd::arithmetic::div_mod::{
    lemma_div_by_multiple, lemma_div_is_ordered, lemma_div_is_ordered_by_denominator,
    lemma_fundamental_div_mod,
};

verus! {

/// The default tick interval: one sixtieth of a second.
pub const DEFAULT_TICK_INTERVAL_NANOS: u64 = 16_666_666;

/// Nanoseconds per second, times the millihertz scaling of rates: dividing
/// this by a rate in millihertz gives the interval in nanoseconds.
pub const RATE_SCALE: u64 = 1_000_000_000_000;

/// The interval, in nanoseconds, for a valid (non-zero) rate in millihertz.
/// At least one nanosecond: the scheduler enforces a minimum inter-tick delay.
pub open spec fn interval_for_rate(millihertz: u64) -> u64
    recommends
        millihertz > 0,
{
    if RATE_SCALE / millihertz == 0 {
        1
    } else {
        RATE_SCALE / millihertz
    }
}

/// What a rate change does to the interval: an invalid rate is ignored.
pub open spec fn next_interval(current: u64, millihertz: u64) -> u64 {
    if millihertz == 0 {
        current
    } else {
        interval_for_rate(millihertz)
    }
}

/// How many whole ticks fit into `window` nanoseconds at a steady interval:
/// the steady-state throughput over that window.
pub open spec fn steady_ticks(window: int, interval: int) -> int
    recommends
        interval >= 1,
{
    window / interval
}

/// The delay the embedder owes before the next tick: none before the first
/// tick or when the interval has already elapsed, otherwise the remainder of
/// the interval (clamped to the clock's range).
pub open spec fn spec_sleep_nanos(last: Option<u64>, interval: u64, now: u64) -> u64 {
    match last {
        None => 0,
        Some(t) => if now >= t + interval {
            0
        } else if t + interval - now > u64::MAX {
            u64::MAX
        } else {
            (t + interval - now) as u64
        },
    }
}

/// The tick scheduler. `interval` is strictly positive; `last_tick` is unset
/// until the first tick.
#[derive(Debug)]
pub struct Scheduler {
    interval_ns: u64,
    last_tick: Option<u64>,
}

impl Scheduler {
    /// The current interval between ticks, in nanoseconds.
    pub closed spec fn interval(&self) -> u64 {
        self.interval_ns
    }

    /// When the last tick began, if one has.
    pub closed spec fn last(&self) -> Option<u64> {
        self.last_tick
    }

    pub open spec fn wf(&self) -> bool {
        self.interval() >= 1
    }

    /// A fresh scheduler at the default rate of sixty ticks per second, with
    /// no tick taken yet.
    pub fn new() -> (r: Scheduler)
        ensures
            r.wf(),
            r.interval() == DEFAULT_TICK_INTERVAL_NANOS,
            r.last() is None,
    {
        Scheduler { interval_ns: DEFAULT_TICK_INTERVAL_NANOS, last_tick: None }
    }

    /// Sets the tick rate, in millihertz. The change takes effect on the next
    /// scheduling decision. A rate of `0` is invalid and ignored, leaving the
    /// interval — and so the throughput — unchanged.
    pub fn set_tick_rate(&mut self, millihertz: u64)
        requires
            old(self).wf(),
        ensures
            final(self).wf(),
            final(self).interval() == next_interval(old(self).interval(), millihertz),
            final(self).last() == old(self).last(),
    {
        if millihertz == 0 {
            return;
        }
        let q = RATE_SCALE / millihertz;
        self.interval_ns = if q == 0 {
            1
        } else {
            q
        };
    }

    /// Records that a tick begins now.
    pub fn record_tick(&mut self, now: u64)
        ensures
            final(self).interval() == old(self).interval(),
            final(self).last() == Some(now),
    {
        self.last_tick = Some(now);
    }

    /// How long the embedder must still wait, at `now`, before the next tick
    /// is due. Zero before the first tick, and zero once the interval since
    /// the last tick's start has fully elapsed.
    pub fn sleep_nanos(&self, now: u64) -> (r: u64)
        ensures
            r == spec_sleep_nanos(self.last(), self.interval(), now),
    {
        match self.last_tick {
            None => 0,
            Some(t) => {
                let due: u128 = t as u128 + self.interval_ns as u128;
                if now as u128 >= due {
                    0
                } else {
                    let rest = due - now as u128;
                    if rest > u64::MAX as u128 {
                        u64::MAX
                    } else {
                        rest as u64
                    }
                }
            },
        }
    }
}

/// Floor division gets strictly larger when the divisor strictly shrinks,
/// as long as the dividend covers the product of both divisors.
proof fn lemma_div_strictly_more(w: int, a: int, b: int)
    requires
        1 <= b < a,
        a * b <= w,
    ensures
        w / b > w / a,
{
    let da = w / a;
    lemma_div_is_ordered(a * b, w, a);
    lemma_div_by_multiple(b, a);
    assert((b * a) / a == b);
    assert(a * b == b * a) by (nonlinear_arith);
    assert(da >= b);
    lemma_fundamental_div_mod(w, a);
    assert(a * da <= w);
    assert((da + 1) * b <= w) by (nonlinear_arith)
        requires
            1 <= b < a,
            da >= b,
            a * da <= w,
    ;
    lemma_div_is_ordered((da + 1) * b, w, b);
    lemma_div_by_multiple(da + 1, b);
    assert(((da + 1) * b) / b == da + 1);
    assert(w / b >= da + 1);
}

/// Of two valid rates, the faster one never yields a longer interval.
pub proof fn lemma_rate_interval_antitone(r1: u64, r2: u64)
    requires
        0 < r1 <= r2,
    ensures
        interval_for_rate(r2) <= interval_for_rate(r1),
{
    lemma_div_is_ordered_by_denominator(RATE_SCALE as int, r1 as int, r2 as int);
}

/// Of two valid rates up to a thousand ticks per second, the faster one
/// yields a strictly shorter interval.
pub proof fn lemma_rate_interval_strict(r1: u64, r2: u64)
    requires
        0 < r1 < r2 <= 1_000_000,
    ensures
        interval_for_rate(r2) < interval_for_rate(r1),
{
    assert((r2 as int) * (r1 as int) <= RATE_SCALE as int) by (nonlinear_arith)
        requires
            0 < r1 < r2 <= 1_000_000,
    ;
    lemma_div_strictly_more(RATE_SCALE as int, r2 as int, r1 as int);
    lemma_div_is_ordered_by_denominator(RATE_SCALE as int, r2 as int, 1_000_000);
    assert(RATE_SCALE as int / 1_000_000 == 1_000_000);
    assert(RATE_SCALE as int / r2 as int > 0);
}

/// A strictly shorter interval admits strictly more ticks over any window
/// that covers both intervals' product: throughput scales with the rate.
pub proof fn lemma_throughput_scales(window: int, i1: int, i2: int)
    requires
        1 <= i2 < i1,
        i1 * i2 <= window,
    ensures
        steady_ticks(window, i2) > steady_ticks(window, i1),
{
    lemma_div_strictly_more(window, i1, i2);
}

/// Setting a valid rate `r1 < r2 <= 1000 Hz` strictly scales the steady-state
/// throughput over any sufficiently long window, and an invalid rate leaves
/// the interval — hence the throughput — exactly as it was.
pub proof fn lemma_tick_rate_throughput(current: u64, r1: u64, r2: u64, window: int)
    requires
        0 < r1 < r2 <= 1_000_000,
        window >= (interval_for_rate(r1) as int) * (interval_for_rate(r2) as int),
    ensures
        steady_ticks(window, next_interval(current, r2) as int) > steady_ticks(
            window,
            next_interval(current, r1) as int,
        ),
        next_interval(current, 0) == current,
{
    lemma_rate_interval_strict(r1, r2);
    lemma_div_is_ordered_by_denominator(RATE_SCALE as int, 1, r2 as int);
    lemma_throughput_scales(
        window,
        interval_for_rate(r1) as int,
        interval_for_rate(r2) as int,
    );
}

} // verus!
