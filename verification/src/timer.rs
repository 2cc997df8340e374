//! Countdown timers, in whole milliseconds.
//!
//! A repeating timer fires each time the accumulated elapsed time crosses its
//! interval and carries the remainder over, so periods stay accurate across
//! many frames. A one-shot timer fires once and then stays finished.

use vstd::prelude::*;

verus! {

/// Largest duration a timer may be built with, in milliseconds (one day).
pub const DURATION_LIMIT: u64 = 86_400_000;

/// Largest elapsed time a single frame may report, in milliseconds.
pub const DT_LIMIT: u64 = 1_000_000;

/// A countdown timer. `finished` reports whether the timer fired on the most
/// recent tick (repeating) or has ever fired (one-shot).
#[derive(Copy, Clone, PartialEq, Eq, Structural, Debug)]
pub struct Timer {
    pub duration_ms: u64,
    pub elapsed_ms: u64,
    pub repeating: bool,
    pub finished: bool,
}

impl Timer {
    /// The timer's invariant: a positive, bounded duration, and elapsed time
    /// inside the current period.
    pub open spec fn wf(self) -> bool {
        &&& 0 < self.duration_ms <= DURATION_LIMIT
        &&& self.elapsed_ms <= self.duration_ms
        &&& (self.repeating ==> self.elapsed_ms < self.duration_ms)
    }

    /// Whether a tick of `dt` fires this timer: the accumulated elapsed time
    /// crosses the interval boundary.
    pub open spec fn fires(self, dt: int) -> bool {
        self.elapsed_ms + dt >= self.duration_ms
    }

    /// Elapsed time within the period after a tick of `dt`: a repeating
    /// timer carries the remainder over, a one-shot timer saturates at its
    /// duration.
    pub open spec fn elapsed_after(self, dt: int) -> int {
        if self.repeating {
            (self.elapsed_ms + dt) % (self.duration_ms as int)
        } else if self.elapsed_ms + dt >= self.duration_ms {
            self.duration_ms as int
        } else {
            self.elapsed_ms + dt
        }
    }

    /// The timer after a tick of `dt`.
    pub open spec fn ticked(self, dt: int) -> Timer {
        Timer {
            elapsed_ms: self.elapsed_after(dt) as u64,
            finished: self.fires(dt),
            ..self
        }
    }

    /// A fresh repeating timer with the given interval.
    pub fn new_repeating(duration_ms: u64) -> (t: Timer)
        requires
            0 < duration_ms <= DURATION_LIMIT,
        ensures
            t == (Timer { duration_ms, elapsed_ms: 0, repeating: true, finished: false }),
            t.wf(),
    {
        Timer { duration_ms, elapsed_ms: 0, repeating: true, finished: false }
    }

    /// A fresh one-shot timer with the given duration.
    pub fn new_once(duration_ms: u64) -> (t: Timer)
        requires
            0 < duration_ms <= DURATION_LIMIT,
        ensures
            t == (Timer { duration_ms, elapsed_ms: 0, repeating: false, finished: false }),
            t.wf(),
    {
        Timer { duration_ms, elapsed_ms: 0, repeating: false, finished: false }
    }

    /// Advance the timer by one frame's elapsed time.
    pub fn tick(&mut self, dt_ms: u64)
        requires
            old(self).wf(),
            dt_ms <= DT_LIMIT,
        ensures
            *final(self) == old(self).ticked(dt_ms as int),
            final(self).wf(),
    {
        let total: u64 = self.elapsed_ms + dt_ms;
        if total >= self.duration_ms {
            self.finished = true;
            if self.repeating {
                self.elapsed_ms = total % self.duration_ms;
            } else {
                self.elapsed_ms = self.duration_ms;
            }
        } else {
            self.finished = false;
            self.elapsed_ms = total;
        }
        proof {
            let dt = dt_ms as int;
            assert(self.duration_ms == old(self).duration_ms);
            assert(self.repeating == old(self).repeating);
            assert(self.finished == old(self).fires(dt));
            if old(self).repeating {
                vstd::arithmetic::div_mod::lemma_mod_division_less_than_divisor(
                    old(self).elapsed_ms + dt,
                    old(self).duration_ms as int,
                );
                assert(0 <= old(self).elapsed_after(dt) < old(self).duration_ms);
                if old(self).elapsed_ms + dt < old(self).duration_ms {
                    vstd::arithmetic::div_mod::lemma_small_mod(
                        (old(self).elapsed_ms + dt_ms) as nat,
                        old(self).duration_ms as nat,
                    );
                }
            }
            assert(self.elapsed_ms == old(self).elapsed_after(dt));
        }
    }

    /// How far the current period has advanced, in thousandths.
    pub open spec fn percent_pm_spec(self) -> int {
        self.elapsed_ms as int * 1000 / (self.duration_ms as int)
    }

    /// How far the current period has advanced, in thousandths: `0` at the
    /// start of a period, approaching `1000` as the timer comes due.
    pub fn percent_pm(&self) -> (p: u64)
        requires
            self.wf(),
        ensures
            p == self.percent_pm_spec(),
            p <= 1000,
            self.elapsed_ms < self.duration_ms ==> p < 1000,
    {
        proof {
            assert(self.elapsed_ms * 1000 <= DURATION_LIMIT * 1000) by (nonlinear_arith)
                requires self.elapsed_ms <= DURATION_LIMIT;
            assert(self.elapsed_ms as int * 1000 / (self.duration_ms as int) <= 1000)
                by (nonlinear_arith)
                requires
                    0 < self.duration_ms,
                    self.elapsed_ms <= self.duration_ms;
            assert(self.elapsed_ms < self.duration_ms ==> self.elapsed_ms as int * 1000
                / (self.duration_ms as int) < 1000) by (nonlinear_arith)
                requires 0 < self.duration_ms;
        }
        self.elapsed_ms * 1000 / self.duration_ms
    }
}

} // verus!
