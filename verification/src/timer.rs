//! Restart-capable countdown timers.
//!
//! A `Timer` accumulates the elapsed time handed to it each tick and reports
//! the tick on which its threshold is reached. A repeating timer keeps the
//! remainder past the threshold and can fire again on a later tick; a
//! one-shot timer saturates at its threshold and fires only on the first
//! crossing, so "finished" is reported exactly once per threshold crossing.

use vstd::prelude::*;

verus! {

/// Upper bound on a timer threshold, in milliseconds.
pub const TIMER_DURATION_MAX_MS: u64 = 1_000_000_000;

/// Upper bound on the elapsed time handed to one `advance_and_check` call.
pub const TIMER_DELTA_MAX_MS: u64 = 1_000_000_000;

/// A countdown with a fixed threshold, an elapsed-time accumulator, and a
/// repeat flag.
#[derive(Clone, Copy, PartialEq, Eq, Structural, Debug)]
pub struct Timer {
    /// Threshold after which the timer fires, in milliseconds.
    pub duration_ms: u64,
    /// Time accumulated toward the threshold, in milliseconds.
    pub elapsed_ms: u64,
    /// Whether the timer restarts by itself when it fires.
    pub repeating: bool,
}

impl Timer {
    /// A well-formed timer has a positive, bounded threshold and has not
    /// accumulated past it.
    pub open spec fn wf(self) -> bool {
        1 <= self.duration_ms <= TIMER_DURATION_MAX_MS && self.elapsed_ms <= self.duration_ms
    }

    /// Whether the timer fires when advanced by `delta_ms`: the accumulator
    /// crosses the threshold, and a one-shot timer has not already fired.
    pub open spec fn spec_fires(self, delta_ms: u64) -> bool {
        if self.repeating {
            self.elapsed_ms + delta_ms >= self.duration_ms
        } else {
            self.elapsed_ms < self.duration_ms && self.elapsed_ms + delta_ms >= self.duration_ms
        }
    }

    /// The timer after being advanced by `delta_ms`: a repeating timer wraps
    /// past the threshold, a one-shot timer saturates at it.
    pub open spec fn spec_advance(self, delta_ms: u64) -> Timer {
        let sum = self.elapsed_ms + delta_ms;
        let next = if sum >= self.duration_ms {
            if self.repeating {
                sum % (self.duration_ms as int)
            } else {
                self.duration_ms as int
            }
        } else {
            sum
        };
        Timer { elapsed_ms: next as u64, ..self }
    }

    /// Whether a one-shot timer has reached its threshold and now waits to be
    /// restarted.
    pub open spec fn is_ready(self) -> bool {
        self.elapsed_ms == self.duration_ms
    }

    /// A fresh timer: nothing accumulated yet.
    pub fn new(duration_ms: u64, repeating: bool) -> (t: Timer)
        requires
            1 <= duration_ms <= TIMER_DURATION_MAX_MS,
        ensures
            t == (Timer { duration_ms, elapsed_ms: 0, repeating }),
            t.wf(),
    {
        Timer { duration_ms, elapsed_ms: 0, repeating }
    }

    /// Advances the accumulator by `delta_ms` and reports whether the
    /// threshold was reached on this call. This is the single per-tick entry
    /// point: calling it once per tick keeps "finished" true exactly once per
    /// threshold crossing.
    pub fn advance_and_check(&mut self, delta_ms: u64) -> (fired: bool)
        requires
            old(self).wf(),
            delta_ms <= TIMER_DELTA_MAX_MS,
        ensures
            fired == old(self).spec_fires(delta_ms),
            *final(self) == old(self).spec_advance(delta_ms),
            final(self).wf(),
    {
        let sum = self.elapsed_ms + delta_ms;
        if sum >= self.duration_ms {
            let was_ready = self.elapsed_ms >= self.duration_ms;
            if self.repeating {
                self.elapsed_ms = sum % self.duration_ms;
                true
            } else {
                self.elapsed_ms = self.duration_ms;
                !was_ready
            }
        } else {
            self.elapsed_ms = sum;
            false
        }
    }

    /// Restarts the countdown from zero.
    pub fn reset(&mut self)
        ensures
            *final(self) == (Timer { elapsed_ms: 0, ..*old(self) }),
    {
        self.elapsed_ms = 0;
    }
}

} // verus!
