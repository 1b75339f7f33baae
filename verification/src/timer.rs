//! Cooperative interval timers measured in accumulated frame milliseconds.
//!
//! The movement timer saturates at its duration (a one-shot that is reset by
//! hand), while the automaton timer wraps around its duration (a repeating
//! interval). Both are driven purely by the elapsed time handed to each frame.

use vstd::prelude::*;

verus! {

/// An elapsed/duration pair. Well-formed timers keep `elapsed <= duration`
/// and a positive duration.
#[derive(Clone, Copy, PartialEq, Eq, Structural, Debug)]
pub struct Timer {
    pub elapsed_ms: u64,
    pub duration_ms: u64,
}

pub open spec fn timer_wf(t: Timer) -> bool {
    &&& t.elapsed_ms <= t.duration_ms
    &&& t.duration_ms > 0
}

/// `t` after accumulating `dt` milliseconds, saturating at the duration.
pub open spec fn ticked_saturating(t: Timer, dt: u64) -> Timer {
    if dt >= t.duration_ms - t.elapsed_ms {
        Timer { elapsed_ms: t.duration_ms, ..t }
    } else {
        Timer { elapsed_ms: (t.elapsed_ms + dt) as u64, ..t }
    }
}

/// `t` after accumulating `dt` milliseconds, wrapping past the duration: the
/// interval fires and the remainder is carried into the next interval.
pub open spec fn ticked_wrapping(t: Timer, dt: u64) -> Timer {
    if dt >= t.duration_ms - t.elapsed_ms {
        Timer {
            elapsed_ms: (((dt - (t.duration_ms - t.elapsed_ms)) as int % t.duration_ms as int) as u64),
            ..t
        }
    } else {
        Timer { elapsed_ms: (t.elapsed_ms + dt) as u64, ..t }
    }
}

/// The accumulated time has reached the full duration.
pub open spec fn finished(t: Timer) -> bool {
    t.elapsed_ms >= t.duration_ms
}

/// Whether accumulating `dt` more milliseconds reaches the end of the
/// interval (and so fires the timed action this frame).
pub open spec fn fires(t: Timer, dt: u64) -> bool {
    dt >= t.duration_ms - t.elapsed_ms
}

impl Timer {
    /// A fresh timer of `duration_ms` milliseconds with nothing accumulated.
    pub fn new(duration_ms: u64) -> (t: Timer)
        requires
            duration_ms > 0,
        ensures
            t == (Timer { elapsed_ms: 0, duration_ms }),
            timer_wf(t),
    {
        Timer { elapsed_ms: 0, duration_ms }
    }

    /// Accumulate `dt` milliseconds, stopping at the duration.
    pub fn tick_saturating(&mut self, dt: u64)
        requires
            timer_wf(*old(self)),
        ensures
            *final(self) == ticked_saturating(*old(self), dt),
            timer_wf(*final(self)),
            finished(*final(self)) <==> fires(*old(self), dt),
    {
        let room = self.duration_ms - self.elapsed_ms;
        if dt >= room {
            self.elapsed_ms = self.duration_ms;
        } else {
            self.elapsed_ms = self.elapsed_ms + dt;
        }
    }

    /// Accumulate `dt` milliseconds, wrapping past the duration; returns
    /// whether the interval fired within this frame.
    pub fn tick_wrapping(&mut self, dt: u64) -> (fired: bool)
        requires
            timer_wf(*old(self)),
        ensures
            *final(self) == ticked_wrapping(*old(self), dt),
            timer_wf(*final(self)),
            fired <==> fires(*old(self), dt),
    {
        let room = self.duration_ms - self.elapsed_ms;
        if dt >= room {
            self.elapsed_ms = (dt - room) % self.duration_ms;
            true
        } else {
            self.elapsed_ms = self.elapsed_ms + dt;
            false
        }
    }

    /// Clear the accumulated time.
    pub fn reset(&mut self)
        ensures
            *final(self) == (Timer { elapsed_ms: 0, duration_ms: old(self).duration_ms }),
    {
        self.elapsed_ms = 0;
    }

    /// Force the timer to its full duration, so that it stays saturated and
    /// fires again on the next frame without accumulating a partial interval.
    pub fn saturate(&mut self)
        ensures
            *final(self) == (Timer {
                elapsed_ms: old(self).duration_ms,
                duration_ms: old(self).duration_ms,
            }),
    {
        self.elapsed_ms = self.duration_ms;
    }
}

} // verus!
