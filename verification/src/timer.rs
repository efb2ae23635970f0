//! Countdown timers, driven from outside by elapsed time.
//!
//! The countdown arithmetic is `rusty_time`'s; this module keeps the timer's
//! state as plain nanosecond counts so that contracts can speak of it.

use std::time::Duration;
use vstd::prelude::*;

verus! {

/// Nanoseconds in one millisecond.
pub const NANOS_PER_MILLI: u64 = 1_000_000;

/// The largest millisecond count whose nanoseconds still fit in a `u64`.
pub const MAX_MILLIS: u64 = 18_446_744_073_709;

/// A countdown that is advanced by calling [`Timer::update`] with the time
/// that has passed. All times are in nanoseconds.
#[derive(Clone, Copy, Debug, PartialEq, Eq)]
pub struct Timer {
    /// The full length of the countdown.
    pub duration: u64,
    /// What is left until the timer fires.
    pub time_left: u64,
    /// Whether the timer has fired since it was last reset.
    pub ready: bool,
}

impl Timer {
    /// A fresh timer of `ms` milliseconds.
    pub open spec fn started(ms: u64) -> Timer {
        Timer {
            duration: (ms * NANOS_PER_MILLI) as u64,
            time_left: (ms * NANOS_PER_MILLI) as u64,
            ready: false,
        }
    }

    /// The timer wound back to its full duration.
    pub open spec fn rewound(self) -> Timer {
        Timer { duration: self.duration, time_left: self.duration, ready: false }
    }

    /// The timer after `delta` nanoseconds have passed. A timer fires when
    /// more time passes than it had left; once it has fired it stays as it is
    /// until it is reset.
    pub open spec fn advanced(self, delta: u64) -> Timer {
        if self.ready {
            self
        } else if delta <= self.time_left {
            Timer {
                duration: self.duration,
                time_left: (self.time_left - delta) as u64,
                ready: false,
            }
        } else {
            Timer { duration: self.duration, time_left: 0, ready: true }
        }
    }

    /// The full length of the countdown in whole milliseconds.
    pub open spec fn millis(self) -> u64 {
        self.duration / NANOS_PER_MILLI
    }

    /// The timer after each of `deltas` has passed, one after another.
    pub open spec fn advanced_through(self, deltas: Seq<u64>) -> Timer
        decreases deltas.len(),
    {
        if deltas.len() == 0 {
            self
        } else {
            self.advanced_through(deltas.drop_last()).advanced(deltas.last())
        }
    }

    pub fn from_millis(ms: u64) -> (timer: Timer)
        requires
            ms <= MAX_MILLIS,
        ensures
            timer == Timer::started(ms),
    {
        countdown_from_millis(ms)
    }

    pub fn reset(&mut self)
        ensures
            *final(self) == old(self).rewound(),
    {
        let next = countdown_reset(self);
        *self = next;
    }

    pub fn update(&mut self, delta: u64)
        ensures
            *final(self) == old(self).advanced(delta),
    {
        let next = countdown_update(self, delta);
        *self = next;
    }

    pub fn duration_millis(&self) -> (ms: u64)
        ensures
            ms == self.millis(),
    {
        self.duration / NANOS_PER_MILLI
    }
}

/// The time that passes over all of `deltas`.
pub open spec fn elapsed(deltas: Seq<u64>) -> int
    decreases deltas.len(),
{
    if deltas.len() == 0 {
        0
    } else {
        elapsed(deltas.drop_last()) + deltas.last()
    }
}

/// A timer that has not fired fires exactly when more time has passed, over
/// any number of updates, than it had left. Until then it has the rest of
/// that time left.
pub proof fn lemma_fires_when_time_is_up(timer: Timer, deltas: Seq<u64>)
    requires
        !timer.ready,
    ensures
        timer.advanced_through(deltas).ready <==> elapsed(deltas) > timer.time_left,
        !timer.advanced_through(deltas).ready ==> timer.advanced_through(deltas).time_left
            == timer.time_left - elapsed(deltas),
        timer.advanced_through(deltas).duration == timer.duration,
        elapsed(deltas) >= 0,
    decreases deltas.len(),
{
    if deltas.len() > 0 {
        lemma_fires_when_time_is_up(timer, deltas.drop_last());
    }
}

/// A timer of whole milliseconds reports them.
pub proof fn lemma_started_millis(ms: u64)
    requires
        ms <= MAX_MILLIS,
    ensures
        Timer::started(ms).millis() == ms,
        Timer::started(ms).time_left == ms * NANOS_PER_MILLI,
        Timer::started(ms).rewound() == Timer::started(ms),
{
}

/// `rusty_time::timer::Timer::from_millis`: a timer whose duration and
/// remaining time are both `ms` milliseconds and which has not fired.
#[verifier::external_body]
fn countdown_from_millis(ms: u64) -> (timer: Timer)
    requires
        ms <= MAX_MILLIS,
    ensures
        timer == Timer::started(ms),
{
    let inner = rusty_time::timer::Timer::from_millis(ms);
    Timer {
        duration: inner.duration.as_nanos() as u64,
        time_left: inner.time_left.as_nanos() as u64,
        ready: inner.ready,
    }
}

/// `rusty_time::timer::Timer::reset`: the remaining time goes back to the
/// full duration and the fired flag is cleared.
#[verifier::external_body]
fn countdown_reset(timer: &Timer) -> (next: Timer)
    ensures
        next == timer.rewound(),
{
    let mut inner = rusty_time::timer::Timer {
        duration: Duration::from_nanos(timer.duration),
        time_left: Duration::from_nanos(timer.time_left),
        ready: timer.ready,
    };
    inner.reset();
    Timer {
        duration: inner.duration.as_nanos() as u64,
        time_left: inner.time_left.as_nanos() as u64,
        ready: inner.ready,
    }
}

/// `rusty_time::timer::Timer::update`: a timer that has fired is left alone;
/// otherwise `delta` is taken off the remaining time, and if `delta` is more
/// than what remained, the remaining time becomes zero and the timer fires.
#[verifier::external_body]
fn countdown_update(timer: &Timer, delta: u64) -> (next: Timer)
    ensures
        next == timer.advanced(delta),
{
    let mut inner = rusty_time::timer::Timer {
        duration: Duration::from_nanos(timer.duration),
        time_left: Duration::from_nanos(timer.time_left),
        ready: timer.ready,
    };
    inner.update(Duration::from_nanos(delta));
    Timer {
        duration: inner.duration.as_nanos() as u64,
        time_left: inner.time_left.as_nanos() as u64,
        ready: inner.ready,
    }
}

} // verus!
