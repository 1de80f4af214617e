//! Cooperative timing primitives.
//!
//! The core does no background work and never reads a clock of its own: the
//! host polls these timers, passing the current time of its (monotonic)
//! millisecond clock.  This keeps progress driven by explicit ticks, so a
//! test can advance virtual time at will.

use vstd::prelude::*;

verus! {

/// Runs some work at most once per period: the host calls `tick` repeatedly
/// and performs the work whenever `tick` returns true.
pub struct Ticker {
    last_ms: u64,
    period_ms: u64,
}

impl Ticker {
    pub closed spec fn spec_last_ms(&self) -> u64 {
        self.last_ms
    }

    pub closed spec fn spec_period_ms(&self) -> u64 {
        self.period_ms
    }

    /// True when at least one period has elapsed since the tick last fired.
    pub open spec fn fires(&self, now_ms: u64) -> bool {
        elapsed_ms(self.spec_last_ms(), now_ms) >= self.spec_period_ms()
    }

    pub fn new(period_ms: u64) -> (t: Ticker)
        ensures
            t.spec_last_ms() == 0,
            t.spec_period_ms() == period_ms,
    {
        Ticker { last_ms: 0, period_ms }
    }

    /// Report whether the period has elapsed; if so, rearm for the next one.
    /// The caller does the periodic work exactly when this returns true.
    pub fn tick(&mut self, now_ms: u64) -> (fired: bool)
        ensures
            fired == old(self).fires(now_ms),
            final(self).spec_period_ms() == old(self).spec_period_ms(),
            final(self).spec_last_ms() == if fired {
                now_ms
            } else {
                old(self).spec_last_ms()
            },
    {
        let elapsed: u64 = if now_ms >= self.last_ms {
            now_ms - self.last_ms
        } else {
            0
        };
        if elapsed >= self.period_ms {
            self.last_ms = now_ms;
            true
        } else {
            false
        }
    }
}

/// Whether a one-shot timeout is armed, expired, or switched off.
#[derive(Clone, Copy, PartialEq, Eq, Structural, Debug)]
pub enum TimeoutState {
    Active,
    Inactive,
    Expired,
}

/// A one-shot timeout: `start` arms it, and once more than `duration_ms` has
/// passed it reports expired on every poll until stopped or restarted.
#[derive(Debug)]
pub struct Timeout {
    state: TimeoutState,
    duration_ms: u64,
    start_ms: u64,
}

impl Timeout {
    pub closed spec fn spec_state(&self) -> TimeoutState {
        self.state
    }

    pub closed spec fn spec_duration_ms(&self) -> u64 {
        self.duration_ms
    }

    pub closed spec fn spec_start_ms(&self) -> u64 {
        self.start_ms
    }

    /// True when an armed timeout has run past its duration at time `now_ms`.
    pub open spec fn overdue(&self, now_ms: u64) -> bool {
        &&& self.spec_state() == TimeoutState::Active
        &&& elapsed_ms(self.spec_start_ms(), now_ms) > self.spec_duration_ms()
    }

    pub fn new(duration_ms: u64) -> (t: Timeout)
        ensures
            t.spec_state() == TimeoutState::Inactive,
            t.spec_duration_ms() == duration_ms,
    {
        Timeout { state: TimeoutState::Inactive, duration_ms, start_ms: 0 }
    }

    /// Poll the timeout: an armed timeout that has run past its duration
    /// moves to `Expired`, and the result reports whether it has expired.
    pub fn is_expired(&mut self, now_ms: u64) -> (expired: bool)
        ensures
            final(self).spec_duration_ms() == old(self).spec_duration_ms(),
            final(self).spec_start_ms() == old(self).spec_start_ms(),
            final(self).spec_state() == if old(self).overdue(now_ms) {
                TimeoutState::Expired
            } else {
                old(self).spec_state()
            },
            expired == (final(self).spec_state() == TimeoutState::Expired),
    {
        let elapsed: u64 = if now_ms >= self.start_ms {
            now_ms - self.start_ms
        } else {
            0
        };
        if self.state == TimeoutState::Active && elapsed > self.duration_ms {
            self.state = TimeoutState::Expired;
        }
        match self.state {
            TimeoutState::Active | TimeoutState::Inactive => false,
            TimeoutState::Expired => true,
        }
    }

    /// Arm the timeout, measuring its duration from `now_ms`.
    pub fn start(&mut self, now_ms: u64)
        ensures
            final(self).spec_state() == TimeoutState::Active,
            final(self).spec_duration_ms() == old(self).spec_duration_ms(),
            final(self).spec_start_ms() == now_ms,
    {
        self.state = TimeoutState::Active;
        self.start_ms = now_ms;
    }

    /// Disarm the timeout; it reports not expired until started again.
    pub fn stop(&mut self)
        ensures
            final(self).spec_state() == TimeoutState::Inactive,
            final(self).spec_duration_ms() == old(self).spec_duration_ms(),
            final(self).spec_start_ms() == old(self).spec_start_ms(),
    {
        self.state = TimeoutState::Inactive;
    }
}

/// Milliseconds elapsed from `start_ms` to `now_ms`; zero when the clock
/// reads earlier than the recorded start.
pub open spec fn elapsed_ms(start_ms: u64, now_ms: u64) -> int {
    if now_ms >= start_ms {
        now_ms - start_ms
    } else {
        0
    }
}

} // verus!
