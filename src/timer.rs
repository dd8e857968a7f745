//! A countdown that can repeat, be paused, and report the tick on which it ran out.

use vstd::prelude::*;

verus! {

/// Countdown state; times are in microseconds.
#[derive(Clone, Copy, Debug, PartialEq, Eq, Structural)]
pub struct Timer {
    pub elapsed: u64,
    pub period: u64,
    pub repeating: bool,
    pub paused: bool,
    pub finished: bool,
    pub just_finished: bool,
}

impl Timer {
    /// A timer has a positive period and never holds more than one period.
    pub open spec fn wf(self) -> bool {
        &&& 0 < self.period
        &&& self.elapsed <= self.period
        &&& self.repeating ==> self.elapsed < self.period
    }

    /// The state after `tick(delta)`.
    pub open spec fn ticked(self, delta: int) -> Timer {
        if self.paused {
            Timer { just_finished: false, ..self }
        } else if !self.repeating && self.finished {
            Timer { just_finished: false, ..self }
        } else {
            let total = self.elapsed + delta;
            if total < self.period {
                Timer { elapsed: total as u64, finished: false, just_finished: false, ..self }
            } else if self.repeating {
                Timer {
                    elapsed: (total % (self.period as int)) as u64,
                    finished: true,
                    just_finished: true,
                    ..self
                }
            } else {
                Timer { elapsed: self.period, finished: true, just_finished: true, ..self }
            }
        }
    }

    /// A fresh running timer.
    pub open spec fn started(period: u64, repeating: bool) -> Timer {
        Timer { elapsed: 0, period, repeating, paused: false, finished: false, just_finished: false }
    }

    /// A running timer of the given period, in microseconds.
    pub fn new(period: u64, repeating: bool) -> (r: Timer)
        requires
            period > 0,
        ensures
            r.wf(),
            r == Timer::started(period, repeating),
    {
        Timer { elapsed: 0, period, repeating, paused: false, finished: false, just_finished: false }
    }

    /// Advances the timer by `delta` microseconds unless it is paused. It
    /// reports `just_finished` at most once per call, however many periods
    /// the step spans; a repeating timer keeps the remainder.
    pub fn tick(&mut self, delta: u64)
        requires
            old(self).wf(),
        ensures
            *final(self) == old(self).ticked(delta as int),
            final(self).wf(),
            old(self).paused ==> !final(self).just_finished,
    {
        if self.paused || (!self.repeating && self.finished) {
            self.just_finished = false;
            return;
        }
        let total: u128 = self.elapsed as u128 + delta as u128;
        if total < self.period as u128 {
            self.elapsed = total as u64;
            self.finished = false;
            self.just_finished = false;
        } else if self.repeating {
            self.elapsed = (total % self.period as u128) as u64;
            self.finished = true;
            self.just_finished = true;
        } else {
            self.elapsed = self.period;
            self.finished = true;
            self.just_finished = true;
        }
    }

    pub fn just_finished(&self) -> (r: bool)
        ensures
            r == self.just_finished,
    {
        self.just_finished
    }

    /// Back to the start of a period; the paused flag is kept.
    pub fn reset(&mut self)
        requires
            old(self).wf(),
        ensures
            *final(self) == (Timer {
                elapsed: 0,
                finished: false,
                just_finished: false,
                ..*old(self)
            }),
            final(self).wf(),
    {
        self.elapsed = 0;
        self.finished = false;
        self.just_finished = false;
    }

    pub fn pause(&mut self)
        ensures
            *final(self) == (Timer { paused: true, ..*old(self) }),
    {
        self.paused = true;
    }

    pub fn unpause(&mut self)
        ensures
            *final(self) == (Timer { paused: false, ..*old(self) }),
    {
        self.paused = false;
    }
}

} // verus!
