//! The states of a stackmat timer: a timer that starts when the key that
//! was held is let go, and stops when it is pressed again.
//!
//! Time is a number of milliseconds on some clock that does not go back. The
//! timer is told the time with every press and release.
use vstd::prelude::*;

verus! {

/// The state of the timer.
#[derive(Debug, Clone, Copy, PartialEq, Eq, Structural)]
pub enum Timer {
    /// Nothing has been pressed yet.
    Idle,
    /// The key is held, and has been since the given time.
    Pressed { press_start: u64 },
    /// The timer has been running since the given time.
    Running { start: u64 },
    /// The timer was stopped at the given time, and shows what it ran for.
    Stopped { time: u64, stopped_instant: u64 },
}

impl Default for Timer {
    fn default() -> (timer: Timer)
        ensures
            timer == Timer::Idle,
    {
        Timer::Idle
    }
}

/// The time from `since` to `now`, and none if the clock went back.
pub open spec fn elapsed(now: u64, since: u64) -> u64 {
    if now >= since {
        (now - since) as u64
    } else {
        0
    }
}

impl Timer {
    /// The state after the key is pressed at the time `now`.
    ///
    /// An idle timer is held. A running timer stops. A stopped timer is held
    /// if it has been stopped for `min_stop_duration`, and stays as it is if
    /// not, so that the press that stops it does not hold it at once.
    pub open spec fn pressed(self, now: u64, min_stop_duration: u64) -> Timer {
        match self {
            Timer::Idle => Timer::Pressed { press_start: now },
            Timer::Pressed { .. } => self,
            Timer::Running { start } => Timer::Stopped {
                time: elapsed(now, start),
                stopped_instant: now,
            },
            Timer::Stopped { stopped_instant, .. } => if elapsed(now, stopped_instant)
                >= min_stop_duration {
                Timer::Pressed { press_start: now }
            } else {
                self
            },
        }
    }

    /// The state after the key is let go at the time `now`.
    ///
    /// A timer that has been held for `min_press_duration` starts to run;
    /// one that has been held for less is idle again.
    pub open spec fn released(self, now: u64, min_press_duration: u64) -> Timer {
        match self {
            Timer::Pressed { press_start } => if elapsed(now, press_start) < min_press_duration {
                Timer::Idle
            } else {
                Timer::Running { start: now }
            },
            _ => self,
        }
    }

    /// The key is pressed at the time `now`. Gives the time that the timer
    /// ran for if the press stops it.
    pub fn press(&mut self, now: u64, min_stop_duration: u64) -> (time: Option<u64>)
        ensures
            *final(self) == old(self).pressed(now, min_stop_duration),
            time == match *old(self) {
                Timer::Running { start } => Some(elapsed(now, start)),
                _ => None,
            },
    {
        match *self {
            Timer::Idle => {
                *self = Timer::Pressed { press_start: now };
            },
            Timer::Pressed { .. } => {},
            Timer::Running { start } => {
                let time = since(now, start);
                *self = Timer::Stopped { time, stopped_instant: now };
                return Some(time);
            },
            Timer::Stopped { stopped_instant, .. } => {
                if since(now, stopped_instant) >= min_stop_duration {
                    *self = Timer::Pressed { press_start: now };
                }
            },
        }
        None
    }

    /// The key is let go at the time `now`.
    pub fn release(&mut self, now: u64, min_press_duration: u64)
        ensures
            *final(self) == old(self).released(now, min_press_duration),
    {
        match *self {
            Timer::Pressed { press_start } => {
                if since(now, press_start) < min_press_duration {
                    *self = Timer::Idle;
                } else {
                    *self = Timer::Running { start: now };
                }
            },
            _ => {},
        }
    }

    pub fn is_pressed(&self) -> (pressed: bool)
        ensures
            pressed == (*self is Pressed),
    {
        match self {
            Timer::Pressed { .. } => true,
            _ => false,
        }
    }

    pub fn is_running(&self) -> (running: bool)
        ensures
            running == (*self is Running),
    {
        match self {
            Timer::Running { .. } => true,
            _ => false,
        }
    }

    /// The time that the timer shows at the time `now`: nothing until it
    /// runs, then the time that it has been running for, and when it is
    /// stopped the time that it ran for.
    pub fn shown(&self, now: u64) -> (time: u64)
        ensures
            time == match *self {
                Timer::Idle | Timer::Pressed { .. } => 0,
                Timer::Running { start } => elapsed(now, start),
                Timer::Stopped { time, .. } => time,
            },
    {
        match *self {
            Timer::Idle => 0,
            Timer::Pressed { .. } => 0,
            Timer::Running { start } => since(now, start),
            Timer::Stopped { time, .. } => time,
        }
    }
}

/// The time from `since` to `now`, and none if the clock went back.
fn since(now: u64, then: u64) -> (time: u64)
    ensures
        time == elapsed(now, then),
{
    if now >= then {
        now - then
    } else {
        0
    }
}

} // verus!
