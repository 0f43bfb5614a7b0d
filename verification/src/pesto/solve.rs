//! What is kept of a solve.
use vstd::prelude::*;

verus! {

/// What a solve is charged with.
#[derive(Debug, Clone, Copy, PartialEq, Eq, Hash, Structural)]
pub enum Penalty {
    /// No penalty.
    NoPenalty,
    /// Two seconds more, mostly because the timer was stopped with the
    /// puzzle one move from solved.
    Plus2,
    /// The timer was stopped and the puzzle was not solved.
    DNF,
}

impl Penalty {
    pub open spec fn spec_index(self) -> int {
        match self {
            Penalty::NoPenalty => 0,
            Penalty::Plus2 => 1,
            Penalty::DNF => 2,
        }
    }

    /// The number that stands for the penalty where solves are stored.
    pub fn index(self) -> (index: u8)
        ensures
            index as int == self.spec_index(),
    {
        match self {
            Penalty::NoPenalty => 0,
            Penalty::Plus2 => 1,
            Penalty::DNF => 2,
        }
    }

    /// The penalty that a number stands for: 0, 1 and 2 stand for one.
    pub fn from_index(index: u8) -> (penalty: Option<Penalty>)
        ensures
            penalty.is_some() == (index < 3),
            penalty matches Some(p) ==> p.spec_index() == index as int,
    {
        if index == 0 {
            Some(Penalty::NoPenalty)
        } else if index == 1 {
            Some(Penalty::Plus2)
        } else if index == 2 {
            Some(Penalty::DNF)
        } else {
            None
        }
    }
}

/// What is kept of a solve. Times are in milliseconds.
#[derive(Debug, Clone)]
pub struct Solve {
    /// The time that the solve took.
    pub time: u64,
    /// The moment when the solve was finished, on the clock of the caller.
    pub end_date: u64,
    pub scramble: String,
    pub penalty: Penalty,
}

impl Solve {
    /// A solve that has just been finished, at the moment `now`, without a penalty.
    pub fn new(time: u64, scramble: String, now: u64) -> (solve: Solve)
        ensures
            solve.time == time,
            solve.end_date == now,
            solve.scramble == scramble,
            solve.penalty == Penalty::NoPenalty,
    {
        Solve { time, end_date: now, scramble, penalty: Penalty::NoPenalty }
    }

    /// The moment when the solve was started, if that is not before the
    /// clock of the caller began.
    pub fn start_date(&self) -> (start: Option<u64>)
        ensures
            start == if self.time <= self.end_date {
                Some((self.end_date - self.time) as u64)
            } else {
                None
            },
    {
        start_of(self.end_date, self.time)
    }

    /// The time of the solve as it is shown: minutes, seconds and milliseconds.
    pub fn clock(&self) -> (clock: Clock)
        ensures
            clock.minutes == self.time / 60000,
            clock.seconds == self.time / 1000 % 60,
            clock.millis == self.time % 1000,
    {
        clock_of(self.time)
    }
}

/// A time split up for display: minutes, seconds and milliseconds.
#[derive(Debug, Clone, Copy, PartialEq, Eq, Structural)]
pub struct Clock {
    pub minutes: u64,
    pub seconds: u64,
    pub millis: u64,
}

/// The minutes, seconds and milliseconds of a time in milliseconds.
pub fn clock_of(time_ms: u64) -> (clock: Clock)
    ensures
        clock.minutes == time_ms / 60000,
        clock.seconds == time_ms / 1000 % 60,
        clock.millis == time_ms % 1000,
        clock.minutes * 60000 + clock.seconds * 1000 + clock.millis == time_ms,
{
    Clock { minutes: time_ms / 60000, seconds: time_ms / 1000 % 60, millis: time_ms % 1000 }
}

/// When a solve began, given when it ended and how long it took, both in
/// milliseconds: nothing if it would have begun before time 0.
pub fn start_of(end_ms: u64, time_ms: u64) -> (start: Option<u64>)
    ensures
        start == if time_ms <= end_ms {
            Some((end_ms - time_ms) as u64)
        } else {
            None
        },
{
    if time_ms <= end_ms {
        Some(end_ms - time_ms)
    } else {
        None
    }
}

} // verus!
