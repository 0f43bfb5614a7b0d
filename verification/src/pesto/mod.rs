//! What a timer for solves keeps: events and sessions, penalties, and the
//! states of the timer itself.
pub mod event;
pub mod solve;
pub mod timer;
