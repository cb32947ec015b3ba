//! Decisions on what the operating system reports about the user and on the
//! collector's own heartbeat.

use crate::session::SAMPLING_INTERVAL_SECONDS;
use vstd::prelude::*;

verus! {

/// Seconds without input after which a sample counts as idle.
pub const IDLE_THRESHOLD_SECONDS: u64 = 300;

/// What the operating system reports about user input, judged.
pub struct SystemWatcher;

impl SystemWatcher {
    /// Seconds since the last input, from the millisecond tick counts of now and
    /// of the last input; a last-input tick ahead of now (the counter wrapped)
    /// gives zero.
    pub fn idle_seconds_between(tick_now: u32, last_input_tick: u32) -> (r: u64)
        ensures
            r == if tick_now >= last_input_tick {
                ((tick_now - last_input_tick) / 1000) as u64
            } else {
                0u64
            },
    {
        if tick_now >= last_input_tick {
            ((tick_now - last_input_tick) / 1000) as u64
        } else {
            0
        }
    }

    /// Whether a user without input for `idle_seconds` counts as idle.
    pub fn is_idle(idle_seconds: u64) -> (r: bool)
        ensures
            r == (idle_seconds > IDLE_THRESHOLD_SECONDS),
    {
        idle_seconds > IDLE_THRESHOLD_SECONDS
    }

    /// Whether the collector counts as alive when its store was last written
    /// `seconds_since_write` seconds ago: within three sampling intervals.
    pub fn is_alive(seconds_since_write: u64) -> (r: bool)
        ensures
            r == (seconds_since_write < 3 * SAMPLING_INTERVAL_SECONDS),
    {
        seconds_since_write < 3 * (SAMPLING_INTERVAL_SECONDS as u64)
    }
}

} // verus!
