//! Pacing the system to its nominal cycle rate.
use vstd::prelude::*;

verus! {

/// The nominal length of a clock cycle at 4MHz, in nanoseconds.
pub const TICK_NANOS: u64 = 250;

/// The system clock.
///
/// It does nothing but slow the system down to the nominal cycle rate: each tick is due
/// one `tick_duration` after the previous one, and [`Clock::tick`] says how long to wait
/// for it. Times are nanoseconds on a monotonic clock chosen by the caller.
pub struct Clock {
    /// Time the next tick is due.
    pub next_tick: u64,
    /// Target duration for each tick.
    pub tick_duration: u64,
}

impl Default for Clock {
    /// A 4MHz clock whose first tick is due at time zero.
    fn default() -> (c: Clock)
        ensures
            c.next_tick == 0,
            c.tick_duration == TICK_NANOS,
    {
        Clock { next_tick: 0, tick_duration: TICK_NANOS }
    }
}

impl Clock {
    /// A 4MHz clock whose first tick is due at `now`.
    pub fn new(now: u64) -> (c: Clock)
        ensures
            c.next_tick == now,
            c.tick_duration == TICK_NANOS,
    {
        Clock { next_tick: now, tick_duration: TICK_NANOS }
    }

    /// Moves the due time on by one tick and returns how long to wait, at time `now`,
    /// until it comes.
    ///
    /// If the next due time would overflow, it is taken to be `now`; if it has already
    /// passed, there is no wait.
    pub fn tick(&mut self, now: u64) -> (wait: u64)
        ensures
            final(self).tick_duration == old(self).tick_duration,
            final(self).next_tick == if old(self).next_tick + old(self).tick_duration
                <= u64::MAX {
                old(self).next_tick + old(self).tick_duration
            } else {
                now as int
            },
            wait == if final(self).next_tick > now {
                final(self).next_tick - now
            } else {
                0
            },
    {
        self.next_tick = match self.next_tick.checked_add(self.tick_duration) {
            Some(t) => t,
            None => now,
        };
        if self.next_tick > now {
            self.next_tick - now
        } else {
            0
        }
    }
}

} // verus!
