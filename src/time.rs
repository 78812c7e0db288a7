//! The clock component: the delta since the last frame and the time
//! elapsed since the scene started, in microseconds. The caller reads the
//! monotonic time and hands it in.
use vstd::prelude::*;

verus! {

#[derive(Debug, Clone, Copy, PartialEq, Eq, Structural)]
pub struct Time {
    /// Microseconds between the last two updates.
    pub delta_time: u64,
    /// The monotonic time of the last update.
    pub last_time: u64,
    /// Microseconds elapsed over all updates.
    pub time: u64,
}

/// The clock after an update at `now`.
pub open spec fn advanced(t: Time, now: u64) -> Time {
    let delta: u64 = if now >= t.last_time {
        (now - t.last_time) as u64
    } else {
        0u64
    };
    Time {
        delta_time: delta,
        last_time: now,
        time: if t.time + delta > u64::MAX {
            u64::MAX
        } else {
            (t.time + delta) as u64
        },
    }
}

impl Time {
    /// A clock started at `now`.
    pub fn new(now: u64) -> (r: Self)
        ensures
            r == (Time { delta_time: 0, last_time: now, time: 0 }),
    {
        Time { delta_time: 0, last_time: now, time: 0 }
    }

    /// Moves the clock to `now`. A `now` before the last update counts as
    /// no time passing; the elapsed total holds at `u64::MAX`.
    pub fn update(&mut self, now: u64)
        ensures
            *final(self) == advanced(*old(self), now),
    {
        self.delta_time = now.saturating_sub(self.last_time);
        self.last_time = now;
        self.time = self.time.saturating_add(self.delta_time);
    }
}

} // verus!
