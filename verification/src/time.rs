//! The tick counter: time since boot, advanced by the timer interrupt.
use vstd::prelude::*;

verus! {

/// Ticks since the system booted.  The timer interrupt handler is the only
/// writer; readers go through the same IRQ-safe lock.
pub struct Time {
    ticks: u64,
}

impl Time {
    /// The ticks counted so far.
    pub closed spec fn spec_ticks(self) -> u64 {
        self.ticks
    }

    /// The counter starts at zero.
    pub fn new() -> (r: Time)
        ensures
            r.spec_ticks() == 0,
    {
        Time { ticks: 0 }
    }

    /// One timer tick; the counter wraps around at its maximum.
    pub fn tick(&mut self)
        ensures
            final(self).spec_ticks() == if old(self).spec_ticks() == u64::MAX {
                0u64
            } else {
                (old(self).spec_ticks() + 1) as u64
            },
    {
        if self.ticks == u64::MAX {
            self.ticks = 0;
        } else {
            self.ticks = self.ticks + 1;
        }
    }

    /// The raw tick count, for diagnostic output.
    pub fn ticks(&self) -> (r: u64)
        ensures
            r == self.spec_ticks(),
    {
        self.ticks
    }
}

} // verus!
