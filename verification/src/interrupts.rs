//! The CPU's interrupt-enable flag, modeled as an explicit state value.
//!
//! On the hardware this flag lives in the RFLAGS register and is toggled with
//! the `cli` / `sti` instructions.  Here it is a value that the boot sequence
//! owns and threads through every operation that observes or changes it, so
//! contracts can say exactly when interrupts are disabled.
use vstd::prelude::*;

verus! {

/// The interrupt-enable flag of the single hardware thread.
pub struct InterruptFlags {
    enabled: bool,
}

impl InterruptFlags {
    /// Whether maskable hardware interrupts are currently delivered.
    pub closed spec fn is_enabled(self) -> bool {
        self.enabled
    }

    /// The flag state a freshly booted CPU hands to the kernel: interrupts
    /// are off until the boot sequence has installed the trap table.
    pub fn booted() -> (r: InterruptFlags)
        ensures
            !r.is_enabled(),
    {
        InterruptFlags { enabled: false }
    }
}

/// Reads the interrupt-enable flag (the `rflags` read of the hardware).
pub fn interrupts_enabled(flags: &InterruptFlags) -> (r: bool)
    ensures
        r == flags.is_enabled(),
{
    flags.enabled
}

/// Masks maskable interrupts (the `cli` instruction).
pub fn interrupts_disable(flags: &mut InterruptFlags)
    ensures
        !final(flags).is_enabled(),
{
    flags.enabled = false;
}

/// Unmasks maskable interrupts (the `sti` instruction).
pub fn interrupts_enable(flags: &mut InterruptFlags)
    ensures
        final(flags).is_enabled(),
{
    flags.enabled = true;
}

} // verus!
