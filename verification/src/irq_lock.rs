//! The IRQ-safe lock: the kernel's only concurrency-control primitive.
//!
//! On a single core with no preemptive scheduler, "interrupts are disabled"
//! is equivalent to "exclusive access".  The lock wraps a value and hands it
//! out only against a guard; taking the guard records whether interrupts were
//! enabled and disables them, releasing the guard restores exactly the state
//! observed at acquisition.  Guards therefore nest without a counter: an
//! inner guard taken while interrupts are already off restores "off", and
//! only the outermost guard re-enables delivery.
use vstd::prelude::*;

use crate::interrupts::InterruptFlags;
use crate::interrupts::interrupts_disable;
use crate::interrupts::interrupts_enable;
use crate::interrupts::interrupts_enabled;

verus! {

/// Mutual-exclusion wrapper that suspends hardware interrupts for the
/// duration of the critical section.
pub struct IrqLock<T> {
    data: T,
}

/// Scoped token for one critical section.  It remembers the interrupt state
/// observed when it was taken; dropping it through [`IrqLock::unlock`] is the
/// single point where that state is restored.
pub struct IrqGuard {
    was_enabled: bool,
}

impl IrqGuard {
    /// The interrupt-enable state observed at acquisition.
    pub closed spec fn saw_enabled(self) -> bool {
        self.was_enabled
    }
}

/// One acquisition: afterwards interrupts are off and the guard remembers
/// what it saw before.
pub open spec fn lock_step(pre: InterruptFlags, post: InterruptFlags, g: IrqGuard) -> bool {
    &&& !post.is_enabled()
    &&& g.saw_enabled() == pre.is_enabled()
}

/// One release: interrupts become enabled exactly if the guard saw them
/// enabled (or a foreign path already re-enabled them, which the disciplined
/// boot code never does).
pub open spec fn unlock_step(pre: InterruptFlags, post: InterruptFlags, g: IrqGuard) -> bool {
    post.is_enabled() == (pre.is_enabled() || g.saw_enabled())
}

impl<T> IrqLock<T> {
    /// The protected value, for contracts.
    pub closed spec fn value(self) -> T {
        self.data
    }

    pub fn new(data: T) -> (l: IrqLock<T>)
        ensures
            l.value() == data,
    {
        IrqLock { data }
    }

    /// Acquires the lock: records the interrupt state, then masks interrupts.
    /// While the returned guard is outstanding no interrupt handler can run,
    /// so the protected value cannot be mutated concurrently.
    pub fn lock(&self, flags: &mut InterruptFlags) -> (g: IrqGuard)
        ensures
            lock_step(*old(flags), *final(flags), g),
    {
        let was_enabled = interrupts_enabled(flags);
        if was_enabled {
            interrupts_disable(flags);
        }
        IrqGuard { was_enabled }
    }

    /// Releases the guard: re-enables interrupts only if this guard observed
    /// them enabled at its own acquisition.
    pub fn unlock(&self, g: IrqGuard, flags: &mut InterruptFlags)
        ensures
            unlock_step(*old(flags), *final(flags), g),
    {
        if g.was_enabled {
            interrupts_enable(flags);
        }
    }

    /// Reads the protected value.  The guard argument keeps every access
    /// inside a critical section; the lock itself cannot check that the guard
    /// came from this lock, that discipline is the caller's.
    pub fn borrow<'a>(&'a self, _g: &IrqGuard) -> (r: &'a T)
        ensures
            *r == self.value(),
    {
        &self.data
    }

    /// Replaces the protected value, returning the previous one.
    pub fn replace(&mut self, _g: &IrqGuard, data: T) -> (r: T)
        ensures
            r == old(self).value(),
            final(self).value() == data,
    {
        let mut data = data;
        core::mem::swap(&mut self.data, &mut data);
        data
    }

    /// Mutable access to the protected value for the guard's scope.
    pub fn borrow_mut<'a>(&'a mut self, _g: &IrqGuard) -> (r: &'a mut T)
        ensures
            *r == old(self).value(),
            final(self).value() == *final(r),
    {
        &mut self.data
    }
}

/// Nesting law: starting with interrupts enabled, an outer acquisition
/// disables them immediately; a nested acquisition and release of a second
/// lock keeps them disabled for the whole outer scope; only releasing the
/// outer guard re-enables them.
pub proof fn lemma_irq_lock_nesting(
    f0: InterruptFlags,
    f1: InterruptFlags,
    f2: InterruptFlags,
    f3: InterruptFlags,
    f4: InterruptFlags,
    outer: IrqGuard,
    inner: IrqGuard,
)
    requires
        f0.is_enabled(),
        lock_step(f0, f1, outer),
        lock_step(f1, f2, inner),
        unlock_step(f2, f3, inner),
        unlock_step(f3, f4, outer),
    ensures
        !f1.is_enabled(),
        !f2.is_enabled(),
        !f3.is_enabled(),
        f4.is_enabled(),
{
}

} // verus!
