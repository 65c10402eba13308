//! Task-state segment and fault-stack setup.
//!
//! The double-fault handler must run on a stack that is known to be valid
//! even when the kernel stack itself has overflowed.  A statically reserved
//! buffer, allocated before the heap exists and never touched by the heap
//! allocator, is recorded in slot zero of the interrupt stack table; the
//! CPU switches to it on a double fault instead of re-faulting on the
//! corrupted stack.
use vstd::prelude::*;

verus! {

/// Interrupt-stack-table slot reserved for the double-fault handler.
pub const DOUBLE_FAULT_IST_INDEX: u16 = 0;

/// Size of the statically reserved fault stack in bytes.
pub const FAULT_STACK_SIZE: u64 = 4096;

/// Number of interrupt-stack-table slots the hardware provides.
pub const IST_SLOTS: usize = 7;

/// The statically reserved double-fault stack: the byte range
/// `[base, base + FAULT_STACK_SIZE)`, reserved before the heap exists.
#[derive(Clone, Copy, Debug, PartialEq, Eq, Structural)]
pub struct FaultStack {
    pub base: u64,
}

impl FaultStack {
    /// The first address past the stack; x86 stacks grow downward, so this
    /// is the value loaded into the stack pointer.
    pub open spec fn spec_top(self) -> int {
        self.base + FAULT_STACK_SIZE
    }

    pub fn new(base: u64) -> (r: FaultStack)
        requires
            base + FAULT_STACK_SIZE <= u64::MAX,
        ensures
            r.base == base,
    {
        FaultStack { base }
    }

    pub fn top(self) -> (r: u64)
        requires
            self.base + FAULT_STACK_SIZE <= u64::MAX,
        ensures
            r == self.spec_top(),
    {
        self.base + FAULT_STACK_SIZE
    }

    /// The stack is disjoint from the heap region, so double-fault handling
    /// works even when the heap is corrupted or exhausted.
    pub open spec fn disjoint_from(self, start: int, size: int) -> bool {
        self.spec_top() <= start || start + size <= self.base
    }
}

/// The loaded descriptor state: a task-state segment whose interrupt stack
/// table holds the fault-stack top in the double-fault slot.
pub struct Gdt {
    ist: Vec<Option<u64>>,
    loaded: bool,
}

impl Gdt {
    pub closed spec fn spec_ist(self) -> Seq<Option<u64>> {
        self.ist@
    }

    pub closed spec fn is_loaded(self) -> bool {
        self.loaded
    }

    /// The stack top recorded in an interrupt-stack-table slot.
    pub open spec fn ist_top(self, slot: int) -> Option<u64> {
        if 0 <= slot < self.spec_ist().len() {
            self.spec_ist()[slot]
        } else {
            None
        }
    }

    pub open spec fn wf(self) -> bool {
        self.spec_ist().len() == IST_SLOTS
    }

    /// The stack top of a slot, for callers.
    pub fn lookup_ist(&self, slot: usize) -> (r: Option<u64>)
        requires
            self.wf(),
            slot < IST_SLOTS,
        ensures
            r == self.ist_top(slot as int),
    {
        self.ist[slot]
    }
}

/// Builds and loads the descriptor tables: the task-state segment gets the
/// top of the dedicated fault stack in the double-fault slot of its
/// interrupt stack table, every other slot stays empty.
pub fn init(fault_stack: &FaultStack) -> (r: Gdt)
    requires
        fault_stack.base + FAULT_STACK_SIZE <= u64::MAX,
    ensures
        r.wf(),
        r.is_loaded(),
        r.ist_top(DOUBLE_FAULT_IST_INDEX as int) == Some((fault_stack.base + FAULT_STACK_SIZE) as u64),
        forall|slot: int|
            0 <= slot < IST_SLOTS && slot != DOUBLE_FAULT_IST_INDEX
                ==> r.ist_top(slot) is None,
{
    let mut ist: Vec<Option<u64>> = Vec::new();
    let mut k: usize = 0;
    while k < IST_SLOTS
        invariant
            k <= IST_SLOTS,
            ist@.len() == k,
            forall|s: int| 0 <= s < k ==> (#[trigger] ist@[s]) is None,
        decreases IST_SLOTS - k,
    {
        ist.push(None);
        k += 1;
    }
    ist[DOUBLE_FAULT_IST_INDEX as usize] = Some(fault_stack.top());
    Gdt { ist, loaded: true }
}

} // verus!
