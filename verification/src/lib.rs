//! Boot-time kernel core of a bare-metal x86_64 operating system, modeled as a
//! verified library.
//!
//! The memory-management subsystem (physical frame allocation, virtual page
//! mapping, heap allocation, stack allocation), the interrupt-safe lock that
//! protects shared kernel state, and the trap-table / fault-isolation machinery
//! are expressed over explicit state values: the machine's interrupt-enable
//! flag, the boot memory map, and the page table are data the contracts can
//! speak about.  Hardware access itself (port I/O, control-register writes,
//! the volatile video memory) stays behind narrow interfaces.
use vstd::prelude::*;

pub mod interrupts;
pub mod irq_lock;
pub mod frame_alloc;
pub mod paging;
pub mod heap;
pub mod stack_alloc;
pub mod memory;
pub mod keycodes;
pub mod keyboard;
pub mod scancode;
pub mod gdt;
pub mod pic8259;
pub mod idt;
pub mod exceptions;
pub mod irq;
pub mod time;
pub mod context;
pub mod vga_buffer;
pub mod boot;

verus! {

/// Report produced when a dynamic allocation request cannot be satisfied.
///
/// The allocation-failure callback must not itself allocate, so it only
/// records the size and alignment of the failed request; the caller reports
/// the values and halts.
pub struct OomReport {
    pub size: usize,
    pub align: usize,
}

/// Allocation-failure callback: builds the report for a failed request of
/// `size` bytes with alignment `align`.  The embedding around the library
/// prints the report and halts; recovery is impossible at this boot stage.
pub fn rust_oom(size: usize, align: usize) -> (r: OomReport)
    ensures
        r.size == size,
        r.align == align,
{
    OomReport { size, align }
}

} // verus!
