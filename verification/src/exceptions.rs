//! Exception handling: breakpoint recovery and double-fault isolation.
//!
//! A breakpoint logs and resumes.  A double fault is terminal in this
//! kernel: the handler runs on the dedicated fault stack named by the
//! dispatch table's interrupt-stack-table slot, reports, and halts.  If no
//! valid fault stack were installed the CPU would re-fault on the corrupted
//! stack and reset (a triple fault); the dispatch contract shows that with
//! the installed table this never happens.
use vstd::prelude::*;

use crate::gdt::Gdt;
use crate::gdt::IST_SLOTS;
use crate::idt::DOUBLE_FAULT_VECTOR;
use crate::idt::HandlerKind;
use crate::idt::Idt;

verus! {

/// Whether the CPU is running normally or has halted in the double-fault
/// handler.
#[derive(Clone, Copy, Debug, PartialEq, Eq, Structural)]
pub enum Execution {
    Normal,
    Halted,
}

/// The execution state the trap machinery acts on: the current mode, the
/// stack the CPU is running on, and the markers the handlers write.
#[derive(Clone, Copy, Debug, PartialEq, Eq, Structural)]
pub struct CpuState {
    pub mode: Execution,
    /// Top of the stack the CPU currently runs on.
    pub stack_top: u64,
    /// Side-effecting marker the double-fault handler writes.
    pub fault_reported: bool,
    /// How many breakpoint exceptions were handled.
    pub breakpoints_handled: u64,
}

impl CpuState {
    /// A CPU running normally on the given stack, no faults seen.
    pub fn running(stack_top: u64) -> (r: CpuState)
        ensures
            r == (CpuState {
                mode: Execution::Normal,
                stack_top,
                fault_reported: false,
                breakpoints_handled: 0,
            }),
    {
        CpuState { mode: Execution::Normal, stack_top, fault_reported: false, breakpoints_handled: 0 }
    }
}

/// What became of a double fault.
#[derive(Clone, Copy, Debug, PartialEq, Eq, Structural)]
pub enum FaultOutcome {
    /// The handler ran on the dedicated stack, reported, and halted.
    Reported,
    /// No valid handler stack: the CPU re-faults and resets.
    TripleFault,
}

/// The breakpoint handler: reports the exception and returns to the
/// interrupted context; execution continues normally.
pub fn breakpoint_handler(cpu: &mut CpuState)
    requires
        old(cpu).mode == Execution::Normal,
    ensures
        final(cpu).mode == Execution::Normal,
        final(cpu).breakpoints_handled == if old(cpu).breakpoints_handled == u64::MAX {
            0u64
        } else {
            (old(cpu).breakpoints_handled + 1) as u64
        },
        final(cpu).stack_top == old(cpu).stack_top,
        final(cpu).fault_reported == old(cpu).fault_reported,
{
    if cpu.breakpoints_handled == u64::MAX {
        cpu.breakpoints_handled = 0;
    } else {
        cpu.breakpoints_handled = cpu.breakpoints_handled + 1;
    }
}

/// The double-fault handler body: writes the report marker and halts.  It
/// never returns to the faulting context; the hardware has already switched
/// the CPU to the handler's stack.
pub fn double_fault_handler(cpu: &mut CpuState)
    ensures
        final(cpu).fault_reported,
        final(cpu).mode == Execution::Halted,
        final(cpu).stack_top == old(cpu).stack_top,
        final(cpu).breakpoints_handled == old(cpu).breakpoints_handled,
{
    cpu.fault_reported = true;
    cpu.mode = Execution::Halted;
}

/// Delivers a double fault, as the hardware would after a kernel stack
/// overflow: looks up the double-fault vector, switches to the stack its
/// interrupt-stack-table slot names, and runs the handler there.  With the
/// installed table the outcome is a report and a halt on the dedicated
/// fault stack; only a table without a valid handler stack ends in a CPU
/// reset.
pub fn dispatch_double_fault(idt: &Idt, gdt: &Gdt, cpu: &mut CpuState) -> (r: FaultOutcome)
    requires
        idt.wf(),
        gdt.wf(),
    ensures
        match r {
            FaultOutcome::Reported => {
                &&& exists|slot: u16|
                    0 <= slot < IST_SLOTS && idt.entry(DOUBLE_FAULT_VECTOR as int) == Some(
                        crate::idt::IdtEntry {
                            handler: HandlerKind::DoubleFault,
                            ist_index: Some(slot),
                        },
                    ) && #[trigger] gdt.ist_top(slot as int) == Some(final(cpu).stack_top)
                &&& final(cpu).fault_reported
                &&& final(cpu).mode == Execution::Halted
            },
            FaultOutcome::TripleFault => {
                &&& !(exists|slot: u16|
                    0 <= slot < IST_SLOTS && idt.entry(DOUBLE_FAULT_VECTOR as int) == Some(
                        crate::idt::IdtEntry {
                            handler: HandlerKind::DoubleFault,
                            ist_index: Some(slot),
                        },
                    ) && #[trigger] gdt.ist_top(slot as int) is Some)
                &&& *final(cpu) == *old(cpu)
            },
        },
{
    let entry = idt.lookup(DOUBLE_FAULT_VECTOR);
    match entry {
        Some(e) => {
            if !matches!(e.handler, HandlerKind::DoubleFault) {
                return FaultOutcome::TripleFault;
            }
            match e.ist_index {
                Some(slot) => {
                    if slot as usize >= IST_SLOTS {
                        return FaultOutcome::TripleFault;
                    }
                    match gdt.lookup_ist(slot as usize) {
                        Some(top) => {
                            cpu.stack_top = top;
                            double_fault_handler(cpu);
                            proof {
                                assert(idt.entry(DOUBLE_FAULT_VECTOR as int) == Some(
                                    crate::idt::IdtEntry {
                                        handler: HandlerKind::DoubleFault,
                                        ist_index: Some(slot),
                                    },
                                ));
                            }
                            FaultOutcome::Reported
                        },
                        None => FaultOutcome::TripleFault,
                    }
                },
                None => FaultOutcome::TripleFault,
            }
        },
        None => FaultOutcome::TripleFault,
    }
}

} // verus!
