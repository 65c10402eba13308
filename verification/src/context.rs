//! The saved register context of a process, for the context switch the
//! scheduler will one day perform.
//!
//! No scheduler consumes this yet; the structure records what the switch
//! code saves and restores: the flags register, the callee-saved registers,
//! and the stack pointers.
use vstd::prelude::*;

verus! {

/// The interrupt-enable bit of the flags register.
pub const RFLAGS_INTERRUPT_FLAG: u64 = 0x200;

/// A process's saved registers and processor flags.
#[derive(Clone, Copy, Debug, PartialEq, Eq, Structural)]
pub struct Context {
    pub rflags: u64,
    pub rbx: u64,
    pub r12: u64,
    pub r13: u64,
    pub r14: u64,
    /// Base of the process stack.
    pub rbp: u64,
    /// Current stack pointer of the process.
    pub rsp: u64,
}

impl Context {
    /// The all-zero context.
    pub fn empty() -> (r: Context)
        ensures
            r == (Context { rflags: 0, rbx: 0, r12: 0, r13: 0, r14: 0, rbp: 0, rsp: 0 }),
    {
        Context { rflags: 0, rbx: 0, r12: 0, r13: 0, r14: 0, rbp: 0, rsp: 0 }
    }

    /// A fresh context for a process entered at `proc_entry` on the stack
    /// ending at `stack_top`: interrupts enabled, both stack registers at
    /// the top of the empty stack.  The entry address is not yet wired in;
    /// the switch path that would push it is not functionally complete.
    pub fn new(stack_top: u64, _proc_entry: u64) -> (r: Context)
        ensures
            r == (Context {
                rflags: RFLAGS_INTERRUPT_FLAG,
                rbx: 0,
                r12: 0,
                r13: 0,
                r14: 0,
                rbp: stack_top,
                rsp: stack_top,
            }),
    {
        let ctx = Context {
            rflags: RFLAGS_INTERRUPT_FLAG,
            rbx: 0,
            r12: 0,
            r13: 0,
            r14: 0,
            rbp: stack_top,
            rsp: stack_top,
        };
        ctx
    }
}

} // verus!
