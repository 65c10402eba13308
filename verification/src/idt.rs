//! The interrupt dispatch table: 256 vectors, built once and immutable
//! after it is loaded into the CPU.
//!
//! Populated with the handlers this kernel installs: breakpoint, double
//! fault (bound to the dedicated fault stack via its interrupt-stack-table
//! slot), timer tick, and keyboard input.  No handler is ever swapped at
//! runtime.
use vstd::prelude::*;

use crate::gdt::DOUBLE_FAULT_IST_INDEX;
use crate::pic8259::KEYBOARD_INTERRUPT_ID;
use crate::pic8259::TIMER_INTERRUPT_ID;

verus! {

/// Number of interrupt vectors the hardware dispatches through the table.
pub const IDT_ENTRIES: usize = 256;

/// The breakpoint exception vector.
pub const BREAKPOINT_VECTOR: u8 = 3;

/// The double-fault exception vector.
pub const DOUBLE_FAULT_VECTOR: u8 = 8;

/// The handlers this kernel installs.
#[derive(Clone, Copy, Debug, PartialEq, Eq, Structural)]
pub enum HandlerKind {
    Breakpoint,
    DoubleFault,
    Timer,
    Keyboard,
}

/// One populated vector: the handler and, if the handler must run on a
/// known-good stack, the interrupt-stack-table slot to switch to.
#[derive(Clone, Copy, Debug, PartialEq, Eq, Structural)]
pub struct IdtEntry {
    pub handler: HandlerKind,
    pub ist_index: Option<u16>,
}

/// The interrupt descriptor table.
pub struct Idt {
    entries: Vec<Option<IdtEntry>>,
    loaded: bool,
}

impl Idt {
    pub closed spec fn spec_entries(self) -> Seq<Option<IdtEntry>> {
        self.entries@
    }

    pub closed spec fn is_loaded(self) -> bool {
        self.loaded
    }

    pub open spec fn wf(self) -> bool {
        self.spec_entries().len() == IDT_ENTRIES
    }

    /// The entry installed for a vector.
    pub open spec fn entry(self, vector: int) -> Option<IdtEntry> {
        if 0 <= vector < self.spec_entries().len() {
            self.spec_entries()[vector]
        } else {
            None
        }
    }

    /// The entry of a vector, for the dispatch path.
    pub fn lookup(&self, vector: u8) -> (r: Option<IdtEntry>)
        requires
            self.wf(),
        ensures
            r == self.entry(vector as int),
    {
        self.entries[vector as usize]
    }
}

/// Builds the dispatch table and loads it into the CPU: breakpoint and
/// double fault at their exception vectors, the double-fault handler bound
/// to the dedicated fault stack's interrupt-stack-table slot, and the timer
/// and keyboard handlers at the remapped hardware vectors.  Every other
/// vector stays empty.
pub fn init() -> (r: Idt)
    ensures
        r.wf(),
        r.is_loaded(),
        r.entry(BREAKPOINT_VECTOR as int) == Some(
            IdtEntry { handler: HandlerKind::Breakpoint, ist_index: None },
        ),
        r.entry(DOUBLE_FAULT_VECTOR as int) == Some(
            IdtEntry { handler: HandlerKind::DoubleFault, ist_index: Some(DOUBLE_FAULT_IST_INDEX) },
        ),
        r.entry(TIMER_INTERRUPT_ID as int) == Some(
            IdtEntry { handler: HandlerKind::Timer, ist_index: None },
        ),
        r.entry(KEYBOARD_INTERRUPT_ID as int) == Some(
            IdtEntry { handler: HandlerKind::Keyboard, ist_index: None },
        ),
        forall|v: int|
            0 <= v < IDT_ENTRIES && v != BREAKPOINT_VECTOR && v != DOUBLE_FAULT_VECTOR && v
                != TIMER_INTERRUPT_ID && v != KEYBOARD_INTERRUPT_ID ==> r.entry(v) is None,
{
    let mut entries: Vec<Option<IdtEntry>> = Vec::new();
    let mut k: usize = 0;
    while k < IDT_ENTRIES
        invariant
            k <= IDT_ENTRIES,
            entries@.len() == k,
            forall|v: int| 0 <= v < k ==> (#[trigger] entries@[v]) is None,
        decreases IDT_ENTRIES - k,
    {
        entries.push(None);
        k += 1;
    }
    entries[BREAKPOINT_VECTOR as usize] = Some(
        IdtEntry { handler: HandlerKind::Breakpoint, ist_index: None },
    );
    entries[DOUBLE_FAULT_VECTOR as usize] = Some(
        IdtEntry { handler: HandlerKind::DoubleFault, ist_index: Some(DOUBLE_FAULT_IST_INDEX) },
    );
    entries[TIMER_INTERRUPT_ID as usize] = Some(
        IdtEntry { handler: HandlerKind::Timer, ist_index: None },
    );
    entries[KEYBOARD_INTERRUPT_ID as usize] = Some(
        IdtEntry { handler: HandlerKind::Keyboard, ist_index: None },
    );
    Idt { entries, loaded: true }
}

} // verus!
