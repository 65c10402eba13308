//! The two chained programmable interrupt controllers, remapped to vectors
//! past the CPU-reserved exception range.
//!
//! The first 32 vectors belong to CPU exceptions, so the controllers are
//! reprogrammed to deliver hardware interrupts starting at vector 32.  A
//! handler must acknowledge completion to the controller before returning,
//! or no further interrupts of equal or lower priority are delivered; the
//! model records the last acknowledgment so handler contracts can demand
//! it.
use vstd::prelude::*;

use crate::interrupts::InterruptFlags;
use crate::interrupts::interrupts_enable;

verus! {

/// First vector of the primary controller, directly after the CPU-reserved
/// exception vectors.
pub const PIC_1_OFFSET: u8 = 32;

/// First vector of the secondary controller.
pub const PIC_2_OFFSET: u8 = PIC_1_OFFSET + 8;

/// The timer interrupt arrives on the primary controller's first line.
pub const TIMER_INTERRUPT_ID: u8 = PIC_1_OFFSET;

/// The keyboard interrupt arrives on the primary controller's second line.
pub const KEYBOARD_INTERRUPT_ID: u8 = PIC_1_OFFSET + 1;

/// The chained controllers: their programmed vector offsets and the last
/// end-of-interrupt acknowledgment a handler sent.
pub struct ChainedPics {
    offset1: u8,
    offset2: u8,
    last_eoi: Option<u8>,
}

impl ChainedPics {
    pub closed spec fn spec_offset1(self) -> u8 {
        self.offset1
    }

    pub closed spec fn spec_offset2(self) -> u8 {
        self.offset2
    }

    /// The vector of the last acknowledged interrupt.
    pub closed spec fn spec_last_eoi(self) -> Option<u8> {
        self.last_eoi
    }

    /// Controllers created with the chosen offsets; nothing acknowledged.
    pub fn new(offset1: u8, offset2: u8) -> (r: ChainedPics)
        ensures
            r.spec_offset1() == offset1,
            r.spec_offset2() == offset2,
            r.spec_last_eoi() is None,
    {
        ChainedPics { offset1, offset2, last_eoi: None }
    }

    /// Acknowledges completion of the handler for `vector` to the
    /// controller, re-arming delivery of equal and lower priorities.
    pub fn notify_end_of_interrupt(&mut self, vector: u8)
        ensures
            final(self).spec_last_eoi() == Some(vector),
            final(self).spec_offset1() == old(self).spec_offset1(),
            final(self).spec_offset2() == old(self).spec_offset2(),
    {
        self.last_eoi = Some(vector);
    }
}

/// Reprograms the controllers to the remapped offsets and unmasks hardware
/// interrupt delivery.
pub fn init(flags: &mut InterruptFlags) -> (r: ChainedPics)
    ensures
        r.spec_offset1() == PIC_1_OFFSET,
        r.spec_offset2() == PIC_2_OFFSET,
        r.spec_last_eoi() is None,
        final(flags).is_enabled(),
{
    let pics = ChainedPics::new(PIC_1_OFFSET, PIC_2_OFFSET);
    interrupts_enable(flags);
    pics
}

} // verus!
