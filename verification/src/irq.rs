//! Hardware interrupt handlers: timer tick and keyboard input.
//!
//! Each handler is a producer into explicitly passed state: the timer
//! advances the tick counter, the keyboard handler queues the scan-code
//! byte it read from the device.  Neither decodes or allocates under
//! interrupt, and each acknowledges completion to the interrupt controller
//! before returning, or no further interrupts of equal or lower priority
//! would be delivered.
use vstd::prelude::*;

use crate::keyboard::Keyboard;
use crate::pic8259::ChainedPics;
use crate::pic8259::KEYBOARD_INTERRUPT_ID;
use crate::pic8259::TIMER_INTERRUPT_ID;
use crate::time::Time;

verus! {

/// The timer interrupt: one tick, then the acknowledgment.
pub fn timer_interrupt_handler(time: &mut Time, pics: &mut ChainedPics)
    ensures
        final(time).spec_ticks() == if old(time).spec_ticks() == u64::MAX {
            0u64
        } else {
            (old(time).spec_ticks() + 1) as u64
        },
        final(pics).spec_last_eoi() == Some(TIMER_INTERRUPT_ID),
{
    time.tick();
    pics.notify_end_of_interrupt(TIMER_INTERRUPT_ID);
}

/// The keyboard interrupt: queues the scan code read from the device port,
/// then acknowledges.  Decoding happens later, outside the interrupt.
pub fn keyboard_interrupt_handler(scancode: u8, keyboard: &mut Keyboard, pics: &mut ChainedPics)
    ensures
        final(keyboard).buffer() == old(keyboard).buffer().push(scancode),
        final(pics).spec_last_eoi() == Some(KEYBOARD_INTERRUPT_ID),
{
    keyboard.queue_scancode(scancode);
    pics.notify_end_of_interrupt(KEYBOARD_INTERRUPT_ID);
}

} // verus!
