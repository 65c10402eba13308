//! The byte-level scan-code protocol state: make / break classification and
//! the multi-byte prefix.
//!
//! This is the low-level view of the keyboard protocol: a scan code with
//! the high bit set reports a key release (break), otherwise a key press
//! (make); the codes `0xE0` and `0xE1` announce that the next byte belongs
//! to a multi-byte sequence.  The state machine here only classifies bytes;
//! the decode tables live with the key queue.
use vstd::prelude::*;

verus! {

/// Whether the last classified scan code was a key press or a release.
#[derive(Clone, Copy, Debug, PartialEq, Eq, Structural)]
pub enum MakeBreak {
    Idle,
    Make,
    Break,
}

/// A classified key action.
#[derive(Clone, Copy, Debug, PartialEq, Eq, Structural)]
pub struct KeyPress {
    pub make_break: MakeBreak,
    pub is_character: bool,
    pub ascii_character: Option<char>,
}

/// The protocol state: whether the next byte continues a multi-byte
/// sequence, and the make / break classification in flight.
pub struct Keyboard {
    make_break: MakeBreak,
    multi_byte: bool,
}

impl Keyboard {
    pub closed spec fn spec_make_break(self) -> MakeBreak {
        self.make_break
    }

    pub closed spec fn spec_multi_byte(self) -> bool {
        self.multi_byte
    }

    /// The idle protocol state.
    pub fn new() -> (r: Keyboard)
        ensures
            r.spec_make_break() == MakeBreak::Idle,
            !r.spec_multi_byte(),
    {
        Keyboard { make_break: MakeBreak::Idle, multi_byte: false }
    }

    /// Consumes one scan-code byte.  A multi-byte prefix only arms the
    /// multi-byte flag; any other byte is classified (break when the high
    /// bit is set, make otherwise) and the state returns to idle.  The call
    /// cannot fail.
    pub fn process_scancode(&mut self, scancode: u8) -> (r: Result<(), &'static str>)
        ensures
            r is Ok,
            if scancode == 0xE0 || scancode == 0xE1 {
                &&& final(self).spec_multi_byte()
                &&& final(self).spec_make_break() == old(self).spec_make_break()
            } else {
                &&& !final(self).spec_multi_byte()
                &&& final(self).spec_make_break() == MakeBreak::Idle
            },
    {
        if scancode == 0xE0 || scancode == 0xE1 {
            self.multi_byte = true;
            return Ok(());
        }
        if !self.multi_byte {
            if (scancode & 128) == 128 {
                self.make_break = MakeBreak::Break;
            } else {
                self.make_break = MakeBreak::Make;
            }
            let _key_press = KeyPress {
                make_break: self.make_break,
                is_character: true,
                ascii_character: Some('a'),
            };
            self.reset();
            return Ok(());
        }
        self.reset();
        Ok(())
    }

    /// The make / break classification in flight.
    pub fn make_break(&self) -> (r: MakeBreak)
        ensures
            r == self.spec_make_break(),
    {
        self.make_break
    }

    /// Whether the next byte continues a multi-byte sequence.
    pub fn is_multi_byte(&self) -> (r: bool)
        ensures
            r == self.spec_multi_byte(),
    {
        self.multi_byte
    }

    /// Returns the protocol state to idle.
    pub fn reset(&mut self)
        ensures
            final(self).spec_make_break() == MakeBreak::Idle,
            !final(self).spec_multi_byte(),
    {
        self.make_break = MakeBreak::Idle;
        self.multi_byte = false;
    }
}

} // verus!
