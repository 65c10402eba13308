//! Scan-code decoding tables and modifier-key state.
//!
//! A PS/2 keyboard reports key presses and releases as scan codes; these
//! tables turn a code into a key event, and the modifier state applies
//! shift and caps-lock to the printable keys.  Pure table lookups: every
//! function's result is pinned exactly by its specification twin.
use vstd::prelude::*;

verus! {

/// The modifier keys; the payload of a latching pair says whether the key
/// went down or up, caps lock toggles.
#[derive(Clone, Copy, Debug, PartialEq, Eq, Structural)]
pub enum Modifier {
    AltLeft(bool),
    AltRight(bool),
    CapsLock,
    ControlLeft(bool),
    ControlRight(bool),
    NumLock,
    ScrollLock,
    ShiftLeft(bool),
    ShiftRight(bool),
}

/// Linked keys that exist on both sides of the keyboard, shift or alt.
#[derive(Clone, Copy, Debug, PartialEq, Eq, Structural)]
pub struct KeyPair {
    pub left: bool,
    pub right: bool,
}

impl KeyPair {
    pub fn new() -> (r: KeyPair)
        ensures
            !r.left,
            !r.right,
    {
        KeyPair { left: false, right: false }
    }

    /// Either side of the pair is down.
    pub open spec fn spec_is_pressed(self) -> bool {
        self.left || self.right
    }

    pub fn is_pressed(&self) -> (r: bool)
        ensures
            r == self.spec_is_pressed(),
    {
        self.left || self.right
    }
}

/// The keyboard's modifier state.
#[derive(Clone, Copy, Debug, PartialEq, Eq, Structural)]
pub struct ModifierState {
    pub alt: KeyPair,
    pub caps_lock: bool,
    pub control: KeyPair,
    pub num_lock: bool,
    pub scroll_lock: bool,
    pub shift: KeyPair,
}

/// The modifier state after applying one modifier event: a latching key
/// records its new position, caps lock toggles.  Num lock and scroll lock
/// are tracked but not wired to a toggle yet; nothing in the kernel reads
/// them.
pub open spec fn spec_update(s: ModifierState, m: Modifier) -> ModifierState {
    match m {
        Modifier::AltLeft(state) => ModifierState { alt: KeyPair { left: state, ..s.alt }, ..s },
        Modifier::AltRight(state) => ModifierState { alt: KeyPair { right: state, ..s.alt }, ..s },
        Modifier::CapsLock => ModifierState { caps_lock: !s.caps_lock, ..s },
        Modifier::ControlLeft(state) => ModifierState {
            control: KeyPair { left: state, ..s.control },
            ..s
        },
        Modifier::ControlRight(state) => ModifierState {
            control: KeyPair { right: state, ..s.control },
            ..s
        },
        Modifier::NumLock => s,
        Modifier::ScrollLock => ModifierState { scroll_lock: s.num_lock, ..s },
        Modifier::ShiftLeft(state) => ModifierState {
            shift: KeyPair { left: state, ..s.shift },
            ..s
        },
        Modifier::ShiftRight(state) => ModifierState {
            shift: KeyPair { right: state, ..s.shift },
            ..s
        },
    }
}

impl ModifierState {
    pub fn new() -> (r: ModifierState)
        ensures
            r == (ModifierState {
                alt: KeyPair { left: false, right: false },
                caps_lock: false,
                control: KeyPair { left: false, right: false },
                num_lock: false,
                scroll_lock: false,
                shift: KeyPair { left: false, right: false },
            }),
    {
        ModifierState {
            alt: KeyPair::new(),
            caps_lock: false,
            control: KeyPair::new(),
            num_lock: false,
            scroll_lock: false,
            shift: KeyPair::new(),
        }
    }

    /// Letters print as capitals: shift held, or caps lock latched, but not
    /// both.
    pub open spec fn spec_is_uppercase(self) -> bool {
        self.shift.spec_is_pressed() != self.caps_lock
    }

    pub fn is_uppercase(&self) -> (r: bool)
        ensures
            r == self.spec_is_uppercase(),
    {
        self.shift.is_pressed() ^ self.caps_lock
    }

    /// Applies the modifiers to a printable character.
    pub fn apply_to(&self, ascii: u8) -> (r: u8)
        ensures
            r == if self.spec_is_uppercase() {
                spec_map_to_upper(ascii)
            } else {
                ascii
            },
    {
        if self.is_uppercase() {
            map_to_upper(ascii)
        } else {
            ascii
        }
    }

    /// Records one modifier event.
    pub fn update(&mut self, m: Modifier)
        ensures
            *final(self) == spec_update(*old(self), m),
    {
        match m {
            Modifier::AltLeft(state) => self.alt.left = state,
            Modifier::AltRight(state) => self.alt.right = state,
            Modifier::CapsLock => self.caps_lock = !self.caps_lock,
            Modifier::ControlLeft(state) => self.control.left = state,
            Modifier::ControlRight(state) => self.control.right = state,
            Modifier::NumLock => self.num_lock = self.num_lock,
            Modifier::ScrollLock => self.scroll_lock = self.num_lock,
            Modifier::ShiftLeft(state) => self.shift.left = state,
            Modifier::ShiftRight(state) => self.shift.right = state,
        }
    }
}

/// A key going down or coming up.
#[derive(Clone, Copy, Debug, PartialEq, Eq, Structural)]
pub enum KeyEvent {
    Pressed(Key),
    Released(Key),
}

/// What a scan code decodes to.
#[derive(Clone, Copy, Debug, PartialEq, Eq, Structural)]
pub enum Key {
    /// A character the modifiers cannot change.
    Ascii(u8),
    /// A modifier key.
    Meta(Modifier),
    /// A character in its lower-case form, subject to the modifiers.
    LowerAscii(u8),
    /// A non-character key such as an arrow.
    Special(Other),
}

/// Non-character keys reachable through the two-byte scan codes.
#[derive(Clone, Copy, Debug, PartialEq, Eq, Structural)]
pub enum Other {
    ArrowUp(bool),
    ArrowDown(bool),
    ArrowLeft(bool),
    ArrowRight(bool),
}

/// The shifted form of a printable character: letters are upper-cased, the
/// number row and punctuation map to their shifted symbols, everything else
/// to NUL.
pub open spec fn spec_map_to_upper(lower: u8) -> u8 {
    if 0x61 <= lower <= 0x7a {
        (lower - 0x20) as u8
    } else {
        match lower {
            0x60 => 0x7e,
            0x31 => 0x21,
            0x32 => 0x40,
            0x33 => 0x23,
            0x34 => 0x24,
            0x35 => 0x25,
            0x36 => 0x5e,
            0x37 => 0x26,
            0x38 => 0x2a,
            0x39 => 0x28,
            0x30 => 0x29,
            0x2d => 0x5f,
            0x3d => 0x2b,
            0x5b => 0x7b,
            0x5d => 0x7d,
            0x5c => 0x7c,
            0x3b => 0x3a,
            0x27 => 0x22,
            0x2c => 0x3c,
            0x2e => 0x3e,
            0x2f => 0x3f,
            _ => 0x0,
        }
    }
}

/// Executable twin of [`spec_map_to_upper`].
pub fn map_to_upper(lower: u8) -> (r: u8)
    ensures
        r == spec_map_to_upper(lower),
{
    if 0x61 <= lower && lower <= 0x7a {
        lower - 0x20
    } else {
        match lower {
            0x60 => 0x7e,
            0x31 => 0x21,
            0x32 => 0x40,
            0x33 => 0x23,
            0x34 => 0x24,
            0x35 => 0x25,
            0x36 => 0x5e,
            0x37 => 0x26,
            0x38 => 0x2a,
            0x39 => 0x28,
            0x30 => 0x29,
            0x2d => 0x5f,
            0x3d => 0x2b,
            0x5b => 0x7b,
            0x5d => 0x7d,
            0x5c => 0x7c,
            0x3b => 0x3a,
            0x27 => 0x22,
            0x2c => 0x3c,
            0x2e => 0x3e,
            0x2f => 0x3f,
            _ => 0x0,
        }
    }
}

/// The character of the single-byte printable scan codes, row by row.
pub open spec fn spec_lower_ascii_of(scancode: u64) -> u8 {
    match scancode {
        0x02 => 0x31,
        0x03 => 0x32,
        0x04 => 0x33,
        0x05 => 0x34,
        0x06 => 0x35,
        0x07 => 0x36,
        0x08 => 0x37,
        0x09 => 0x38,
        0x0A => 0x39,
        0x0B => 0x30,
        0x0C => 0x2d,
        0x0D => 0x3d,
        0x10 => 0x71,
        0x11 => 0x77,
        0x12 => 0x65,
        0x13 => 0x72,
        0x14 => 0x74,
        0x15 => 0x79,
        0x16 => 0x75,
        0x17 => 0x69,
        0x18 => 0x6f,
        0x19 => 0x70,
        0x1A => 0x5b,
        0x1B => 0x5d,
        0x1E => 0x61,
        0x1F => 0x73,
        0x20 => 0x64,
        0x21 => 0x66,
        0x22 => 0x67,
        0x23 => 0x68,
        0x24 => 0x6a,
        0x25 => 0x6b,
        0x26 => 0x6c,
        0x27 => 0x3b,
        0x28 => 0x27,
        0x29 => 0x60,
        0x2B => 0x5c,
        0x2C => 0x7a,
        0x2D => 0x78,
        0x2E => 0x63,
        0x2F => 0x76,
        0x30 => 0x62,
        0x31 => 0x6e,
        0x32 => 0x6d,
        0x33 => 0x2c,
        0x34 => 0x2e,
        0x35 => 0x2f,
        _ => 0x0,
    }
}

/// Whether the single-byte scan code is a printable, modifiable key.
pub open spec fn spec_is_lower_ascii(scancode: u64) -> bool {
    0x02 <= scancode <= 0x0D || 0x10 <= scancode <= 0x1B || 0x1E <= scancode <= 0x28
        || 0x2C <= scancode <= 0x35 || scancode == 0x29 || scancode == 0x2B
}

/// The key event of a single-byte scan code, if it is one the kernel knows.
pub open spec fn spec_match_scancode(scancode: u64) -> Option<KeyEvent> {
    if spec_is_lower_ascii(scancode) {
        Some(KeyEvent::Pressed(Key::LowerAscii(spec_lower_ascii_of(scancode))))
    } else {
        match scancode {
            // non-modifiable keys
            0x01 => Some(KeyEvent::Pressed(Key::Ascii(0x1B))),
            0x0E => Some(KeyEvent::Pressed(Key::Ascii(0x8))),
            0x0F => Some(KeyEvent::Pressed(Key::Ascii(0x09))),
            0x1C => Some(KeyEvent::Pressed(Key::Ascii(0x0a))),
            0x39 => Some(KeyEvent::Pressed(Key::Ascii(0x20))),
            // modifier presses
            0x1D => Some(KeyEvent::Pressed(Key::Meta(Modifier::ControlLeft(true)))),
            0xE01D => Some(KeyEvent::Pressed(Key::Meta(Modifier::ControlRight(true)))),
            0x2A => Some(KeyEvent::Pressed(Key::Meta(Modifier::ShiftLeft(true)))),
            0x36 => Some(KeyEvent::Pressed(Key::Meta(Modifier::ShiftRight(true)))),
            0x38 => Some(KeyEvent::Pressed(Key::Meta(Modifier::AltLeft(true)))),
            0xE038 => Some(KeyEvent::Pressed(Key::Meta(Modifier::AltRight(false)))),
            0x3A => Some(KeyEvent::Pressed(Key::Meta(Modifier::CapsLock))),
            0x45 => Some(KeyEvent::Pressed(Key::Meta(Modifier::NumLock))),
            0x46 => Some(KeyEvent::Pressed(Key::Meta(Modifier::ScrollLock))),
            // modifier releases
            0xAA => Some(KeyEvent::Released(Key::Meta(Modifier::ShiftLeft(false)))),
            0xB6 => Some(KeyEvent::Released(Key::Meta(Modifier::ShiftRight(false)))),
            0x9D => Some(KeyEvent::Released(Key::Meta(Modifier::ControlLeft(false)))),
            0xE09D => Some(KeyEvent::Released(Key::Meta(Modifier::ControlRight(false)))),
            0xB8 => Some(KeyEvent::Released(Key::Meta(Modifier::AltLeft(false)))),
            0xE0B8 => Some(KeyEvent::Released(Key::Meta(Modifier::AltRight(false)))),
            _ => None,
        }
    }
}

/// Executable twin of [`spec_match_scancode`].
pub fn match_scancode(scancode: u64) -> (r: Option<KeyEvent>)
    ensures
        r == spec_match_scancode(scancode),
{
    if (0x02 <= scancode && scancode <= 0x0D) || (0x10 <= scancode && scancode <= 0x1B) || (0x1E
        <= scancode && scancode <= 0x28) || (0x2C <= scancode && scancode <= 0x35) || scancode
        == 0x29 || scancode == 0x2B {
        Some(KeyEvent::Pressed(Key::LowerAscii(lower_ascii_of(scancode))))
    } else {
        match scancode {
            0x01 => Some(KeyEvent::Pressed(Key::Ascii(0x1B))),
            0x0E => Some(KeyEvent::Pressed(Key::Ascii(0x8))),
            0x0F => Some(KeyEvent::Pressed(Key::Ascii(0x09))),
            0x1C => Some(KeyEvent::Pressed(Key::Ascii(0x0a))),
            0x39 => Some(KeyEvent::Pressed(Key::Ascii(0x20))),
            0x1D => Some(KeyEvent::Pressed(Key::Meta(Modifier::ControlLeft(true)))),
            0xE01D => Some(KeyEvent::Pressed(Key::Meta(Modifier::ControlRight(true)))),
            0x2A => Some(KeyEvent::Pressed(Key::Meta(Modifier::ShiftLeft(true)))),
            0x36 => Some(KeyEvent::Pressed(Key::Meta(Modifier::ShiftRight(true)))),
            0x38 => Some(KeyEvent::Pressed(Key::Meta(Modifier::AltLeft(true)))),
            0xE038 => Some(KeyEvent::Pressed(Key::Meta(Modifier::AltRight(false)))),
            0x3A => Some(KeyEvent::Pressed(Key::Meta(Modifier::CapsLock))),
            0x45 => Some(KeyEvent::Pressed(Key::Meta(Modifier::NumLock))),
            0x46 => Some(KeyEvent::Pressed(Key::Meta(Modifier::ScrollLock))),
            0xAA => Some(KeyEvent::Released(Key::Meta(Modifier::ShiftLeft(false)))),
            0xB6 => Some(KeyEvent::Released(Key::Meta(Modifier::ShiftRight(false)))),
            0x9D => Some(KeyEvent::Released(Key::Meta(Modifier::ControlLeft(false)))),
            0xE09D => Some(KeyEvent::Released(Key::Meta(Modifier::ControlRight(false)))),
            0xB8 => Some(KeyEvent::Released(Key::Meta(Modifier::AltLeft(false)))),
            0xE0B8 => Some(KeyEvent::Released(Key::Meta(Modifier::AltRight(false)))),
            _ => None,
        }
    }
}

/// Executable twin of [`spec_lower_ascii_of`].
fn lower_ascii_of(scancode: u64) -> (r: u8)
    ensures
        r == spec_lower_ascii_of(scancode),
{
    match scancode {
        0x02 => 0x31,
        0x03 => 0x32,
        0x04 => 0x33,
        0x05 => 0x34,
        0x06 => 0x35,
        0x07 => 0x36,
        0x08 => 0x37,
        0x09 => 0x38,
        0x0A => 0x39,
        0x0B => 0x30,
        0x0C => 0x2d,
        0x0D => 0x3d,
        0x10 => 0x71,
        0x11 => 0x77,
        0x12 => 0x65,
        0x13 => 0x72,
        0x14 => 0x74,
        0x15 => 0x79,
        0x16 => 0x75,
        0x17 => 0x69,
        0x18 => 0x6f,
        0x19 => 0x70,
        0x1A => 0x5b,
        0x1B => 0x5d,
        0x1E => 0x61,
        0x1F => 0x73,
        0x20 => 0x64,
        0x21 => 0x66,
        0x22 => 0x67,
        0x23 => 0x68,
        0x24 => 0x6a,
        0x25 => 0x6b,
        0x26 => 0x6c,
        0x27 => 0x3b,
        0x28 => 0x27,
        0x29 => 0x60,
        0x2B => 0x5c,
        0x2C => 0x7a,
        0x2D => 0x78,
        0x2E => 0x63,
        0x2F => 0x76,
        0x30 => 0x62,
        0x31 => 0x6e,
        0x32 => 0x6d,
        0x33 => 0x2c,
        0x34 => 0x2e,
        0x35 => 0x2f,
        _ => 0x0,
    }
}

/// The key event of the second byte of a two-byte scan code.
pub open spec fn spec_match_special_scancode(scancode_2: u64) -> Option<KeyEvent> {
    match scancode_2 {
        0x48 => Some(KeyEvent::Pressed(Key::Special(Other::ArrowUp(true)))),
        0x50 => Some(KeyEvent::Pressed(Key::Special(Other::ArrowDown(true)))),
        0x4B => Some(KeyEvent::Pressed(Key::Special(Other::ArrowLeft(true)))),
        0x4D => Some(KeyEvent::Pressed(Key::Special(Other::ArrowRight(true)))),
        _ => None,
    }
}

/// Executable twin of [`spec_match_special_scancode`].
pub fn match_special_scancode(scancode_2: u64) -> (r: Option<KeyEvent>)
    ensures
        r == spec_match_special_scancode(scancode_2),
{
    match scancode_2 {
        0x48 => Some(KeyEvent::Pressed(Key::Special(Other::ArrowUp(true)))),
        0x50 => Some(KeyEvent::Pressed(Key::Special(Other::ArrowDown(true)))),
        0x4B => Some(KeyEvent::Pressed(Key::Special(Other::ArrowLeft(true)))),
        0x4D => Some(KeyEvent::Pressed(Key::Special(Other::ArrowRight(true)))),
        _ => None,
    }
}

/// The key inside a decoded event, dropping the press / release layer; a
/// second byte, when present, selects the two-byte table.
pub open spec fn spec_get_key(scancode: u64, scancode_2: Option<u64>) -> Option<Key> {
    match scancode_2 {
        Some(code2) => match spec_match_special_scancode(code2) {
            Some(KeyEvent::Pressed(key)) => Some(key),
            Some(KeyEvent::Released(key)) => Some(key),
            None => None,
        },
        None => match spec_match_scancode(scancode) {
            Some(KeyEvent::Pressed(key)) => Some(key),
            Some(KeyEvent::Released(key)) => Some(key),
            None => None,
        },
    }
}

/// Executable twin of [`spec_get_key`].
pub fn get_key(scancode: u64, scancode_2: Option<u64>) -> (r: Option<Key>)
    ensures
        r == spec_get_key(scancode, scancode_2),
{
    if let Some(code2) = scancode_2 {
        return match match_special_scancode(code2) {
            Some(KeyEvent::Pressed(key)) => Some(key),
            Some(KeyEvent::Released(key)) => Some(key),
            None => None,
        };
    }
    match match_scancode(scancode) {
        Some(KeyEvent::Pressed(key)) => Some(key),
        Some(KeyEvent::Released(key)) => Some(key),
        None => None,
    }
}

} // verus!
