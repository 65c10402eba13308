//! The keyboard: a queue of raw scan codes and the decode step that turns
//! them into key packages.
//!
//! The keyboard interrupt handler only queues the scan-code byte it read
//! from the device; decoding happens later, outside the interrupt, one
//! buffered code per call.  Two-byte sequences (arrow keys and the right
//! modifier variants) are recognized by their `0xE0` / `0xE1` prefix.
//! Modifier events update the modifier state, printable keys come back with
//! the character the modifiers select.
use vstd::prelude::*;

use crate::keycodes::Key;
use crate::keycodes::ModifierState;
use crate::keycodes::get_key;
use crate::keycodes::spec_get_key;
use crate::keycodes::spec_map_to_upper;
use crate::keycodes::spec_update;

verus! {

/// One decoded key: the key itself and, for printable keys, the character
/// it produces under the current modifiers.
#[derive(Clone, Copy, Debug, PartialEq, Eq, Structural)]
pub struct KeyPackage {
    pub key: Key,
    pub character: Option<char>,
}

/// The keyboard state: the scan codes read by the interrupt handler and not
/// yet decoded, oldest first.
pub struct Keyboard {
    scancode_buffer: Vec<u8>,
}

/// The result of decoding one buffered scan code: the remaining buffer, the
/// modifier state afterwards, and the package produced, if any.
pub open spec fn spec_process_scancode(buf: Seq<u8>, st: ModifierState) -> (Seq<
    u8,
>, ModifierState, Option<KeyPackage>) {
    if buf.len() == 0 {
        (buf, st, None::<KeyPackage>)
    } else {
        let sc = buf[0];
        if sc == 0xE0 || sc == 0xE1 {
            if buf.len() == 1 {
                (buf.drop_first(), st, None::<KeyPackage>)
            } else {
                let rest = buf.subrange(2, buf.len() as int);
                match spec_get_key(sc as u64, Some(buf[1] as u64)) {
                    Some(key) => (rest, st, Some(KeyPackage { key, character: None })),
                    None => (rest, st, None::<KeyPackage>),
                }
            }
        } else {
            let rest = buf.drop_first();
            match spec_get_key(sc as u64, None::<u64>) {
                Some(key) => match key {
                    Key::Ascii(a) => (
                        rest,
                        st,
                        Some(KeyPackage { key, character: Some(a as char) }),
                    ),
                    Key::Meta(m) => (
                        rest,
                        spec_update(st, m),
                        Some(KeyPackage { key, character: None }),
                    ),
                    Key::LowerAscii(l) => (
                        rest,
                        st,
                        Some(
                            KeyPackage {
                                key,
                                character: Some(
                                    (if st.spec_is_uppercase() {
                                        spec_map_to_upper(l)
                                    } else {
                                        l
                                    }) as char,
                                ),
                            },
                        ),
                    ),
                    Key::Special(_) => (rest, st, Some(KeyPackage { key, character: None })),
                },
                None => (rest, st, None::<KeyPackage>),
            }
        }
    }
}

impl Keyboard {
    /// The buffered scan codes, oldest first.
    pub closed spec fn buffer(self) -> Seq<u8> {
        self.scancode_buffer@
    }

    /// A keyboard with nothing buffered.
    pub fn new() -> (r: Keyboard)
        ensures
            r.buffer().len() == 0,
    {
        Keyboard { scancode_buffer: Vec::new() }
    }

    /// Queues one raw scan code; the keyboard interrupt handler calls this
    /// and nothing else, so the handler never decodes under interrupt.
    pub fn queue_scancode(&mut self, scancode: u8)
        ensures
            final(self).buffer() == old(self).buffer().push(scancode),
    {
        self.scancode_buffer.push(scancode);
    }

    /// Decodes the oldest buffered scan code, consuming a second byte for a
    /// two-byte sequence: exactly the step [`spec_process_scancode`]
    /// describes, including the modifier-state change of a modifier key.
    pub fn process_scancode(&mut self, state: &mut ModifierState) -> (r: Option<KeyPackage>)
        ensures
            ({
                let (nbuf, nst, res) = spec_process_scancode(old(self).buffer(), *old(state));
                &&& final(self).buffer() == nbuf
                &&& *final(state) == nst
                &&& r == res
            }),
    {
        if self.scancode_buffer.len() == 0 {
            return None;
        }
        let scancode = self.scancode_buffer.remove(0);
        proof {
            assert(self.buffer() =~= old(self).buffer().drop_first());
        }
        if scancode == 0xE0 || scancode == 0xE1 {
            if self.scancode_buffer.len() == 0 {
                return None;
            }
            let scancode_2 = self.scancode_buffer.remove(0);
            proof {
                assert(self.buffer() =~= old(self).buffer().subrange(
                    2,
                    old(self).buffer().len() as int,
                ));
            }
            let key = match get_key(scancode as u64, Some(scancode_2 as u64)) {
                Some(key) => key,
                None => {
                    return None;
                },
            };
            return Some(KeyPackage { key, character: None });
        }
        let key = match get_key(scancode as u64, None) {
            Some(key) => key,
            None => {
                return None;
            },
        };
        let mut character: Option<char> = None;
        match key {
            Key::Ascii(ascii) => {
                character = Some(ascii as char);
            },
            Key::Meta(modifier) => state.update(modifier),
            Key::LowerAscii(lower) => {
                character = Some(state.apply_to(lower) as char);
            },
            Key::Special(_) => {},
        }
        Some(KeyPackage { key, character })
    }
}

} // verus!
