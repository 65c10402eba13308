use rust_kernel::keyboard::Keyboard;
use rust_kernel::keycodes::Key;
use rust_kernel::keycodes::KeyEvent;
use rust_kernel::keycodes::Modifier;
use rust_kernel::keycodes::ModifierState;
use rust_kernel::keycodes::Other;
use rust_kernel::keycodes::get_key;
use rust_kernel::keycodes::map_to_upper;
use rust_kernel::keycodes::match_scancode;
use rust_kernel::keycodes::match_special_scancode;
use rust_kernel::scancode::MakeBreak;

#[test]
fn map_to_upper_table() {
    assert_eq!(map_to_upper(b'a'), b'A');
    assert_eq!(map_to_upper(b'z'), b'Z');
    assert_eq!(map_to_upper(b'1'), b'!');
    assert_eq!(map_to_upper(b','), b'<');
    assert_eq!(map_to_upper(b'\\'), b'|');
    assert_eq!(map_to_upper(b'A'), 0x0);
    assert_eq!(map_to_upper(0xfe), 0x0);
}

#[test]
fn match_scancode_rows() {
    assert_eq!(
        match_scancode(0x02),
        Some(KeyEvent::Pressed(Key::LowerAscii(b'1')))
    );
    assert_eq!(
        match_scancode(0x10),
        Some(KeyEvent::Pressed(Key::LowerAscii(b'q')))
    );
    assert_eq!(
        match_scancode(0x1E),
        Some(KeyEvent::Pressed(Key::LowerAscii(b'a')))
    );
    assert_eq!(
        match_scancode(0x35),
        Some(KeyEvent::Pressed(Key::LowerAscii(b'/')))
    );
    assert_eq!(match_scancode(0x1C), Some(KeyEvent::Pressed(Key::Ascii(b'\n'))));
    assert_eq!(match_scancode(0x39), Some(KeyEvent::Pressed(Key::Ascii(b' '))));
    assert_eq!(
        match_scancode(0x2A),
        Some(KeyEvent::Pressed(Key::Meta(Modifier::ShiftLeft(true))))
    );
    assert_eq!(
        match_scancode(0xAA),
        Some(KeyEvent::Released(Key::Meta(Modifier::ShiftLeft(false))))
    );
    assert_eq!(match_scancode(0xFF), None);
}

#[test]
fn match_special_scancode_arrows() {
    assert_eq!(
        match_special_scancode(0x48),
        Some(KeyEvent::Pressed(Key::Special(Other::ArrowUp(true))))
    );
    assert_eq!(
        match_special_scancode(0x50),
        Some(KeyEvent::Pressed(Key::Special(Other::ArrowDown(true))))
    );
    assert_eq!(match_special_scancode(0x49), None);
}

#[test]
fn get_key_drops_event_layer() {
    assert_eq!(get_key(0x1E, None), Some(Key::LowerAscii(b'a')));
    assert_eq!(get_key(0xE0, Some(0x4B)), Some(Key::Special(Other::ArrowLeft(true))));
    assert_eq!(get_key(0xFF, None), None);
}

#[test]
fn modifier_state_shift_and_caps() {
    let mut state = ModifierState::new();
    assert!(!state.is_uppercase());
    state.update(Modifier::ShiftLeft(true));
    assert!(state.is_uppercase());
    state.update(Modifier::CapsLock);
    // shift and caps lock together cancel out
    assert!(!state.is_uppercase());
    state.update(Modifier::ShiftLeft(false));
    assert!(state.is_uppercase());
    assert_eq!(state.apply_to(b'a'), b'A');
    state.update(Modifier::CapsLock);
    assert_eq!(state.apply_to(b'a'), b'a');
}

#[test]
fn process_scancode_plain_letter() {
    let mut keyboard = Keyboard::new();
    let mut state = ModifierState::new();
    keyboard.queue_scancode(0x1E);
    let package = keyboard.process_scancode(&mut state).unwrap();
    assert_eq!(package.key, Key::LowerAscii(b'a'));
    assert_eq!(package.character, Some('a'));
    assert!(keyboard.process_scancode(&mut state).is_none());
}

#[test]
fn process_scancode_shifted_letter() {
    let mut keyboard = Keyboard::new();
    let mut state = ModifierState::new();
    keyboard.queue_scancode(0x2A); // shift press
    keyboard.queue_scancode(0x1E); // 'a'
    keyboard.queue_scancode(0xAA); // shift release
    keyboard.queue_scancode(0x1E); // 'a'
    let shift = keyboard.process_scancode(&mut state).unwrap();
    assert_eq!(shift.character, None);
    let upper = keyboard.process_scancode(&mut state).unwrap();
    assert_eq!(upper.character, Some('A'));
    let _release = keyboard.process_scancode(&mut state).unwrap();
    let lower = keyboard.process_scancode(&mut state).unwrap();
    assert_eq!(lower.character, Some('a'));
}

#[test]
fn process_scancode_two_byte_sequence() {
    let mut keyboard = Keyboard::new();
    let mut state = ModifierState::new();
    keyboard.queue_scancode(0xE0);
    keyboard.queue_scancode(0x48);
    let package = keyboard.process_scancode(&mut state).unwrap();
    assert_eq!(package.key, Key::Special(Other::ArrowUp(true)));
    assert_eq!(package.character, None);
}

#[test]
fn process_scancode_prefix_without_second_byte() {
    let mut keyboard = Keyboard::new();
    let mut state = ModifierState::new();
    keyboard.queue_scancode(0xE0);
    assert!(keyboard.process_scancode(&mut state).is_none());
}

#[test]
fn scancode_state_machine() {
    let mut keyboard = rust_kernel::scancode::Keyboard::new();
    assert_eq!(keyboard.make_break(), MakeBreak::Idle);
    assert_eq!(keyboard.process_scancode(0xE0), Ok(()));
    assert!(keyboard.is_multi_byte());
    // the second byte of the sequence drops the state back to idle
    assert_eq!(keyboard.process_scancode(0x48), Ok(()));
    assert!(!keyboard.is_multi_byte());
    assert_eq!(keyboard.make_break(), MakeBreak::Idle);
    // a plain byte classifies and resets
    assert_eq!(keyboard.process_scancode(0x1E), Ok(()));
    assert_eq!(keyboard.make_break(), MakeBreak::Idle);
    assert!(!keyboard.is_multi_byte());
    keyboard.reset();
    assert_eq!(keyboard.make_break(), MakeBreak::Idle);
}
