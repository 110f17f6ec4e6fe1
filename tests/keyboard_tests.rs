use rust_os_console::keyboard::{handle_modifier_key, scancode_to_char, KeyboardState};

const LETTERS: [(u8, char); 26] = [
    (0x10, 'q'), (0x11, 'w'), (0x12, 'e'), (0x13, 'r'), (0x14, 't'), (0x15, 'y'), (0x16, 'u'),
    (0x17, 'i'), (0x18, 'o'), (0x19, 'p'), (0x1E, 'a'), (0x1F, 's'), (0x20, 'd'), (0x21, 'f'),
    (0x22, 'g'), (0x23, 'h'), (0x24, 'j'), (0x25, 'k'), (0x26, 'l'), (0x2C, 'z'), (0x2D, 'x'),
    (0x2E, 'c'), (0x2F, 'v'), (0x30, 'b'), (0x31, 'n'), (0x32, 'm'),
];

#[test]
fn letters_follow_xor_of_shift_and_caps() {
    for (sc, lower) in LETTERS {
        let upper = lower.to_ascii_uppercase();
        assert_eq!(scancode_to_char(sc, false, false), Some(lower));
        assert_eq!(scancode_to_char(sc, true, true), Some(lower));
        assert_eq!(scancode_to_char(sc, true, false), Some(upper));
        assert_eq!(scancode_to_char(sc, false, true), Some(upper));
    }
}

#[test]
fn digits_and_punctuation_ignore_caps_lock() {
    let symbols: [(u8, char, char); 21] = [
        (0x02, '1', '!'), (0x03, '2', '@'), (0x04, '3', '#'), (0x05, '4', '$'), (0x06, '5', '%'),
        (0x07, '6', '^'), (0x08, '7', '&'), (0x09, '8', '*'), (0x0A, '9', '('), (0x0B, '0', ')'),
        (0x0C, '-', '_'), (0x0D, '=', '+'), (0x1A, '[', '{'), (0x1B, ']', '}'), (0x27, ';', ':'),
        (0x28, '\'', '"'), (0x29, '`', '~'), (0x2B, '\\', '|'), (0x33, ',', '<'), (0x34, '.', '>'),
        (0x35, '/', '?'),
    ];
    for (sc, plain, shifted) in symbols {
        assert_eq!(scancode_to_char(sc, false, false), Some(plain));
        assert_eq!(scancode_to_char(sc, false, true), Some(plain));
        assert_eq!(scancode_to_char(sc, true, false), Some(shifted));
        assert_eq!(scancode_to_char(sc, true, true), Some(shifted));
    }
}

#[test]
fn control_keys_ignore_modifiers() {
    for (shift, caps) in [(false, false), (true, false), (false, true), (true, true)] {
        assert_eq!(scancode_to_char(0x39, shift, caps), Some(' '));
        assert_eq!(scancode_to_char(0x1C, shift, caps), Some('\n'));
        assert_eq!(scancode_to_char(0x0E, shift, caps), Some('\x08'));
        assert_eq!(scancode_to_char(0x0F, shift, caps), Some('\t'));
    }
}

#[test]
fn unmapped_scancodes_give_nothing() {
    assert_eq!(scancode_to_char(0x01, false, false), None);
    assert_eq!(scancode_to_char(0x3B, true, true), None);
    assert_eq!(scancode_to_char(0x9E, false, false), None);
}

#[test]
fn caps_lock_twice_restores_state() {
    let mut s = KeyboardState::new();
    s.shift_pressed = true;
    let before = s;
    assert!(handle_modifier_key(&mut s, 0x3A));
    assert!(s.caps_lock);
    assert!(handle_modifier_key(&mut s, 0x3A));
    assert_eq!(s, before);
}

#[test]
fn caps_lock_release_is_ignored() {
    let mut s = KeyboardState::new();
    assert!(!handle_modifier_key(&mut s, 0xBA));
    assert!(!s.caps_lock);
}

#[test]
fn shift_follows_press_and_release() {
    let mut s = KeyboardState::new();
    assert!(handle_modifier_key(&mut s, 0x2A));
    assert!(s.shift_pressed);
    assert!(handle_modifier_key(&mut s, 0xAA));
    assert!(!s.shift_pressed);
    assert!(handle_modifier_key(&mut s, 0x36));
    assert!(s.shift_pressed);
    assert!(handle_modifier_key(&mut s, 0xB6));
    assert!(!s.shift_pressed);
    assert!(!handle_modifier_key(&mut s, 0x1E));
    assert_eq!(s, KeyboardState::new());
}
