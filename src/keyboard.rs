use vstd::prelude::*;

verus! {

/// Scancode of the left Shift key being pressed.
pub const LEFT_SHIFT_PRESS: u8 = 0x2A;
/// Scancode of the right Shift key being pressed.
pub const RIGHT_SHIFT_PRESS: u8 = 0x36;
/// Scancode of the left Shift key being released.
pub const LEFT_SHIFT_RELEASE: u8 = 0xAA;
/// Scancode of the right Shift key being released.
pub const RIGHT_SHIFT_RELEASE: u8 = 0xB6;
/// Scancode of the Caps Lock key being pressed.
pub const CAPS_LOCK_PRESS: u8 = 0x3A;

/// Modifier-key state tracked across scancodes.
#[derive(Clone, Copy, Debug, PartialEq, Eq, Structural)]
pub struct KeyboardState {
    pub shift_pressed: bool,
    pub ctrl_pressed: bool,
    pub alt_pressed: bool,
    pub caps_lock: bool,
}

impl KeyboardState {
    pub fn new() -> (r: KeyboardState)
        ensures
            !r.shift_pressed && !r.ctrl_pressed && !r.alt_pressed && !r.caps_lock,
    {
        KeyboardState { shift_pressed: false, ctrl_pressed: false, alt_pressed: false, caps_lock: false }
    }
}

/// Whether a scancode is one of the modifier events this decoder tracks.
pub open spec fn is_modifier(scancode: u8) -> bool {
    scancode == LEFT_SHIFT_PRESS || scancode == RIGHT_SHIFT_PRESS
        || scancode == LEFT_SHIFT_RELEASE || scancode == RIGHT_SHIFT_RELEASE
        || scancode == CAPS_LOCK_PRESS
}

/// The modifier state after one scancode: Shift follows press and release,
/// Caps Lock toggles on its press, anything else leaves the state alone.
pub open spec fn modifier_step(s: KeyboardState, scancode: u8) -> KeyboardState {
    if scancode == LEFT_SHIFT_PRESS || scancode == RIGHT_SHIFT_PRESS {
        KeyboardState { shift_pressed: true, ..s }
    } else if scancode == LEFT_SHIFT_RELEASE || scancode == RIGHT_SHIFT_RELEASE {
        KeyboardState { shift_pressed: false, ..s }
    } else if scancode == CAPS_LOCK_PRESS {
        KeyboardState { caps_lock: !s.caps_lock, ..s }
    } else {
        s
    }
}

/// Updates the modifier state for `scancode` and reports whether it was a
/// modifier event (which produces no character).
pub fn handle_modifier_key(state: &mut KeyboardState, scancode: u8) -> (r: bool)
    ensures
        r == is_modifier(scancode),
        *final(state) == modifier_step(*old(state), scancode),
{
    match scancode {
        0x2A | 0x36 => {
            state.shift_pressed = true;
            true
        },
        0xAA | 0xB6 => {
            state.shift_pressed = false;
            true
        },
        0x3A => {
            state.caps_lock = !state.caps_lock;
            true
        },
        _ => false,
    }
}

/// Lowercase letter produced by a letter key, if `scancode` is one.
pub open spec fn letter_of(scancode: u8) -> Option<char> {
    match scancode {
        0x10 => Some('q'), 0x11 => Some('w'), 0x12 => Some('e'), 0x13 => Some('r'),
        0x14 => Some('t'), 0x15 => Some('y'), 0x16 => Some('u'), 0x17 => Some('i'),
        0x18 => Some('o'), 0x19 => Some('p'),
        0x1E => Some('a'), 0x1F => Some('s'), 0x20 => Some('d'), 0x21 => Some('f'),
        0x22 => Some('g'), 0x23 => Some('h'), 0x24 => Some('j'), 0x25 => Some('k'),
        0x26 => Some('l'),
        0x2C => Some('z'), 0x2D => Some('x'), 0x2E => Some('c'), 0x2F => Some('v'),
        0x30 => Some('b'), 0x31 => Some('n'), 0x32 => Some('m'),
        _ => None,
    }
}

/// Uppercase form of an ASCII lowercase letter.
pub open spec fn upper_of(c: char) -> char {
    ((c as u32) - 32) as char
}

/// The (unshifted, shifted) characters of a digit or punctuation key.
pub open spec fn symbol_of(scancode: u8) -> Option<(char, char)> {
    match scancode {
        0x02 => Some(('1', '!')), 0x03 => Some(('2', '@')), 0x04 => Some(('3', '#')),
        0x05 => Some(('4', '$')), 0x06 => Some(('5', '%')), 0x07 => Some(('6', '^')),
        0x08 => Some(('7', '&')), 0x09 => Some(('8', '*')), 0x0A => Some(('9', '(')),
        0x0B => Some(('0', ')')),
        0x0C => Some(('-', '_')), 0x0D => Some(('=', '+')), 0x1A => Some(('[', '{')),
        0x1B => Some((']', '}')), 0x27 => Some((';', ':')), 0x28 => Some(('\'', '"')),
        0x29 => Some(('`', '~')), 0x2B => Some(('\\', '|')), 0x33 => Some((',', '<')),
        0x34 => Some(('.', '>')), 0x35 => Some(('/', '?')),
        _ => None,
    }
}

/// The character of a control key, which no modifier changes.
pub open spec fn control_of(scancode: u8) -> Option<char> {
    match scancode {
        0x39 => Some(' '),
        0x1C => Some('\n'),
        0x0E => Some('\x08'),
        0x0F => Some('\t'),
        _ => None,
    }
}

/// What a key press decodes to under the given modifiers.
pub open spec fn decoded(scancode: u8, shift: bool, caps: bool) -> Option<char> {
    if let Some(l) = letter_of(scancode) {
        Some(if shift != caps { upper_of(l) } else { l })
    } else if let Some(p) = symbol_of(scancode) {
        Some(if shift { p.1 } else { p.0 })
    } else {
        control_of(scancode)
    }
}

/// Decodes a key-press scancode; `None` for a scancode with no character.
pub fn scancode_to_char(scancode: u8, shift_pressed: bool, caps_lock: bool) -> (r: Option<char>)
    ensures
        r == decoded(scancode, shift_pressed, caps_lock),
{
    let s = shift_pressed;
    let c = caps_lock;
    match scancode {
        0x02 => Some(if s { '!' } else { '1' }),
        0x03 => Some(if s { '@' } else { '2' }),
        0x04 => Some(if s { '#' } else { '3' }),
        0x05 => Some(if s { '$' } else { '4' }),
        0x06 => Some(if s { get_percent_char() } else { '5' }),
        0x07 => Some(if s { '^' } else { '6' }),
        0x08 => Some(if s { '&' } else { '7' }),
        0x09 => Some(if s { '*' } else { '8' }),
        0x0A => Some(if s { '(' } else { '9' }),
        0x0B => Some(if s { ')' } else { '0' }),
        0x10 => Some(letter_case('q', 'Q', s, c)),
        0x11 => Some(letter_case('w', 'W', s, c)),
        0x12 => Some(letter_case('e', 'E', s, c)),
        0x13 => Some(letter_case('r', 'R', s, c)),
        0x14 => Some(letter_case('t', 'T', s, c)),
        0x15 => Some(letter_case('y', 'Y', s, c)),
        0x16 => Some(letter_case('u', 'U', s, c)),
        0x17 => Some(letter_case('i', 'I', s, c)),
        0x18 => Some(letter_case('o', 'O', s, c)),
        0x19 => Some(letter_case('p', 'P', s, c)),
        0x1E => Some(letter_case('a', 'A', s, c)),
        0x1F => Some(letter_case('s', 'S', s, c)),
        0x20 => Some(letter_case('d', 'D', s, c)),
        0x21 => Some(letter_case('f', 'F', s, c)),
        0x22 => Some(letter_case('g', 'G', s, c)),
        0x23 => Some(letter_case('h', 'H', s, c)),
        0x24 => Some(letter_case('j', 'J', s, c)),
        0x25 => Some(letter_case('k', 'K', s, c)),
        0x26 => Some(letter_case('l', 'L', s, c)),
        0x2C => Some(letter_case('z', 'Z', s, c)),
        0x2D => Some(letter_case('x', 'X', s, c)),
        0x2E => Some(letter_case('c', 'C', s, c)),
        0x2F => Some(letter_case('v', 'V', s, c)),
        0x30 => Some(letter_case('b', 'B', s, c)),
        0x31 => Some(letter_case('n', 'N', s, c)),
        0x32 => Some(letter_case('m', 'M', s, c)),
        0x39 => Some(' '),
        0x1C => Some('\n'),
        0x0E => Some('\x08'),
        0x0F => Some('\t'),
        0x0C => Some(if s { '_' } else { '-' }),
        0x0D => Some(if s { '+' } else { '=' }),
        0x1A => Some(if s { '{' } else { '[' }),
        0x1B => Some(if s { '}' } else { ']' }),
        0x27 => Some(if s { ':' } else { ';' }),
        0x28 => Some(if s { get_quote_char() } else { get_apostrophe_char() }),
        0x29 => Some(if s { '~' } else { '`' }),
        0x2B => Some(if s { get_pipe_char() } else { get_backslash_char() }),
        0x33 => Some(if s { '<' } else { ',' }),
        0x34 => Some(if s { '>' } else { '.' }),
        0x35 => Some(if s { '?' } else { '/' }),
        _ => None,
    }
}

/// Picks the uppercase form exactly when one of Shift and Caps Lock is on.
fn letter_case(lowercase: char, uppercase: char, shift_pressed: bool, caps_lock: bool) -> (r: char)
    ensures
        r == if shift_pressed != caps_lock { uppercase } else { lowercase },
{
    if caps_lock ^ shift_pressed {
        uppercase
    } else {
        lowercase
    }
}

fn get_percent_char() -> (r: char)
    ensures
        r == '%',
{
    '%'
}

fn get_quote_char() -> (r: char)
    ensures
        r == '"',
{
    '"'
}

fn get_apostrophe_char() -> (r: char)
    ensures
        r == '\'',
{
    '\''
}

fn get_pipe_char() -> (r: char)
    ensures
        r == '|',
{
    '|'
}

fn get_backslash_char() -> (r: char)
    ensures
        r == '\\',
{
    '\\'
}

/// Letter keys follow the XOR of Shift and Caps Lock: lowercase when both or
/// neither are on, uppercase when exactly one is.
pub proof fn lemma_letter_case_xor(scancode: u8)
    requires
        letter_of(scancode) is Some,
    ensures
        ({
            let l = letter_of(scancode)->0;
            &&& 'a' <= l <= 'z'
            &&& 'A' <= upper_of(l) <= 'Z'
            &&& decoded(scancode, false, false) == Some(l)
            &&& decoded(scancode, true, true) == Some(l)
            &&& decoded(scancode, true, false) == Some(upper_of(l))
            &&& decoded(scancode, false, true) == Some(upper_of(l))
        }),
{
}

/// On digit and punctuation keys Caps Lock never changes the character; only
/// Shift does.
pub proof fn lemma_symbols_ignore_caps(scancode: u8, shift: bool)
    requires
        symbol_of(scancode) is Some,
    ensures
        decoded(scancode, shift, true) == decoded(scancode, shift, false),
        decoded(scancode, true, false) != decoded(scancode, false, false),
{
}

/// Two Caps Lock presses give back the state they started from.
pub proof fn lemma_caps_lock_involution(s: KeyboardState)
    ensures
        modifier_step(modifier_step(s, CAPS_LOCK_PRESS), CAPS_LOCK_PRESS) == s,
{
}

} // verus!
