//! Input events and their vocabulary (key states, mouse buttons, touch
//! phases, key codes), and the mapping from typed characters to key codes.

use vstd::prelude::*;
use crate::fuzzy::chars_of;

verus! {

/// Unified input event. Pointer and touch coordinates are physical pixels
/// carried as the bit patterns of `f64` values (`f64::to_bits`), scroll
/// amounts as the bit patterns of `f32` values.
#[derive(Debug, Clone, Copy, PartialEq, Eq, Structural)]
pub enum InputEvent {
    /// Keyboard key press/release.
    Keyboard {
        /// Virtual key code.
        key: KeyCode,
        /// Pressed or released.
        state: KeyState,
        /// Platform-native scancode.
        scancode: u32,
    },
    /// Mouse move.
    MouseMove {
        /// X coordinate (`f64` bits).
        x: u64,
        /// Y coordinate (`f64` bits).
        y: u64,
    },
    /// Mouse button.
    MouseButton {
        /// Which button.
        button: MouseButton,
        /// Pressed or released.
        state: KeyState,
    },
    /// Mouse wheel, in lines.
    MouseScroll {
        /// Horizontal amount (`f32` bits).
        delta_x: u32,
        /// Vertical amount (`f32` bits).
        delta_y: u32,
    },
    /// Touch event (mobile).
    Touch {
        /// Touch identifier.
        id: u64,
        /// Touch phase.
        phase: TouchPhase,
        /// X coordinate (`f64` bits).
        x: u64,
        /// Y coordinate (`f64` bits).
        y: u64,
    },
}

/// Key state.
#[derive(Debug, Clone, Copy, PartialEq, Eq, Hash, Structural)]
pub enum KeyState {
    /// Key pressed.
    Pressed,
    /// Key released.
    Released,
}

/// Mouse buttons.
#[derive(Debug, Clone, Copy, PartialEq, Eq, Hash, Structural)]
pub enum MouseButton {
    /// Left button.
    Left,
    /// Right button.
    Right,
    /// Middle button.
    Middle,
    /// Extra button 1 (browser back).
    X1,
    /// Extra button 2 (browser forward).
    X2,
}

/// Touch phases.
#[derive(Debug, Clone, Copy, PartialEq, Eq, Hash, Structural)]
pub enum TouchPhase {
    /// Finger touched the surface.
    Started,
    /// Finger moved.
    Moved,
    /// Finger lifted.
    Ended,
    /// Gesture cancelled.
    Cancelled,
}

/// Platform-agnostic key code.
#[allow(missing_docs)]
#[derive(Debug, Clone, Copy, PartialEq, Eq, Hash, Structural)]
pub enum KeyCode {
    A,
    B,
    C,
    D,
    E,
    F,
    G,
    H,
    I,
    J,
    K,
    L,
    M,
    N,
    O,
    P,
    Q,
    R,
    S,
    T,
    U,
    V,
    W,
    X,
    Y,
    Z,
    Digit0,
    Digit1,
    Digit2,
    Digit3,
    Digit4,
    Digit5,
    Digit6,
    Digit7,
    Digit8,
    Digit9,
    F1,
    F2,
    F3,
    F4,
    F5,
    F6,
    F7,
    F8,
    F9,
    F10,
    F11,
    F12,
    Escape,
    Enter,
    Space,
    Tab,
    Backspace,
    Delete,
    Insert,
    Home,
    End,
    PageUp,
    PageDown,
    ArrowLeft,
    ArrowRight,
    ArrowUp,
    ArrowDown,
    ShiftLeft,
    ShiftRight,
    ControlLeft,
    ControlRight,
    AltLeft,
    AltRight,
    MetaLeft,
    MetaRight,
    Minus,
    Equal,
    BracketLeft,
    BracketRight,
    Backslash,
    Semicolon,
    Quote,
    Backquote,
    Comma,
    Period,
    Slash,
    NumLock,
    Numpad0,
    Numpad1,
    Numpad2,
    Numpad3,
    Numpad4,
    Numpad5,
    Numpad6,
    Numpad7,
    Numpad8,
    Numpad9,
    NumpadAdd,
    NumpadSubtract,
    NumpadMultiply,
    NumpadDivide,
    NumpadEnter,
    NumpadDecimal,
    /// Unmapped key (raw scancode).
    Unmapped(u32),
}

/// The ASCII lower-case form of `c`: `A`..`Z` become `a`..`z`, every other
/// character is unchanged.
pub open spec fn ascii_lower(c: char) -> char {
    if 'A' <= c <= 'Z' {
        ((c as u32) + 32) as char
    } else {
        c
    }
}

/// The key of the `i`-th letter of the Latin alphabet (`0` is `A`).
pub open spec fn letter_key(i: int) -> KeyCode {
    if i == 0 { KeyCode::A }
    else if i == 1 { KeyCode::B }
    else if i == 2 { KeyCode::C }
    else if i == 3 { KeyCode::D }
    else if i == 4 { KeyCode::E }
    else if i == 5 { KeyCode::F }
    else if i == 6 { KeyCode::G }
    else if i == 7 { KeyCode::H }
    else if i == 8 { KeyCode::I }
    else if i == 9 { KeyCode::J }
    else if i == 10 { KeyCode::K }
    else if i == 11 { KeyCode::L }
    else if i == 12 { KeyCode::M }
    else if i == 13 { KeyCode::N }
    else if i == 14 { KeyCode::O }
    else if i == 15 { KeyCode::P }
    else if i == 16 { KeyCode::Q }
    else if i == 17 { KeyCode::R }
    else if i == 18 { KeyCode::S }
    else if i == 19 { KeyCode::T }
    else if i == 20 { KeyCode::U }
    else if i == 21 { KeyCode::V }
    else if i == 22 { KeyCode::W }
    else if i == 23 { KeyCode::X }
    else if i == 24 { KeyCode::Y }
    else { KeyCode::Z }
}

/// The key of the digit `i` of the main keyboard row.
pub open spec fn digit_key(i: int) -> KeyCode {
    if i == 0 { KeyCode::Digit0 }
    else if i == 1 { KeyCode::Digit1 }
    else if i == 2 { KeyCode::Digit2 }
    else if i == 3 { KeyCode::Digit3 }
    else if i == 4 { KeyCode::Digit4 }
    else if i == 5 { KeyCode::Digit5 }
    else if i == 6 { KeyCode::Digit6 }
    else if i == 7 { KeyCode::Digit7 }
    else if i == 8 { KeyCode::Digit8 }
    else { KeyCode::Digit9 }
}

/// The symbol key that types the punctuation character `c`, with or without
/// Shift: each key of the main block's symbol row stands for both of the
/// characters printed on it (`-` and `_` are both `Minus`).
pub open spec fn symbol_key(c: char) -> Option<KeyCode> {
    if c == '-' || c == '_' { Some(KeyCode::Minus) }
    else if c == '=' || c == '+' { Some(KeyCode::Equal) }
    else if c == '[' || c == '{' { Some(KeyCode::BracketLeft) }
    else if c == ']' || c == '}' { Some(KeyCode::BracketRight) }
    else if c == '\\' || c == '|' { Some(KeyCode::Backslash) }
    else if c == ';' || c == ':' { Some(KeyCode::Semicolon) }
    else if c == '\'' || c == '"' { Some(KeyCode::Quote) }
    else if c == '`' || c == '~' { Some(KeyCode::Backquote) }
    else if c == ',' || c == '<' { Some(KeyCode::Comma) }
    else if c == '.' || c == '>' { Some(KeyCode::Period) }
    else if c == '/' || c == '?' { Some(KeyCode::Slash) }
    else { None }
}

/// The key code a typed character stands for: letters ignoring case, digits,
/// and the symbol keys whether shifted or not; anything else is `Unmapped(0)`.
pub open spec fn char_key(c: char) -> KeyCode {
    let l = ascii_lower(c);
    if 'a' <= l <= 'z' {
        letter_key(l as int - 'a' as int)
    } else if '0' <= c <= '9' {
        digit_key(c as int - '0' as int)
    } else if symbol_key(c) is Some {
        symbol_key(c).unwrap()
    } else {
        KeyCode::Unmapped(0)
    }
}

/// ASCII lower-case form of a character.
fn to_ascii_lower(c: char) -> (r: char)
    ensures
        r == ascii_lower(c),
{
    if 'A' <= c && c <= 'Z' {
        let b = (c as u8) + 32;
        b as char
    } else {
        c
    }
}

/// Map a letter (either case) to its key code; anything else is
/// `Unmapped(0)`.
pub fn char_to_letter(c: char) -> (r: KeyCode)
    ensures
        r == (if 'a' <= ascii_lower(c) <= 'z' {
            letter_key(ascii_lower(c) as int - 'a' as int)
        } else {
            KeyCode::Unmapped(0)
        }),
{
    match to_ascii_lower(c) {
        'a' => KeyCode::A,
        'b' => KeyCode::B,
        'c' => KeyCode::C,
        'd' => KeyCode::D,
        'e' => KeyCode::E,
        'f' => KeyCode::F,
        'g' => KeyCode::G,
        'h' => KeyCode::H,
        'i' => KeyCode::I,
        'j' => KeyCode::J,
        'k' => KeyCode::K,
        'l' => KeyCode::L,
        'm' => KeyCode::M,
        'n' => KeyCode::N,
        'o' => KeyCode::O,
        'p' => KeyCode::P,
        'q' => KeyCode::Q,
        'r' => KeyCode::R,
        's' => KeyCode::S,
        't' => KeyCode::T,
        'u' => KeyCode::U,
        'v' => KeyCode::V,
        'w' => KeyCode::W,
        'x' => KeyCode::X,
        'y' => KeyCode::Y,
        'z' => KeyCode::Z,
        _ => KeyCode::Unmapped(0),
    }
}

/// Map a decimal digit to its key code; anything else is `Unmapped(0)`.
pub fn char_to_digit(c: char) -> (r: KeyCode)
    ensures
        r == (if '0' <= c <= '9' {
            digit_key(c as int - '0' as int)
        } else {
            KeyCode::Unmapped(0)
        }),
{
    match c {
        '0' => KeyCode::Digit0,
        '1' => KeyCode::Digit1,
        '2' => KeyCode::Digit2,
        '3' => KeyCode::Digit3,
        '4' => KeyCode::Digit4,
        '5' => KeyCode::Digit5,
        '6' => KeyCode::Digit6,
        '7' => KeyCode::Digit7,
        '8' => KeyCode::Digit8,
        '9' => KeyCode::Digit9,
        _ => KeyCode::Unmapped(0),
    }
}

/// The key code of one typed character, as `char_key` states it.
fn key_of_char(c: char) -> (r: KeyCode)
    ensures
        r == char_key(c),
{
    let l = to_ascii_lower(c);
    if 'a' <= l && l <= 'z' {
        char_to_letter(c)
    } else if '0' <= c && c <= '9' {
        char_to_digit(c)
    } else {
        match c {
            '-' => KeyCode::Minus,
            '_' => KeyCode::Minus,
            '=' => KeyCode::Equal,
            '+' => KeyCode::Equal,
            '[' => KeyCode::BracketLeft,
            '{' => KeyCode::BracketLeft,
            ']' => KeyCode::BracketRight,
            '}' => KeyCode::BracketRight,
            '\\' => KeyCode::Backslash,
            '|' => KeyCode::Backslash,
            ';' => KeyCode::Semicolon,
            ':' => KeyCode::Semicolon,
            '\'' => KeyCode::Quote,
            '"' => KeyCode::Quote,
            '`' => KeyCode::Backquote,
            '~' => KeyCode::Backquote,
            ',' => KeyCode::Comma,
            '<' => KeyCode::Comma,
            '.' => KeyCode::Period,
            '>' => KeyCode::Period,
            '/' => KeyCode::Slash,
            '?' => KeyCode::Slash,
            _ => KeyCode::Unmapped(0),
        }
    }
}

/// Map the text a key produces to a key code, by its first character; an
/// empty text is `Unmapped(0)`.
pub fn map_char_key(s: &str) -> (r: KeyCode)
    ensures
        r == (if s@.len() == 0 {
            KeyCode::Unmapped(0)
        } else {
            char_key(s@[0])
        }),
{
    let chars = chars_of(s);
    if chars.len() == 0 {
        return KeyCode::Unmapped(0);
    }
    key_of_char(chars[0])
}

/// The key code the Windows backend gives a character key: a text of one
/// lower-case ASCII letter or one ASCII digit maps to that key; anything
/// else (upper-case letters, symbols, longer or empty text) is `Unmapped(0)`.
pub fn windows_char_key(s: &str) -> (r: KeyCode)
    ensures
        r == (if s@.len() == 1 && 'a' <= s@[0] <= 'z' {
            letter_key(s@[0] as int - 'a' as int)
        } else if s@.len() == 1 && '0' <= s@[0] <= '9' {
            digit_key(s@[0] as int - '0' as int)
        } else {
            KeyCode::Unmapped(0)
        }),
{
    let chars = chars_of(s);
    if chars.len() != 1 {
        return KeyCode::Unmapped(0);
    }
    let c = chars[0];
    if 'a' <= c && c <= 'z' {
        char_to_letter(c)
    } else if '0' <= c && c <= '9' {
        char_to_digit(c)
    } else {
        KeyCode::Unmapped(0)
    }
}

/// The letter printed on a letter key, in lower case; `None` for any other
/// key.
pub open spec fn key_letter(k: KeyCode) -> Option<char> {
    match k {
        KeyCode::A => Some('a'),
        KeyCode::B => Some('b'),
        KeyCode::C => Some('c'),
        KeyCode::D => Some('d'),
        KeyCode::E => Some('e'),
        KeyCode::F => Some('f'),
        KeyCode::G => Some('g'),
        KeyCode::H => Some('h'),
        KeyCode::I => Some('i'),
        KeyCode::J => Some('j'),
        KeyCode::K => Some('k'),
        KeyCode::L => Some('l'),
        KeyCode::M => Some('m'),
        KeyCode::N => Some('n'),
        KeyCode::O => Some('o'),
        KeyCode::P => Some('p'),
        KeyCode::Q => Some('q'),
        KeyCode::R => Some('r'),
        KeyCode::S => Some('s'),
        KeyCode::T => Some('t'),
        KeyCode::U => Some('u'),
        KeyCode::V => Some('v'),
        KeyCode::W => Some('w'),
        KeyCode::X => Some('x'),
        KeyCode::Y => Some('y'),
        KeyCode::Z => Some('z'),
        _ => None,
    }
}

/// The digit printed on a main-row digit key; `None` for any other key.
pub open spec fn key_digit(k: KeyCode) -> Option<char> {
    match k {
        KeyCode::Digit0 => Some('0'),
        KeyCode::Digit1 => Some('1'),
        KeyCode::Digit2 => Some('2'),
        KeyCode::Digit3 => Some('3'),
        KeyCode::Digit4 => Some('4'),
        KeyCode::Digit5 => Some('5'),
        KeyCode::Digit6 => Some('6'),
        KeyCode::Digit7 => Some('7'),
        KeyCode::Digit8 => Some('8'),
        KeyCode::Digit9 => Some('9'),
        _ => None,
    }
}

/// The two characters printed on a symbol key, unshifted first; `None` for
/// any other key.
pub open spec fn key_symbols(k: KeyCode) -> Option<(char, char)> {
    match k {
        KeyCode::Minus => Some(('-', '_')),
        KeyCode::Equal => Some(('=', '+')),
        KeyCode::BracketLeft => Some(('[', '{')),
        KeyCode::BracketRight => Some((']', '}')),
        KeyCode::Backslash => Some(('\\', '|')),
        KeyCode::Semicolon => Some((';', ':')),
        KeyCode::Quote => Some(('\'', '"')),
        KeyCode::Backquote => Some(('`', '~')),
        KeyCode::Comma => Some((',', '<')),
        KeyCode::Period => Some(('.', '>')),
        KeyCode::Slash => Some(('/', '?')),
        _ => None,
    }
}

/// Each letter key is named after its letter: the `i`-th key of the alphabet
/// carries the `i`-th letter.
pub proof fn lemma_letter_key_names(i: int)
    requires
        0 <= i < 26,
    ensures
        key_letter(letter_key(i)) == Some((('a' as int) + i) as char),
{
}

/// Each digit key carries its digit.
pub proof fn lemma_digit_key_names(i: int)
    requires
        0 <= i < 10,
    ensures
        key_digit(digit_key(i)) == Some((('0' as int) + i) as char),
{
}

/// A typed character maps to the key that carries it: a letter (either case)
/// to the key printed with that letter, a digit to the key printed with that
/// digit, a symbol to the key printed with it shifted or unshifted, and no
/// other character to a key.
pub proof fn lemma_char_key_is_printed_key(c: char)
    ensures
        'a' <= ascii_lower(c) <= 'z' ==> key_letter(char_key(c)) == Some(ascii_lower(c)),
        '0' <= c <= '9' ==> key_digit(char_key(c)) == Some(c),
        char_key(c) matches KeyCode::Unmapped(_) || key_letter(char_key(c)) == Some(ascii_lower(c))
            || key_digit(char_key(c)) == Some(c) || (key_symbols(char_key(c)) matches Some(
            (a, b),
        ) && (c == a || c == b)),
{
    if 'a' <= ascii_lower(c) <= 'z' {
        lemma_letter_key_names(ascii_lower(c) as int - 'a' as int);
    } else if '0' <= c <= '9' {
        lemma_digit_key_names(c as int - '0' as int);
    }
}

/// Desktop panic gesture: Ctrl+Shift+Escape, on press.
pub fn is_ctrl_shift_escape(key: KeyCode, state: KeyState, ctrl: bool, shift: bool) -> (r: bool)
    ensures
        r == (key == KeyCode::Escape && state == KeyState::Pressed && ctrl && shift),
{
    key == KeyCode::Escape && state == KeyState::Pressed && ctrl && shift
}

/// Mobile panic gesture: Escape on press, whatever the modifiers.
pub fn is_escape_press(key: KeyCode, state: KeyState) -> (r: bool)
    ensures
        r == (key == KeyCode::Escape && state == KeyState::Pressed),
{
    state == KeyState::Pressed && key == KeyCode::Escape
}

/// Letter keys ignore case, and distinct letters give distinct keys.
pub proof fn lemma_letter_keys(c1: char, c2: char)
    requires
        'a' <= ascii_lower(c1) <= 'z',
        'a' <= ascii_lower(c2) <= 'z',
    ensures
        char_key(c1) == char_key(c2) <==> ascii_lower(c1) == ascii_lower(c2),
        char_key(c1) != KeyCode::Unmapped(0),
{
}

} // verus!
