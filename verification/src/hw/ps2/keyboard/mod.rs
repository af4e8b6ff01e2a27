//! Keyboards: how key symbols of a remote console become scan codes.
use crate::hw::ps2::keyboard::scan_code_1::{
    SC1_0_INSERT, SC1_0_RPAREN, SC1_1_END, SC1_1_EXCLAMATION, SC1_2_AT, SC1_2_DOWN, SC1_3_HASH,
    SC1_3_PGDN, SC1_4_DOLLAR, SC1_4_LEFT, SC1_5_CENTER, SC1_5_PERCENT, SC1_6_CARET,
    SC1_6_RIGHT, SC1_7_AMPERSAND, SC1_7_HOME, SC1_8_ASTERISK, SC1_8_UP, SC1_9_LPAREN,
    SC1_9_PGUP, SC1_A, SC1_ALT_LEFT, SC1_ALT_RIGHT, SC1_B, SC1_BACKSLASH_PIPE, SC1_BACKSPACE,
    SC1_BACKTICK_TILDE, SC1_C, SC1_CAPS_LOCK, SC1_COMMA_LESSTHAN, SC1_CTRL_LEFT,
    SC1_CTRL_RIGHT, SC1_D, SC1_DASH_UNDERSCORE, SC1_DELETE, SC1_DOWN, SC1_E, SC1_END,
    SC1_ENTER, SC1_EQUALS_PLUS, SC1_ESCAPE, SC1_F, SC1_F1, SC1_F10, SC1_F11, SC1_F12, SC1_F2,
    SC1_F3, SC1_F4, SC1_F5, SC1_F6, SC1_F7, SC1_F8, SC1_F9, SC1_G, SC1_H, SC1_HOME, SC1_I,
    SC1_INSERT, SC1_J, SC1_K, SC1_KP_ASTERISK, SC1_KP_DEL_PERIOD, SC1_KP_ENTER, SC1_KP_MINUS,
    SC1_KP_PLUS, SC1_KP_SLASH, SC1_L, SC1_LBRACKET_LCURLY, SC1_LEFT, SC1_M, SC1_N,
    SC1_NUM_LOCK, SC1_O, SC1_P, SC1_PERIOD_GREATERTHAN, SC1_PGDN, SC1_PGUP, SC1_PRINTSCREEN,
    SC1_Q, SC1_QUOTE_DBLQUOTE, SC1_R, SC1_RBRACKET_RCURLY, SC1_RIGHT, SC1_S, SC1_SCROLL_LOCK,
    SC1_SEMICOLON_COLON, SC1_SHIFT_LEFT, SC1_SHIFT_RIGHT, SC1_SLASH_QUESTIONMARK, SC1_SPACE,
    SC1_SUPER_LEFT, SC1_SUPER_RIGHT, SC1_T, SC1_TAB, SC1_U, SC1_UP, SC1_V, SC1_W, SC1_X, SC1_Y,
    SC1_Z, SC1_EXTENDED_PREFIX_0, SC1_RELEASE_FLAG,
};
use crate::hw::ps2::keyboard::scan_code_2::{
    SC2_0_INSERT, SC2_0_RPAREN, SC2_1_END, SC2_1_EXCLAMATION, SC2_2_AT, SC2_2_DOWN, SC2_3_HASH,
    SC2_3_PGDN, SC2_4_DOLLAR, SC2_4_LEFT, SC2_5_CENTER, SC2_5_PERCENT, SC2_6_CARET,
    SC2_6_RIGHT, SC2_7_AMPERSAND, SC2_7_HOME, SC2_8_ASTERISK, SC2_8_UP, SC2_9_LPAREN,
    SC2_9_PGUP, SC2_A, SC2_ALT_LEFT, SC2_ALT_RIGHT, SC2_B, SC2_BACKSLASH_PIPE, SC2_BACKSPACE,
    SC2_BACKTICK_TILDE, SC2_C, SC2_CAPS_LOCK, SC2_COMMA_LESSTHAN, SC2_CTRL_LEFT,
    SC2_CTRL_RIGHT, SC2_D, SC2_DASH_UNDERSCORE, SC2_DELETE, SC2_DOWN, SC2_E, SC2_END,
    SC2_ENTER, SC2_EQUALS_PLUS, SC2_ESCAPE, SC2_F, SC2_F1, SC2_F10, SC2_F11, SC2_F12, SC2_F2,
    SC2_F3, SC2_F4, SC2_F5, SC2_F6, SC2_F7, SC2_F8, SC2_F9, SC2_G, SC2_H, SC2_HOME, SC2_I,
    SC2_INSERT, SC2_J, SC2_K, SC2_KP_ASTERISK, SC2_KP_DEL_PERIOD, SC2_KP_ENTER, SC2_KP_MINUS,
    SC2_KP_PLUS, SC2_KP_SLASH, SC2_L, SC2_LBRACKET_LCURLY, SC2_LEFT, SC2_M, SC2_N,
    SC2_NUM_LOCK, SC2_O, SC2_P, SC2_PERIOD_GREATERTHAN, SC2_PGDN, SC2_PGUP, SC2_PRINTSCREEN,
    SC2_Q, SC2_QUOTE_DBLQUOTE, SC2_R, SC2_RBRACKET_RCURLY, SC2_RIGHT, SC2_S, SC2_SCROLL_LOCK,
    SC2_SEMICOLON_COLON, SC2_SHIFT_LEFT, SC2_SHIFT_RIGHT, SC2_SLASH_QUESTIONMARK, SC2_SPACE,
    SC2_SUPER_LEFT, SC2_SUPER_RIGHT, SC2_T, SC2_TAB, SC2_U, SC2_UP, SC2_V, SC2_W, SC2_X, SC2_Y,
    SC2_Z, SC2_EXTENDED_PREFIX_0, SC2_RELEASE_CODE,
};
use crate::hw::ps2::ctrl::PS2ScanCodeSet;
use vstd::prelude::*;

pub mod laws;
pub mod scan_code_1;
pub mod scan_code_2;

verus! {

/// A key symbol of a remote console, as far as keyboards are concerned.
#[derive(Clone, Copy, Debug, PartialEq, Eq, Structural)]
pub enum KeySym {
    /// An ASCII character.
    Ascii(char),
    /// A function key, by its number.
    FunctionKey(u8),
    Backspace,
    Tab,
    ReturnOrEnter,
    Escape,
    Insert,
    Delete,
    Home,
    End,
    PageUp,
    PageDown,
    Print,
    CapsLock,
    SuperLeft,
    SuperRight,
    Left,
    Up,
    Right,
    Down,
    ShiftLeft,
    ShiftRight,
    ControlLeft,
    ControlRight,
    AltLeft,
    AltRight,
    ScrollLock,
    NumLock,
    KeypadSlash,
    KeypadAsterisk,
    KeypadMinus,
    KeypadPlus,
    KeypadEnter,
    KeypadPeriod,
    KeypadDelete,
    Keypad0,
    KeypadInsert,
    Keypad1,
    KeypadEnd,
    Keypad2,
    KeypadDown,
    Keypad3,
    KeypadPgDown,
    Keypad4,
    KeypadLeft,
    Keypad5,
    KeypadEmpty,
    Keypad6,
    KeypadRight,
    Keypad7,
    KeypadHome,
    Keypad8,
    KeypadUp,
    Keypad9,
    KeypadPgUp,
    Pause,
    Menu,
}

/// The scan codes of the key of a character in sets 1 and 2, or zeros if it has
/// none. Both cases of a letter, and both symbols of any other key, share it.
pub open spec fn ascii_codes(c: char) -> (u8, u8) {
    if c == '\x08' {
        (SC1_BACKSPACE, SC2_BACKSPACE)
    } else if c == '\t' {
        (SC1_TAB, SC2_TAB)
    } else if c == '\x1b' {
        (SC1_ESCAPE, SC2_ESCAPE)
    } else if c == ' ' {
        (SC1_SPACE, SC2_SPACE)
    } else if c == '\'' || c == '"' {
        (SC1_QUOTE_DBLQUOTE, SC2_QUOTE_DBLQUOTE)
    } else if c == '1' || c == '!' {
        (SC1_1_EXCLAMATION, SC2_1_EXCLAMATION)
    } else if c == '2' || c == '@' {
        (SC1_2_AT, SC2_2_AT)
    } else if c == '3' || c == '#' {
        (SC1_3_HASH, SC2_3_HASH)
    } else if c == '4' || c == '$' {
        (SC1_4_DOLLAR, SC2_4_DOLLAR)
    } else if c == '5' || c == '%' {
        (SC1_5_PERCENT, SC2_5_PERCENT)
    } else if c == '6' || c == '^' {
        (SC1_6_CARET, SC2_6_CARET)
    } else if c == '7' || c == '&' {
        (SC1_7_AMPERSAND, SC2_7_AMPERSAND)
    } else if c == '9' || c == '(' {
        (SC1_9_LPAREN, SC2_9_LPAREN)
    } else if c == '0' || c == ')' {
        (SC1_0_RPAREN, SC2_0_RPAREN)
    } else if c == '8' || c == '*' {
        (SC1_8_ASTERISK, SC2_8_ASTERISK)
    } else if c == '=' || c == '+' {
        (SC1_EQUALS_PLUS, SC2_EQUALS_PLUS)
    } else if c == ',' || c == '<' {
        (SC1_COMMA_LESSTHAN, SC2_COMMA_LESSTHAN)
    } else if c == '-' || c == '_' {
        (SC1_DASH_UNDERSCORE, SC2_DASH_UNDERSCORE)
    } else if c == '.' || c == '>' {
        (SC1_PERIOD_GREATERTHAN, SC2_PERIOD_GREATERTHAN)
    } else if c == '/' || c == '?' {
        (SC1_SLASH_QUESTIONMARK, SC2_SLASH_QUESTIONMARK)
    } else if c == ';' || c == ':' {
        (SC1_SEMICOLON_COLON, SC2_SEMICOLON_COLON)
    } else if c == 'A' || c == 'a' {
        (SC1_A, SC2_A)
    } else if c == 'B' || c == 'b' {
        (SC1_B, SC2_B)
    } else if c == 'C' || c == 'c' {
        (SC1_C, SC2_C)
    } else if c == 'D' || c == 'd' {
        (SC1_D, SC2_D)
    } else if c == 'E' || c == 'e' {
        (SC1_E, SC2_E)
    } else if c == 'F' || c == 'f' {
        (SC1_F, SC2_F)
    } else if c == 'G' || c == 'g' {
        (SC1_G, SC2_G)
    } else if c == 'H' || c == 'h' {
        (SC1_H, SC2_H)
    } else if c == 'I' || c == 'i' {
        (SC1_I, SC2_I)
    } else if c == 'J' || c == 'j' {
        (SC1_J, SC2_J)
    } else if c == 'K' || c == 'k' {
        (SC1_K, SC2_K)
    } else if c == 'L' || c == 'l' {
        (SC1_L, SC2_L)
    } else if c == 'M' || c == 'm' {
        (SC1_M, SC2_M)
    } else if c == 'N' || c == 'n' {
        (SC1_N, SC2_N)
    } else if c == 'O' || c == 'o' {
        (SC1_O, SC2_O)
    } else if c == 'P' || c == 'p' {
        (SC1_P, SC2_P)
    } else if c == 'Q' || c == 'q' {
        (SC1_Q, SC2_Q)
    } else if c == 'R' || c == 'r' {
        (SC1_R, SC2_R)
    } else if c == 'S' || c == 's' {
        (SC1_S, SC2_S)
    } else if c == 'T' || c == 't' {
        (SC1_T, SC2_T)
    } else if c == 'U' || c == 'u' {
        (SC1_U, SC2_U)
    } else if c == 'V' || c == 'v' {
        (SC1_V, SC2_V)
    } else if c == 'W' || c == 'w' {
        (SC1_W, SC2_W)
    } else if c == 'X' || c == 'x' {
        (SC1_X, SC2_X)
    } else if c == 'Y' || c == 'y' {
        (SC1_Y, SC2_Y)
    } else if c == 'Z' || c == 'z' {
        (SC1_Z, SC2_Z)
    } else if c == '[' || c == '{' {
        (SC1_LBRACKET_LCURLY, SC2_LBRACKET_LCURLY)
    } else if c == '\\' || c == '|' {
        (SC1_BACKSLASH_PIPE, SC2_BACKSLASH_PIPE)
    } else if c == ']' || c == '}' {
        (SC1_RBRACKET_RCURLY, SC2_RBRACKET_RCURLY)
    } else if c == '`' || c == '~' {
        (SC1_BACKTICK_TILDE, SC2_BACKTICK_TILDE)
    } else if c == '\x7f' {
        (SC1_DELETE, SC2_DELETE)
    } else {
        (0, 0)
    }
}

/// The scan codes of a function key in sets 1 and 2, or zeros if it has none.
pub open spec fn function_codes(n: u8) -> (u8, u8) {
    if n == 1 {
        (SC1_F1, SC2_F1)
    } else if n == 2 {
        (SC1_F2, SC2_F2)
    } else if n == 3 {
        (SC1_F3, SC2_F3)
    } else if n == 4 {
        (SC1_F4, SC2_F4)
    } else if n == 5 {
        (SC1_F5, SC2_F5)
    } else if n == 6 {
        (SC1_F6, SC2_F6)
    } else if n == 7 {
        (SC1_F7, SC2_F7)
    } else if n == 8 {
        (SC1_F8, SC2_F8)
    } else if n == 9 {
        (SC1_F9, SC2_F9)
    } else if n == 10 {
        (SC1_F10, SC2_F10)
    } else if n == 11 {
        (SC1_F11, SC2_F11)
    } else if n == 12 {
        (SC1_F12, SC2_F12)
    } else {
        (0, 0)
    }
}

/// The scan codes of a key in sets 1 and 2, without prefixes, or zeros if it has
/// none.
pub open spec fn key_codes(k: KeySym) -> (u8, u8) {
    match k {
        KeySym::Ascii(c) => ascii_codes(c),
        KeySym::FunctionKey(n) => function_codes(n),
        KeySym::Backspace => (SC1_BACKSPACE, SC2_BACKSPACE),
        KeySym::Tab => (SC1_TAB, SC2_TAB),
        KeySym::ReturnOrEnter => (SC1_ENTER, SC2_ENTER),
        KeySym::Escape => (SC1_ESCAPE, SC2_ESCAPE),
        KeySym::Insert => (SC1_INSERT, SC2_INSERT),
        KeySym::Delete => (SC1_DELETE, SC2_DELETE),
        KeySym::Home => (SC1_HOME, SC2_HOME),
        KeySym::End => (SC1_END, SC2_END),
        KeySym::PageUp => (SC1_PGUP, SC2_PGUP),
        KeySym::PageDown => (SC1_PGDN, SC2_PGDN),
        KeySym::Print => (SC1_PRINTSCREEN, SC2_PRINTSCREEN),
        KeySym::CapsLock => (SC1_CAPS_LOCK, SC2_CAPS_LOCK),
        KeySym::SuperLeft => (SC1_SUPER_LEFT, SC2_SUPER_LEFT),
        KeySym::SuperRight => (SC1_SUPER_RIGHT, SC2_SUPER_RIGHT),
        KeySym::Left => (SC1_LEFT, SC2_LEFT),
        KeySym::Up => (SC1_UP, SC2_UP),
        KeySym::Right => (SC1_RIGHT, SC2_RIGHT),
        KeySym::Down => (SC1_DOWN, SC2_DOWN),
        KeySym::ShiftLeft => (SC1_SHIFT_LEFT, SC2_SHIFT_LEFT),
        KeySym::ShiftRight => (SC1_SHIFT_RIGHT, SC2_SHIFT_RIGHT),
        KeySym::ControlLeft => (SC1_CTRL_LEFT, SC2_CTRL_LEFT),
        KeySym::ControlRight => (SC1_CTRL_RIGHT, SC2_CTRL_RIGHT),
        KeySym::AltLeft => (SC1_ALT_LEFT, SC2_ALT_LEFT),
        KeySym::AltRight => (SC1_ALT_RIGHT, SC2_ALT_RIGHT),
        KeySym::ScrollLock => (SC1_SCROLL_LOCK, SC2_SCROLL_LOCK),
        KeySym::NumLock => (SC1_NUM_LOCK, SC2_NUM_LOCK),
        KeySym::KeypadSlash => (SC1_KP_SLASH, SC2_KP_SLASH),
        KeySym::KeypadAsterisk => (SC1_KP_ASTERISK, SC2_KP_ASTERISK),
        KeySym::KeypadMinus => (SC1_KP_MINUS, SC2_KP_MINUS),
        KeySym::KeypadPlus => (SC1_KP_PLUS, SC2_KP_PLUS),
        KeySym::KeypadEnter => (SC1_KP_ENTER, SC2_KP_ENTER),
        KeySym::KeypadPeriod => (SC1_KP_DEL_PERIOD, SC2_KP_DEL_PERIOD),
        KeySym::KeypadDelete => (SC1_KP_DEL_PERIOD, SC2_KP_DEL_PERIOD),
        KeySym::Keypad0 => (SC1_0_INSERT, SC2_0_INSERT),
        KeySym::KeypadInsert => (SC1_0_INSERT, SC2_0_INSERT),
        KeySym::Keypad1 => (SC1_1_END, SC2_1_END),
        KeySym::KeypadEnd => (SC1_1_END, SC2_1_END),
        KeySym::Keypad2 => (SC1_2_DOWN, SC2_2_DOWN),
        KeySym::KeypadDown => (SC1_2_DOWN, SC2_2_DOWN),
        KeySym::Keypad3 => (SC1_3_PGDN, SC2_3_PGDN),
        KeySym::KeypadPgDown => (SC1_3_PGDN, SC2_3_PGDN),
        KeySym::Keypad4 => (SC1_4_LEFT, SC2_4_LEFT),
        KeySym::KeypadLeft => (SC1_4_LEFT, SC2_4_LEFT),
        KeySym::Keypad5 => (SC1_5_CENTER, SC2_5_CENTER),
        KeySym::KeypadEmpty => (SC1_5_CENTER, SC2_5_CENTER),
        KeySym::Keypad6 => (SC1_6_RIGHT, SC2_6_RIGHT),
        KeySym::KeypadRight => (SC1_6_RIGHT, SC2_6_RIGHT),
        KeySym::Keypad7 => (SC1_7_HOME, SC2_7_HOME),
        KeySym::KeypadHome => (SC1_7_HOME, SC2_7_HOME),
        KeySym::Keypad8 => (SC1_8_UP, SC2_8_UP),
        KeySym::KeypadUp => (SC1_8_UP, SC2_8_UP),
        KeySym::Keypad9 => (SC1_9_PGUP, SC2_9_PGUP),
        KeySym::KeypadPgUp => (SC1_9_PGUP, SC2_9_PGUP),
        KeySym::Pause => (0, 0),
        KeySym::Menu => (0, 0),
    }
}

/// A key event of a remote console.
#[derive(Clone, Copy, Debug)]
pub struct KeyEvent {
    pub keysym: KeySym,
    /// The number of the symbol.
    pub keysym_raw: u32,
    /// Whether the key is pressed, rather than released.
    pub is_pressed: bool,
}

/// The number of a key symbol that no key stands for.
#[derive(Clone, Copy, Debug, PartialEq, Eq, Structural)]
pub struct UnknownKey(pub u32);

/// Whether the codes of a key have a prefix.
pub open spec fn is_extended(k: KeySym) -> bool {
    ||| k is AltRight
    ||| k is ControlRight
    ||| k is Home
    ||| k is Insert
    ||| k is End
    ||| k is PageUp
    ||| k is PageDown
    ||| k is KeypadSlash
    ||| k is KeypadEnter
    ||| k is SuperLeft
    ||| k is SuperRight
    ||| k is Left
    ||| k is Right
    ||| k is Up
    ||| k is Down
}

/// What all codes of a key in one set are made of.
#[derive(Debug)]
pub struct ScanCodeBase {
    pub base_val: u8,
    pub prefix: Option<Vec<u8>>,
}

impl ScanCodeBase {
    /// The prefix, or nothing.
    pub open spec fn prefix_bytes(&self) -> Seq<u8> {
        match self.prefix {
            Some(p) => p@,
            None => Seq::empty(),
        }
    }
}

/// A key event in terms of scan codes.
#[derive(Debug)]
pub struct KeyEventRep {
    pub keysym_raw: u32,
    pub is_pressed: bool,
    pub scan_code_1: ScanCodeBase,
    pub scan_code_2: ScanCodeBase,
}

/// The bytes that a keyboard sends when a key is pressed or released. A key that
/// is released sets the highest bit of its code in set 1, and sends a code of
/// its own before it in set 2.
pub open spec fn scan_code(prefix: Seq<u8>, base: u8, set: PS2ScanCodeSet, pressed: bool) -> Seq<u8> {
    if pressed {
        prefix.push(base)
    } else {
        match set {
            PS2ScanCodeSet::Set1 => prefix.push(base | SC1_RELEASE_FLAG),
            PS2ScanCodeSet::Set2 => prefix.push(SC2_RELEASE_CODE).push(base),
        }
    }
}

/// What a key event sends in a set, if there is such a key.
pub open spec fn event_code(ke: KeyEvent, set: PS2ScanCodeSet) -> Option<Seq<u8>> {
    let (c1, c2) = key_codes(ke.keysym);
    let prefix = if is_extended(ke.keysym) {
        seq![0xe0u8]
    } else {
        Seq::empty()
    };
    if c1 == 0 && c2 == 0 {
        None
    } else {
        Some(
            scan_code(
                prefix,
                if set is Set1 {
                    c1
                } else {
                    c2
                },
                set,
                ke.is_pressed,
            ),
        )
    }
}

/// The code of a released key is that of the pressed one with the highest bit
/// of its last byte set in set 1, and with the release code before its last
/// byte in set 2.
pub proof fn law_break_codes(prefix: Seq<u8>, base: u8)
    ensures
        ({
            let make = scan_code(prefix, base, PS2ScanCodeSet::Set1, true);
            let brk = scan_code(prefix, base, PS2ScanCodeSet::Set1, false);
            &&& brk.len() == make.len()
            &&& brk.drop_last() == make.drop_last()
            &&& brk.last() == make.last() | 0x80
        }),
        ({
            let make = scan_code(prefix, base, PS2ScanCodeSet::Set2, true);
            let brk = scan_code(prefix, base, PS2ScanCodeSet::Set2, false);
            brk == make.drop_last().push(0xf0u8).push(make.last())
        }),
{
    let m1 = scan_code(prefix, base, PS2ScanCodeSet::Set1, true);
    let b1 = scan_code(prefix, base, PS2ScanCodeSet::Set1, false);
    assert(b1.drop_last() =~= m1.drop_last());
    let m2 = scan_code(prefix, base, PS2ScanCodeSet::Set2, true);
    assert(m2.drop_last() =~= prefix);
}

/// An event of a key never sends more than three bytes, and at least one.
pub proof fn law_code_length(ke: KeyEvent, set: PS2ScanCodeSet)
    ensures
        event_code(ke, set) matches Some(s) ==> 1 <= s.len() <= 3,
{
}

/// The scan codes of the key of a character in sets 1 and 2, or zeros if it has
/// none.
fn find_ascii(c: char) -> (r: (u8, u8))
    ensures
        r == ascii_codes(c),
{
    match c {
        '\x08' => (SC1_BACKSPACE, SC2_BACKSPACE),
        '\t' => (SC1_TAB, SC2_TAB),
        '\x1b' => (SC1_ESCAPE, SC2_ESCAPE),
        ' ' => (SC1_SPACE, SC2_SPACE),
        '\'' | '"' => (SC1_QUOTE_DBLQUOTE, SC2_QUOTE_DBLQUOTE),
        '1' | '!' => (SC1_1_EXCLAMATION, SC2_1_EXCLAMATION),
        '2' | '@' => (SC1_2_AT, SC2_2_AT),
        '3' | '#' => (SC1_3_HASH, SC2_3_HASH),
        '4' | '$' => (SC1_4_DOLLAR, SC2_4_DOLLAR),
        '5' | '%' => (SC1_5_PERCENT, SC2_5_PERCENT),
        '6' | '^' => (SC1_6_CARET, SC2_6_CARET),
        '7' | '&' => (SC1_7_AMPERSAND, SC2_7_AMPERSAND),
        '9' | '(' => (SC1_9_LPAREN, SC2_9_LPAREN),
        '0' | ')' => (SC1_0_RPAREN, SC2_0_RPAREN),
        '8' | '*' => (SC1_8_ASTERISK, SC2_8_ASTERISK),
        '=' | '+' => (SC1_EQUALS_PLUS, SC2_EQUALS_PLUS),
        ',' | '<' => (SC1_COMMA_LESSTHAN, SC2_COMMA_LESSTHAN),
        '-' | '_' => (SC1_DASH_UNDERSCORE, SC2_DASH_UNDERSCORE),
        '.' | '>' => (SC1_PERIOD_GREATERTHAN, SC2_PERIOD_GREATERTHAN),
        '/' | '?' => (SC1_SLASH_QUESTIONMARK, SC2_SLASH_QUESTIONMARK),
        ';' | ':' => (SC1_SEMICOLON_COLON, SC2_SEMICOLON_COLON),
        'A' | 'a' => (SC1_A, SC2_A),
        'B' | 'b' => (SC1_B, SC2_B),
        'C' | 'c' => (SC1_C, SC2_C),
        'D' | 'd' => (SC1_D, SC2_D),
        'E' | 'e' => (SC1_E, SC2_E),
        'F' | 'f' => (SC1_F, SC2_F),
        'G' | 'g' => (SC1_G, SC2_G),
        'H' | 'h' => (SC1_H, SC2_H),
        'I' | 'i' => (SC1_I, SC2_I),
        'J' | 'j' => (SC1_J, SC2_J),
        'K' | 'k' => (SC1_K, SC2_K),
        'L' | 'l' => (SC1_L, SC2_L),
        'M' | 'm' => (SC1_M, SC2_M),
        'N' | 'n' => (SC1_N, SC2_N),
        'O' | 'o' => (SC1_O, SC2_O),
        'P' | 'p' => (SC1_P, SC2_P),
        'Q' | 'q' => (SC1_Q, SC2_Q),
        'R' | 'r' => (SC1_R, SC2_R),
        'S' | 's' => (SC1_S, SC2_S),
        'T' | 't' => (SC1_T, SC2_T),
        'U' | 'u' => (SC1_U, SC2_U),
        'V' | 'v' => (SC1_V, SC2_V),
        'W' | 'w' => (SC1_W, SC2_W),
        'X' | 'x' => (SC1_X, SC2_X),
        'Y' | 'y' => (SC1_Y, SC2_Y),
        'Z' | 'z' => (SC1_Z, SC2_Z),
        '[' | '{' => (SC1_LBRACKET_LCURLY, SC2_LBRACKET_LCURLY),
        '\\' | '|' => (SC1_BACKSLASH_PIPE, SC2_BACKSLASH_PIPE),
        ']' | '}' => (SC1_RBRACKET_RCURLY, SC2_RBRACKET_RCURLY),
        '`' | '~' => (SC1_BACKTICK_TILDE, SC2_BACKTICK_TILDE),
        '\x7f' => (SC1_DELETE, SC2_DELETE),
        _ => (0, 0),
    }
}

/// The scan codes of a key in sets 1 and 2, without prefixes, or zeros if it has
/// none.
fn find_key(k: KeySym) -> (r: (u8, u8))
    ensures
        r == key_codes(k),
{
    match k {
        KeySym::Ascii(c) => find_ascii(c),
        KeySym::FunctionKey(1) => (SC1_F1, SC2_F1),
        KeySym::FunctionKey(2) => (SC1_F2, SC2_F2),
        KeySym::FunctionKey(3) => (SC1_F3, SC2_F3),
        KeySym::FunctionKey(4) => (SC1_F4, SC2_F4),
        KeySym::FunctionKey(5) => (SC1_F5, SC2_F5),
        KeySym::FunctionKey(6) => (SC1_F6, SC2_F6),
        KeySym::FunctionKey(7) => (SC1_F7, SC2_F7),
        KeySym::FunctionKey(8) => (SC1_F8, SC2_F8),
        KeySym::FunctionKey(9) => (SC1_F9, SC2_F9),
        KeySym::FunctionKey(10) => (SC1_F10, SC2_F10),
        KeySym::FunctionKey(11) => (SC1_F11, SC2_F11),
        KeySym::FunctionKey(12) => (SC1_F12, SC2_F12),
        KeySym::Backspace => (SC1_BACKSPACE, SC2_BACKSPACE),
        KeySym::Tab => (SC1_TAB, SC2_TAB),
        KeySym::ReturnOrEnter => (SC1_ENTER, SC2_ENTER),
        KeySym::Escape => (SC1_ESCAPE, SC2_ESCAPE),
        KeySym::Insert => (SC1_INSERT, SC2_INSERT),
        KeySym::Delete => (SC1_DELETE, SC2_DELETE),
        KeySym::Home => (SC1_HOME, SC2_HOME),
        KeySym::End => (SC1_END, SC2_END),
        KeySym::PageUp => (SC1_PGUP, SC2_PGUP),
        KeySym::PageDown => (SC1_PGDN, SC2_PGDN),
        KeySym::Print => (SC1_PRINTSCREEN, SC2_PRINTSCREEN),
        KeySym::CapsLock => (SC1_CAPS_LOCK, SC2_CAPS_LOCK),
        KeySym::SuperLeft => (SC1_SUPER_LEFT, SC2_SUPER_LEFT),
        KeySym::SuperRight => (SC1_SUPER_RIGHT, SC2_SUPER_RIGHT),
        KeySym::Left => (SC1_LEFT, SC2_LEFT),
        KeySym::Up => (SC1_UP, SC2_UP),
        KeySym::Right => (SC1_RIGHT, SC2_RIGHT),
        KeySym::Down => (SC1_DOWN, SC2_DOWN),
        KeySym::ShiftLeft => (SC1_SHIFT_LEFT, SC2_SHIFT_LEFT),
        KeySym::ShiftRight => (SC1_SHIFT_RIGHT, SC2_SHIFT_RIGHT),
        KeySym::ControlLeft => (SC1_CTRL_LEFT, SC2_CTRL_LEFT),
        KeySym::ControlRight => (SC1_CTRL_RIGHT, SC2_CTRL_RIGHT),
        KeySym::AltLeft => (SC1_ALT_LEFT, SC2_ALT_LEFT),
        KeySym::AltRight => (SC1_ALT_RIGHT, SC2_ALT_RIGHT),
        KeySym::ScrollLock => (SC1_SCROLL_LOCK, SC2_SCROLL_LOCK),
        KeySym::NumLock => (SC1_NUM_LOCK, SC2_NUM_LOCK),
        KeySym::KeypadSlash => (SC1_KP_SLASH, SC2_KP_SLASH),
        KeySym::KeypadAsterisk => (SC1_KP_ASTERISK, SC2_KP_ASTERISK),
        KeySym::KeypadMinus => (SC1_KP_MINUS, SC2_KP_MINUS),
        KeySym::KeypadPlus => (SC1_KP_PLUS, SC2_KP_PLUS),
        KeySym::KeypadEnter => (SC1_KP_ENTER, SC2_KP_ENTER),
        KeySym::KeypadPeriod | KeySym::KeypadDelete => (SC1_KP_DEL_PERIOD, SC2_KP_DEL_PERIOD),
        KeySym::Keypad0 | KeySym::KeypadInsert => (SC1_0_INSERT, SC2_0_INSERT),
        KeySym::Keypad1 | KeySym::KeypadEnd => (SC1_1_END, SC2_1_END),
        KeySym::Keypad2 | KeySym::KeypadDown => (SC1_2_DOWN, SC2_2_DOWN),
        KeySym::Keypad3 | KeySym::KeypadPgDown => (SC1_3_PGDN, SC2_3_PGDN),
        KeySym::Keypad4 | KeySym::KeypadLeft => (SC1_4_LEFT, SC2_4_LEFT),
        KeySym::Keypad5 | KeySym::KeypadEmpty => (SC1_5_CENTER, SC2_5_CENTER),
        KeySym::Keypad6 | KeySym::KeypadRight => (SC1_6_RIGHT, SC2_6_RIGHT),
        KeySym::Keypad7 | KeySym::KeypadHome => (SC1_7_HOME, SC2_7_HOME),
        KeySym::Keypad8 | KeySym::KeypadUp => (SC1_8_UP, SC2_8_UP),
        KeySym::Keypad9 | KeySym::KeypadPgUp => (SC1_9_PGUP, SC2_9_PGUP),
        // Keys that are ignored
        KeySym::FunctionKey(_) | KeySym::Pause | KeySym::Menu => (0, 0),
    }
}

/// The prefix of extended keys.
fn make_prefix(extended: bool, byte: u8) -> (r: Option<Vec<u8>>)
    ensures
        r is Some <==> extended,
        r matches Some(v) ==> v@ == seq![byte],
{
    if extended {
        let mut v: Vec<u8> = Vec::new();
        v.push(byte);
        assert(v@ =~= seq![byte]);
        Some(v)
    } else {
        None
    }
}

/// Whether the codes of a key have a prefix.
fn check_extended(k: KeySym) -> (r: bool)
    ensures
        r == is_extended(k),
{
    match k {
        KeySym::AltRight | KeySym::ControlRight | KeySym::Home | KeySym::Insert | KeySym::End
        | KeySym::PageUp | KeySym::PageDown | KeySym::KeypadSlash | KeySym::KeypadEnter
        | KeySym::SuperLeft | KeySym::SuperRight | KeySym::Left | KeySym::Right | KeySym::Up
        | KeySym::Down => true,
        _ => false,
    }
}

impl KeyEventRep {
    /// The scan codes of a key event, unless no key stands for its symbol.
    pub fn try_from(keyevent: KeyEvent) -> (r: Result<KeyEventRep, UnknownKey>)
        ensures
            match r {
                Err(e) => key_codes(keyevent.keysym) == (0u8, 0u8) && e == UnknownKey(
                    keyevent.keysym_raw,
                ),
                Ok(k) => {
                    let (c1, c2) = key_codes(keyevent.keysym);
                    &&& !(c1 == 0 && c2 == 0)
                    &&& k.keysym_raw == keyevent.keysym_raw
                    &&& k.is_pressed == keyevent.is_pressed
                    &&& k.scan_code_1.base_val == c1
                    &&& k.scan_code_2.base_val == c2
                    &&& k.scan_code_1.prefix is Some <==> is_extended(keyevent.keysym)
                    &&& k.scan_code_2.prefix is Some <==> is_extended(keyevent.keysym)
                    &&& k.scan_code_1.prefix matches Some(p) ==> p@ == seq![0xe0u8]
                    &&& k.scan_code_2.prefix matches Some(p) ==> p@ == seq![0xe0u8]
                },
            },
    {
        let (base_val_1, base_val_2): (u8, u8) = find_key(keyevent.keysym);
        if base_val_1 == 0 && base_val_2 == 0 {
            return Err(UnknownKey(keyevent.keysym_raw));
        }
        let extended: bool = check_extended(keyevent.keysym);
        Ok(
            KeyEventRep {
                keysym_raw: keyevent.keysym_raw,
                is_pressed: keyevent.is_pressed,
                scan_code_1: ScanCodeBase {
                    base_val: base_val_1,
                    prefix: make_prefix(extended, SC1_EXTENDED_PREFIX_0),
                },
                scan_code_2: ScanCodeBase {
                    base_val: base_val_2,
                    prefix: make_prefix(extended, SC2_EXTENDED_PREFIX_0),
                },
            },
        )
    }

    /// The bytes that a keyboard sends for the event in a set.
    pub fn to_scan_code(&self, sc_set: PS2ScanCodeSet) -> (r: Vec<u8>)
        ensures
            ({
                let sc = if sc_set is Set1 {
                    self.scan_code_1
                } else {
                    self.scan_code_2
                };
                r@ == scan_code(sc.prefix_bytes(), sc.base_val, sc_set, self.is_pressed)
            }),
    {
        let sc: &ScanCodeBase = match sc_set {
            PS2ScanCodeSet::Set1 => &self.scan_code_1,
            PS2ScanCodeSet::Set2 => &self.scan_code_2,
        };
        let mut bytes: Vec<u8> = Vec::new();
        if let Some(prefix) = &sc.prefix {
            let mut i: usize = 0;
            while i < prefix.len()
                invariant
                    i <= prefix@.len(),
                    bytes@ == prefix@.take(i as int),
                decreases prefix@.len() - i,
            {
                bytes.push(prefix[i]);
                i += 1;
                assert(bytes@ =~= prefix@.take(i as int));
            }
            assert(prefix@.take(prefix@.len() as int) =~= prefix@);
        }
        assert(bytes@ =~= sc.prefix_bytes());
        if self.is_pressed {
            bytes.push(sc.base_val);
        } else {
            match sc_set {
                PS2ScanCodeSet::Set1 => {
                    bytes.push(sc.base_val | SC1_RELEASE_FLAG);
                },
                PS2ScanCodeSet::Set2 => {
                    bytes.push(SC2_RELEASE_CODE);
                    bytes.push(sc.base_val);
                },
            }
        }
        bytes
    }
}

} // verus!
