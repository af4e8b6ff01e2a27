//! The codes that keys send, key by key.
use crate::hw::ps2::ctrl::PS2ScanCodeSet;
use crate::hw::ps2::keyboard::{event_code, is_extended, key_codes, KeyEvent, KeySym};
use vstd::prelude::*;

verus! {

/// Whether a key sends the bytes `one` in set 1 and `two` in set 2 when it is
/// pressed. When it is released, the last byte has its highest bit set in set 1,
/// and follows the byte 0xf0 in set 2.
#[verifier::opaque]
pub open spec fn sends(k: KeySym, one: Seq<u8>, two: Seq<u8>) -> bool {
    forall|raw: u32|
        #![trigger event_code(KeyEvent { keysym: k, keysym_raw: raw, is_pressed: true }, PS2ScanCodeSet::Set1)]
        {
            let down = KeyEvent { keysym: k, keysym_raw: raw, is_pressed: true };
            let up = KeyEvent { keysym: k, keysym_raw: raw, is_pressed: false };
            &&& event_code(down, PS2ScanCodeSet::Set1) == Some(one)
            &&& event_code(down, PS2ScanCodeSet::Set2) == Some(two)
            &&& event_code(up, PS2ScanCodeSet::Set1) == Some(
                one.drop_last().push(one.last() | 0x80),
            )
            &&& event_code(up, PS2ScanCodeSet::Set2) == Some(
                two.drop_last().push(0xf0).push(two.last()),
            )
        }
}

/// What a key sends is made of its codes.
proof fn lemma_sends(k: KeySym)
    requires
        key_codes(k).0 != 0,
    ensures
        ({
            let (a, b) = key_codes(k);
            if is_extended(k) {
                sends(k, seq![0xe0u8, a], seq![0xe0u8, b])
            } else {
                sends(k, seq![a], seq![b])
            }
        }),
{
    reveal(sends);
    let (a, b) = key_codes(k);
    let prefix = if is_extended(k) {
        seq![0xe0u8]
    } else {
        Seq::empty()
    };
    let one = if is_extended(k) {
        seq![0xe0u8, a]
    } else {
        seq![a]
    };
    let two = if is_extended(k) {
        seq![0xe0u8, b]
    } else {
        seq![b]
    };
    assert(prefix.push(a) =~= one);
    assert(prefix.push(b) =~= two);
    assert(prefix.push(a | 0x80) =~= one.drop_last().push(one.last() | 0x80));
    assert(prefix.push(0xf0).push(b) =~= two.drop_last().push(0xf0).push(two.last()));
}

/// What the keys with a name of their own send.
pub proof fn law_named_keys()
    ensures
        sends(KeySym::Backspace, seq![0x0eu8], seq![0x66u8]),
        sends(KeySym::Tab, seq![0x0fu8], seq![0x0du8]),
        sends(KeySym::ReturnOrEnter, seq![0x1cu8], seq![0x5au8]),
        sends(KeySym::Escape, seq![0x01u8], seq![0x76u8]),
        sends(KeySym::Insert, seq![0xe0u8, 0x52u8], seq![0xe0u8, 0x70u8]),
        sends(KeySym::Delete, seq![0x53u8], seq![0x71u8]),
        sends(KeySym::Home, seq![0xe0u8, 0x47u8], seq![0xe0u8, 0x6cu8]),
        sends(KeySym::End, seq![0xe0u8, 0x4fu8], seq![0xe0u8, 0x69u8]),
        sends(KeySym::PageUp, seq![0xe0u8, 0x7du8], seq![0xe0u8, 0x49u8]),
        sends(KeySym::PageDown, seq![0xe0u8, 0xf1u8], seq![0xe0u8, 0x7au8]),
        sends(KeySym::Print, seq![0x37u8], seq![0x7cu8]),
        sends(KeySym::CapsLock, seq![0x3au8], seq![0x58u8]),
        sends(KeySym::SuperLeft, seq![0xe0u8, 0x5bu8], seq![0xe0u8, 0x1fu8]),
        sends(KeySym::SuperRight, seq![0xe0u8, 0x5cu8], seq![0xe0u8, 0x27u8]),
        sends(KeySym::Left, seq![0xe0u8, 0x6bu8], seq![0xe0u8, 0x4bu8]),
        sends(KeySym::Up, seq![0xe0u8, 0x75u8], seq![0xe0u8, 0x48u8]),
        sends(KeySym::Right, seq![0xe0u8, 0x74u8], seq![0xe0u8, 0x4du8]),
        sends(KeySym::Down, seq![0xe0u8, 0x72u8], seq![0xe0u8, 0x4fu8]),
        sends(KeySym::ShiftLeft, seq![0x2au8], seq![0x12u8]),
        sends(KeySym::ShiftRight, seq![0x36u8], seq![0x59u8]),
        sends(KeySym::ControlLeft, seq![0x1du8], seq![0x14u8]),
        sends(KeySym::ControlRight, seq![0xe0u8, 0x1du8], seq![0xe0u8, 0x14u8]),
        sends(KeySym::AltLeft, seq![0x38u8], seq![0x11u8]),
        sends(KeySym::AltRight, seq![0xe0u8, 0x38u8], seq![0xe0u8, 0x11u8]),
        sends(KeySym::ScrollLock, seq![0x46u8], seq![0x7eu8]),
        sends(KeySym::NumLock, seq![0x45u8], seq![0x77u8]),
{
    lemma_sends(KeySym::Backspace);
    lemma_sends(KeySym::Tab);
    lemma_sends(KeySym::ReturnOrEnter);
    lemma_sends(KeySym::Escape);
    lemma_sends(KeySym::Insert);
    lemma_sends(KeySym::Delete);
    lemma_sends(KeySym::Home);
    lemma_sends(KeySym::End);
    lemma_sends(KeySym::PageUp);
    lemma_sends(KeySym::PageDown);
    lemma_sends(KeySym::Print);
    lemma_sends(KeySym::CapsLock);
    lemma_sends(KeySym::SuperLeft);
    lemma_sends(KeySym::SuperRight);
    lemma_sends(KeySym::Left);
    lemma_sends(KeySym::Up);
    lemma_sends(KeySym::Right);
    lemma_sends(KeySym::Down);
    lemma_sends(KeySym::ShiftLeft);
    lemma_sends(KeySym::ShiftRight);
    lemma_sends(KeySym::ControlLeft);
    lemma_sends(KeySym::ControlRight);
    lemma_sends(KeySym::AltLeft);
    lemma_sends(KeySym::AltRight);
    lemma_sends(KeySym::ScrollLock);
    lemma_sends(KeySym::NumLock);
}

/// What the function keys send.
pub proof fn law_function_keys()
    ensures
        sends(KeySym::FunctionKey(1), seq![0x3bu8], seq![0x05u8]),
        sends(KeySym::FunctionKey(2), seq![0x3cu8], seq![0x06u8]),
        sends(KeySym::FunctionKey(3), seq![0x3du8], seq![0x04u8]),
        sends(KeySym::FunctionKey(4), seq![0x3eu8], seq![0x0cu8]),
        sends(KeySym::FunctionKey(5), seq![0x3fu8], seq![0x03u8]),
        sends(KeySym::FunctionKey(6), seq![0x40u8], seq![0x0bu8]),
        sends(KeySym::FunctionKey(7), seq![0x41u8], seq![0x83u8]),
        sends(KeySym::FunctionKey(8), seq![0x42u8], seq![0x0au8]),
        sends(KeySym::FunctionKey(9), seq![0x43u8], seq![0x01u8]),
        sends(KeySym::FunctionKey(10), seq![0x44u8], seq![0x09u8]),
        sends(KeySym::FunctionKey(11), seq![0x57u8], seq![0x78u8]),
        sends(KeySym::FunctionKey(12), seq![0x58u8], seq![0x07u8]),
{
    lemma_sends(KeySym::FunctionKey(1));
    lemma_sends(KeySym::FunctionKey(2));
    lemma_sends(KeySym::FunctionKey(3));
    lemma_sends(KeySym::FunctionKey(4));
    lemma_sends(KeySym::FunctionKey(5));
    lemma_sends(KeySym::FunctionKey(6));
    lemma_sends(KeySym::FunctionKey(7));
    lemma_sends(KeySym::FunctionKey(8));
    lemma_sends(KeySym::FunctionKey(9));
    lemma_sends(KeySym::FunctionKey(10));
    lemma_sends(KeySym::FunctionKey(11));
    lemma_sends(KeySym::FunctionKey(12));
}

/// What the keys of the keypad send, with and without the numbers locked.
pub proof fn law_keypad_keys()
    ensures
        sends(KeySym::KeypadSlash, seq![0xe0u8, 0x35u8], seq![0xe0u8, 0x4au8]),
        sends(KeySym::KeypadAsterisk, seq![0x37u8], seq![0x7cu8]),
        sends(KeySym::KeypadMinus, seq![0x4au8], seq![0x7bu8]),
        sends(KeySym::KeypadPlus, seq![0x4eu8], seq![0x79u8]),
        sends(KeySym::KeypadEnter, seq![0xe0u8, 0x1cu8], seq![0xe0u8, 0x5au8]),
        sends(KeySym::KeypadPeriod, seq![0x71u8], seq![0x71u8]),
        sends(KeySym::KeypadDelete, seq![0x71u8], seq![0x71u8]),
        sends(KeySym::Keypad0, seq![0x52u8], seq![0x70u8]),
        sends(KeySym::KeypadInsert, seq![0x52u8], seq![0x70u8]),
        sends(KeySym::Keypad1, seq![0x4fu8], seq![0x69u8]),
        sends(KeySym::KeypadEnd, seq![0x4fu8], seq![0x69u8]),
        sends(KeySym::Keypad2, seq![0x50u8], seq![0x72u8]),
        sends(KeySym::KeypadDown, seq![0x50u8], seq![0x72u8]),
        sends(KeySym::Keypad3, seq![0x51u8], seq![0x7au8]),
        sends(KeySym::KeypadPgDown, seq![0x51u8], seq![0x7au8]),
        sends(KeySym::Keypad4, seq![0x4bu8], seq![0x6bu8]),
        sends(KeySym::KeypadLeft, seq![0x4bu8], seq![0x6bu8]),
        sends(KeySym::Keypad5, seq![0x4cu8], seq![0x73u8]),
        sends(KeySym::KeypadEmpty, seq![0x4cu8], seq![0x73u8]),
        sends(KeySym::Keypad6, seq![0x4du8], seq![0x74u8]),
        sends(KeySym::KeypadRight, seq![0x4du8], seq![0x74u8]),
        sends(KeySym::Keypad7, seq![0x47u8], seq![0x6cu8]),
        sends(KeySym::KeypadHome, seq![0x47u8], seq![0x6cu8]),
        sends(KeySym::Keypad8, seq![0x48u8], seq![0x75u8]),
        sends(KeySym::KeypadUp, seq![0x48u8], seq![0x75u8]),
        sends(KeySym::Keypad9, seq![0x49u8], seq![0x7du8]),
        sends(KeySym::KeypadPgUp, seq![0x49u8], seq![0x7du8]),
{
    lemma_sends(KeySym::KeypadSlash);
    lemma_sends(KeySym::KeypadAsterisk);
    lemma_sends(KeySym::KeypadMinus);
    lemma_sends(KeySym::KeypadPlus);
    lemma_sends(KeySym::KeypadEnter);
    lemma_sends(KeySym::KeypadPeriod);
    lemma_sends(KeySym::KeypadDelete);
    lemma_sends(KeySym::Keypad0);
    lemma_sends(KeySym::KeypadInsert);
    lemma_sends(KeySym::Keypad1);
    lemma_sends(KeySym::KeypadEnd);
    lemma_sends(KeySym::Keypad2);
    lemma_sends(KeySym::KeypadDown);
    lemma_sends(KeySym::Keypad3);
    lemma_sends(KeySym::KeypadPgDown);
    lemma_sends(KeySym::Keypad4);
    lemma_sends(KeySym::KeypadLeft);
    lemma_sends(KeySym::Keypad5);
    lemma_sends(KeySym::KeypadEmpty);
    lemma_sends(KeySym::Keypad6);
    lemma_sends(KeySym::KeypadRight);
    lemma_sends(KeySym::Keypad7);
    lemma_sends(KeySym::KeypadHome);
    lemma_sends(KeySym::Keypad8);
    lemma_sends(KeySym::KeypadUp);
    lemma_sends(KeySym::Keypad9);
    lemma_sends(KeySym::KeypadPgUp);
}

/// What the keys of the first letters send: both cases of a letter are the same
/// key.
pub proof fn law_letter_keys_a_to_m()
    ensures
        sends(KeySym::Ascii('A'), seq![0x1eu8], seq![0x1cu8]),
        sends(KeySym::Ascii('a'), seq![0x1eu8], seq![0x1cu8]),
        sends(KeySym::Ascii('B'), seq![0x30u8], seq![0x32u8]),
        sends(KeySym::Ascii('b'), seq![0x30u8], seq![0x32u8]),
        sends(KeySym::Ascii('C'), seq![0x2eu8], seq![0x21u8]),
        sends(KeySym::Ascii('c'), seq![0x2eu8], seq![0x21u8]),
        sends(KeySym::Ascii('D'), seq![0x20u8], seq![0x23u8]),
        sends(KeySym::Ascii('d'), seq![0x20u8], seq![0x23u8]),
        sends(KeySym::Ascii('E'), seq![0x12u8], seq![0x24u8]),
        sends(KeySym::Ascii('e'), seq![0x12u8], seq![0x24u8]),
        sends(KeySym::Ascii('F'), seq![0x21u8], seq![0x2bu8]),
        sends(KeySym::Ascii('f'), seq![0x21u8], seq![0x2bu8]),
        sends(KeySym::Ascii('G'), seq![0x22u8], seq![0x34u8]),
        sends(KeySym::Ascii('g'), seq![0x22u8], seq![0x34u8]),
        sends(KeySym::Ascii('H'), seq![0x23u8], seq![0x33u8]),
        sends(KeySym::Ascii('h'), seq![0x23u8], seq![0x33u8]),
        sends(KeySym::Ascii('I'), seq![0x17u8], seq![0x43u8]),
        sends(KeySym::Ascii('i'), seq![0x17u8], seq![0x43u8]),
        sends(KeySym::Ascii('J'), seq![0x24u8], seq![0x3bu8]),
        sends(KeySym::Ascii('j'), seq![0x24u8], seq![0x3bu8]),
        sends(KeySym::Ascii('K'), seq![0x25u8], seq![0x42u8]),
        sends(KeySym::Ascii('k'), seq![0x25u8], seq![0x42u8]),
        sends(KeySym::Ascii('L'), seq![0x26u8], seq![0x4bu8]),
        sends(KeySym::Ascii('l'), seq![0x26u8], seq![0x4bu8]),
        sends(KeySym::Ascii('M'), seq![0x32u8], seq![0x3au8]),
        sends(KeySym::Ascii('m'), seq![0x32u8], seq![0x3au8]),
{
    lemma_sends(KeySym::Ascii('A'));
    lemma_sends(KeySym::Ascii('a'));
    lemma_sends(KeySym::Ascii('B'));
    lemma_sends(KeySym::Ascii('b'));
    lemma_sends(KeySym::Ascii('C'));
    lemma_sends(KeySym::Ascii('c'));
    lemma_sends(KeySym::Ascii('D'));
    lemma_sends(KeySym::Ascii('d'));
    lemma_sends(KeySym::Ascii('E'));
    lemma_sends(KeySym::Ascii('e'));
    lemma_sends(KeySym::Ascii('F'));
    lemma_sends(KeySym::Ascii('f'));
    lemma_sends(KeySym::Ascii('G'));
    lemma_sends(KeySym::Ascii('g'));
    lemma_sends(KeySym::Ascii('H'));
    lemma_sends(KeySym::Ascii('h'));
    lemma_sends(KeySym::Ascii('I'));
    lemma_sends(KeySym::Ascii('i'));
    lemma_sends(KeySym::Ascii('J'));
    lemma_sends(KeySym::Ascii('j'));
    lemma_sends(KeySym::Ascii('K'));
    lemma_sends(KeySym::Ascii('k'));
    lemma_sends(KeySym::Ascii('L'));
    lemma_sends(KeySym::Ascii('l'));
    lemma_sends(KeySym::Ascii('M'));
    lemma_sends(KeySym::Ascii('m'));
}

/// What the keys of the other letters send.
pub proof fn law_letter_keys_n_to_z()
    ensures
        sends(KeySym::Ascii('N'), seq![0x31u8], seq![0x31u8]),
        sends(KeySym::Ascii('n'), seq![0x31u8], seq![0x31u8]),
        sends(KeySym::Ascii('O'), seq![0x18u8], seq![0x44u8]),
        sends(KeySym::Ascii('o'), seq![0x18u8], seq![0x44u8]),
        sends(KeySym::Ascii('P'), seq![0x19u8], seq![0x4du8]),
        sends(KeySym::Ascii('p'), seq![0x19u8], seq![0x4du8]),
        sends(KeySym::Ascii('Q'), seq![0x10u8], seq![0x15u8]),
        sends(KeySym::Ascii('q'), seq![0x10u8], seq![0x15u8]),
        sends(KeySym::Ascii('R'), seq![0x13u8], seq![0x2du8]),
        sends(KeySym::Ascii('r'), seq![0x13u8], seq![0x2du8]),
        sends(KeySym::Ascii('S'), seq![0x1fu8], seq![0x1bu8]),
        sends(KeySym::Ascii('s'), seq![0x1fu8], seq![0x1bu8]),
        sends(KeySym::Ascii('T'), seq![0x14u8], seq![0x2cu8]),
        sends(KeySym::Ascii('t'), seq![0x14u8], seq![0x2cu8]),
        sends(KeySym::Ascii('U'), seq![0x16u8], seq![0x3cu8]),
        sends(KeySym::Ascii('u'), seq![0x16u8], seq![0x3cu8]),
        sends(KeySym::Ascii('V'), seq![0x2fu8], seq![0x2au8]),
        sends(KeySym::Ascii('v'), seq![0x2fu8], seq![0x2au8]),
        sends(KeySym::Ascii('W'), seq![0x11u8], seq![0x1du8]),
        sends(KeySym::Ascii('w'), seq![0x11u8], seq![0x1du8]),
        sends(KeySym::Ascii('X'), seq![0x2du8], seq![0x22u8]),
        sends(KeySym::Ascii('x'), seq![0x2du8], seq![0x22u8]),
        sends(KeySym::Ascii('Y'), seq![0x15u8], seq![0x35u8]),
        sends(KeySym::Ascii('y'), seq![0x15u8], seq![0x35u8]),
        sends(KeySym::Ascii('Z'), seq![0x2cu8], seq![0x1au8]),
        sends(KeySym::Ascii('z'), seq![0x2cu8], seq![0x1au8]),
{
    lemma_sends(KeySym::Ascii('N'));
    lemma_sends(KeySym::Ascii('n'));
    lemma_sends(KeySym::Ascii('O'));
    lemma_sends(KeySym::Ascii('o'));
    lemma_sends(KeySym::Ascii('P'));
    lemma_sends(KeySym::Ascii('p'));
    lemma_sends(KeySym::Ascii('Q'));
    lemma_sends(KeySym::Ascii('q'));
    lemma_sends(KeySym::Ascii('R'));
    lemma_sends(KeySym::Ascii('r'));
    lemma_sends(KeySym::Ascii('S'));
    lemma_sends(KeySym::Ascii('s'));
    lemma_sends(KeySym::Ascii('T'));
    lemma_sends(KeySym::Ascii('t'));
    lemma_sends(KeySym::Ascii('U'));
    lemma_sends(KeySym::Ascii('u'));
    lemma_sends(KeySym::Ascii('V'));
    lemma_sends(KeySym::Ascii('v'));
    lemma_sends(KeySym::Ascii('W'));
    lemma_sends(KeySym::Ascii('w'));
    lemma_sends(KeySym::Ascii('X'));
    lemma_sends(KeySym::Ascii('x'));
    lemma_sends(KeySym::Ascii('Y'));
    lemma_sends(KeySym::Ascii('y'));
    lemma_sends(KeySym::Ascii('Z'));
    lemma_sends(KeySym::Ascii('z'));
}

/// What the keys of other characters send: both characters of a key are the same
/// key.
pub proof fn law_character_keys()
    ensures
        sends(KeySym::Ascii('\x08'), seq![0x0eu8], seq![0x66u8]),
        sends(KeySym::Ascii('\t'), seq![0x0fu8], seq![0x0du8]),
        sends(KeySym::Ascii('\x1b'), seq![0x01u8], seq![0x76u8]),
        sends(KeySym::Ascii(' '), seq![0x39u8], seq![0x29u8]),
        sends(KeySym::Ascii('\''), seq![0x28u8], seq![0x52u8]),
        sends(KeySym::Ascii('"'), seq![0x28u8], seq![0x52u8]),
        sends(KeySym::Ascii('1'), seq![0x02u8], seq![0x16u8]),
        sends(KeySym::Ascii('!'), seq![0x02u8], seq![0x16u8]),
        sends(KeySym::Ascii('2'), seq![0x03u8], seq![0x1fu8]),
        sends(KeySym::Ascii('@'), seq![0x03u8], seq![0x1fu8]),
        sends(KeySym::Ascii('3'), seq![0x04u8], seq![0x26u8]),
        sends(KeySym::Ascii('#'), seq![0x04u8], seq![0x26u8]),
        sends(KeySym::Ascii('4'), seq![0x05u8], seq![0x25u8]),
        sends(KeySym::Ascii('$'), seq![0x05u8], seq![0x25u8]),
        sends(KeySym::Ascii('5'), seq![0x06u8], seq![0x2eu8]),
        sends(KeySym::Ascii('%'), seq![0x06u8], seq![0x2eu8]),
        sends(KeySym::Ascii('6'), seq![0x07u8], seq![0x36u8]),
        sends(KeySym::Ascii('^'), seq![0x07u8], seq![0x36u8]),
        sends(KeySym::Ascii('7'), seq![0x08u8], seq![0x3du8]),
        sends(KeySym::Ascii('&'), seq![0x08u8], seq![0x3du8]),
        sends(KeySym::Ascii('9'), seq![0x0au8], seq![0x46u8]),
        sends(KeySym::Ascii('('), seq![0x0au8], seq![0x46u8]),
        sends(KeySym::Ascii('0'), seq![0x0bu8], seq![0x45u8]),
        sends(KeySym::Ascii(')'), seq![0x0bu8], seq![0x45u8]),
        sends(KeySym::Ascii('8'), seq![0x09u8], seq![0x3eu8]),
        sends(KeySym::Ascii('*'), seq![0x09u8], seq![0x3eu8]),
        sends(KeySym::Ascii('='), seq![0x0du8], seq![0x55u8]),
        sends(KeySym::Ascii('+'), seq![0x0du8], seq![0x55u8]),
        sends(KeySym::Ascii(','), seq![0x33u8], seq![0x41u8]),
        sends(KeySym::Ascii('<'), seq![0x33u8], seq![0x41u8]),
        sends(KeySym::Ascii('-'), seq![0x0cu8], seq![0x4eu8]),
        sends(KeySym::Ascii('_'), seq![0x0cu8], seq![0x4eu8]),
        sends(KeySym::Ascii('.'), seq![0x34u8], seq![0x49u8]),
        sends(KeySym::Ascii('>'), seq![0x34u8], seq![0x49u8]),
        sends(KeySym::Ascii('/'), seq![0x35u8], seq![0x4au8]),
        sends(KeySym::Ascii('?'), seq![0x35u8], seq![0x4au8]),
        sends(KeySym::Ascii(';'), seq![0x27u8], seq![0x4cu8]),
        sends(KeySym::Ascii(':'), seq![0x27u8], seq![0x4cu8]),
        sends(KeySym::Ascii('['), seq![0x1au8], seq![0x54u8]),
        sends(KeySym::Ascii('{'), seq![0x1au8], seq![0x54u8]),
        sends(KeySym::Ascii('\\'), seq![0x2bu8], seq![0x5du8]),
        sends(KeySym::Ascii('|'), seq![0x2bu8], seq![0x5du8]),
        sends(KeySym::Ascii(']'), seq![0x1bu8], seq![0x5bu8]),
        sends(KeySym::Ascii('}'), seq![0x1bu8], seq![0x5bu8]),
        sends(KeySym::Ascii('`'), seq![0x29u8], seq![0x0eu8]),
        sends(KeySym::Ascii('~'), seq![0x29u8], seq![0x0eu8]),
        sends(KeySym::Ascii('\x7f'), seq![0x53u8], seq![0x71u8]),
{
    lemma_sends(KeySym::Ascii('\x08'));
    lemma_sends(KeySym::Ascii('\t'));
    lemma_sends(KeySym::Ascii('\x1b'));
    lemma_sends(KeySym::Ascii(' '));
    lemma_sends(KeySym::Ascii('\''));
    lemma_sends(KeySym::Ascii('"'));
    lemma_sends(KeySym::Ascii('1'));
    lemma_sends(KeySym::Ascii('!'));
    lemma_sends(KeySym::Ascii('2'));
    lemma_sends(KeySym::Ascii('@'));
    lemma_sends(KeySym::Ascii('3'));
    lemma_sends(KeySym::Ascii('#'));
    lemma_sends(KeySym::Ascii('4'));
    lemma_sends(KeySym::Ascii('$'));
    lemma_sends(KeySym::Ascii('5'));
    lemma_sends(KeySym::Ascii('%'));
    lemma_sends(KeySym::Ascii('6'));
    lemma_sends(KeySym::Ascii('^'));
    lemma_sends(KeySym::Ascii('7'));
    lemma_sends(KeySym::Ascii('&'));
    lemma_sends(KeySym::Ascii('9'));
    lemma_sends(KeySym::Ascii('('));
    lemma_sends(KeySym::Ascii('0'));
    lemma_sends(KeySym::Ascii(')'));
    lemma_sends(KeySym::Ascii('8'));
    lemma_sends(KeySym::Ascii('*'));
    lemma_sends(KeySym::Ascii('='));
    lemma_sends(KeySym::Ascii('+'));
    lemma_sends(KeySym::Ascii(','));
    lemma_sends(KeySym::Ascii('<'));
    lemma_sends(KeySym::Ascii('-'));
    lemma_sends(KeySym::Ascii('_'));
    lemma_sends(KeySym::Ascii('.'));
    lemma_sends(KeySym::Ascii('>'));
    lemma_sends(KeySym::Ascii('/'));
    lemma_sends(KeySym::Ascii('?'));
    lemma_sends(KeySym::Ascii(';'));
    lemma_sends(KeySym::Ascii(':'));
    lemma_sends(KeySym::Ascii('['));
    lemma_sends(KeySym::Ascii('{'));
    lemma_sends(KeySym::Ascii('\\'));
    lemma_sends(KeySym::Ascii('|'));
    lemma_sends(KeySym::Ascii(']'));
    lemma_sends(KeySym::Ascii('}'));
    lemma_sends(KeySym::Ascii('`'));
    lemma_sends(KeySym::Ascii('~'));
    lemma_sends(KeySym::Ascii('\x7f'));
}

/// Keys that send nothing.
pub proof fn law_silent_keys(ke: KeyEvent, set: PS2ScanCodeSet)
    ensures
        match ke.keysym {
            KeySym::Pause | KeySym::Menu => event_code(ke, set) is None,
            KeySym::FunctionKey(n) => event_code(ke, set) is None <==> n == 0 || n > 12,
            KeySym::Ascii(c) => event_code(ke, set) is None <==> (c < ' ' && c != '\x08' && c != '\t'
                && c != '\x1b') || c > '\x7f',
            _ => event_code(ke, set) is Some,
        },
{
}

/// A key with a name and the character that it enters are the same key.
pub proof fn law_keys_of_characters(raw: u32, pressed: bool, set: PS2ScanCodeSet)
    ensures
        ({
            let code = |k: KeySym|
                event_code(KeyEvent { keysym: k, keysym_raw: raw, is_pressed: pressed }, set);
            &&& code(KeySym::Escape) == code(KeySym::Ascii('\x1b'))
            &&& code(KeySym::Tab) == code(KeySym::Ascii('\t'))
            &&& code(KeySym::Backspace) == code(KeySym::Ascii('\x08'))
            &&& code(KeySym::Delete) == code(KeySym::Ascii('\x7f'))
        }),
{
}

} // verus!
