use propolis::common::{RWOp, ReadOp, WriteOp};
use propolis::hw::ps2::ctrl::{
    CtrlCfg, CtrlOutPort, PS2Ctrl, PS2CtrlV1, PS2Kbd, PS2MStatus, PS2Mouse, PS2Pins,
    PS2ScanCodeSet,
};
use propolis::hw::ps2::keyboard::{KeyEvent, KeyEventRep, KeySym, UnknownKey};
use propolis::intr_pins::PinEvent;
use propolis::migrate::MigrateStateError;

const PINS: PS2Pins = PS2Pins { pri: 1, aux: 12, reset: 99 };

fn key(keysym: KeySym, is_pressed: bool) -> KeyEvent {
    KeyEvent { keysym, keysym_raw: 0x1234, is_pressed }
}

fn out(ctrl: &mut PS2Ctrl, n: usize) -> Vec<u8> {
    let mut events = Vec::new();
    (0..n).map(|_| ctrl.data_read(&mut events)).collect()
}

fn cmd(ctrl: &mut PS2Ctrl, v: u8) -> Vec<PinEvent> {
    let mut events = Vec::new();
    ctrl.cmd_write(v, &mut events);
    events
}

fn data(ctrl: &mut PS2Ctrl, v: u8) -> Vec<PinEvent> {
    let mut events = Vec::new();
    ctrl.data_write(v, &mut events);
    events
}

#[test]
fn codes_of_keys() {
    let rep = KeyEventRep::try_from(key(KeySym::Ascii('a'), true)).ok().unwrap();
    assert_eq!(rep.to_scan_code(PS2ScanCodeSet::Set1), vec![0x1e]);
    assert_eq!(rep.to_scan_code(PS2ScanCodeSet::Set2), vec![0x1c]);
    let rep = KeyEventRep::try_from(key(KeySym::Ascii('A'), false)).ok().unwrap();
    assert_eq!(rep.to_scan_code(PS2ScanCodeSet::Set1), vec![0x9e]);
    assert_eq!(rep.to_scan_code(PS2ScanCodeSet::Set2), vec![0xf0, 0x1c]);
}

#[test]
fn codes_of_extended_keys() {
    let rep = KeyEventRep::try_from(key(KeySym::Left, true)).ok().unwrap();
    assert_eq!(rep.to_scan_code(PS2ScanCodeSet::Set1), vec![0xe0, 0x6b]);
    assert_eq!(rep.to_scan_code(PS2ScanCodeSet::Set2), vec![0xe0, 0x4b]);
    let rep = KeyEventRep::try_from(key(KeySym::Left, false)).ok().unwrap();
    assert_eq!(rep.to_scan_code(PS2ScanCodeSet::Set1), vec![0xe0, 0xeb]);
    assert_eq!(rep.to_scan_code(PS2ScanCodeSet::Set2), vec![0xe0, 0xf0, 0x4b]);
}

#[test]
fn unknown_keys_are_refused() {
    for k in [KeySym::Pause, KeySym::Menu, KeySym::FunctionKey(20), KeySym::Ascii('\u{e9}')] {
        assert_eq!(KeyEventRep::try_from(key(k, true)).err(), Some(UnknownKey(0x1234)));
    }
}

#[test]
fn typed_keys_come_out_in_order() {
    let mut c = PS2Ctrl::create(PINS);
    assert_eq!(c.attach(), (0x60, 0x64));
    let mut events = Vec::new();
    c.key_event(key(KeySym::Ascii('a'), true), &mut events);
    c.key_event(key(KeySym::Ascii('a'), false), &mut events);
    // Output is there
    assert_eq!(c.status_read() & 1, 1);
    assert_eq!(out(&mut c, 3), vec![0x1c, 0xf0, 0x1c]);
    assert_eq!(c.status_read() & 1, 0);
    assert_eq!(out(&mut c, 1), vec![0]);
    // Codes can be translated to the first set
    cmd(&mut c, 0x60);
    data(&mut c, 0x40);
    c.key_event(key(KeySym::Ascii('a'), true), &mut events);
    c.key_event(key(KeySym::Ascii('a'), false), &mut events);
    assert_eq!(out(&mut c, 2), vec![0x1e, 0x9e]);
}

#[test]
fn keyboard_drops_codes_that_do_not_fit() {
    let mut c = PS2Ctrl::create(PINS);
    let mut events = Vec::new();
    for _ in 0..30 {
        c.key_event(key(KeySym::Ascii('a'), true), &mut events);
    }
    assert_eq!(c.pri_port.buf.len(), 16);
}

#[test]
fn keyboard_interrupts_when_told_to() {
    let mut c = PS2Ctrl::create(PINS);
    let mut events = Vec::new();
    cmd(&mut c, 0x60);
    data(&mut c, 0x01);
    c.key_event(key(KeySym::Ascii('z'), true), &mut events);
    assert_eq!(events, vec![PinEvent::Pulse(1)]);
    events.clear();
    // Not while the port is disabled
    cmd(&mut c, 0xad);
    c.key_event(key(KeySym::Ascii('z'), false), &mut events);
    assert!(events.is_empty());
}

#[test]
fn controller_memory_is_read_back() {
    let mut c = PS2Ctrl::create(PINS);
    for i in 0..31u8 {
        cmd(&mut c, 0x61 + i);
        data(&mut c, 0x80 | i);
    }
    for i in 0..31u8 {
        cmd(&mut c, 0x21 + i);
        assert_eq!(out(&mut c, 1), vec![0x80 | i]);
    }
}

#[test]
fn controller_tests_itself() {
    let mut c = PS2Ctrl::create(PINS);
    cmd(&mut c, 0xaa);
    assert_eq!(out(&mut c, 1), vec![0x55]);
    cmd(&mut c, 0xab);
    assert_eq!(out(&mut c, 1), vec![0]);
    cmd(&mut c, 0xa9);
    assert_eq!(out(&mut c, 1), vec![0]);
}

#[test]
fn configuration_is_read_back() {
    let mut c = PS2Ctrl::create(PINS);
    cmd(&mut c, 0x60);
    data(&mut c, 0x73);
    cmd(&mut c, 0x20);
    assert_eq!(out(&mut c, 1), vec![0x73]);
    // The ports can be disabled and enabled
    cmd(&mut c, 0xae);
    cmd(&mut c, 0xa8);
    cmd(&mut c, 0x20);
    assert_eq!(out(&mut c, 1), vec![0x43]);
    cmd(&mut c, 0xad);
    cmd(&mut c, 0xa7);
    cmd(&mut c, 0x20);
    assert_eq!(out(&mut c, 1), vec![0x73]);
}

#[test]
fn guest_resets_the_machine() {
    let mut c = PS2Ctrl::create(PINS);
    // Pulse the lowest line
    let events = cmd(&mut c, 0xfe);
    assert!(events.contains(&PinEvent::Pulse(99)));
    // Pulse no line
    let events = cmd(&mut c, 0xff);
    assert!(!events.contains(&PinEvent::Pulse(99)));
}

#[test]
fn controller_is_reached_by_its_ports() {
    let mut c = PS2Ctrl::create(PINS);
    let mut events = Vec::new();
    c.pio_rw(0x64, RWOp::Write(WriteOp::from_buf(0, vec![0xaa])), &mut events);
    for (port, want) in [(0x64, 1u8), (0x60, 0x55)] {
        match c.pio_rw(port, RWOp::Read(ReadOp::from_buf(0, vec![0])), &mut events) {
            RWOp::Read(ro) => assert_eq!(ro.buf[0] & (if port == 0x64 { 1 } else { 0xff }), want),
            RWOp::Write(_) => panic!(),
        }
    }
}

#[test]
fn keyboard_answers_commands() {
    let mut k = PS2Kbd::new();
    k.cmd_input(0xee);
    assert_eq!(k.read_output(), Some(0xee));
    k.cmd_input(0xed);
    k.cmd_input(0x07);
    assert_eq!(k.led_status, 7);
    assert_eq!((k.read_output(), k.read_output()), (Some(0xfa), Some(0xfa)));
    // The set of scan codes
    k.cmd_input(0xf0);
    k.cmd_input(2);
    assert_eq!((k.read_output(), k.read_output()), (Some(0xfa), Some(0xfa)));
    assert_eq!(k.scan_code_set, PS2ScanCodeSet::Set2);
    k.cmd_input(0xff);
    assert_eq!((k.read_output(), k.read_output()), (Some(0xfa), Some(0xaa)));
    assert!(!k.has_output());
}

#[test]
fn mouse_answers_commands() {
    let mut m = PS2Mouse::new();
    m.cmd_input(0xff);
    let mut got = Vec::new();
    while let Some(b) = m.read_output() {
        got.push(b);
    }
    assert_eq!(got, vec![0xfa, 0xaa, 0x00]);
    m.cmd_input(0xf3);
    m.cmd_input(40);
    assert_eq!(m.sample_rate, 40);
    m.cmd_input(0xf4);
    while m.has_output() {
        m.read_output();
    }
    // Movement is reported in three bytes
    m.movement();
    assert_eq!(m.buf.len(), 3);
}

#[test]
fn bytes_for_the_mouse_go_to_it() {
    let mut c = PS2Ctrl::create(PINS);
    cmd(&mut c, 0xd4);
    data(&mut c, 0xf2);
    // The answer is marked as the mouse's
    assert_eq!(c.status_read() & 0x20, 0x20);
    assert_eq!(out(&mut c, 2), vec![0xfa, 0x00]);
}

#[test]
fn registers_refuse_unknown_bits() {
    for v in 0..=255u8 {
        if let Some(r) = CtrlCfg::from_bits(v) {
            assert_eq!(r.bits(), v);
        } else {
            assert_ne!(CtrlCfg::from_bits_truncate(v).bits(), v);
        }
        if let Some(r) = CtrlOutPort::from_bits(v) {
            assert_eq!(r.bits(), v);
        } else {
            assert_ne!(CtrlOutPort::from_bits_truncate(v).bits(), v);
        }
        if let Some(r) = PS2MStatus::from_bits(v) {
            assert_eq!(r.bits(), v);
        } else {
            assert_ne!(PS2MStatus::from_bits_truncate(v).bits(), v);
        }
    }
    assert!(CtrlCfg::from_bits(0x80).is_none());
}

fn moved(f: fn(&mut PS2CtrlV1)) -> (PS2Ctrl, Result<(), MigrateStateError>) {
    let mut a = PS2Ctrl::create(PINS);
    let mut events = Vec::new();
    cmd(&mut a, 0x60);
    data(&mut a, 0x47);
    a.key_event(key(KeySym::Ascii('q'), true), &mut events);
    cmd(&mut a, 0x65);
    let mut saved = a.export();
    f(&mut saved);
    let mut b = PS2Ctrl::create(PINS);
    let res = b.import(&saved);
    (b, res)
}

#[test]
fn controller_moves() {
    let (mut b, res) = moved(|_| ());
    assert_eq!(res, Ok(()));
    // The command that waited for its second byte
    data(&mut b, 0xab);
    assert_eq!(b.ram[4], 0xab);
    cmd(&mut b, 0x20);
    assert_eq!(out(&mut b, 1), vec![0x47]);
    assert!(b.pri_port.has_output());
}

#[test]
fn controller_refuses_bad_state() {
    assert_eq!(moved(|s| s.ctrl.ctrl_cfg = 0x80).1, Err(MigrateStateError::Ps2CtrlCfg(0x80)));
    assert_eq!(
        moved(|s| s.ctrl.ctrl_out_port = 0x01).1,
        Err(MigrateStateError::Ps2CtrlOutPort(0x47))
    );
    assert_eq!(moved(|s| s.kbd.scan_code_set = 9).1, Err(MigrateStateError::Ps2ScanCodeSet(9)));
    assert_eq!(moved(|s| s.mouse.status = 0x80).1, Err(MigrateStateError::Ps2MouseStatus(0x80)));
}

#[test]
fn states_that_a_controller_can_be_in() {
    assert!(moved(|_| ()).0.is_sound());
    assert!(!moved(|s| s.ctrl.cmd_prefix = Some(0x20)).0.is_sound());
    assert!(!moved(|s| s.kbd.buf = vec![0; 17]).0.is_sound());
    assert!(!moved(|s| s.mouse.current_cmd = Some(0)).0.is_sound());
}
