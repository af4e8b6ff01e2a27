//! The PS/2 controller (Intel 8042), and the keyboard and the mouse on its
//! ports.
use crate::common::{RWOp, ReadOp};
use crate::hw::ibmpc::{PORT_PS2_CMD_STATUS, PORT_PS2_DATA};
use crate::hw::ps2::keyboard::{event_code, scan_code, KeyEvent, KeyEventRep};
use crate::intr_pins::PinEvent;
use crate::migrate::MigrateStateError;
use std::collections::VecDeque;
use vstd::prelude::*;

verus! {

// ---------------------------------------------------------------------------
// Commands
// ---------------------------------------------------------------------------

/// Read the configuration byte
pub const PS2C_CMD_READ_CTRL_CFG: u8 = 0x20;

/// Write the configuration byte
pub const PS2C_CMD_WRITE_CTRL_CFG: u8 = 0x60;

/// The first of the commands that read a byte of memory
pub const PS2C_CMD_READ_RAM_START: u8 = 0x21;

/// The last of the commands that read a byte of memory
pub const PS2C_CMD_READ_RAM_END: u8 = 0x3f;

/// The first of the commands that write a byte of memory
pub const PS2C_CMD_WRITE_RAM_START: u8 = 0x61;

/// The last of the commands that write a byte of memory
pub const PS2C_CMD_WRITE_RAM_END: u8 = 0x7f;

/// Disable the auxiliary port
pub const PS2C_CMD_AUX_PORT_DIS: u8 = 0xa7;

/// Enable the auxiliary port
pub const PS2C_CMD_AUX_PORT_ENA: u8 = 0xa8;

/// Test the auxiliary port
pub const PS2C_CMD_AUX_PORT_TEST: u8 = 0xa9;

/// Test the controller
pub const PS2C_CMD_CTRL_TEST: u8 = 0xaa;

/// The controller has passed its test
pub const PS2C_R_CTRL_TEST_PASS: u8 = 0x55;

/// Test the primary port
pub const PS2C_CMD_PRI_PORT_TEST: u8 = 0xab;

/// A port has passed its test
pub const PS2C_R_PORT_TEST_PASS: u8 = 0x00;

/// Disable the primary port
pub const PS2C_CMD_PRI_PORT_DIS: u8 = 0xad;

/// Enable the primary port
pub const PS2C_CMD_PRI_PORT_ENA: u8 = 0xae;

/// Read the output port
pub const PS2C_CMD_READ_CTLR_OUT: u8 = 0xd0;

/// Write the output port
pub const PS2C_CMD_WRITE_CTLR_OUT: u8 = 0xd1;

/// Write to the output of the primary port
pub const PS2C_CMD_WRITE_PRI_OUT: u8 = 0xd2;

/// Write to the output of the auxiliary port
pub const PS2C_CMD_WRITE_AUX_OUT: u8 = 0xd3;

/// Write to the input of the auxiliary port
pub const PS2C_CMD_WRITE_AUX_IN: u8 = 0xd4;

/// The first of the commands that pulse output lines
pub const PS2C_CMD_PULSE_START: u8 = 0xf0;

/// Number of bytes of memory, apart from the configuration byte
pub const PS2C_RAM_LEN: usize = 31;

/// Set the lights of the keyboard
pub const PS2K_CMD_SET_LEDS: u8 = 0xed;

/// Get or set the set of scan codes
pub const PS2K_CMD_SCAN_CODE: u8 = 0xf0;

/// Set the rate at which pressed keys repeat
pub const PS2K_CMD_TYPEMATIC: u8 = 0xf3;

/// Echo
pub const PS2K_CMD_ECHO: u8 = 0xee;

/// Identify the keyboard
pub const PS2K_CMD_IDENT: u8 = 0xf2;

/// Enable the keyboard
pub const PS2K_CMD_SCAN_EN: u8 = 0xf4;

/// Disable the keyboard
pub const PS2K_CMD_SCAN_DIS: u8 = 0xf5;

/// Set the defaults
pub const PS2K_CMD_SET_DEFAULT: u8 = 0xf6;

/// Send the last byte again
pub const PS2K_CMD_RESEND: u8 = 0xfe;

/// Reset the keyboard
pub const PS2K_CMD_RESET: u8 = 0xff;

/// The keyboard has taken a byte
pub const PS2K_R_ACK: u8 = 0xfa;

/// The response to an echo
pub const PS2K_R_ECHO: u8 = 0xee;

/// The keyboard has passed its test
pub const PS2K_R_SELF_TEST_PASS: u8 = 0xaa;

/// Number of bytes that a device holds for the guest
pub const PS2_KBD_BUFSZ: usize = 16;

/// Reset the mouse
pub const PS2M_CMD_RESET: u8 = 0xff;

/// Send the last byte again
pub const PS2M_CMD_RESEND: u8 = 0xfe;

/// Set the defaults
pub const PS2M_CMD_SET_DEFAULTS: u8 = 0xf6;

/// Disable reports
pub const PS2M_CMD_DATA_REP_DIS: u8 = 0xf5;

/// Enable reports
pub const PS2M_CMD_DATA_REP_ENA: u8 = 0xf4;

/// Set the rate of reports
pub const PS2M_CMD_SET_SAMP_RATE: u8 = 0xf3;

/// Identify the mouse
pub const PS2M_CMD_GET_DEVID: u8 = 0xf2;

/// Report on request only
pub const PS2M_CMD_REMOTE_MODE_SET: u8 = 0xf0;

/// Echo what is sent
pub const PS2M_CMD_WRAP_MODE_SET: u8 = 0xee;

/// No longer echo what is sent
pub const PS2M_CMD_WRAP_MODE_RESET: u8 = 0xec;

/// Request a report
pub const PS2M_CMD_READ_DATA: u8 = 0xeb;

/// Report by itself
pub const PS2M_CMD_STREAM_MODE_SET: u8 = 0xea;

/// Request the status
pub const PS2M_CMD_STATUS_REQ: u8 = 0xe9;

/// Set the resolution
pub const PS2M_CMD_RESOLUTION_SET: u8 = 0xe8;

/// Report movements as they are
pub const PS2M_CMD_SCALING1_SET: u8 = 0xe7;

/// Report fast movements as faster ones
pub const PS2M_CMD_SCALING2_SET: u8 = 0xe6;

/// The mouse has taken a byte
pub const PS2M_R_ACK: u8 = 0xfa;

/// The mouse has passed its test
pub const PS2M_R_SELF_TEST_PASS: u8 = 0xaa;

/// A basic mouse
pub const PS2M_R_DEVID: u8 = 0x00;

// ---------------------------------------------------------------------------
// Registers
// ---------------------------------------------------------------------------

/// The weight of a bit, if it is set.
pub open spec fn bit(set: bool, weight: int) -> int {
    if set {
        weight
    } else {
        0
    }
}

/// The weight of a bit, if it is set.
fn get_bit(set: bool, weight: u8) -> (r: u8)
    ensures
        r == bit(set, weight as int),
{
    if set {
        weight
    } else {
        0
    }
}

/// The configuration byte.
#[derive(Clone, Copy, Debug, PartialEq, Eq, Structural)]
pub struct CtrlCfg {
    /// Interrupts of the primary port are enabled
    pub pri_intr_en: bool,
    /// Interrupts of the auxiliary port are enabled
    pub aux_intr_en: bool,
    /// The system has passed its tests
    pub sys_flag: bool,
    /// The clock of the primary port is stopped
    pub pri_clock_dis: bool,
    /// The clock of the auxiliary port is stopped
    pub aux_clock_dis: bool,
    /// Keyboard data is translated to set 1 of scan codes
    pub pri_xlate_en: bool,
}

impl CtrlCfg {
    /// Nothing set.
    pub open spec fn spec_empty() -> CtrlCfg {
        Self::spec_truncate(0)
    }

    /// The value of the byte.
    #[verifier::opaque]
    pub open spec fn spec_bits(self) -> u8 {
        (bit(self.pri_intr_en, 0x01) + bit(self.aux_intr_en, 0x02) + bit(self.sys_flag, 0x04) + bit(
            self.pri_clock_dis,
            0x10,
        ) + bit(self.aux_clock_dis, 0x20) + bit(self.pri_xlate_en, 0x40)) as u8
    }

    /// What a value of the byte sets, whatever other bits it holds.
    #[verifier::opaque]
    pub open spec fn spec_truncate(v: u8) -> CtrlCfg {
        CtrlCfg {
            pri_intr_en: v % 2 == 1,
            aux_intr_en: (v / 2) % 2 == 1,
            sys_flag: (v / 4) % 2 == 1,
            pri_clock_dis: (v / 0x10) % 2 == 1,
            aux_clock_dis: (v / 0x20) % 2 == 1,
            pri_xlate_en: (v / 0x40) % 2 == 1,
        }
    }

    /// The value of the byte.
    pub fn bits(&self) -> (r: u8)
        ensures
            r == self.spec_bits(),
    {
        reveal(CtrlCfg::spec_bits);
        get_bit(self.pri_intr_en, 0x01) + get_bit(self.aux_intr_en, 0x02) + get_bit(
            self.sys_flag,
            0x04,
        ) + get_bit(self.pri_clock_dis, 0x10) + get_bit(self.aux_clock_dis, 0x20) + get_bit(
            self.pri_xlate_en,
            0x40,
        )
    }

    /// What a value of the byte sets, whatever other bits it holds.
    pub fn from_bits_truncate(v: u8) -> (r: CtrlCfg)
        ensures
            r == Self::spec_truncate(v),
    {
        reveal(CtrlCfg::spec_truncate);
        CtrlCfg {
            pri_intr_en: v % 2 == 1,
            aux_intr_en: (v / 2) % 2 == 1,
            sys_flag: (v / 4) % 2 == 1,
            pri_clock_dis: (v / 0x10) % 2 == 1,
            aux_clock_dis: (v / 0x20) % 2 == 1,
            pri_xlate_en: (v / 0x40) % 2 == 1,
        }
    }

    /// What a value of the byte sets, if it holds no other bits.
    pub fn from_bits(v: u8) -> (r: Option<CtrlCfg>)
        ensures
            r == (if Self::spec_truncate(v).spec_bits() == v {
                Some(Self::spec_truncate(v))
            } else {
                None
            }),
    {
        let c: CtrlCfg = Self::from_bits_truncate(v);
        if c.bits() == v {
            Some(c)
        } else {
            None
        }
    }
}

/// The output port.
#[derive(Clone, Copy, Debug, PartialEq, Eq, Structural)]
pub struct CtrlOutPort {
    /// A20 gate
    pub a20: bool,
    pub aux_clock: bool,
    pub aux_data: bool,
    /// The primary port has data for the guest
    pub pri_full: bool,
    /// The auxiliary port has data for the guest
    pub aux_full: bool,
    pub pri_clock: bool,
    pub pri_data: bool,
}

impl CtrlOutPort {
    /// Nothing set.
    pub open spec fn spec_empty() -> CtrlOutPort {
        Self::spec_truncate(0)
    }

    /// The value of the port.
    #[verifier::opaque]
    pub open spec fn spec_bits(self) -> u8 {
        (bit(self.a20, 0x02) + bit(self.aux_clock, 0x04) + bit(self.aux_data, 0x08) + bit(
            self.pri_full,
            0x10,
        ) + bit(self.aux_full, 0x20) + bit(self.pri_clock, 0x40) + bit(self.pri_data, 0x80)) as u8
    }

    /// What a value of the port sets, whatever other bits it holds.
    #[verifier::opaque]
    pub open spec fn spec_truncate(v: u8) -> CtrlOutPort {
        CtrlOutPort {
            a20: (v / 2) % 2 == 1,
            aux_clock: (v / 4) % 2 == 1,
            aux_data: (v / 8) % 2 == 1,
            pri_full: (v / 0x10) % 2 == 1,
            aux_full: (v / 0x20) % 2 == 1,
            pri_clock: (v / 0x40) % 2 == 1,
            pri_data: (v / 0x80) % 2 == 1,
        }
    }

    /// The value of the port.
    pub fn bits(&self) -> (r: u8)
        ensures
            r == self.spec_bits(),
    {
        reveal(CtrlOutPort::spec_bits);
        get_bit(self.a20, 0x02) + get_bit(self.aux_clock, 0x04) + get_bit(self.aux_data, 0x08)
            + get_bit(self.pri_full, 0x10) + get_bit(self.aux_full, 0x20) + get_bit(
            self.pri_clock,
            0x40,
        ) + get_bit(self.pri_data, 0x80)
    }

    /// What a value of the port sets, whatever other bits it holds.
    pub fn from_bits_truncate(v: u8) -> (r: CtrlOutPort)
        ensures
            r == Self::spec_truncate(v),
    {
        reveal(CtrlOutPort::spec_truncate);
        CtrlOutPort {
            a20: (v / 2) % 2 == 1,
            aux_clock: (v / 4) % 2 == 1,
            aux_data: (v / 8) % 2 == 1,
            pri_full: (v / 0x10) % 2 == 1,
            aux_full: (v / 0x20) % 2 == 1,
            pri_clock: (v / 0x40) % 2 == 1,
            pri_data: (v / 0x80) % 2 == 1,
        }
    }

    /// What a value of the port sets, if it holds no other bits.
    pub fn from_bits(v: u8) -> (r: Option<CtrlOutPort>)
        ensures
            r == (if Self::spec_truncate(v).spec_bits() == v {
                Some(Self::spec_truncate(v))
            } else {
                None
            }),
    {
        let c: CtrlOutPort = Self::from_bits_truncate(v);
        if c.bits() == v {
            Some(c)
        } else {
            None
        }
    }
}

/// The status of a mouse.
#[derive(Clone, Copy, Debug, PartialEq, Eq, Structural)]
pub struct PS2MStatus {
    pub b_left: bool,
    pub b_right: bool,
    pub b_mid: bool,
    /// Fast movements are reported as faster ones
    pub scale2: bool,
    /// Reports are enabled
    pub enable: bool,
    /// Reports are made on request only
    pub remote: bool,
}

impl PS2MStatus {
    /// Nothing set.
    pub open spec fn spec_empty() -> PS2MStatus {
        Self::spec_truncate(0)
    }

    /// The value of the status.
    #[verifier::opaque]
    pub open spec fn spec_bits(self) -> u8 {
        (bit(self.b_left, 0x01) + bit(self.b_right, 0x02) + bit(self.b_mid, 0x04) + bit(
            self.scale2,
            0x10,
        ) + bit(self.enable, 0x20) + bit(self.remote, 0x40)) as u8
    }

    /// What a value of the status sets, whatever other bits it holds.
    #[verifier::opaque]
    pub open spec fn spec_truncate(v: u8) -> PS2MStatus {
        PS2MStatus {
            b_left: v % 2 == 1,
            b_right: (v / 2) % 2 == 1,
            b_mid: (v / 4) % 2 == 1,
            scale2: (v / 0x10) % 2 == 1,
            enable: (v / 0x20) % 2 == 1,
            remote: (v / 0x40) % 2 == 1,
        }
    }

    /// The value of the status.
    pub fn bits(&self) -> (r: u8)
        ensures
            r == self.spec_bits(),
    {
        reveal(PS2MStatus::spec_bits);
        get_bit(self.b_left, 0x01) + get_bit(self.b_right, 0x02) + get_bit(self.b_mid, 0x04)
            + get_bit(self.scale2, 0x10) + get_bit(self.enable, 0x20) + get_bit(self.remote, 0x40)
    }

    /// What a value of the status sets, whatever other bits it holds.
    pub fn from_bits_truncate(v: u8) -> (r: PS2MStatus)
        ensures
            r == Self::spec_truncate(v),
    {
        reveal(PS2MStatus::spec_truncate);
        PS2MStatus {
            b_left: v % 2 == 1,
            b_right: (v / 2) % 2 == 1,
            b_mid: (v / 4) % 2 == 1,
            scale2: (v / 0x10) % 2 == 1,
            enable: (v / 0x20) % 2 == 1,
            remote: (v / 0x40) % 2 == 1,
        }
    }

    /// What a value of the status sets, if it holds no other bits.
    pub fn from_bits(v: u8) -> (r: Option<PS2MStatus>)
        ensures
            r == (if Self::spec_truncate(v).spec_bits() == v {
                Some(Self::spec_truncate(v))
            } else {
                None
            }),
    {
        let c: PS2MStatus = Self::from_bits_truncate(v);
        if c.bits() == v {
            Some(c)
        } else {
            None
        }
    }
}

/// The bits of a byte are told apart by its value.
proof fn lemma_bits(
    b0: bool,
    b1: bool,
    b2: bool,
    b3: bool,
    b4: bool,
    b5: bool,
    b6: bool,
    b7: bool,
    v: u8,
)
    requires
        v == bit(b0, 0x01) + bit(b1, 0x02) + bit(b2, 0x04) + bit(b3, 0x08) + bit(b4, 0x10) + bit(
            b5,
            0x20,
        ) + bit(b6, 0x40) + bit(b7, 0x80),
    ensures
        b0 == (v % 2 == 1),
        b1 == ((v / 2) % 2 == 1),
        b2 == ((v / 4) % 2 == 1),
        b3 == ((v / 8) % 2 == 1),
        b4 == ((v / 0x10) % 2 == 1),
        b5 == ((v / 0x20) % 2 == 1),
        b6 == ((v / 0x40) % 2 == 1),
        b7 == ((v / 0x80) % 2 == 1),
{
    assert(v % 2 == bit(b0, 1));
    assert((v / 2) % 2 == bit(b1, 1));
    assert((v / 4) % 2 == bit(b2, 1));
    assert((v / 8) % 2 == bit(b3, 1));
    assert((v / 0x10) % 2 == bit(b4, 1));
    assert((v / 0x20) % 2 == bit(b5, 1));
    assert((v / 0x40) % 2 == bit(b6, 1));
    assert((v / 0x80) % 2 == bit(b7, 1));
}

/// The value of the configuration byte tells what it sets.
proof fn lemma_cfg_bits(c: CtrlCfg)
    ensures
        CtrlCfg::spec_truncate(c.spec_bits()) == c,
{
    reveal(CtrlCfg::spec_bits);
    reveal(CtrlCfg::spec_truncate);
    let v = c.spec_bits();
    lemma_bits(
        c.pri_intr_en,
        c.aux_intr_en,
        c.sys_flag,
        false,
        c.pri_clock_dis,
        c.aux_clock_dis,
        c.pri_xlate_en,
        false,
        v,
    );
}

/// The value of the output port tells what it sets.
proof fn lemma_out_bits(c: CtrlOutPort)
    ensures
        CtrlOutPort::spec_truncate(c.spec_bits()) == c,
{
    reveal(CtrlOutPort::spec_bits);
    reveal(CtrlOutPort::spec_truncate);
    let v = c.spec_bits();
    lemma_bits(
        false,
        c.a20,
        c.aux_clock,
        c.aux_data,
        c.pri_full,
        c.aux_full,
        c.pri_clock,
        c.pri_data,
        v,
    );
}

/// The value of the status of a mouse tells what it sets.
proof fn lemma_mouse_bits(c: PS2MStatus)
    ensures
        PS2MStatus::spec_truncate(c.spec_bits()) == c,
{
    reveal(PS2MStatus::spec_bits);
    reveal(PS2MStatus::spec_truncate);
    let v = c.spec_bits();
    lemma_bits(
        c.b_left,
        c.b_right,
        c.b_mid,
        false,
        c.scale2,
        c.enable,
        c.remote,
        false,
        v,
    );
}

/// The values of the registers tell what they set.
pub proof fn law_register_round_trips(c: CtrlCfg, o: CtrlOutPort, s: PS2MStatus)
    ensures
        CtrlCfg::spec_truncate(c.spec_bits()) == c,
        CtrlOutPort::spec_truncate(o.spec_bits()) == o,
        PS2MStatus::spec_truncate(s.spec_bits()) == s,
{
    lemma_cfg_bits(c);
    lemma_out_bits(o);
    lemma_mouse_bits(s);
}

/// A set of scan codes.
#[derive(Clone, Copy, Debug, PartialEq, Eq, Structural)]
pub enum PS2ScanCodeSet {
    Set1,
    Set2,
}

impl PS2ScanCodeSet {
    /// The number of the set.
    pub open spec fn spec_byte(self) -> u8 {
        match self {
            PS2ScanCodeSet::Set1 => 1,
            PS2ScanCodeSet::Set2 => 2,
        }
    }

    /// The number of the set.
    pub fn as_byte(&self) -> (r: u8)
        ensures
            r == self.spec_byte(),
    {
        match self {
            PS2ScanCodeSet::Set1 => 1,
            PS2ScanCodeSet::Set2 => 2,
        }
    }

    /// The set of a number, if there is one.
    pub fn from_byte(b: u8) -> (r: Option<PS2ScanCodeSet>)
        ensures
            match r {
                Some(s) => s.spec_byte() == b,
                None => b != 1 && b != 2,
            },
    {
        match b {
            1 => Some(PS2ScanCodeSet::Set1),
            2 => Some(PS2ScanCodeSet::Set2),
            _ => None,
        }
    }
}

// ---------------------------------------------------------------------------
// Data for the guest
// ---------------------------------------------------------------------------

/// What a device holds for the guest after one byte more. The last place is for
/// a byte that tells of an overflow; what comes after it is lost.
pub open spec fn buffered(s: Seq<u8>, v: u8) -> Seq<u8> {
    if s.len() >= 16 {
        s
    } else if s.len() == 15 {
        s.push(0xff)
    } else {
        s.push(v)
    }
}

/// What a device holds for the guest after some bytes more.
pub open spec fn buffered_all(s: Seq<u8>, data: Seq<u8>) -> Seq<u8>
    decreases data.len(),
{
    if data.len() == 0 {
        s
    } else {
        buffered(buffered_all(s, data.drop_last()), data.last())
    }
}

/// An empty device holds the first 15 bytes that it is given. If there are
/// more, the next one is replaced by 0xff, and the rest is lost.
pub proof fn law_buffer_overflow(data: Seq<u8>)
    ensures
        buffered_all(Seq::empty(), data) == if data.len() <= 15 {
            data
        } else {
            data.take(15).push(0xff)
        },
    decreases data.len(),
{
    if data.len() > 0 {
        law_buffer_overflow(data.drop_last());
        if data.len() <= 15 {
            assert(data.drop_last().push(data.last()) =~= data);
        } else {
            assert(data.drop_last().take(15) =~= data.take(15));
            if data.len() == 16 {
                assert(data.drop_last() =~= data.take(15));
            }
        }
    } else {
        assert(data =~= Seq::empty());
    }
}

/// Adds a byte to what a device holds for the guest.
fn buffer_byte(buf: &mut VecDeque<u8>, v: u8)
    ensures
        final(buf)@ == buffered(old(buf)@, v),
{
    let len: usize = buf.len();
    if len >= PS2_KBD_BUFSZ {
        // An overflow has been told of already.
    } else if len == PS2_KBD_BUFSZ - 1 {
        buf.push_back(0xff);
    } else {
        buf.push_back(v);
    }
}

/// A copy of what a device holds for the guest.
fn copy_buffer(buf: &VecDeque<u8>) -> (r: Vec<u8>)
    ensures
        r@ == buf@,
{
    let mut out: Vec<u8> = Vec::new();
    let len: usize = buf.len();
    let mut i: usize = 0;
    while i < len
        invariant
            i <= len,
            len == buf@.len(),
            out@ == buf@.take(i as int),
        decreases len - i,
    {
        out.push(buf[i]);
        i += 1;
        assert(out@ =~= buf@.take(i as int));
    }
    assert(buf@.take(len as int) =~= buf@);
    out
}

/// A buffer of the given bytes.
fn make_buffer(v: &Vec<u8>) -> (r: VecDeque<u8>)
    ensures
        r@ == v@,
{
    let mut out: VecDeque<u8> = VecDeque::new();
    let len: usize = v.len();
    let mut i: usize = 0;
    while i < len
        invariant
            i <= len,
            len == v@.len(),
            out@ == v@.take(i as int),
        decreases len - i,
    {
        out.push_back(v[i]);
        i += 1;
        assert(out@ =~= v@.take(i as int));
    }
    assert(v@.take(len as int) =~= v@);
    out
}

// ---------------------------------------------------------------------------
// The keyboard
// ---------------------------------------------------------------------------

/// What a keyboard holds.
#[verifier::ext_equal]
pub struct KbdView {
    pub buf: Seq<u8>,
    pub cur_cmd: Option<u8>,
    pub enabled: bool,
    pub led_status: u8,
    pub typematic: u8,
    pub scan_code_set: PS2ScanCodeSet,
}

/// A keyboard.
#[derive(Debug)]
pub struct PS2Kbd {
    /// Bytes for the guest.
    pub buf: VecDeque<u8>,
    /// The command that waits for its second byte.
    pub cur_cmd: Option<u8>,
    pub enabled: bool,
    pub led_status: u8,
    pub typematic: u8,
    pub scan_code_set: PS2ScanCodeSet,
}

impl View for PS2Kbd {
    type V = KbdView;

    open spec fn view(&self) -> KbdView {
        KbdView {
            buf: self.buf@,
            cur_cmd: self.cur_cmd,
            enabled: self.enabled,
            led_status: self.led_status,
            typematic: self.typematic,
            scan_code_set: self.scan_code_set,
        }
    }
}

impl KbdView {
    /// The invariant of keyboards.
    pub open spec fn wf(self) -> bool {
        &&& self.buf.len() <= 16
        &&& self.cur_cmd matches Some(c) ==> c == PS2K_CMD_SET_LEDS || c == PS2K_CMD_SCAN_CODE || c
            == PS2K_CMD_TYPEMATIC
    }

    /// A keyboard after a reset.
    pub open spec fn blank() -> KbdView {
        KbdView {
            buf: Seq::empty(),
            cur_cmd: None,
            enabled: true,
            led_status: 0,
            typematic: 0,
            scan_code_set: PS2ScanCodeSet::Set1,
        }
    }

    /// The keyboard with bytes more for the guest.
    pub open spec fn sending(self, data: Seq<u8>) -> KbdView {
        KbdView { buf: buffered_all(self.buf, data), ..self }
    }

    /// The keyboard after the second byte of a command.
    pub open spec fn cmd_ended(self, cmd: u8, v: u8) -> KbdView {
        let k = KbdView { cur_cmd: None, ..self };
        if cmd == PS2K_CMD_SET_LEDS {
            (KbdView { led_status: v % 8, ..k }).sending(seq![PS2K_R_ACK])
        } else if cmd == PS2K_CMD_SCAN_CODE {
            if v == 0 {
                k.sending(seq![PS2K_R_ACK, k.scan_code_set.spec_byte()])
            } else if v == 1 {
                (KbdView { scan_code_set: PS2ScanCodeSet::Set1, ..k }).sending(seq![PS2K_R_ACK])
            } else if v == 2 {
                (KbdView { scan_code_set: PS2ScanCodeSet::Set2, ..k }).sending(seq![PS2K_R_ACK])
            } else {
                k
            }
        } else if cmd == PS2K_CMD_TYPEMATIC {
            (KbdView { typematic: v % 128, ..k }).sending(seq![PS2K_R_ACK])
        } else {
            k
        }
    }

    /// The keyboard after a command, or its first byte.
    pub open spec fn cmd_begun(self, v: u8) -> KbdView {
        if v == PS2K_CMD_SET_LEDS || v == PS2K_CMD_SCAN_CODE || v == PS2K_CMD_TYPEMATIC {
            (KbdView { cur_cmd: Some(v), ..self }).sending(seq![PS2K_R_ACK])
        } else if v == PS2K_CMD_ECHO {
            self.sending(seq![PS2K_R_ECHO])
        } else if v == PS2K_CMD_IDENT {
            self.sending(seq![PS2K_R_ACK, 0xabu8, 0x83u8])
        } else if v == PS2K_CMD_SCAN_EN {
            (KbdView { enabled: true, ..self }).sending(seq![PS2K_R_ACK])
        } else if v == PS2K_CMD_SCAN_DIS {
            (KbdView { enabled: false, ..self }).sending(seq![PS2K_R_ACK])
        } else if v == PS2K_CMD_SET_DEFAULT || v == PS2K_CMD_RESEND {
            self.sending(seq![PS2K_R_ACK])
        } else if v == PS2K_CMD_RESET {
            Self::blank().sending(seq![PS2K_R_ACK, PS2K_R_SELF_TEST_PASS])
        } else {
            self
        }
    }

    /// The keyboard after a byte that the guest sent to it.
    #[verifier::opaque]
    pub open spec fn told(self, v: u8) -> KbdView {
        match self.cur_cmd {
            Some(cmd) => self.cmd_ended(cmd, v),
            None => self.cmd_begun(v),
        }
    }
}

/// Sending bytes keeps the bound on what a device holds.
proof fn lemma_buffered(s: Seq<u8>, data: Seq<u8>)
    requires
        s.len() <= 16,
    ensures
        buffered_all(s, data).len() <= 16,
    decreases data.len(),
{
    if data.len() > 0 {
        lemma_buffered(s, data.drop_last());
    }
}

/// What bytes, one after the other, lead to.
proof fn lemma_buffered_push(s: Seq<u8>, data: Seq<u8>, v: u8)
    ensures
        buffered_all(s, data.push(v)) == buffered(buffered_all(s, data), v),
        buffered_all(s, Seq::empty()) == s,
{
    assert(data.push(v).drop_last() =~= data);
}

/// What up to four bytes lead to.
proof fn lemma_buffered_few(s: Seq<u8>, a: u8, b: u8, c: u8, d: u8)
    ensures
        buffered_all(s, seq![a]) == buffered(s, a),
        buffered_all(s, seq![a, b]) == buffered(buffered(s, a), b),
        buffered_all(s, seq![a, b, c]) == buffered(buffered(buffered(s, a), b), c),
        buffered_all(s, seq![a, b, c, d]) == buffered(
            buffered(buffered(buffered(s, a), b), c),
            d,
        ),
{
    let e = Seq::<u8>::empty();
    assert(seq![a] =~= e.push(a));
    assert(seq![a, b] =~= e.push(a).push(b));
    assert(seq![a, b, c] =~= e.push(a).push(b).push(c));
    assert(seq![a, b, c, d] =~= e.push(a).push(b).push(c).push(d));
    lemma_buffered_push(s, e, a);
    lemma_buffered_push(s, e.push(a), b);
    lemma_buffered_push(s, e.push(a).push(b), c);
    lemma_buffered_push(s, e.push(a).push(b).push(c), d);
}

impl PS2Kbd {
    /// A keyboard after a reset.
    pub fn new() -> (r: PS2Kbd)
        ensures
            r@ == KbdView::blank(),
            r@.wf(),
    {
        let r: PS2Kbd = PS2Kbd {
            buf: VecDeque::new(),
            cur_cmd: None,
            enabled: true,
            led_status: 0,
            typematic: 0,
            scan_code_set: PS2ScanCodeSet::Set1,
        };
        assert(r@ =~= KbdView::blank());
        r
    }

    /// Takes a byte that the guest sends.
    pub fn cmd_input(&mut self, v: u8)
        requires
            old(self)@.wf(),
        ensures
            final(self)@ == old(self)@.told(v),
            final(self)@.wf(),
    {
        let ghost k0 = self@;
        reveal(KbdView::told);
        proof {
            lemma_buffered_few(k0.buf, PS2K_R_ACK, k0.scan_code_set.spec_byte(), 0, 0);
            lemma_buffered_few(k0.buf, PS2K_R_ECHO, 0, 0, 0);
            lemma_buffered_few(k0.buf, PS2K_R_ACK, 0xab, 0x83, 0);
            lemma_buffered_few(Seq::empty(), PS2K_R_ACK, PS2K_R_SELF_TEST_PASS, 0, 0);
        }
        if let Some(cmd) = self.cur_cmd {
            self.cur_cmd = None;
            if cmd == PS2K_CMD_SET_LEDS {
                // Scroll lock, num lock and caps lock
                self.led_status = v % 8;
                self.resp(PS2K_R_ACK);
            } else if cmd == PS2K_CMD_SCAN_CODE {
                if v == 0 {
                    self.resp(PS2K_R_ACK);
                    let set: u8 = self.scan_code_set.as_byte();
                    self.resp(set);
                } else if v == 1 {
                    self.resp(PS2K_R_ACK);
                    self.scan_code_set = PS2ScanCodeSet::Set1;
                } else if v == 2 {
                    self.resp(PS2K_R_ACK);
                    self.scan_code_set = PS2ScanCodeSet::Set2;
                }
            } else if cmd == PS2K_CMD_TYPEMATIC {
                self.typematic = v % 128;
                self.resp(PS2K_R_ACK);
            }
        } else {
            match v {
                PS2K_CMD_SET_LEDS | PS2K_CMD_SCAN_CODE | PS2K_CMD_TYPEMATIC => {
                    self.cur_cmd = Some(v);
                    self.resp(PS2K_R_ACK);
                },
                PS2K_CMD_ECHO => {
                    self.resp(PS2K_R_ECHO);
                },
                PS2K_CMD_IDENT => {
                    self.resp(PS2K_R_ACK);
                    // An MF2 keyboard
                    self.resp(0xab);
                    self.resp(0x83);
                },
                PS2K_CMD_SCAN_EN => {
                    self.enabled = true;
                    self.resp(PS2K_R_ACK);
                },
                PS2K_CMD_SCAN_DIS => {
                    self.enabled = false;
                    self.resp(PS2K_R_ACK);
                },
                PS2K_CMD_SET_DEFAULT | PS2K_CMD_RESEND => {
                    self.resp(PS2K_R_ACK);
                },
                PS2K_CMD_RESET => {
                    self.reset();
                    self.resp(PS2K_R_ACK);
                    self.resp(PS2K_R_SELF_TEST_PASS);
                },
                _ => {},
            }
        }
        assert(self@ =~= k0.told(v));
    }

    /// Adds a byte for the guest.
    pub fn resp(&mut self, v: u8)
        requires
            old(self)@.buf.len() <= 16,
        ensures
            final(self)@ == (KbdView { buf: buffered(old(self)@.buf, v), ..old(self)@ }),
            final(self)@.buf.len() <= 16,
    {
        buffer_byte(&mut self.buf, v);
    }

    /// Resets the keyboard.
    pub fn reset(&mut self)
        ensures
            final(self)@ == KbdView::blank(),
    {
        self.cur_cmd = None;
        self.enabled = true;
        self.led_status = 0;
        self.typematic = 0;
        self.scan_code_set = PS2ScanCodeSet::Set1;
        self.buf.clear();
        assert(self@ =~= KbdView::blank());
    }

    /// Whether there is a byte for the guest.
    pub fn has_output(&self) -> (r: bool)
        ensures
            r == (self@.buf.len() > 0),
    {
        self.buf.len() > 0
    }

    /// Takes the next byte for the guest.
    pub fn read_output(&mut self) -> (r: Option<u8>)
        ensures
            if old(self)@.buf.len() > 0 {
                &&& r == Some(old(self)@.buf[0])
                &&& final(self)@ == (KbdView { buf: old(self)@.buf.skip(1), ..old(self)@ })
            } else {
                r is None && final(self)@ == old(self)@
            },
    {
        let ghost b0 = self.buf@;
        let r: Option<u8> = self.buf.pop_front();
        proof {
            if b0.len() > 0 {
                assert(self.buf@ =~= b0.skip(1));
            }
        }
        r
    }

    /// Adds the scan code of a key for the guest.
    pub fn recv_scancode(&mut self, scan_code: &Vec<u8>)
        requires
            old(self)@.wf(),
        ensures
            final(self)@ == old(self)@.sending(scan_code@),
            final(self)@.wf(),
    {
        let ghost k0 = self@;
        let mut i: usize = 0;
        assert(scan_code@.take(0) =~= Seq::<u8>::empty());
        while i < scan_code.len()
            invariant
                i <= scan_code@.len(),
                k0.wf(),
                self@.wf(),
                self@ == k0.sending(scan_code@.take(i as int)),
            decreases scan_code@.len() - i,
        {
            let ghost done = scan_code@.take(i as int);
            proof {
                assert(scan_code@.take(i + 1) =~= done.push(scan_code@[i as int]));
                lemma_buffered_push(k0.buf, done, scan_code@[i as int]);
            }
            self.resp(scan_code[i]);
            i += 1;
        }
        assert(scan_code@.take(scan_code@.len() as int) =~= scan_code@);
    }
}

// ---------------------------------------------------------------------------
// The mouse
// ---------------------------------------------------------------------------

/// What a mouse holds.
#[verifier::ext_equal]
pub struct MouseView {
    pub buf: Seq<u8>,
    pub cur_cmd: Option<u8>,
    pub status: PS2MStatus,
    pub resolution: u8,
    pub sample_rate: u8,
}

/// A mouse.
#[derive(Debug)]
pub struct PS2Mouse {
    /// Bytes for the guest.
    pub buf: VecDeque<u8>,
    /// The command that waits for its second byte.
    pub cur_cmd: Option<u8>,
    pub status: PS2MStatus,
    pub resolution: u8,
    pub sample_rate: u8,
}

impl View for PS2Mouse {
    type V = MouseView;

    open spec fn view(&self) -> MouseView {
        MouseView {
            buf: self.buf@,
            cur_cmd: self.cur_cmd,
            status: self.status,
            resolution: self.resolution,
            sample_rate: self.sample_rate,
        }
    }
}

impl MouseView {
    /// The invariant of mice.
    pub open spec fn wf(self) -> bool {
        &&& self.buf.len() <= 16
        &&& self.cur_cmd matches Some(c) ==> c == PS2M_CMD_SET_SAMP_RATE || c
            == PS2M_CMD_RESOLUTION_SET
    }

    /// A mouse after a reset.
    pub open spec fn blank() -> MouseView {
        MouseView {
            buf: Seq::empty(),
            cur_cmd: None,
            status: PS2MStatus::spec_empty(),
            resolution: 0,
            sample_rate: 10,
        }
    }

    /// The mouse with bytes more for the guest.
    pub open spec fn sending(self, data: Seq<u8>) -> MouseView {
        MouseView { buf: buffered_all(self.buf, data), ..self }
    }

    /// The mouse after a command, or its first byte.
    pub open spec fn cmd_begun(self, v: u8) -> MouseView {
        if v == PS2M_CMD_RESET {
            Self::blank().sending(seq![PS2M_R_ACK, PS2M_R_SELF_TEST_PASS, PS2M_R_DEVID])
        } else if v == PS2M_CMD_RESEND || v == PS2M_CMD_SET_DEFAULTS || v == PS2M_CMD_WRAP_MODE_SET
            || v == PS2M_CMD_WRAP_MODE_RESET {
            self.sending(seq![PS2M_R_ACK])
        } else if v == PS2M_CMD_DATA_REP_DIS {
            (MouseView { status: PS2MStatus { enable: false, ..self.status }, ..self }).sending(
                seq![PS2M_R_ACK],
            )
        } else if v == PS2M_CMD_DATA_REP_ENA {
            (MouseView { status: PS2MStatus { enable: true, ..self.status }, ..self }).sending(
                seq![PS2M_R_ACK],
            )
        } else if v == PS2M_CMD_GET_DEVID {
            self.sending(seq![PS2M_R_ACK, PS2M_R_DEVID])
        } else if v == PS2M_CMD_REMOTE_MODE_SET {
            (MouseView { status: PS2MStatus { remote: true, ..self.status }, ..self }).sending(
                seq![PS2M_R_ACK],
            )
        } else if v == PS2M_CMD_READ_DATA {
            // No buttons, and no movement
            self.sending(seq![PS2M_R_ACK, 8u8, 0u8, 0u8])
        } else if v == PS2M_CMD_STATUS_REQ {
            self.sending(
                seq![PS2M_R_ACK, self.status.spec_bits(), self.resolution, self.sample_rate],
            )
        } else if v == PS2M_CMD_SET_SAMP_RATE || v == PS2M_CMD_RESOLUTION_SET {
            (MouseView { cur_cmd: Some(v), ..self }).sending(seq![PS2M_R_ACK])
        } else if v == PS2M_CMD_SCALING1_SET || v == PS2M_CMD_SCALING2_SET {
            (MouseView {
                status: PS2MStatus { scale2: v == PS2M_CMD_SCALING2_SET, ..self.status },
                ..self
            }).sending(seq![PS2M_R_ACK])
        } else {
            self
        }
    }

    /// The mouse after a byte that the guest sent to it.
    #[verifier::opaque]
    pub open spec fn told(self, v: u8) -> MouseView {
        match self.cur_cmd {
            Some(cmd) => {
                let m = MouseView { cur_cmd: None, ..self };
                if cmd == PS2M_CMD_SET_SAMP_RATE {
                    MouseView { sample_rate: v, ..m }
                } else if cmd == PS2M_CMD_RESOLUTION_SET {
                    MouseView { resolution: v, ..m }
                } else {
                    m
                }
            },
            None => self.cmd_begun(v),
        }
    }
}

impl PS2Mouse {
    /// A mouse after a reset.
    pub fn new() -> (r: PS2Mouse)
        ensures
            r@ == MouseView::blank(),
            r@.wf(),
    {
        let r: PS2Mouse = PS2Mouse {
            buf: VecDeque::new(),
            cur_cmd: None,
            status: PS2MStatus::from_bits_truncate(0),
            resolution: 0,
            sample_rate: 10,
        };
        assert(r@ =~= MouseView::blank());
        r
    }

    /// Takes a byte that the guest sends.
    pub fn cmd_input(&mut self, v: u8)
        requires
            old(self)@.wf(),
        ensures
            final(self)@ == old(self)@.told(v),
            final(self)@.wf(),
    {
        let ghost m0 = self@;
        reveal(MouseView::told);
        proof {
            lemma_buffered_few(
                m0.buf,
                PS2M_R_ACK,
                m0.status.spec_bits(),
                m0.resolution,
                m0.sample_rate,
            );
            lemma_buffered_few(m0.buf, PS2M_R_ACK, PS2M_R_DEVID, 0, 0);
            lemma_buffered_few(m0.buf, PS2M_R_ACK, 8, 0, 0);
            lemma_buffered_few(Seq::empty(), PS2M_R_ACK, PS2M_R_SELF_TEST_PASS, PS2M_R_DEVID, 0);
        }
        if let Some(cmd) = self.cur_cmd {
            self.cur_cmd = None;
            if cmd == PS2M_CMD_SET_SAMP_RATE {
                self.sample_rate = v;
            } else if cmd == PS2M_CMD_RESOLUTION_SET {
                self.resolution = v;
            }
        } else {
            match v {
                PS2M_CMD_RESET => {
                    self.reset();
                    self.resp(PS2M_R_ACK);
                    self.resp(PS2M_R_SELF_TEST_PASS);
                    self.resp(PS2M_R_DEVID);
                },
                PS2M_CMD_RESEND | PS2M_CMD_SET_DEFAULTS => {
                    self.resp(PS2M_R_ACK);
                },
                PS2M_CMD_DATA_REP_DIS => {
                    self.resp(PS2M_R_ACK);
                    self.status.enable = false;
                },
                PS2M_CMD_DATA_REP_ENA => {
                    self.resp(PS2M_R_ACK);
                    self.status.enable = true;
                },
                PS2M_CMD_GET_DEVID => {
                    self.resp(PS2M_R_ACK);
                    self.resp(PS2M_R_DEVID);
                },
                PS2M_CMD_REMOTE_MODE_SET => {
                    self.resp(PS2M_R_ACK);
                    self.status.remote = true;
                },
                PS2M_CMD_WRAP_MODE_SET | PS2M_CMD_WRAP_MODE_RESET => {
                    self.resp(PS2M_R_ACK);
                },
                PS2M_CMD_READ_DATA => {
                    self.resp(PS2M_R_ACK);
                    self.movement();
                },
                PS2M_CMD_STATUS_REQ => {
                    self.resp(PS2M_R_ACK);
                    let status: u8 = self.status.bits();
                    self.resp(status);
                    let resolution: u8 = self.resolution;
                    self.resp(resolution);
                    let rate: u8 = self.sample_rate;
                    self.resp(rate);
                },
                PS2M_CMD_SET_SAMP_RATE | PS2M_CMD_RESOLUTION_SET => {
                    self.cur_cmd = Some(v);
                    self.resp(PS2M_R_ACK);
                },
                PS2M_CMD_SCALING1_SET | PS2M_CMD_SCALING2_SET => {
                    self.status.scale2 = v == PS2M_CMD_SCALING2_SET;
                    self.resp(PS2M_R_ACK);
                },
                // The stream mode, and what is not known
                _ => {},
            }
        }
        assert(self@ =~= m0.told(v));
    }

    /// Adds a byte for the guest.
    pub fn resp(&mut self, v: u8)
        requires
            old(self)@.buf.len() <= 16,
        ensures
            final(self)@ == (MouseView { buf: buffered(old(self)@.buf, v), ..old(self)@ }),
            final(self)@.buf.len() <= 16,
    {
        buffer_byte(&mut self.buf, v);
    }

    /// Adds the report of no movement for the guest.
    pub fn movement(&mut self)
        requires
            old(self)@.buf.len() <= 16,
        ensures
            final(self)@ == (MouseView {
                buf: buffered(buffered(buffered(old(self)@.buf, 8), 0), 0),
                ..old(self)@
            }),
            final(self)@.buf.len() <= 16,
    {
        // No buttons, but a bit that is always set
        self.resp(8);
        self.resp(0);
        self.resp(0);
    }

    /// Resets the mouse.
    pub fn reset(&mut self)
        ensures
            final(self)@ == MouseView::blank(),
    {
        self.buf.clear();
        self.cur_cmd = None;
        self.status = PS2MStatus::from_bits_truncate(0);
        self.resolution = 0;
        self.sample_rate = 10;
        assert(self@ =~= MouseView::blank());
    }

    /// Whether there is a byte for the guest.
    pub fn has_output(&self) -> (r: bool)
        ensures
            r == (self@.buf.len() > 0),
    {
        self.buf.len() > 0
    }

    /// Takes the next byte for the guest.
    pub fn read_output(&mut self) -> (r: Option<u8>)
        ensures
            if old(self)@.buf.len() > 0 {
                &&& r == Some(old(self)@.buf[0])
                &&& final(self)@ == (MouseView { buf: old(self)@.buf.skip(1), ..old(self)@ })
            } else {
                r is None && final(self)@ == old(self)@
            },
    {
        let ghost b0 = self.buf@;
        let r: Option<u8> = self.buf.pop_front();
        proof {
            if b0.len() > 0 {
                assert(self.buf@ =~= b0.skip(1));
            }
        }
        r
    }
}

// ---------------------------------------------------------------------------
// The controller
// ---------------------------------------------------------------------------

/// The lines that a controller drives.
#[derive(Clone, Copy, Debug, PartialEq, Eq, Structural)]
pub struct PS2Pins {
    /// Interrupts of the primary port.
    pub pri: u32,
    /// Interrupts of the auxiliary port.
    pub aux: u32,
    /// Reset of the machine.
    pub reset: u32,
}

/// What a controller holds.
#[verifier::ext_equal]
pub struct PS2View {
    pub resp: Option<u8>,
    pub cmd_prefix: Option<u8>,
    pub ctrl_cfg: CtrlCfg,
    pub ctrl_out_port: CtrlOutPort,
    pub ram: Seq<u8>,
    pub pri: KbdView,
    pub aux: MouseView,
    pub pins: PS2Pins,
}

/// A PS/2 controller.
#[derive(Debug)]
pub struct PS2Ctrl {
    /// The response to a command.
    pub resp: Option<u8>,
    /// The command that waits for its second byte.
    pub cmd_prefix: Option<u8>,
    pub ctrl_cfg: CtrlCfg,
    pub ctrl_out_port: CtrlOutPort,
    /// One byte for each of the 31 commands that read, and that write, the RAM.
    pub ram: [u8; 31],
    pub pri_port: PS2Kbd,
    pub aux_port: PS2Mouse,
    pub pins: PS2Pins,
}

impl View for PS2Ctrl {
    type V = PS2View;

    open spec fn view(&self) -> PS2View {
        PS2View {
            resp: self.resp,
            cmd_prefix: self.cmd_prefix,
            ctrl_cfg: self.ctrl_cfg,
            ctrl_out_port: self.ctrl_out_port,
            ram: self.ram@,
            pri: self.pri_port@,
            aux: self.aux_port@,
            pins: self.pins,
        }
    }
}

/// Whether a command has a second byte.
pub open spec fn is_prefix(v: u8) -> bool {
    ||| v == PS2C_CMD_WRITE_CTRL_CFG
    ||| v == PS2C_CMD_WRITE_CTLR_OUT
    ||| v == PS2C_CMD_WRITE_PRI_OUT
    ||| v == PS2C_CMD_WRITE_AUX_OUT
    ||| v == PS2C_CMD_WRITE_AUX_IN
    ||| PS2C_CMD_WRITE_RAM_START <= v <= PS2C_CMD_WRITE_RAM_END
}

impl PS2View {
    /// The invariant of controllers.
    pub open spec fn wf(self) -> bool {
        &&& self.pri.wf()
        &&& self.aux.wf()
        &&& self.ram.len() == 31
        &&& self.cmd_prefix matches Some(c) ==> is_prefix(c)
    }

    /// A controller after a reset.
    pub open spec fn blank(pins: PS2Pins) -> PS2View {
        PS2View {
            resp: None,
            cmd_prefix: None,
            ctrl_cfg: CtrlCfg::spec_empty(),
            ctrl_out_port: CtrlOutPort::spec_empty(),
            ram: Seq::new(31, |i: int| 0u8),
            pri: KbdView::blank(),
            aux: MouseView::blank(),
            pins,
        }
    }

    /// The interrupts that tell the guest of data. Those of the keyboard need
    /// its clock.
    pub open spec fn intr_events(self) -> Seq<PinEvent> {
        (if self.ctrl_cfg.pri_intr_en && !self.ctrl_cfg.pri_clock_dis && self.pri.buf.len() > 0 {
            seq![PinEvent::Pulse(self.pins.pri)]
        } else {
            Seq::empty()
        }) + (if self.ctrl_cfg.aux_intr_en && self.aux.buf.len() > 0 {
            seq![PinEvent::Pulse(self.pins.aux)]
        } else {
            Seq::empty()
        })
    }

    /// What the status register reads as.
    pub open spec fn status(self) -> u8 {
        (0x10 + bit(
            self.resp is Some || self.pri.buf.len() > 0 || self.aux.buf.len() > 0,
            0x01,
        ) + bit(self.ctrl_cfg.sys_flag, 0x04) + bit(self.cmd_prefix is Some, 0x08) + bit(
            self.aux.buf.len() > 0,
            0x20,
        )) as u8
    }

    /// The controller after the second byte of a command.
    pub open spec fn cmd_ended(self, prefix: u8, v: u8) -> PS2View {
        let c = PS2View { cmd_prefix: None, ..self };
        if prefix == PS2C_CMD_WRITE_CTRL_CFG {
            PS2View { ctrl_cfg: CtrlCfg::spec_truncate(v), ..c }
        } else if PS2C_CMD_WRITE_RAM_START <= prefix <= PS2C_CMD_WRITE_RAM_END {
            PS2View { ram: c.ram.update(prefix - PS2C_CMD_WRITE_RAM_START, v), ..c }
        } else if prefix == PS2C_CMD_WRITE_CTLR_OUT {
            PS2View {
                ctrl_out_port: CtrlOutPort {
                    pri_full: false,
                    aux_full: false,
                    ..CtrlOutPort::spec_truncate(v)
                },
                ..c
            }
        } else if prefix == PS2C_CMD_WRITE_PRI_OUT {
            PS2View { pri: c.pri.sending(seq![v]), ..c }
        } else if prefix == PS2C_CMD_WRITE_AUX_OUT {
            PS2View { aux: c.aux.sending(seq![v]), ..c }
        } else if prefix == PS2C_CMD_WRITE_AUX_IN {
            PS2View { aux: c.aux.told(v), ..c }
        } else {
            c
        }
    }

    /// The controller after a write to the data port.
    pub open spec fn data_written(self, v: u8) -> PS2View {
        match self.cmd_prefix {
            Some(p) => self.cmd_ended(p, v),
            None => PS2View { pri: self.pri.told(v), ..self },
        }
    }

    /// The controller after a read of the data port, and what is read: a
    /// response comes before keyboard data, and that before mouse data.
    pub open spec fn data_got(self) -> (PS2View, u8) {
        if self.resp is Some {
            (PS2View { resp: None, ..self }, self.resp->0)
        } else if self.pri.buf.len() > 0 {
            (
                PS2View { pri: KbdView { buf: self.pri.buf.skip(1), ..self.pri }, ..self },
                self.pri.buf[0],
            )
        } else if self.aux.buf.len() > 0 {
            (
                PS2View { aux: MouseView { buf: self.aux.buf.skip(1), ..self.aux }, ..self },
                self.aux.buf[0],
            )
        } else {
            (self, 0)
        }
    }

    /// The controller after a command.
    pub open spec fn cmd_written(self, v: u8) -> PS2View {
        if v == PS2C_CMD_READ_CTRL_CFG {
            PS2View { resp: Some(self.ctrl_cfg.spec_bits()), ..self }
        } else if PS2C_CMD_READ_RAM_START <= v <= PS2C_CMD_READ_RAM_END {
            PS2View { resp: Some(self.ram[v - PS2C_CMD_READ_RAM_START]), ..self }
        } else if v == PS2C_CMD_CTRL_TEST {
            PS2View { resp: Some(PS2C_R_CTRL_TEST_PASS), ..self }
        } else if v == PS2C_CMD_PRI_PORT_TEST || v == PS2C_CMD_AUX_PORT_TEST {
            PS2View { resp: Some(PS2C_R_PORT_TEST_PASS), ..self }
        } else if v == PS2C_CMD_PRI_PORT_ENA || v == PS2C_CMD_PRI_PORT_DIS {
            PS2View {
                ctrl_cfg: CtrlCfg { pri_clock_dis: v == PS2C_CMD_PRI_PORT_DIS, ..self.ctrl_cfg },
                ..self
            }
        } else if v == PS2C_CMD_AUX_PORT_ENA || v == PS2C_CMD_AUX_PORT_DIS {
            PS2View {
                ctrl_cfg: CtrlCfg { aux_clock_dis: v == PS2C_CMD_AUX_PORT_DIS, ..self.ctrl_cfg },
                ..self
            }
        } else if v == PS2C_CMD_READ_CTLR_OUT {
            PS2View {
                resp: Some(
                    CtrlOutPort {
                        pri_full: self.pri.buf.len() > 0,
                        aux_full: self.aux.buf.len() > 0,
                        ..self.ctrl_out_port
                    }.spec_bits(),
                ),
                ..self
            }
        } else if is_prefix(v) {
            PS2View { cmd_prefix: Some(v), ..self }
        } else {
            self
        }
    }

    /// What a command brings about: one of the commands that pulse output lines
    /// resets the machine.
    pub open spec fn cmd_events(self, v: u8) -> Seq<PinEvent> {
        if v == 0xfe {
            seq![PinEvent::Pulse(self.pins.reset)]
        } else {
            Seq::empty()
        }
    }

    /// The controller after a key event. Keys that are not known are ignored.
    pub open spec fn key_sent(self, ke: KeyEvent) -> Option<PS2View> {
        let set = if self.ctrl_cfg.pri_xlate_en {
            PS2ScanCodeSet::Set1
        } else {
            PS2ScanCodeSet::Set2
        };
        match event_code(ke, set) {
            Some(code) => Some(PS2View { pri: self.pri.sending(code), ..self }),
            None => None,
        }
    }
}

/// What is written to a byte of memory is what is read from it, and the same
/// holds of the configuration byte, as far as its bits are known.
pub proof fn law_memory_read_back(c: PS2View, n: u8, v: u8)
    requires
        c.wf(),
        n < 31,
    ensures
        c.cmd_written((0x61 + n) as u8).data_written(v).cmd_written((0x21 + n) as u8).resp == Some(v),
        c.cmd_written(0x60).data_written(v).cmd_written(0x20).resp == Some(
            CtrlCfg::spec_truncate(v).spec_bits(),
        ),
{
}

/// The status register tells exactly whether a read of the data port gives
/// something.
pub proof fn law_status_tells_data(c: PS2View)
    ensures
        c.status() % 2 == 1 <==> c.resp is Some || c.pri.buf.len() > 0 || c.aux.buf.len() > 0,
        c.status() % 2 == 0 ==> c.data_got() == (c, 0u8),
{
}

/// Reads of the data port give the bytes of the keyboard in the order in which
/// it sent them.
pub proof fn law_keyboard_order(c: PS2View, n: nat)
    requires
        c.resp is None,
        n < c.pri.buf.len(),
    ensures
        ({
            let d = PS2View { pri: KbdView { buf: c.pri.buf.skip(n as int), ..c.pri }, ..c };
            &&& d.data_got().1 == c.pri.buf[n as int]
            &&& d.data_got().0 == (PS2View {
                pri: KbdView { buf: c.pri.buf.skip(n as int + 1), ..c.pri },
                ..c
            })
        }),
{
    assert(c.pri.buf.skip(n as int).skip(1) =~= c.pri.buf.skip(n as int + 1));
}

/// The state of a controller as it is moved to another host.
#[derive(Debug)]
pub struct PS2CtrlV1 {
    pub ctrl: PS2CtrlStateV1,
    pub kbd: PS2KbdV1,
    pub mouse: PS2MouseV1,
}

/// The controller's own part of that state.
#[derive(Clone, Copy, Debug)]
pub struct PS2CtrlStateV1 {
    pub response: Option<u8>,
    pub cmd_prefix: Option<u8>,
    pub ctrl_cfg: u8,
    pub ctrl_out_port: u8,
    /// One byte for each of the 31 commands that read, and that write, the RAM.
    pub ram: [u8; 31],
}

/// The keyboard's part of that state.
#[derive(Debug)]
pub struct PS2KbdV1 {
    pub buf: Vec<u8>,
    pub current_cmd: Option<u8>,
    pub enabled: bool,
    pub led_status: u8,
    pub typematic: u8,
    pub scan_code_set: u8,
}

/// The mouse's part of that state.
#[derive(Debug)]
pub struct PS2MouseV1 {
    pub buf: Vec<u8>,
    pub current_cmd: Option<u8>,
    pub status: u8,
    pub resolution: u8,
    pub sample_rate: u8,
}

impl PS2View {
    /// Whether the state is saved as `s`.
    pub open spec fn saved_as(self, s: PS2CtrlV1) -> bool {
        &&& s.ctrl.response == self.resp
        &&& s.ctrl.cmd_prefix == self.cmd_prefix
        &&& s.ctrl.ctrl_cfg == self.ctrl_cfg.spec_bits()
        &&& s.ctrl.ctrl_out_port == self.ctrl_out_port.spec_bits()
        &&& s.ctrl.ram@ == self.ram
        &&& s.kbd.buf@ == self.pri.buf
        &&& s.kbd.current_cmd == self.pri.cur_cmd
        &&& s.kbd.enabled == self.pri.enabled
        &&& s.kbd.led_status == self.pri.led_status
        &&& s.kbd.typematic == self.pri.typematic
        &&& s.kbd.scan_code_set == self.pri.scan_code_set.spec_byte()
        &&& s.mouse.buf@ == self.aux.buf
        &&& s.mouse.current_cmd == self.aux.cur_cmd
        &&& s.mouse.status == self.aux.status.spec_bits()
        &&& s.mouse.resolution == self.aux.resolution
        &&& s.mouse.sample_rate == self.aux.sample_rate
    }

    /// The state after a saved one was taken over, up to the first value that
    /// cannot be, and why it cannot be.
    pub open spec fn imported(self, s: PS2CtrlV1) -> (PS2View, Option<MigrateStateError>) {
        let v1 = PS2View { resp: s.ctrl.response, cmd_prefix: s.ctrl.cmd_prefix, ..self };
        let cfg = CtrlCfg::spec_truncate(s.ctrl.ctrl_cfg);
        let v2 = PS2View { ctrl_cfg: cfg, ..v1 };
        let out = CtrlOutPort::spec_truncate(s.ctrl.ctrl_out_port);
        let k0 = KbdView {
            cur_cmd: s.kbd.current_cmd,
            enabled: s.kbd.enabled,
            led_status: s.kbd.led_status,
            typematic: s.kbd.typematic,
            ..self.pri
        };
        let v3 = PS2View { ctrl_out_port: out, ram: s.ctrl.ram@, pri: k0, ..v2 };
        let set = if s.kbd.scan_code_set == 1 {
            PS2ScanCodeSet::Set1
        } else {
            PS2ScanCodeSet::Set2
        };
        let v4 = PS2View {
            pri: KbdView { scan_code_set: set, buf: s.kbd.buf@, ..k0 },
            aux: MouseView { cur_cmd: s.mouse.current_cmd, ..self.aux },
            ..v3
        };
        let status = PS2MStatus::spec_truncate(s.mouse.status);
        if cfg.spec_bits() != s.ctrl.ctrl_cfg {
            (v1, Some(MigrateStateError::Ps2CtrlCfg(s.ctrl.ctrl_cfg)))
        } else if out.spec_bits() != s.ctrl.ctrl_out_port {
            (v2, Some(MigrateStateError::Ps2CtrlOutPort(s.ctrl.ctrl_cfg)))
        } else if s.kbd.scan_code_set != 1 && s.kbd.scan_code_set != 2 {
            (v3, Some(MigrateStateError::Ps2ScanCodeSet(s.kbd.scan_code_set)))
        } else if status.spec_bits() != s.mouse.status {
            (v4, Some(MigrateStateError::Ps2MouseStatus(s.mouse.status)))
        } else {
            (
                PS2View {
                    aux: MouseView {
                        buf: s.mouse.buf@,
                        cur_cmd: s.mouse.current_cmd,
                        status,
                        resolution: s.mouse.resolution,
                        sample_rate: s.mouse.sample_rate,
                    },
                    ..v4
                },
                None,
            )
        }
    }
}

/// A controller that takes over the state that another one saved is in the same
/// state.
pub proof fn law_ps2_migrates(from: PS2View, to: PS2View, s: PS2CtrlV1)
    requires
        from.wf(),
        from.saved_as(s),
        to.pins == from.pins,
    ensures
        to.imported(s) == (from, None::<MigrateStateError>),
{
    law_register_round_trips(from.ctrl_cfg, from.ctrl_out_port, from.aux.status);
    assert(to.imported(s).0 =~= from);
}

impl PS2Ctrl {
    /// A controller that drives the given lines, after a reset.
    pub fn create(pins: PS2Pins) -> (r: PS2Ctrl)
        ensures
            r@ == PS2View::blank(pins),
            r@.wf(),
    {
        let r: PS2Ctrl = PS2Ctrl {
            resp: None,
            cmd_prefix: None,
            ctrl_cfg: CtrlCfg::from_bits_truncate(0),
            ctrl_out_port: CtrlOutPort::from_bits_truncate(0),
            ram: [0u8;31],
            pri_port: PS2Kbd::new(),
            aux_port: PS2Mouse::new(),
            pins,
        };
        assert(r@ =~= PS2View::blank(pins));
        r
    }

    /// The ports that the controller answers at.
    pub fn attach(&self) -> (r: (u16, u16))
        ensures
            r == (PORT_PS2_DATA, PORT_PS2_CMD_STATUS),
    {
        (PORT_PS2_DATA, PORT_PS2_CMD_STATUS)
    }

    /// Takes a key event of a remote console.
    pub fn key_event(&mut self, ke: KeyEvent, events: &mut Vec<PinEvent>)
        requires
            old(self)@.wf(),
        ensures
            final(self)@.wf(),
            match old(self)@.key_sent(ke) {
                Some(v) => final(self)@ == v && final(events)@ == old(events)@ + v.intr_events(),
                None => final(self)@ == old(self)@ && final(events)@ == old(events)@,
            },
    {
        let ghost v0 = self@;
        match KeyEventRep::try_from(ke) {
            Err(_) => {},
            Ok(rep) => {
                // Without translation, keyboards use set 2.
                let set: PS2ScanCodeSet = if self.ctrl_cfg.pri_xlate_en {
                    PS2ScanCodeSet::Set1
                } else {
                    PS2ScanCodeSet::Set2
                };
                let code: Vec<u8> = rep.to_scan_code(set);
                assert(event_code(ke, set) == Some(code@));
                self.pri_port.recv_scancode(&code);
                assert(self@ =~= v0.key_sent(ke)->0);
                self.update_intr(events);
            },
        }
    }

    /// Services an access to one of the ports.
    pub fn pio_rw(&mut self, port: u16, rwo: RWOp, events: &mut Vec<PinEvent>) -> (r: RWOp)
        requires
            old(self)@.wf(),
            rwo.bytes().len() == 1,
            port == PORT_PS2_DATA || port == PORT_PS2_CMD_STATUS,
        ensures
            final(self)@.wf(),
            r.spec_offset() == rwo.spec_offset(),
            r is Read <==> rwo is Read,
            ({
                let c = old(self)@;
                let v = rwo.bytes()[0];
                if rwo is Read {
                    if port == PORT_PS2_DATA {
                        let (d, b) = c.data_got();
                        &&& final(self)@ == d
                        &&& r.bytes() == seq![b]
                        &&& final(events)@ == if c.resp is None && (c.pri.buf.len() > 0
                            || c.aux.buf.len() > 0) {
                            old(events)@ + d.intr_events()
                        } else {
                            old(events)@
                        }
                    } else {
                        &&& final(self)@ == c
                        &&& r.bytes() == seq![c.status()]
                        &&& final(events)@ == old(events)@
                    }
                } else {
                    &&& r.bytes() == rwo.bytes()
                    &&& if port == PORT_PS2_DATA {
                        &&& final(self)@ == c.data_written(v)
                        &&& final(events)@ == old(events)@ + c.data_written(v).intr_events()
                    } else {
                        &&& final(self)@ == c.cmd_written(v)
                        &&& final(events)@ == old(events)@ + c.cmd_events(v)
                    }
                }
            }),
    {
        match rwo {
            RWOp::Read(ro) => {
                let b: u8 = if port == PORT_PS2_DATA {
                    self.data_read(events)
                } else {
                    self.status_read()
                };
                RWOp::Read(ReadOp { offset: ro.offset, buf: crate::common::byte_vec(b) })
            },
            RWOp::Write(wo) => {
                let v: u8 = wo.buf[0];
                if port == PORT_PS2_DATA {
                    self.data_write(v, events);
                } else {
                    self.cmd_write(v, events);
                }
                RWOp::Write(wo)
            },
        }
    }

    /// Takes the second byte of a command.
    fn end_cmd(&mut self, p: u8, v: u8)
        requires
            old(self)@.wf(),
        ensures
            final(self)@.wf(),
            final(self)@ == old(self)@.cmd_ended(p, v),
    {
        let ghost v0 = self@;
        proof {
            lemma_buffered_few(v0.pri.buf, v, 0, 0, 0);
            lemma_buffered_few(v0.aux.buf, v, 0, 0, 0);
        }
        self.cmd_prefix = None;
        if p == PS2C_CMD_WRITE_CTRL_CFG {
            self.ctrl_cfg = CtrlCfg::from_bits_truncate(v);
        } else if p >= PS2C_CMD_WRITE_RAM_START && p <= PS2C_CMD_WRITE_RAM_END {
            let off: usize = (p - PS2C_CMD_WRITE_RAM_START) as usize;
            self.ram[off] = v;
        } else if p == PS2C_CMD_WRITE_CTLR_OUT {
            let mut port: CtrlOutPort = CtrlOutPort::from_bits_truncate(v);
            port.pri_full = false;
            port.aux_full = false;
            self.ctrl_out_port = port;
        } else if p == PS2C_CMD_WRITE_PRI_OUT {
            self.pri_port.resp(v);
        } else if p == PS2C_CMD_WRITE_AUX_OUT {
            self.aux_port.resp(v);
        } else if p == PS2C_CMD_WRITE_AUX_IN {
            self.aux_port.cmd_input(v);
        }
        assert(self@ =~= v0.cmd_ended(p, v));
    }

    /// Services a write to the data port: the second byte of a command to the
    /// controller, or a byte for the keyboard.
    pub fn data_write(&mut self, v: u8, events: &mut Vec<PinEvent>)
        requires
            old(self)@.wf(),
        ensures
            final(self)@.wf(),
            final(self)@ == old(self)@.data_written(v),
            final(events)@ == old(events)@ + old(self)@.data_written(v).intr_events(),
    {
        match self.cmd_prefix {
            None => {
                self.pri_port.cmd_input(v);
                assert(self@ =~= old(self)@.data_written(v));
            },
            Some(p) => {
                self.end_cmd(p, v);
            },
        }
        self.update_intr(events);
    }

    /// Services a read of the data port.
    pub fn data_read(&mut self, events: &mut Vec<PinEvent>) -> (r: u8)
        requires
            old(self)@.wf(),
        ensures
            final(self)@.wf(),
            (final(self)@, r) == old(self)@.data_got(),
            final(events)@ == if old(self)@.resp is None && (old(self)@.pri.buf.len() > 0 || old(
                self,
            )@.aux.buf.len() > 0) {
                old(events)@ + old(self)@.data_got().0.intr_events()
            } else {
                old(events)@
            },
    {
        let ghost v0 = self@;
        if let Some(rval) = self.resp {
            self.resp = None;
            assert(self@ =~= v0.data_got().0);
            rval
        } else if self.pri_port.has_output() {
            let out: Option<u8> = self.pri_port.read_output();
            assert(self@ =~= v0.data_got().0);
            self.update_intr(events);
            match out {
                Some(b) => b,
                None => 0,
            }
        } else if self.aux_port.has_output() {
            let out: Option<u8> = self.aux_port.read_output();
            assert(self@ =~= v0.data_got().0);
            self.update_intr(events);
            match out {
                Some(b) => b,
                None => 0,
            }
        } else {
            0
        }
    }

    /// Services a write to the command port.
    pub fn cmd_write(&mut self, v: u8, events: &mut Vec<PinEvent>)
        requires
            old(self)@.wf(),
        ensures
            final(self)@.wf(),
            final(self)@ == old(self)@.cmd_written(v),
            final(events)@ == old(events)@ + old(self)@.cmd_events(v),
    {
        let ghost v0 = self@;
        assert(events@ + Seq::<PinEvent>::empty() =~= events@);
        if v == PS2C_CMD_READ_CTRL_CFG {
            self.resp = Some(self.ctrl_cfg.bits());
        } else if v >= PS2C_CMD_READ_RAM_START && v <= PS2C_CMD_READ_RAM_END {
            let off: usize = (v - PS2C_CMD_READ_RAM_START) as usize;
            self.resp = Some(self.ram[off]);
        } else if v == PS2C_CMD_CTRL_TEST {
            self.resp = Some(PS2C_R_CTRL_TEST_PASS);
        } else if v == PS2C_CMD_PRI_PORT_TEST || v == PS2C_CMD_AUX_PORT_TEST {
            self.resp = Some(PS2C_R_PORT_TEST_PASS);
        } else if v == PS2C_CMD_PRI_PORT_ENA || v == PS2C_CMD_PRI_PORT_DIS {
            self.ctrl_cfg.pri_clock_dis = v == PS2C_CMD_PRI_PORT_DIS;
        } else if v == PS2C_CMD_AUX_PORT_ENA || v == PS2C_CMD_AUX_PORT_DIS {
            self.ctrl_cfg.aux_clock_dis = v == PS2C_CMD_AUX_PORT_DIS;
        } else if v == PS2C_CMD_READ_CTLR_OUT {
            let mut val: CtrlOutPort = self.ctrl_out_port;
            val.pri_full = self.pri_port.has_output();
            val.aux_full = self.aux_port.has_output();
            self.resp = Some(val.bits());
        } else if v == PS2C_CMD_WRITE_CTRL_CFG || v == PS2C_CMD_WRITE_CTLR_OUT || v
            == PS2C_CMD_WRITE_PRI_OUT || v == PS2C_CMD_WRITE_AUX_OUT || v == PS2C_CMD_WRITE_AUX_IN
            || (v >= PS2C_CMD_WRITE_RAM_START && v <= PS2C_CMD_WRITE_RAM_END) {
            // The second byte comes on the data port.
            self.cmd_prefix = Some(v);
        } else if v >= PS2C_CMD_PULSE_START {
            let lines: u8 = v - PS2C_CMD_PULSE_START;
            if lines == 0xe {
                events.push(PinEvent::Pulse(self.pins.reset));
            }
        }
        assert(self@ =~= v0.cmd_written(v));
        assert(events@ =~= old(events)@ + v0.cmd_events(v));
    }

    /// The value of the status register. The keyboard is never locked.
    pub fn status_read(&self) -> (r: u8)
        ensures
            r == self@.status(),
    {
        let pri: bool = self.pri_port.has_output();
        let aux: bool = self.aux_port.has_output();
        0x10 + get_bit(self.resp.is_some() || pri || aux, 0x01) + get_bit(
            self.ctrl_cfg.sys_flag,
            0x04,
        ) + get_bit(self.cmd_prefix.is_some(), 0x08) + get_bit(aux, 0x20)
    }

    /// Tells the guest of data by pulses of the interrupt lines.
    pub fn update_intr(&self, events: &mut Vec<PinEvent>)
        ensures
            final(events)@ == old(events)@ + self@.intr_events(),
    {
        if self.ctrl_cfg.pri_intr_en && !self.ctrl_cfg.pri_clock_dis && self.pri_port.has_output() {
            events.push(PinEvent::Pulse(self.pins.pri));
        }
        if self.ctrl_cfg.aux_intr_en && self.aux_port.has_output() {
            events.push(PinEvent::Pulse(self.pins.aux));
        }
        assert(events@ =~= old(events)@ + self@.intr_events());
    }

    /// Resets the controller, the keyboard and the mouse. No data is left to
    /// tell the guest of.
    pub fn reset(&mut self, events: &mut Vec<PinEvent>)
        ensures
            final(self)@ == PS2View::blank(old(self)@.pins),
            final(self)@.wf(),
            final(events)@ == old(events)@,
    {
        self.pri_port.reset();
        self.aux_port.reset();
        self.resp = None;
        self.cmd_prefix = None;
        self.ctrl_cfg = CtrlCfg::from_bits_truncate(0);
        self.ctrl_out_port = CtrlOutPort::from_bits_truncate(0);
        self.ram = [0u8;31];
        assert(self@ =~= PS2View::blank(old(self)@.pins));
        self.update_intr(events);
        assert(events@ =~= old(events)@);
    }

    /// The state to be moved to another host.
    pub fn export(&self) -> (r: PS2CtrlV1)
        ensures
            self@.saved_as(r),
    {
        PS2CtrlV1 {
            ctrl: PS2CtrlStateV1 {
                response: self.resp,
                cmd_prefix: self.cmd_prefix,
                ctrl_cfg: self.ctrl_cfg.bits(),
                ctrl_out_port: self.ctrl_out_port.bits(),
                ram: self.ram,
            },
            kbd: PS2KbdV1 {
                buf: copy_buffer(&self.pri_port.buf),
                current_cmd: self.pri_port.cur_cmd,
                enabled: self.pri_port.enabled,
                led_status: self.pri_port.led_status,
                typematic: self.pri_port.typematic,
                scan_code_set: self.pri_port.scan_code_set.as_byte(),
            },
            mouse: PS2MouseV1 {
                buf: copy_buffer(&self.aux_port.buf),
                current_cmd: self.aux_port.cur_cmd,
                status: self.aux_port.status.bits(),
                resolution: self.aux_port.resolution,
                sample_rate: self.aux_port.sample_rate,
            },
        }
    }

    /// Whether the controller is in a state that its invariant allows. A state
    /// brought from another host may be another.
    pub fn is_sound(&self) -> (r: bool)
        ensures
            r == self@.wf(),
    {
        let kbd: bool = self.pri_port.buf.len() <= 16 && match self.pri_port.cur_cmd {
            Some(c) => c == PS2K_CMD_SET_LEDS || c == PS2K_CMD_SCAN_CODE || c
                == PS2K_CMD_TYPEMATIC,
            None => true,
        };
        let mouse: bool = self.aux_port.buf.len() <= 16 && match self.aux_port.cur_cmd {
            Some(c) => c == PS2M_CMD_SET_SAMP_RATE || c == PS2M_CMD_RESOLUTION_SET,
            None => true,
        };
        let prefix: bool = match self.cmd_prefix {
            Some(v) => v == PS2C_CMD_WRITE_CTRL_CFG || v == PS2C_CMD_WRITE_CTLR_OUT || v
                == PS2C_CMD_WRITE_PRI_OUT || v == PS2C_CMD_WRITE_AUX_OUT || v
                == PS2C_CMD_WRITE_AUX_IN || (PS2C_CMD_WRITE_RAM_START <= v && v
                <= PS2C_CMD_WRITE_RAM_END),
            None => true,
        };
        kbd && mouse && prefix
    }

    /// Takes over the state brought from another host.
    pub fn import(&mut self, saved: &PS2CtrlV1) -> (r: Result<(), MigrateStateError>)
        ensures
            ({
                let (v, e) = old(self)@.imported(*saved);
                &&& final(self)@ == v
                &&& match e {
                    Some(e) => r == Err::<(), MigrateStateError>(e),
                    None => r is Ok,
                }
            }),
    {
        let ghost v0 = self@;
        self.resp = saved.ctrl.response;
        self.cmd_prefix = saved.ctrl.cmd_prefix;
        match CtrlCfg::from_bits(saved.ctrl.ctrl_cfg) {
            None => {
                return Err(MigrateStateError::Ps2CtrlCfg(saved.ctrl.ctrl_cfg));
            },
            Some(cfg) => {
                self.ctrl_cfg = cfg;
            },
        }
        match CtrlOutPort::from_bits(saved.ctrl.ctrl_out_port) {
            None => {
                return Err(MigrateStateError::Ps2CtrlOutPort(saved.ctrl.ctrl_cfg));
            },
            Some(port) => {
                self.ctrl_out_port = port;
            },
        }
        self.ram = saved.ctrl.ram;
        self.pri_port.cur_cmd = saved.kbd.current_cmd;
        self.pri_port.enabled = saved.kbd.enabled;
        self.pri_port.led_status = saved.kbd.led_status;
        self.pri_port.typematic = saved.kbd.typematic;
        match PS2ScanCodeSet::from_byte(saved.kbd.scan_code_set) {
            None => {
                assert(self@ =~= v0.imported(*saved).0);
                return Err(MigrateStateError::Ps2ScanCodeSet(saved.kbd.scan_code_set));
            },
            Some(set) => {
                self.pri_port.scan_code_set = set;
            },
        }
        self.pri_port.buf = make_buffer(&saved.kbd.buf);
        self.aux_port.cur_cmd = saved.mouse.current_cmd;
        match PS2MStatus::from_bits(saved.mouse.status) {
            None => {
                assert(self@ =~= v0.imported(*saved).0);
                return Err(MigrateStateError::Ps2MouseStatus(saved.mouse.status));
            },
            Some(status) => {
                self.aux_port.status = status;
            },
        }
        self.aux_port.resolution = saved.mouse.resolution;
        self.aux_port.sample_rate = saved.mouse.sample_rate;
        self.aux_port.buf = make_buffer(&saved.mouse.buf);
        assert(self@ =~= v0.imported(*saved).0);
        Ok(())
    }
}

} // verus!
