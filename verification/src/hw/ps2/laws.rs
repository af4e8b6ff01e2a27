//! What a guest can rely on of the PS/2 controller, its keyboard and its mouse.
use crate::hw::ps2::ctrl::{
    buffered_all, CtrlCfg, CtrlOutPort, KbdView, MouseView, PS2MStatus, PS2Pins, PS2ScanCodeSet,
    PS2View,
};
use crate::hw::ps2::keyboard::{event_code, law_code_length, KeyEvent};
use crate::intr_pins::PinEvent;
use vstd::prelude::*;

verus! {

// ---------------------------------------------------------------------------
// Registers
// ---------------------------------------------------------------------------

/// Where the bits of the configuration byte stand. Bits 3 and 7 do not exist.
pub proof fn law_configuration_bits(v: u8)
    ensures
        ({
            let c = CtrlCfg::spec_truncate(v);
            &&& c.pri_intr_en <==> v % 2 == 1
            &&& c.aux_intr_en <==> (v / 2) % 2 == 1
            &&& c.sys_flag <==> (v / 4) % 2 == 1
            &&& c.pri_clock_dis <==> (v / 16) % 2 == 1
            &&& c.aux_clock_dis <==> (v / 32) % 2 == 1
            &&& c.pri_xlate_en <==> (v / 64) % 2 == 1
            &&& c.spec_bits() == v - 8 * ((v / 8) % 2) - 128 * (v / 128)
        }),
{
    reveal(CtrlCfg::spec_truncate);
    reveal(CtrlCfg::spec_bits);
}

/// Where the bits of the output port stand. Bit 0 does not exist.
pub proof fn law_output_port_bits(v: u8)
    ensures
        ({
            let c = CtrlOutPort::spec_truncate(v);
            &&& c.a20 <==> (v / 2) % 2 == 1
            &&& c.aux_clock <==> (v / 4) % 2 == 1
            &&& c.aux_data <==> (v / 8) % 2 == 1
            &&& c.pri_full <==> (v / 16) % 2 == 1
            &&& c.aux_full <==> (v / 32) % 2 == 1
            &&& c.pri_clock <==> (v / 64) % 2 == 1
            &&& c.pri_data <==> v / 128 == 1
            &&& c.spec_bits() == v - v % 2
        }),
{
    reveal(CtrlOutPort::spec_truncate);
    reveal(CtrlOutPort::spec_bits);
}

/// Where the bits of the status of a mouse stand. Bits 3 and 7 do not exist.
pub proof fn law_mouse_status_bits(v: u8)
    ensures
        ({
            let c = PS2MStatus::spec_truncate(v);
            &&& c.b_left <==> v % 2 == 1
            &&& c.b_right <==> (v / 2) % 2 == 1
            &&& c.b_mid <==> (v / 4) % 2 == 1
            &&& c.scale2 <==> (v / 16) % 2 == 1
            &&& c.enable <==> (v / 32) % 2 == 1
            &&& c.remote <==> (v / 64) % 2 == 1
            &&& c.spec_bits() == v - 8 * ((v / 8) % 2) - 128 * (v / 128)
        }),
{
    reveal(PS2MStatus::spec_truncate);
    reveal(PS2MStatus::spec_bits);
}

/// What the bits of the status register tell: that there is something to read,
/// that the system has passed its tests, that a command waits for its second
/// byte, that the keyboard is not locked, and that the mouse has data.
pub proof fn law_status_bits(c: PS2View)
    ensures
        ({
            let s = c.status();
            &&& s % 2 == 1 <==> c.resp is Some || c.pri.buf.len() > 0 || c.aux.buf.len() > 0
            &&& (s / 2) % 2 == 0
            &&& (s / 4) % 2 == 1 <==> c.ctrl_cfg.sys_flag
            &&& (s / 8) % 2 == 1 <==> c.cmd_prefix is Some
            &&& (s / 16) % 2 == 1
            &&& (s / 32) % 2 == 1 <==> c.aux.buf.len() > 0
            &&& s < 64
        }),
{
}

// ---------------------------------------------------------------------------
// The controller
// ---------------------------------------------------------------------------

/// Commands that are answered at once. They change nothing else.
pub proof fn law_controller_answers(c: PS2View)
    ensures
        c.cmd_written(0x20) == (PS2View { resp: Some(c.ctrl_cfg.spec_bits()), ..c }),
        // The controller and its ports pass their tests
        c.cmd_written(0xaa) == (PS2View { resp: Some(0x55), ..c }),
        c.cmd_written(0xab) == (PS2View { resp: Some(0x00), ..c }),
        c.cmd_written(0xa9) == (PS2View { resp: Some(0x00), ..c }),
        // The answer is what the data port gives next, and then it is gone
        forall|v: u8|
            #![trigger c.cmd_written(v)]
            c.cmd_written(v).resp matches Some(a) ==> c.cmd_written(v).data_got().1 == a
                && c.cmd_written(v).data_got().0.resp is None,
{
}

/// What is written to the output port can be read from it, but for two bits that
/// tell whether the ports have data.
pub proof fn law_output_port(c: PS2View, v: u8)
    ensures
        ({
            let d = c.cmd_written(0xd1).data_written(v);
            let read = d.cmd_written(0xd0).resp;
            &&& d.cmd_prefix is None
            &&& read matches Some(r) && {
                &&& r % 2 == 0
                &&& (r / 2) % 2 == (v / 2) % 2
                &&& (r / 4) % 2 == (v / 4) % 2
                &&& (r / 8) % 2 == (v / 8) % 2
                &&& (r / 64) % 2 == (v / 64) % 2
                &&& r / 128 == v / 128
                &&& (r / 16) % 2 == 1 <==> c.pri.buf.len() > 0
                &&& (r / 32) % 2 == 1 <==> c.aux.buf.len() > 0
            }
        }),
{
    law_output_port_bits(v);
    let d = c.cmd_written(0xd1).data_written(v);
    lemma_output_port_read(
        CtrlOutPort {
            pri_full: c.pri.buf.len() > 0,
            aux_full: c.aux.buf.len() > 0,
            ..d.ctrl_out_port
        },
    );
}

/// What the bits of the output port read as.
proof fn lemma_output_port_read(p: CtrlOutPort)
    ensures
        ({
            let r = p.spec_bits();
            &&& r % 2 == 0
            &&& (r / 2) % 2 == 1 <==> p.a20
            &&& (r / 4) % 2 == 1 <==> p.aux_clock
            &&& (r / 8) % 2 == 1 <==> p.aux_data
            &&& (r / 16) % 2 == 1 <==> p.pri_full
            &&& (r / 32) % 2 == 1 <==> p.aux_full
            &&& (r / 64) % 2 == 1 <==> p.pri_clock
            &&& r / 128 == 1 <==> p.pri_data
        }),
{
    reveal(CtrlOutPort::spec_bits);
}

/// Commands that stop and start the clocks of the ports. They change nothing
/// else.
pub proof fn law_port_clocks(c: PS2View)
    ensures
        c.cmd_written(0xad) == (PS2View {
            ctrl_cfg: CtrlCfg { pri_clock_dis: true, ..c.ctrl_cfg },
            ..c
        }),
        c.cmd_written(0xae) == (PS2View {
            ctrl_cfg: CtrlCfg { pri_clock_dis: false, ..c.ctrl_cfg },
            ..c
        }),
        c.cmd_written(0xa7) == (PS2View {
            ctrl_cfg: CtrlCfg { aux_clock_dis: true, ..c.ctrl_cfg },
            ..c
        }),
        c.cmd_written(0xa8) == (PS2View {
            ctrl_cfg: CtrlCfg { aux_clock_dis: false, ..c.ctrl_cfg },
            ..c
        }),
{
}

/// Commands with a second byte, which comes by the data port: it is the
/// configuration, or goes to the guest as if a port had sent it, or goes to the
/// mouse. Without such a command, it goes to the keyboard.
pub proof fn law_second_bytes(c: PS2View, v: u8)
    requires
        c.cmd_prefix is None,
        c.pri.buf.len() < 15,
        c.aux.buf.len() < 15,
    ensures
        c.cmd_written(0x60).data_written(v) == (PS2View {
            ctrl_cfg: CtrlCfg::spec_truncate(v),
            ..c
        }),
        c.cmd_written(0xd2).data_written(v) == (PS2View {
            pri: KbdView { buf: c.pri.buf.push(v), ..c.pri },
            ..c
        }),
        c.cmd_written(0xd3).data_written(v) == (PS2View {
            aux: MouseView { buf: c.aux.buf.push(v), ..c.aux },
            ..c
        }),
        c.cmd_written(0xd4).data_written(v) == (PS2View { aux: c.aux.told(v), ..c }),
        c.data_written(v) == (PS2View { pri: c.pri.told(v), ..c }),
{
    lemma_room(c.pri.buf, seq![v]);
    lemma_room(c.aux.buf, seq![v]);
    assert(c.pri.buf + seq![v] =~= c.pri.buf.push(v));
    assert(c.aux.buf + seq![v] =~= c.aux.buf.push(v));
}

/// One of the commands that pulse output lines resets the machine; no other
/// command touches a line.
pub proof fn law_reset_command(c: PS2View, v: u8)
    ensures
        c.cmd_events(v) == if v == 0xfe {
            seq![PinEvent::Pulse(c.pins.reset)]
        } else {
            Seq::empty()
        },
{
}

/// The guest is interrupted for the keyboard if it has data, interrupts of its
/// port are enabled (bit 0 of the configuration) and its clock runs (bit 4), and
/// for the mouse if it has data and interrupts of its port are enabled (bit 1).
pub proof fn law_interrupts(c: PS2View, v: u8)
    requires
        c.ctrl_cfg == CtrlCfg::spec_truncate(v),
        c.pins.pri != c.pins.aux,
    ensures
        c.intr_events().contains(PinEvent::Pulse(c.pins.pri)) <==> c.pri.buf.len() > 0 && v % 2 == 1
            && (v / 16) % 2 == 0,
        c.intr_events().contains(PinEvent::Pulse(c.pins.aux)) <==> c.aux.buf.len() > 0 && (v / 2)
            % 2 == 1,
{
    law_configuration_bits(v);
    let ev = c.intr_events();
    let pri = PinEvent::Pulse(c.pins.pri);
    let aux = PinEvent::Pulse(c.pins.aux);
    let first = c.pri.buf.len() > 0 && v % 2 == 1 && (v / 16) % 2 == 0;
    let second = c.aux.buf.len() > 0 && (v / 2) % 2 == 1;
    if first {
        assert(ev[0] == pri);
    }
    if second {
        assert(ev[if first {
            1int
        } else {
            0
        }] == aux);
    }
}

/// A key that is pressed or released is sent by the keyboard, in set 1 if the
/// controller translates (bit 6 of the configuration), else in set 2. What was
/// sent before comes first.
pub proof fn law_keys_sent(c: PS2View, v: u8, ke: KeyEvent)
    requires
        c.ctrl_cfg == CtrlCfg::spec_truncate(v),
        c.pri.buf.len() <= 12,
    ensures
        ({
            let set = if (v / 64) % 2 == 1 {
                PS2ScanCodeSet::Set1
            } else {
                PS2ScanCodeSet::Set2
            };
            match (event_code(ke, set), c.key_sent(ke)) {
                (Some(code), Some(d)) => d == (PS2View {
                    pri: KbdView { buf: c.pri.buf + code, ..c.pri },
                    ..c
                }),
                (None, None) => true,
                _ => false,
            }
        }),
{
    law_configuration_bits(v);
    let set = if (v / 64) % 2 == 1 {
        PS2ScanCodeSet::Set1
    } else {
        PS2ScanCodeSet::Set2
    };
    law_code_length(ke, set);
    if let Some(code) = event_code(ke, set) {
        lemma_room(c.pri.buf, code);
    }
}

/// The data port gives an answer first, then what the keyboard sent, then what
/// the mouse sent, each in its order.
pub proof fn law_data_order(c: PS2View)
    ensures
        ({
            let (d, v) = c.data_got();
            match c.resp {
                Some(r) => v == r && d == (PS2View { resp: None, ..c }),
                None => if c.pri.buf.len() > 0 {
                    &&& c.pri.buf == seq![v] + d.pri.buf
                    &&& d == (PS2View { pri: KbdView { buf: d.pri.buf, ..c.pri }, ..c })
                } else if c.aux.buf.len() > 0 {
                    &&& c.aux.buf == seq![v] + d.aux.buf
                    &&& d == (PS2View { aux: MouseView { buf: d.aux.buf, ..c.aux }, ..c })
                } else {
                    v == 0 && d == c
                },
            }
        }),
{
    let (d, v) = c.data_got();
    if c.resp is None {
        if c.pri.buf.len() > 0 {
            assert(c.pri.buf =~= seq![v] + d.pri.buf);
        } else if c.aux.buf.len() > 0 {
            assert(c.aux.buf =~= seq![v] + d.aux.buf);
        }
    }
}

/// A controller that is reset has nothing to say, and nothing set.
pub proof fn law_controller_reset(pins: PS2Pins, n: int)
    requires
        0 <= n < 31,
    ensures
        ({
            let c = PS2View::blank(pins);
            &&& c.status() == 0x10
            &&& c.ctrl_cfg.spec_bits() == 0
            &&& c.ctrl_out_port.spec_bits() == 0
            &&& c.ram[n] == 0
            &&& c.pri.enabled
            &&& c.pri.scan_code_set is Set1
            &&& c.aux.status.spec_bits() == 0
            &&& c.aux.resolution == 0
            &&& c.aux.sample_rate == 10
            &&& c.pins == pins
        }),
{
    law_configuration_bits(0);
    law_output_port_bits(0);
    law_mouse_status_bits(0);
}

// ---------------------------------------------------------------------------
// The keyboard and the mouse
// ---------------------------------------------------------------------------

/// A device that has room for bytes keeps all of them, after those it has.
proof fn lemma_room(s: Seq<u8>, data: Seq<u8>)
    requires
        s.len() + data.len() <= 15,
    ensures
        buffered_all(s, data) == s + data,
    decreases data.len(),
{
    if data.len() > 0 {
        lemma_room(s, data.drop_last());
        assert((s + data.drop_last()).push(data.last()) =~= s + data);
    } else {
        assert(s + data =~= s);
    }
}

/// What the keyboard does with commands of one byte, and what it answers: it
/// echoes, tells what it is, is enabled and disabled, and is reset.
pub proof fn law_keyboard_commands(k: KbdView)
    requires
        k.cur_cmd is None,
        k.buf.len() <= 11,
    ensures
        k.told(0xee) == (KbdView { buf: k.buf + seq![0xeeu8], ..k }),
        k.told(0xf2) == (KbdView { buf: k.buf + seq![0xfau8, 0xab, 0x83], ..k }),
        k.told(0xf4) == (KbdView { enabled: true, buf: k.buf + seq![0xfau8], ..k }),
        k.told(0xf5) == (KbdView { enabled: false, buf: k.buf + seq![0xfau8], ..k }),
        k.told(0xf6) == (KbdView { buf: k.buf + seq![0xfau8], ..k }),
        k.told(0xfe) == (KbdView { buf: k.buf + seq![0xfau8], ..k }),
        k.told(0xff) == (KbdView {
            buf: seq![0xfau8, 0xaa],
            cur_cmd: None,
            enabled: true,
            led_status: 0,
            typematic: 0,
            scan_code_set: PS2ScanCodeSet::Set1,
        }),
{
    reveal(KbdView::told);
    lemma_room(k.buf, seq![0xeeu8]);
    lemma_room(k.buf, seq![0xfau8]);
    lemma_room(k.buf, seq![0xfau8, 0xab, 0x83]);
    lemma_room(Seq::empty(), seq![0xfau8, 0xaa]);
    assert(Seq::empty() + seq![0xfau8, 0xaa] =~= seq![0xfau8, 0xaa]);
}

/// What the keyboard does with commands of two bytes, each of which it
/// acknowledges: it sets its lights, its rate of repetition, and its set of scan
/// codes, or tells which set that is.
pub proof fn law_keyboard_settings(k: KbdView, v: u8)
    requires
        k.cur_cmd is None,
        k.buf.len() <= 11,
    ensures
        k.told(0xed).told(v) == (KbdView { led_status: v % 8, buf: k.buf + seq![0xfau8, 0xfa], ..k }),
        k.told(0xf3).told(v) == (KbdView {
            typematic: v % 128,
            buf: k.buf + seq![0xfau8, 0xfa],
            ..k
        }),
        k.told(0xf0).told(1) == (KbdView {
            scan_code_set: PS2ScanCodeSet::Set1,
            buf: k.buf + seq![0xfau8, 0xfa],
            ..k
        }),
        k.told(0xf0).told(2) == (KbdView {
            scan_code_set: PS2ScanCodeSet::Set2,
            buf: k.buf + seq![0xfau8, 0xfa],
            ..k
        }),
        k.told(0xf0).told(0) == (KbdView {
            buf: k.buf + seq![
                0xfau8,
                0xfa,
                if k.scan_code_set is Set1 {
                    1
                } else {
                    2
                },
            ],
            ..k
        }),
{
    reveal(KbdView::told);
    let ack = seq![0xfau8];
    let set: u8 = if k.scan_code_set is Set1 {
        1
    } else {
        2
    };
    lemma_room(k.buf, ack);
    lemma_room(k.buf + ack, ack);
    lemma_room(k.buf + ack, seq![0xfau8, set]);
    assert(k.buf + ack + ack =~= k.buf + seq![0xfau8, 0xfa]);
    assert(k.buf + ack + seq![0xfau8, set] =~= k.buf + seq![0xfau8, 0xfa, set]);
}

/// What the mouse does with commands of one byte, and what it answers.
pub proof fn law_mouse_commands(m: MouseView)
    requires
        m.cur_cmd is None,
        m.buf.len() <= 11,
    ensures
        // Identify
        m.told(0xf2) == (MouseView { buf: m.buf + seq![0xfau8, 0x00], ..m }),
        // Reports are disabled, enabled, and made on request only
        m.told(0xf5) == (MouseView {
            status: PS2MStatus { enable: false, ..m.status },
            buf: m.buf + seq![0xfau8],
            ..m
        }),
        m.told(0xf4) == (MouseView {
            status: PS2MStatus { enable: true, ..m.status },
            buf: m.buf + seq![0xfau8],
            ..m
        }),
        m.told(0xf0) == (MouseView {
            status: PS2MStatus { remote: true, ..m.status },
            buf: m.buf + seq![0xfau8],
            ..m
        }),
        // Movements are reported as they are, or faster
        m.told(0xe7) == (MouseView {
            status: PS2MStatus { scale2: false, ..m.status },
            buf: m.buf + seq![0xfau8],
            ..m
        }),
        m.told(0xe6) == (MouseView {
            status: PS2MStatus { scale2: true, ..m.status },
            buf: m.buf + seq![0xfau8],
            ..m
        }),
        // A report without movement, and the status
        m.told(0xeb) == (MouseView { buf: m.buf + seq![0xfau8, 8, 0, 0], ..m }),
        m.told(0xe9) == (MouseView {
            buf: m.buf + seq![0xfau8, m.status.spec_bits(), m.resolution, m.sample_rate],
            ..m
        }),
{
    reveal(MouseView::told);
    lemma_room(m.buf, seq![0xfau8]);
    lemma_room(m.buf, seq![0xfau8, 0x00]);
    lemma_room(m.buf, seq![0xfau8, 8, 0, 0]);
    lemma_room(m.buf, seq![0xfau8, m.status.spec_bits(), m.resolution, m.sample_rate]);
}

/// The mouse keeps the rate of reports and the resolution that it is told, and
/// forgets both when it is reset.
pub proof fn law_mouse_settings(m: MouseView, v: u8)
    requires
        m.cur_cmd is None,
        m.buf.len() <= 11,
    ensures
        m.told(0xf3).told(v) == (MouseView { sample_rate: v, buf: m.buf + seq![0xfau8], ..m }),
        m.told(0xe8).told(v) == (MouseView { resolution: v, buf: m.buf + seq![0xfau8], ..m }),
        ({
            let r = m.told(0xff);
            &&& r.buf == seq![0xfau8, 0xaa, 0x00]
            &&& r.cur_cmd is None
            &&& r.status.spec_bits() == 0
            &&& r.resolution == 0
            &&& r.sample_rate == 10
        }),
{
    reveal(MouseView::told);
    law_mouse_status_bits(0);
    lemma_room(m.buf, seq![0xfau8]);
    lemma_room(Seq::empty(), seq![0xfau8, 0xaa, 0x00]);
    assert(Seq::empty() + seq![0xfau8, 0xaa, 0x00] =~= seq![0xfau8, 0xaa, 0x00]);
}

} // verus!
