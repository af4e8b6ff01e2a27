//! What a guest can rely on of ATA drives: at which ports their registers
//! stand, what the codes of commands do, and what a drive tells of itself.
use crate::common::{le16, le32, RWOp};
use crate::hw::ata::bits::{
    flag, is_weight, law_command_codes, law_flag_set_get, with_flag, AtaError, Commands,
};
use crate::hw::ata::controller::{channel_accessed, port_channel, ChannelSelect, ChannelView};
use crate::hw::ata::device::{AtaView, DataInOut, DeviceRegisters, Operations};
use crate::hw::ata::geometry::LogicalBlockAddress;
use crate::hw::ata::pci::ata_ports;
use crate::intr_pins::PinEvent;
use vstd::prelude::*;

verus! {

// ---------------------------------------------------------------------------
// Bits
// ---------------------------------------------------------------------------

/// The bits of a byte are those that its digits to the base 2 are.
pub proof fn law_bits_of_byte(v: u8)
    ensures
        flag(v, 0x80) <==> v >= 0x80,
        flag(v, 0x40) <==> v % 0x80 >= 0x40,
        flag(v, 0x20) <==> v % 0x40 >= 0x20,
        flag(v, 0x10) <==> v % 0x20 >= 0x10,
        flag(v, 0x08) <==> v % 0x10 >= 0x08,
        flag(v, 0x04) <==> v % 0x08 >= 0x04,
        flag(v, 0x02) <==> v % 0x04 >= 0x02,
        flag(v, 0x01) <==> v % 0x02 == 1,
{
    reveal(flag);
}

/// A byte with a bit set or cleared differs from the byte by the weight of the
/// bit, or not at all.
pub proof fn law_bit_changed(v: u8, w: int, on: bool)
    requires
        is_weight(w),
    ensures
        flag(v, w) == on ==> with_flag(v, w, on) == v,
        flag(v, w) && !on ==> with_flag(v, w, on) == v - w,
        !flag(v, w) && on ==> with_flag(v, w, on) == v + w,
        flag(with_flag(v, w, on), w) == on,
{
    law_flag_set_get(v, w, on, w);
    reveal(with_flag);
    reveal(flag);
    if w == 1 {
    } else if w == 2 {
    } else if w == 4 {
    } else if w == 8 {
    } else if w == 16 {
    } else if w == 32 {
    } else if w == 64 {
    } else {
    }
}

// ---------------------------------------------------------------------------
// Ports
// ---------------------------------------------------------------------------

/// The command blocks take eight ports at 0x1f0 and 0x170, the control blocks
/// two at 0x3f6 and 0x376.
pub proof fn law_ports()
    ensures
        ata_ports() == seq![(0x1f0u16, 8u16), (0x170, 8), (0x3f6, 2), (0x376, 2)],
        port_channel(0x1f0) == ChannelSelect::Primary,
        port_channel(0x3f6) == ChannelSelect::Primary,
        port_channel(0x170) == ChannelSelect::Secondary,
        port_channel(0x376) == ChannelSelect::Secondary,
{
}

/// A byte that is read from the command block tells of the drive that is
/// selected: at 1 the error, at 6 the device register, and at 7 the status.
/// Only the last answers an interrupt.
pub proof fn law_command_block_read(c: ChannelView, port: u16, rwo: RWOp, d: AtaView)
    requires
        c.wf(),
        c.device() == Some(d),
        port == 0x1f0 || port == 0x170,
        rwo is Read,
        1 <= rwo.spec_offset() <= 7,
        rwo.bytes().len() == 1,
    ensures
        ({
            let off = rwo.spec_offset();
            let (n, out) = channel_accessed(c, port, rwo);
            let r = d.registers;
            let hob = r.device_control.0 >= 0x80;
            &&& off == 1 ==> out == seq![r.error.0]
            &&& off == 2 ==> out == seq![
                if hob {
                    r.sector_count.previous
                } else {
                    r.sector_count.current
                },
            ]
            &&& off == 3 ==> out == seq![
                if hob {
                    r.lba_low.previous
                } else {
                    r.lba_low.current
                },
            ]
            &&& off == 4 ==> out == seq![
                if hob {
                    r.lba_mid.previous
                } else {
                    r.lba_mid.current
                },
            ]
            &&& off == 5 ==> out == seq![
                if hob {
                    r.lba_high.previous
                } else {
                    r.lba_high.current
                },
            ]
            &&& off == 6 ==> out == seq![r.device.0]
            &&& off == 7 ==> out == seq![r.status.0]
            &&& off < 7 ==> n == c
            &&& off == 7 ==> n.device() == Some(AtaView { irq: false, ..d })
            &&& n.selected == c.selected
            &&& n.devices[1 - c.selected] == c.devices[1 - c.selected]
        }),
{
    law_bits_of_byte(d.registers.device_control.0);
    assert(c.devices.update(c.selected, Some(d)) =~= c.devices);
}

/// A byte that is read from the control block is the status, and answers no
/// interrupt.
pub proof fn law_control_block_read(c: ChannelView, port: u16, rwo: RWOp, d: AtaView)
    requires
        c.wf(),
        c.device() == Some(d),
        port == 0x3f6 || port == 0x376,
        rwo is Read,
        rwo.spec_offset() == 0,
        rwo.bytes().len() == 1,
    ensures
        channel_accessed(c, port, rwo).0 == c,
        channel_accessed(c, port, rwo).1 == seq![d.registers.status.0],
{
    assert(c.devices.update(c.selected, Some(d)) =~= c.devices);
}

/// A place without a drive reads as 0x7f, and as 0x7f above zeros from the data
/// port.
pub proof fn law_missing_drive(c: ChannelView, port: u16, rwo: RWOp)
    requires
        c.wf(),
        c.device() is None,
        port == 0x1f0 || port == 0x170 || port == 0x3f6 || port == 0x376,
        rwo is Read,
        rwo.spec_offset() <= 7,
        rwo.bytes().len() == 1 || rwo.bytes().len() == 2 || rwo.bytes().len() == 4,
        rwo.bytes().len() == 1 <==> rwo.spec_offset() > 0 || port == 0x3f6 || port == 0x376,
    ensures
        ({
            let (n, out) = channel_accessed(c, port, rwo);
            &&& n == c
            &&& out.len() == rwo.bytes().len()
            &&& out[0] == 0x7f
            &&& forall|i: int| 1 <= i < out.len() ==> out[i] == 0
        }),
{
}

/// A write to the command block is taken by the drive that is selected: the
/// byte stands at its register, and at 2 to 5 the byte that stood there is kept
/// below it. The drive is told not to show the bytes that are kept.
pub proof fn law_command_block_written(c: ChannelView, port: u16, rwo: RWOp, d: AtaView)
    requires
        c.wf(),
        c.device() == Some(d),
        port == 0x1f0 || port == 0x170,
        rwo is Write,
        1 <= rwo.spec_offset() <= 5,
        rwo.bytes().len() == 1,
    ensures
        ({
            let (off, val) = (rwo.spec_offset(), rwo.bytes()[0]);
            let n = channel_accessed(c, port, rwo).0;
            let r = d.registers;
            let m = n.device()->0;
            let s = m.registers;
            &&& n.device() is Some
            &&& n.selected == c.selected
            &&& n.devices[1 - c.selected] == c.devices[1 - c.selected]
            &&& s.device_control.0 == r.device_control.0 % 0x80
            &&& if off == 1 {
                s.features.current == val && s.features.previous == r.features.current
            } else {
                s.features == r.features
            }
            &&& if off == 2 {
                s.sector_count.current == val && s.sector_count.previous == r.sector_count.current
            } else {
                s.sector_count == r.sector_count
            }
            &&& if off == 3 {
                s.lba_low.current == val && s.lba_low.previous == r.lba_low.current
            } else {
                s.lba_low == r.lba_low
            }
            &&& if off == 4 {
                s.lba_mid.current == val && s.lba_mid.previous == r.lba_mid.current
            } else {
                s.lba_mid == r.lba_mid
            }
            &&& if off == 5 {
                s.lba_high.current == val && s.lba_high.previous == r.lba_high.current
            } else {
                s.lba_high == r.lba_high
            }
            &&& s.device == r.device
            &&& s.status == r.status
            &&& s.error == r.error
            &&& m.irq == d.irq
            &&& m.operation == d.operation
            &&& m.sector == d.sector
            &&& m.capacity == d.capacity
            &&& m.active_geometry == d.active_geometry
        }),
{
    law_bits_of_byte(d.registers.device_control.0);
    law_bit_changed(d.registers.device_control.0, 0x80, false);
}

/// A write at 6 selects a drive by bit 4, and is taken by that drive.
pub proof fn law_drive_selected(c: ChannelView, port: u16, rwo: RWOp)
    requires
        c.wf(),
        port == 0x1f0 || port == 0x170,
        rwo is Write,
        rwo.spec_offset() == 6,
        rwo.bytes().len() == 1,
    ensures
        ({
            let val = rwo.bytes()[0];
            let n = channel_accessed(c, port, rwo).0;
            let id: int = if val % 0x20 >= 0x10 {
                1
            } else {
                0
            };
            &&& n.selected == id
            &&& n.devices[1 - id] == c.devices[1 - id]
            &&& n.devices[id] is Some <==> c.devices[id] is Some
            &&& c.devices[id] is Some ==> {
                &&& n.devices[id]->0.registers.device.0 == val
                &&& n.devices[id]->0.registers.status == c.devices[id]->0.registers.status
                &&& n.devices[id]->0.registers.lba_low == c.devices[id]->0.registers.lba_low
            }
        }),
{
    law_bits_of_byte(rwo.bytes()[0]);
}

/// A write to the control block with bit 2 set makes the drives of the channel
/// busy. One with the bit cleared, after that, has them pass their self-test.
pub proof fn law_channel_reset(c: ChannelView, port: u16, first: RWOp, second: RWOp, i: int)
    requires
        c.wf(),
        port == 0x3f6 || port == 0x376,
        first is Write,
        first.spec_offset() == 0,
        first.bytes().len() == 1,
        first.bytes()[0] % 8 >= 4,
        second is Write,
        second.spec_offset() == 0,
        second.bytes().len() == 1,
        second.bytes()[0] % 8 < 4,
        0 <= i < 2,
        c.devices[i] is Some,
    ensures
        ({
            let n = channel_accessed(c, port, first).0;
            let m = channel_accessed(n, port, second).0;
            &&& n.devices[i] is Some
            &&& n.devices[i]->0.registers.status.0 >= 0x80
            &&& m.devices[i] is Some
            &&& m.devices[i]->0.registers.status.0 == 0x50
            &&& m.devices[i]->0.registers.error.0 == 1
            &&& m.devices[i]->0.registers.sector_count.current == 1
            &&& m.devices[i]->0.registers.lba_low.current == 1
            &&& m.devices[i]->0.registers.lba_mid.current == 0
            &&& m.devices[i]->0.registers.lba_high.current == 0
            &&& m.selected == c.selected
        }),
{
    let (a, b) = (first.bytes()[0], second.bytes()[0]);
    let d = c.devices[i]->0;
    law_bits_of_byte(a);
    law_bits_of_byte(b);
    law_bit_changed(d.registers.status.0, 0x80, true);
    law_bits_of_byte(with_flag(d.registers.status.0, 0x80, true));
    law_bit_changed(d.registers.device_control.0, 0x04, true);
}

/// The line of a channel is raised exactly while the drive that is selected has
/// an interrupt and bit 1 of its control register is clear.
pub proof fn law_channel_line(c: ChannelView, line: u32)
    requires
        c.wf(),
        c.pin == Some(line),
    ensures
        c.line_events() == seq![
            if c.device() is Some && c.device()->0.irq
                && c.device()->0.registers.device_control.0 % 4 < 2 {
                PinEvent::Assert(line)
            } else {
                PinEvent::Deassert(line)
            },
        ],
{
    if c.device() is Some {
        law_bits_of_byte(c.device()->0.registers.device_control.0);
    }
}

/// The bytes of one word, and of two words.
proof fn lemma_word_bytes(low: u16, high: u16)
    ensures
        le16(low).len() == 2,
        le16(low)[0] + 0x100 * le16(low)[1] == low,
        ({
            let b = le32((low + 0x1_0000 * high) as u32);
            &&& b.len() == 4
            &&& b[0] + 0x100 * b[1] == low
            &&& b[2] + 0x100 * b[3] == high
        }),
{
    let v = (low + 0x1_0000 * high) as u32;
    assert(v % 0x1_0000 == low);
    assert(v / 0x1_0000 == high);
}

/// A read of four bytes from the data port gives two words of the sector, the
/// first one first, each with its lower byte first.
#[verifier::rlimit(40)]
pub proof fn law_data_port(c: ChannelView, port: u16, rwo: RWOp, d: AtaView, k: usize)
    requires
        c.wf(),
        c.device() == Some(d),
        port == 0x1f0 || port == 0x170,
        rwo is Read,
        rwo.spec_offset() == 0,
        rwo.bytes().len() == 4 || rwo.bytes().len() == 2,
        d.registers.status.0 % 0x10 >= 0x08,
        d.operation == Some(
            Operations::DataIn(
                DataInOut { sector_address: 0, sector_ptr: k, sectors_remaining: 0 },
            ),
        ),
        k < 255,
    ensures
        ({
            let (n, out) = channel_accessed(c, port, rwo);
            &&& out.len() == rwo.bytes().len()
            &&& out[0] + 0x100 * out[1] == d.sector[k as int]
            &&& out.len() == 4 ==> out[2] + 0x100 * out[3] == d.sector[k + 1]
            &&& n.device() is Some
            &&& n.device()->0.sector == d.sector
            &&& n.device()->0.has_data() <==> k + out.len() / 2 < 256
        }),
{
    law_bits_of_byte(d.registers.status.0);
    law_bit_changed(d.registers.status.0, 0x08, false);
    lemma_word_bytes(d.sector[k as int], d.sector[k + 1]);
}

// ---------------------------------------------------------------------------
// Commands
// ---------------------------------------------------------------------------

/// The command with a code is the one that is carried out.
proof fn lemma_command_of_code(v: AtaView, c: Commands)
    ensures
        v.commanded(c.spec_code()) == match v.executed(c) {
            Ok(w) => (w, Ok(())),
            Err(e) => (v.aborted(), Err(e)),
        },
{
    let code = c.spec_code();
    assert(c.spec_code() == code);
    assert forall|x: Commands| #[trigger] x.spec_code() == code implies x == c by {
        law_command_codes(x, c);
    }
}

/// What a drive tells at the end of a command that it has carried out: it is
/// ready, it is not busy, there is data exactly where there is, and it
/// interrupts the host. What else its status tells stays.
pub proof fn law_end_of_command(v: AtaView, data: bool)
    ensures
        ({
            let n = v.completed(data);
            let (a, b) = (v.registers.status.0, n.registers.status.0);
            &&& b < 0x80
            &&& b % 0x80 >= 0x40
            &&& b % 0x10 >= 0x08 <==> data
            &&& b % 2 == 1 <==> v.registers.error.0 != 0
            &&& forall|w: int|
                w == 0x20 || w == 0x10 || w == 4 || w == 2 ==> #[trigger] flag(b, w) == flag(a, w)
            &&& n.irq
            &&& n.sector == v.sector
            &&& n.registers.error == v.registers.error
            &&& !data ==> n.operation == v.operation
            &&& data ==> n.operation == Some(
                Operations::DataIn(
                    DataInOut { sector_address: 0, sector_ptr: 0, sectors_remaining: 0 },
                ),
            )
        }),
{
    let s0 = v.registers.status.0;
    let s1 = with_flag(s0, 0x80, false);
    let s2 = with_flag(s1, 0x40, true);
    let s3 = with_flag(s2, 0x08, data);
    let s4 = with_flag(s3, 0x01, v.registers.error.0 != 0);
    let err = v.registers.error.0 != 0;
    assert forall|w: int| w == 0x20 || w == 0x10 || w == 4 || w == 2 implies #[trigger] flag(s4, w)
        == flag(s0, w) by {
        law_flag_set_get(s0, 0x80, false, w);
        law_flag_set_get(s1, 0x40, true, w);
        law_flag_set_get(s2, 0x08, data, w);
        law_flag_set_get(s3, 0x01, err, w);
    }
    law_flag_set_get(s0, 0x80, false, 0x80);
    law_flag_set_get(s1, 0x40, true, 0x40);
    law_flag_set_get(s1, 0x40, true, 0x80);
    law_flag_set_get(s2, 0x08, data, 0x08);
    law_flag_set_get(s2, 0x08, data, 0x40);
    law_flag_set_get(s2, 0x08, data, 0x80);
    law_flag_set_get(s3, 0x01, err, 0x01);
    law_flag_set_get(s3, 0x01, err, 0x08);
    law_flag_set_get(s3, 0x01, err, 0x40);
    law_flag_set_get(s3, 0x01, err, 0x80);
    law_bits_of_byte(s4);
}

/// The commands that leave the drive as it is, but for what tells of their end:
/// 0x10 and 0xc6, and 0x20, which has the sector of the drive read.
pub proof fn law_plain_commands(v: AtaView, code: u8)
    requires
        0x40 <= v.registers.status.0 < 0x80,
        code == 0x10 || code == 0xc6 || code == 0x20,
    ensures
        v.commanded(code) == (v.completed(code == 0x20), Ok::<(), AtaError>(())),
{
    law_bits_of_byte(v.registers.status.0);
    lemma_command_of_code(v, Commands::Recalibrate);
    lemma_command_of_code(v, Commands::SetMultipleMode);
    lemma_command_of_code(v, Commands::ReadSectors);
}

/// Code 0xec has the drive describe itself in the sector that is then read.
pub proof fn law_identify_command(v: AtaView)
    requires
        0x40 <= v.registers.status.0 < 0x80,
    ensures
        v.commanded(0xec).1 is Ok,
        v.commanded(0xec).0 == (AtaView { sector: v.identity(), ..v }).completed(true),
{
    law_bits_of_byte(v.registers.status.0);
    lemma_command_of_code(v, Commands::IdenfityDevice);
}

/// Code 0x91 arranges the sectors anew: as many of them on a track as the
/// sector count tells, and one head more than the lower half of the device
/// register. There are then as many whole cylinders as the sectors that can be
/// addressed fill, unless the number of them has more than 16 bits.
pub proof fn law_initialize_command(v: AtaView)
    requires
        0x40 <= v.registers.status.0 < 0x80,
        v.registers.sector_count.current > 0,
    ensures
        ({
            let (n, r) = v.commanded(0x91);
            let g = n.active_geometry;
            let per = g.heads * g.sectors;
            let all = v.capacity.0 % 0x1000_0000;
            let usable: int = if all < 16514064 {
                all as int
            } else {
                16514064
            };
            &&& r is Ok
            &&& g.sectors == v.registers.sector_count.current
            &&& g.heads == v.registers.device.0 % 16 + 1
            &&& per > 0
            &&& usable / per < 0x1_0000 ==> g.cylinders * per <= usable < (g.cylinders + 1) * per
            &&& n.default_geometry == v.default_geometry
            &&& n.capacity == v.capacity
        }),
{
    law_bits_of_byte(v.registers.status.0);
    lemma_command_of_code(v, Commands::InitializeDeviceParameters);
    let g = v.asked_geometry();
    let all = v.capacity.0 % 0x1000_0000;
    let usable: int = if all < 16514064 {
        all as int
    } else {
        16514064
    };
    let per = g.sectors * g.heads;
    assert(per > 0) by (nonlinear_arith)
        requires
            per == g.sectors * g.heads,
            g.sectors > 0,
            g.heads > 0,
    ;
    assert(per == g.heads * g.sectors) by (nonlinear_arith)
        requires
            per == g.sectors * g.heads,
    ;
    assert(0 <= usable / per && (usable / per) * per <= usable < (usable / per + 1) * per)
        by (nonlinear_arith)
        requires
            per > 0,
            usable >= 0,
    ;
    if usable / per < 0x1_0000 {
        assert(g.cylinders == usable / per);
    }
}

/// Code 0xef with 3 in the feature register sets a mode of transfer by the
/// sector count: 8 to 15 those of programmed transfers, 0 and 1 the first of
/// them, 0x40 to 0x47 those of direct transfers. There are no others, and no
/// other features.
pub proof fn law_features_command(v: AtaView)
    requires
        0x40 <= v.registers.status.0 < 0x80,
    ensures
        ({
            let (n, r) = v.commanded(0xef);
            let (feature, count) = (v.registers.features.current, v.registers.sector_count.current);
            if feature != 3 {
                r == Err::<(), AtaError>(AtaError::FeatureNotSupported(feature))
            } else if count == 0 || count == 1 {
                r is Ok && n.pio_mode == 0 && n.dma_mode == v.dma_mode
            } else if 8 <= count <= 15 {
                r is Ok && n.pio_mode == count - 8 && n.dma_mode == v.dma_mode
            } else if 0x40 <= count <= 0x47 {
                r is Ok && n.dma_mode == count - 0x40 && n.pio_mode == v.pio_mode
            } else {
                r == Err::<(), AtaError>(
                    AtaError::TransferModeNotSupported(count / 8, count % 8),
                )
            }
        }),
{
    law_bits_of_byte(v.registers.status.0);
    lemma_command_of_code(v, Commands::SetFeatures);
}

/// What the registers of a drive hold when the power comes on: it is ready, and
/// the others tell that it is a disk.
pub proof fn law_drive_at_power_on()
    ensures
        ({
            let r = DeviceRegisters::spec_default_ata();
            &&& r.status.0 == 0x40
            &&& r.error.0 == 0
            &&& r.device.0 == 0
            &&& r.device_control.0 == 0
            &&& r.features.current == 0
            &&& r.sector_count.current == 1
            &&& r.lba_low.current == 1
            &&& r.lba_mid.current == 0
            &&& r.lba_high.current == 0
        }),
{
}

/// Code 0x90 has the drive pass its self-test, busy or not: the error register
/// holds 1, the status 0x50, and the others tell that the drive is a disk.
pub proof fn law_diagnostics_command(v: AtaView)
    ensures
        ({
            let (n, r) = v.commanded(0x90);
            &&& r is Ok
            &&& n.registers.error.0 == 1
            &&& n.registers.status.0 == 0x50
            &&& n.registers.sector_count.current == 1
            &&& n.registers.lba_low.current == 1
            &&& n.registers.lba_mid.current == 0
            &&& n.registers.lba_high.current == 0
            &&& n.registers.device.0 == 0
            &&& n.registers.device_control == v.registers.device_control
            &&& n.irq == v.irq
            &&& n.sector == v.sector
        }),
{
    lemma_command_of_code(v, Commands::ExecuteDeviceDiagnostics);
}

/// Whether a drive carries out a code at all.
pub open spec fn known(code: u8) -> bool {
    code == 0x10 || code == 0x20 || code == 0x90 || code == 0x91 || code == 0xc6 || code == 0xec
        || code == 0xef
}

/// Other codes, and codes for a drive that is busy or not ready, change nothing
/// but bit 2 of the error and bit 0 of the status, which are set.
pub proof fn law_refused_commands(v: AtaView, code: u8)
    requires
        !known(code) || code != 0x90 && !(0x40 <= v.registers.status.0 < 0x80),
    ensures
        ({
            let (n, r) = v.commanded(code);
            &&& r is Err
            &&& n.registers.error.0 % 8 >= 4
            &&& n.registers.status.0 % 2 == 1
            &&& n == (AtaView {
                registers: DeviceRegisters {
                    error: n.registers.error,
                    status: n.registers.status,
                    ..v.registers
                },
                ..v
            })
            &&& n.registers.status.0 - n.registers.status.0 % 2 == v.registers.status.0
                - v.registers.status.0 % 2
            &&& known(code) && v.registers.status.0 >= 0x80 ==> r == Err::<(), AtaError>(
                AtaError::DeviceBusy,
            )
            &&& known(code) && v.registers.status.0 < 0x40 ==> r == Err::<(), AtaError>(
                AtaError::DeviceNotReady,
            )
        }),
{
    law_bits_of_byte(v.registers.status.0);
    law_bit_changed(v.registers.error.0, 0x04, true);
    law_bit_changed(v.registers.status.0, 0x01, true);
    law_bits_of_byte(with_flag(v.registers.error.0, 0x04, true));
    law_bits_of_byte(with_flag(v.registers.status.0, 0x01, true));
    assert(Commands::Recalibrate.spec_code() == 0x10);
    assert(Commands::ReadSectors.spec_code() == 0x20);
    assert(Commands::ExecuteDeviceDiagnostics.spec_code() == 0x90);
    assert(Commands::InitializeDeviceParameters.spec_code() == 0x91);
    assert(Commands::SetMultipleMode.spec_code() == 0xc6);
    assert(Commands::IdenfityDevice.spec_code() == 0xec);
    assert(Commands::SetFeatures.spec_code() == 0xef);
    if exists|c: Commands| #[trigger] c.spec_code() == code {
        let c = choose|c: Commands| #[trigger] c.spec_code() == code;
        lemma_command_of_code(v, c);
    }
}

/// The sector that a drive is asked for: by the number in the three registers
/// and the lower half of the device register, lowest first, where bit 6 of that
/// is set.
pub proof fn law_sector_asked_by_number(v: AtaView)
    requires
        v.registers.device.0 % 0x80 >= 0x40,
    ensures
        ({
            let r = v.registers;
            v.seek_address() == Some(
                LogicalBlockAddress(
                    (r.lba_low.current + 256 * (r.lba_mid.current + 256 * (r.lba_high.current + 256
                        * (r.device.0 % 16)))) as u64,
                ),
            )
        }),
{
    law_bits_of_byte(v.registers.device.0);
}

/// The sector that a drive is asked for by its place: going one sector on goes
/// to the next number, going one head on skips as many as a track has, and the
/// first place is number 0.
pub proof fn law_sector_asked_by_place(v: AtaView, w: AtaView)
    requires
        v.registers.device.0 % 0x80 < 0x40,
        w.registers.device.0 % 0x80 < 0x40,
        w.active_geometry == v.active_geometry,
        w.registers.lba_mid == v.registers.lba_mid,
        w.registers.lba_high == v.registers.lba_high,
        v.seek_address() is Some,
    ensures
        ({
            let (r, s) = (v.registers, w.registers);
            let g = v.active_geometry;
            let at = v.seek_address()->0;
            &&& s.lba_low.current == r.lba_low.current + 1 && s.device == r.device ==> (w.seek_address()
                matches Some(a) && a.0 == at.0 + 1)
            &&& s.lba_low == r.lba_low && s.device.0 % 16 == r.device.0 % 16 + 1 ==> (
            w.seek_address() matches Some(a) && a.0 == at.0 + g.sectors)
            &&& r.lba_low.current == 1 && r.lba_mid.current == 0 && r.lba_high.current == 0
                && r.device.0 % 16 == 0 ==> at.0 == 0
        }),
{
    law_bits_of_byte(v.registers.device.0);
    law_bits_of_byte(w.registers.device.0);
    let (r, s) = (v.registers, w.registers);
    let g = v.active_geometry;
    let cyl = 0x100 * r.lba_mid.current + r.lba_high.current;
    let (a, b) = (r.device.0 % 16, s.device.0 % 16);
    let t = cyl * g.heads;
    assert(0 <= t <= 0xffff * 255) by (nonlinear_arith)
        requires
            t == cyl * g.heads,
            0 <= cyl <= 0xffff,
            g.heads <= 255,
    ;
    assert(0 <= (t + a) * g.sectors <= 0x100_0000 * 255) by (nonlinear_arith)
        requires
            0 <= t <= 0xffff * 255,
            a < 16,
            g.sectors <= 255,
    ;
    assert(0 <= (t + b) * g.sectors <= 0x100_0000 * 255) by (nonlinear_arith)
        requires
            0 <= t <= 0xffff * 255,
            b < 16,
            g.sectors <= 255,
    ;
    assert((t + (a + 1)) * g.sectors == (t + a) * g.sectors + g.sectors) by (nonlinear_arith);
    if cyl == 0 && a == 0 {
        assert((t + a) * g.sectors == 0) by (nonlinear_arith)
            requires
                t == cyl * g.heads,
                cyl == 0,
                a == 0,
        ;
    }
}

// ---------------------------------------------------------------------------
// What a drive tells of itself
// ---------------------------------------------------------------------------

/// The words in which a drive tells of its arrangements and modes.
pub proof fn law_identity_arrangement(v: AtaView)
    requires
        v.pio_mode < 8,
    ensures
        ({
            let w = v.identity();
            let (d, a) = (v.default_geometry, v.active_geometry);
            &&& w.len() == 256
            &&& w[1] == d.cylinders
            &&& w[3] == d.heads
            &&& w[6] == d.sectors
            &&& w[54] == a.cylinders
            &&& w[55] == a.heads
            &&& w[56] == a.sectors
            &&& w[57] + 0x1_0000 * w[58] == (a.cylinders * a.heads * a.sectors) % 0x1000_0000
            &&& w[60] + 0x1_0000 * w[61] == v.capacity.0 % 0x1000_0000
            &&& w[100] + 0x1_0000 * w[101] + 0x1_0000_0000 * w[102] == v.capacity.0
                % 0x1_0000_0000_0000
            &&& w[51] == v.pio_mode * 0x100
            &&& w[93] == if v.id == 0 {
                0x4107u16
            } else {
                0x4701u16
            }
        }),
{
    crate::hw::ata::geometry::law_sectors_in_parts(v.capacity);
    let a = v.active_geometry;
    assert(0 <= a.cylinders * a.heads * a.sectors <= 0xffff * 0xff * 0xff) by (nonlinear_arith)
        requires
            a.cylinders <= 0xffff,
            a.heads <= 0xff,
            a.sectors <= 0xff,
    ;
    crate::hw::ata::geometry::law_sectors_in_parts(a.spec_capacity());
}

/// The words that are the same for all drives.
pub proof fn law_identity_fixed(v: AtaView)
    ensures
        ({
            let w = v.identity();
            &&& w[0] == 0
            &&& w[2] == 0x8c73
            &&& w[47] == 0x8001
            &&& w[49] == 0x0200
            &&& w[50] == 0x4000
            &&& w[53] == 6
            &&& w[59] == 1
            &&& w[64] == 3
            &&& w[80] == 0x30
            &&& w[82] == 0x4000
            &&& w[87] == 0x4000
        }),
{
}

/// The names of a drive, two characters a word, the first of them above: the
/// serial number at 10, the revision at 23, and the model at 27, filled up with
/// spaces.
pub proof fn law_identity_names(v: AtaView)
    ensures
        ({
            let w = v.identity();
            &&& w[10] == 0x3031
            &&& w[11] == 0x3233
            &&& w[12] == 0x3435
            &&& w[13] == 0x3637
            &&& w[14] == 0x3839
            &&& forall|i: int| 15 <= i < 20 ==> w[i] == 0x2020
            &&& w[23] == 0x7631
            &&& forall|i: int| 24 <= i < 26 ==> w[i] == 0x2020
            &&& w[27] == 0x5072
            &&& w[28] == 0x6f70
            &&& w[29] == 0x6f6c
            &&& w[30] == 0x6973
            &&& w[31] == 0x2041
            &&& w[32] == 0x5441
            &&& w[33] == 0x2d76
            &&& w[34] == 0x3120
            &&& forall|i: int| 35 <= i < 46 ==> w[i] == 0x2020
        }),
{
}

} // verus!
