//! What a guest can rely on of the chipset: which functions there are, where
//! their registers stand, and where interrupts go.
use crate::common::{law_le16_round_trip, le16, le32};
use crate::hw::chipset::i440fx::{
    cfg_step, hb_device, hb_model, lintr_of, lpc_model, on_bus0, pm_model, with_chipset, ChipView,
};
use crate::hw::chipset::irq::{pic_line, LNKPin};
use crate::hw::chipset::lpc::{lpc_device, pirs_written, LpcModel, Piix3Lpc};
use crate::hw::chipset::piix3_ide::ide_device;
use crate::hw::chipset::pm::{
    pm_cfg_table, pm_device, pm_reg_table, PMRegs, Piix3PM, PmCfg, PmCfgLayout, PmModel, PmReg,
    PmRegLayout,
};
use crate::hw::pci::bus::{BusView, Endpoint};
use crate::hw::pci::cfgspace::{region_at, CfgReg};
use crate::hw::pci::device::{
    CfgLayout, DevModel, DevView, DeviceState, Ident, StdCfgLayout, StdCfgReg,
};
use crate::hw::pci::laws::{header_span, law_header_found, law_header_tells};
use crate::hw::pci::topology::RoutedBusId;
use crate::hw::pci::{Bdf, BusLocation, INTxPinID};
use crate::intr_pins::PinEvent;
use crate::regmap::{
    law_register_part, law_whole_register, space_read, space_write, table_find, RegSpan,
};
use vstd::prelude::*;

verus! {

// ---------------------------------------------------------------------------
// Functions
// ---------------------------------------------------------------------------

/// What the functions of the chipset are: all of them Intel's, in a subsystem
/// of Oxide's.
pub proof fn law_chip_identities()
    ensures
        hb_device().ident == (Ident {
            vendor_id: 0x8086,
            device_id: 0x1237,
            class: 6,
            subclass: 0,
            prog_if: 0,
            revision_id: 0,
            sub_vendor_id: 0x1de,
            sub_device_id: 0xfffe,
        }),
        lpc_device().ident == (Ident {
            vendor_id: 0x8086,
            device_id: 0x7000,
            class: 6,
            subclass: 1,
            prog_if: 0,
            revision_id: 0,
            sub_vendor_id: 0x1de,
            sub_device_id: 0xfffd,
        }),
        pm_device().ident == (Ident {
            vendor_id: 0x8086,
            device_id: 0x7113,
            class: 6,
            subclass: 0x80,
            prog_if: 0,
            revision_id: 3,
            sub_vendor_id: 0x1de,
            sub_device_id: 0xfffc,
        }),
        ide_device().ident == (Ident {
            vendor_id: 0x8086,
            device_id: 0x7010,
            class: 1,
            subclass: 1,
            prog_if: 0,
            revision_id: 0,
            sub_vendor_id: 0x1de,
            sub_device_id: 0xfff9,
        }),
{
}

/// What stands in the configuration space of a function besides its header, and
/// how it is when the power comes on: nothing is enabled, the interrupt line is
/// 0xff, and no BAR has an address.
pub proof fn law_chip_at_power_on(d: DevView)
    requires
        d == hb_device() || d == lpc_device() || d == pm_device() || d == ide_device(),
    ensures
        d.reg_command.spec_bits() == 0,
        d.reg_intr_line == 0xff,
        d.msix is None,
        d.attach is None,
        d.bars.len() == 6,
        forall|i: int| 0 <= i < 6 ==> (#[trigger] d.bars[i]).value == 0,
        d.lintr_support <==> d == pm_device(),
        forall|off: int|
            0 <= off < 0x40 ==> region_at(d.regions, 0, off) == Some(
                RegSpan { id: CfgReg::Std, start: 0, len: 0x40, passthru: true },
            ),
{
    assert(lpc_device().regions[0] != lpc_device().regions[1]);
    reveal_with_fuel(region_at, 2);
}

/// The host bridge is at 0.0, the bridge to the low pin count bus at 1.0, and
/// the power management at 1.3, whatever else is on the bus.
pub proof fn law_chip_places(b: BusView)
    requires
        b.wf(),
    ensures
        ({
            let n = with_chipset(b);
            &&& n.at(on_bus0(0, 0)) == Some(Endpoint::Device(0))
            &&& n.at(on_bus0(1, 0)) == Some(Endpoint::Device(1))
            &&& n.at(on_bus0(1, 3)) == Some(Endpoint::Device(2))
            &&& forall|loc: BusLocation|
                #![trigger n.at(loc)]
                loc.wf() && loc != on_bus0(0, 0) && loc != on_bus0(1, 0) && loc != on_bus0(1, 3)
                    ==> n.at(loc) == b.at(loc)
        }),
{
}

/// The pins of functions, and the lines that they drive: functions 0 to 3 of a
/// device have pins B, C, D and A, and those of 0.0 drive the lines 16 to 19 of
/// the chipset in that order. Each further device starts one line on.
pub proof fn law_chip_lines(loc: BusLocation)
    requires
        loc.wf(),
    ensures
        ({
            let f = loc.func % 4;
            lintr_of(loc).id == if f == 0 {
                INTxPinID::IntB
            } else if f == 1 {
                INTxPinID::IntC
            } else if f == 2 {
                INTxPinID::IntD
            } else {
                INTxPinID::IntA
            }
        }),
        lintr_of(loc).line == 16 + (loc.dev + loc.func) % 4,
{
}

/// An access to the configuration space of a function that does not exist reads
/// as all ones, and a write there does nothing.
pub proof fn law_nothing_there(v: ChipView, bdf: Bdf, off: int, data: Seq<u8>)
    requires
        v.topo.target(RoutedBusId(bdf.bus.0), bdf.location) is None,
    ensures
        ({
            let got = cfg_step(v, bdf, off, data, false);
            let put = cfg_step(v, bdf, off, data, true);
            &&& got.v == v && put.v == v
            &&& got.data == Seq::new(data.len(), |i: int| 0xffu8)
            &&& got.events.len() == 0 && put.events.len() == 0
            &&& got.pins.len() == 0 && put.pins.len() == 0
            &&& got.device is None && put.device is None
        }),
{
}

/// The functions of the chipset answer for themselves: each tells its own
/// device identifier, and the interrupt line that is set for it.
#[verifier::rlimit(40)]
pub proof fn law_chip_answers(v: ChipView, bdf: Bdf)
    requires
        v.hb.regions == hb_device().regions,
        v.lpc.dev.regions == lpc_device().regions,
        v.pm.dev.regions == pm_device().regions,
    ensures
        ({
            let there = v.topo.target(RoutedBusId(bdf.bus.0), bdf.location);
            let id = cfg_step(v, bdf, 2, le16(0), false).data;
            let set = |n: u8| cfg_step(v, bdf, 0x3c, seq![n], true).v;
            &&& there == Some(Endpoint::Device(0)) ==> {
                &&& id == le16(v.hb.ident.device_id)
                &&& forall|n: u8| (#[trigger] set(n)).hb == (DevView { reg_intr_line: n, ..v.hb })
                    && set(n).lpc == v.lpc && set(n).pm == v.pm
            }
            &&& there == Some(Endpoint::Device(1)) ==> {
                &&& id == le16(v.lpc.dev.ident.device_id)
                &&& forall|n: u8|
                    (#[trigger] set(n)).lpc.dev == (DevView { reg_intr_line: n, ..v.lpc.dev })
                        && set(n).hb == v.hb && set(n).pm == v.pm
            }
            &&& there == Some(Endpoint::Device(2)) ==> {
                &&& id == le16(v.pm.dev.ident.device_id)
                &&& forall|n: u8|
                    (#[trigger] set(n)).pm.dev == (DevView { reg_intr_line: n, ..v.pm.dev })
                        && set(n).hb == v.hb && set(n).lpc == v.lpc
            }
        }),
{
    lemma_device_tells(hb_model(v));
    lemma_device_tells(lpc_model(v).dev);
    lemma_device_tells(pm_model(v).dev);
    let s = RegSpan { id: CfgReg::Std, start: 0, len: 0x40, passthru: true };
    reveal_with_fuel(region_at, 2);
    assert(region_at(v.hb.regions, 0, 2) == Some(s) && region_at(v.hb.regions, 0, 0x3c) == Some(s));
    assert(region_at(v.lpc.dev.regions, 0, 2) == Some(s) && region_at(v.lpc.dev.regions, 0, 0x3c)
        == Some(s));
    assert(region_at(v.pm.dev.regions, 0, 2) == Some(s) && region_at(v.pm.dev.regions, 0, 0x3c)
        == Some(s));
    law_register_part::<CfgLayout, DeviceState>(hb_model(v), s, 2, le16(0), le16(0));
    law_register_part::<CfgLayout, Piix3Lpc>(lpc_model(v), s, 2, le16(0), le16(0));
    law_register_part::<CfgLayout, Piix3PM>(pm_model(v), s, 2, le16(0), le16(0));
    assert forall|n: u8| true implies {
        &&& #[trigger] space_write::<CfgLayout, DeviceState>(hb_model(v), 0x3c, seq![n])
            == space_write::<StdCfgLayout, DeviceState>(hb_model(v), 0x3c, seq![n])
        &&& space_write::<CfgLayout, Piix3Lpc>(lpc_model(v), 0x3c, seq![n]) == (LpcModel {
            dev: space_write::<StdCfgLayout, DeviceState>(lpc_model(v).dev, 0x3c, seq![n]),
            ..lpc_model(v)
        })
        &&& space_write::<CfgLayout, Piix3PM>(pm_model(v), 0x3c, seq![n]) == (PmModel {
            dev: space_write::<StdCfgLayout, DeviceState>(pm_model(v).dev, 0x3c, seq![n]),
            ..pm_model(v)
        })
    } by {
        law_register_part::<CfgLayout, DeviceState>(hb_model(v), s, 0x3c, seq![n], seq![n]);
        law_register_part::<CfgLayout, Piix3Lpc>(lpc_model(v), s, 0x3c, seq![n], seq![n]);
        law_register_part::<CfgLayout, Piix3PM>(pm_model(v), s, 0x3c, seq![n], seq![n]);
    }
}

/// A device tells its identifier at 2, and keeps its interrupt line at 0x3c.
proof fn lemma_device_tells(m: DevModel)
    ensures
        space_read::<StdCfgLayout, DeviceState>(m, 2, le16(0)) == le16(m.dev.ident.device_id),
        forall|n: u8|
            (#[trigger] space_write::<StdCfgLayout, DeviceState>(m, 0x3c, seq![n])).dev
                == (DevView { reg_intr_line: n, ..m.dev }),
{
    law_header_tells(m, seq![0u8], le16(0));
    assert forall|n: u8| true implies (#[trigger] space_write::<StdCfgLayout, DeviceState>(
        m,
        0x3c,
        seq![n],
    )).dev == (DevView { reg_intr_line: n, ..m.dev }) by {
        law_header_found();
        let s = header_span(StdCfgReg::IntrLine, 0x3c, 1);
        law_whole_register::<StdCfgLayout, DeviceState>(m, s, seq![n], seq![n]);
    }
}

// ---------------------------------------------------------------------------
// Routing
// ---------------------------------------------------------------------------

/// Whether the interrupt controller takes an interrupt of the chipset as that
/// number.
pub open spec fn routable(irq: int) -> bool {
    irq == 3 || irq == 4 || irq == 5 || irq == 6 || irq == 7 || irq == 9 || irq == 10 || irq == 11
        || irq == 12 || irq == 14 || irq == 15
}

/// A line passes on what happens to it to the interrupt that it leads to, if it
/// leads to one, and knows whether it is raised.
pub proof fn law_line_passes(p: LNKPin, n: u32, led: u32)
    ensures
        p.changed(PinEvent::Assert(n)) == (LNKPin { asserted: true, pin: p.pin }),
        p.changed(PinEvent::Deassert(n)) == (LNKPin { asserted: false, pin: p.pin }),
        p.changed(PinEvent::Pulse(n)) == p,
        p.pin is None ==> p.change_events(PinEvent::Assert(n)).len() == 0 && p.change_events(
            PinEvent::Deassert(n),
        ).len() == 0 && p.change_events(PinEvent::Pulse(n)).len() == 0,
        p.pin == Some(led) ==> p.change_events(PinEvent::Assert(n)) == seq![PinEvent::Assert(led)]
            && p.change_events(PinEvent::Deassert(n)) == seq![PinEvent::Deassert(led)]
            && p.change_events(PinEvent::Pulse(n)) == seq![PinEvent::Pulse(led)],
{
}

/// The interrupt controller has lines 0 to 15 but for 2.
pub proof fn law_controller_lines(irq: u8)
    ensures
        pic_line(irq) == if irq < 16 && irq != 2 {
            Some(irq as u32)
        } else {
            None
        },
{
}

/// The four routing registers stand at 0x60 of the configuration space, a byte
/// each, and read as they were written. A line then leads to the interrupt
/// whose number is the lower half of the byte, if bit 7 is clear and it is one
/// that can be had, and else nowhere. The other lines are as they were, and a
/// line that is raised stays raised.
pub proof fn law_routing_registers(m: LpcModel, k: int, val: u8, buf: Seq<u8>)
    requires
        m.dev.dev.regions == lpc_device().regions,
        m.pir.len() == 4,
        m.irq.lnk.len() == 4,
        0 <= k < 4,
        buf.len() == 1,
        m.pir[k] != val,
    ensures
        ({
            let n = space_write::<CfgLayout, Piix3Lpc>(m, 0x60 + k, seq![val]);
            let (before, after) = (m.irq.lnk[k], n.irq.lnk[k]);
            let led = if val < 0x80 && routable(val as int % 16) {
                Some((val % 16) as u32)
            } else {
                None
            };
            &&& space_read::<CfgLayout, Piix3Lpc>(n, 0x60 + k, buf) == seq![val]
            &&& after == (LNKPin { pin: led, asserted: before.asserted })
            &&& n.pir == m.pir.update(k, val)
            &&& n.irq.lnk == m.irq.lnk.update(k, after)
            &&& n.irq.sci == m.irq.sci
            &&& !before.asserted ==> n.pins == m.pins
            &&& before.asserted && before.pin is None && led is Some ==> n.pins == m.pins.push(
                PinEvent::Assert(led->0),
            )
            &&& before.asserted && before.pin is Some && led is None ==> n.pins == m.pins.push(
                PinEvent::Deassert(before.pin->0),
            )
        }),
{
    reveal_with_fuel(region_at, 3);
    reveal_with_fuel(pirs_written, 2);
    let s = RegSpan { id: CfgReg::Custom(0x60), start: 0x60, len: 4, passthru: true };
    let data = seq![val];
    assert(data.drop_last() =~= Seq::<u8>::empty());
    assert(region_at(m.dev.dev.regions, 0, 0x60 + k) == Some(s));
    law_register_part::<CfgLayout, Piix3Lpc>(m, s, 0x60 + k, buf, data);
    let n = space_write::<CfgLayout, Piix3Lpc>(m, 0x60 + k, data);
    assert(n.dev == m.dev);
    law_register_part::<CfgLayout, Piix3Lpc>(n, s, 0x60 + k, buf, data);
    assert(n.pir.subrange(k, k + 1) =~= seq![val]);
    assert(m.pins + seq![PinEvent::Assert(0)] =~= m.pins.push(PinEvent::Assert(0)));
    assert(n.pins =~= m.pins + (m.irq.lnk[k].reassign_events(n.irq.lnk[k].pin)));
}

// ---------------------------------------------------------------------------
// Power management
// ---------------------------------------------------------------------------

/// Where the registers of the power management stand: the status at 0, what is
/// enabled at 2, the control at 4, and the timer at 8.
pub proof fn law_pm_registers_found(m: PmModel)
    ensures
        table_find(pm_reg_table(), 0, 0, 0) == Some(
            RegSpan { id: PmReg::PmSts, start: 0, len: 2, passthru: false },
        ),
        table_find(pm_reg_table(), 0, 0, 2) == Some(
            RegSpan { id: PmReg::PmEn, start: 2, len: 2, passthru: false },
        ),
        table_find(pm_reg_table(), 0, 0, 4) == Some(
            RegSpan { id: PmReg::PmCntrl, start: 4, len: 2, passthru: false },
        ),
        table_find(pm_reg_table(), 0, 0, 8) == Some(
            RegSpan { id: PmReg::PmTmr, start: 8, len: 4, passthru: false },
        ),
{
    reveal_with_fuel(table_find, 6);
}

/// The status and what is enabled: of both the guest sees bit 8, for the power
/// button. Writing a one there clears the status, and sets or clears what is
/// enabled.
pub proof fn law_power_button(m: PmModel, val: u16, buf: Seq<u8>)
    requires
        buf.len() == 2,
    ensures
        ({
            let a = space_write::<PmRegLayout, Piix3PM>(m, 0, le16(val));
            let b = space_write::<PmRegLayout, Piix3PM>(m, 2, le16(val));
            let one = (val / 0x100) % 2 == 1;
            let seen = |on: bool|
                if on {
                    seq![0u8, 1u8]
                } else {
                    seq![0u8, 0u8]
                };
            &&& space_read::<PmRegLayout, Piix3PM>(m, 0, buf) == seen(m.regs.pwrbtn_sts)
            &&& space_read::<PmRegLayout, Piix3PM>(m, 2, buf) == seen(m.regs.pwrbtn_en)
            &&& a == (PmModel {
                regs: PMRegs { pwrbtn_sts: m.regs.pwrbtn_sts && !one, ..m.regs },
                ..m
            })
            &&& b == (PmModel { regs: PMRegs { pwrbtn_en: one, ..m.regs }, ..m })
        }),
{
    law_pm_registers_found(m);
    law_le16_round_trip(val, le16(val));
    let s = RegSpan { id: PmReg::PmSts, start: 0, len: 2, passthru: false };
    let t = RegSpan { id: PmReg::PmEn, start: 2, len: 2, passthru: false };
    law_whole_register::<PmRegLayout, Piix3PM>(m, s, buf, le16(val));
    law_whole_register::<PmRegLayout, Piix3PM>(m, t, buf, le16(val));
    assert(le16(0x100) =~= seq![0u8, 1u8]);
    assert(le16(0) =~= seq![0u8, 0u8]);
}

/// The control register reads as bit 0 and bits 10 to 12 of what was written.
/// Where bit 13 is written with these three zero, the power is turned off, and
/// only there.
pub proof fn law_power_off(m: PmModel, val: u16, buf: Seq<u8>)
    requires
        buf.len() == 2,
    ensures
        ({
            let n = space_write::<PmRegLayout, Piix3PM>(m, 4, le16(val));
            let kind = (val / 0x400) % 8;
            &&& space_read::<PmRegLayout, Piix3PM>(n, 4, buf) == le16(
                (val % 2 + 0x400 * kind) as u16,
            )
            &&& n.pins == if (val / 0x2000) % 2 == 1 && kind == 0 && m.power_pin is Some {
                m.pins.push(PinEvent::Pulse(m.power_pin->0))
            } else {
                m.pins
            }
            &&& n.dev == m.dev
            &&& n.power_pin == m.power_pin
            &&& n.regs.pm_base == m.regs.pm_base
            &&& n.regs.pwrbtn_sts == m.regs.pwrbtn_sts
            &&& n.regs.pwrbtn_en == m.regs.pwrbtn_en
        }),
{
    law_pm_registers_found(m);
    law_le16_round_trip(val, le16(val));
    let s = RegSpan { id: PmReg::PmCntrl, start: 4, len: 2, passthru: false };
    law_whole_register::<PmRegLayout, Piix3PM>(m, s, buf, le16(val));
    let n = space_write::<PmRegLayout, Piix3PM>(m, 4, le16(val));
    law_whole_register::<PmRegLayout, Piix3PM>(n, s, buf, le16(val));
}

/// In the configuration space the power management tells where its registers
/// are, with bit 0 set, and at 0x40 from there that they are enabled.
pub proof fn law_pm_base_told(m: PmModel, four: Seq<u8>, one: Seq<u8>)
    requires
        four.len() == 4,
        one.len() == 1,
    ensures
        space_read::<PmCfgLayout, Piix3PM>(m, 0, four) == le32(
            if m.regs.pm_base % 2 == 0 {
                (m.regs.pm_base + 1) as u32
            } else {
                m.regs.pm_base as u32
            },
        ),
        space_read::<PmCfgLayout, Piix3PM>(m, 0x40, one) == seq![1u8],
        PMRegs::spec_default().pm_base == 0xb000,
{
    reveal_with_fuel(table_find, 20);
    let s = RegSpan { id: PmCfg::PmBase, start: 0, len: 4, passthru: false };
    let t = RegSpan { id: PmCfg::PmRegMisc, start: 0x40, len: 1, passthru: false };
    assert(table_find(pm_cfg_table(), 0, 0, 0) == Some(s));
    assert(table_find(pm_cfg_table(), 0, 0, 0x40) == Some(t));
    law_whole_register::<PmCfgLayout, Piix3PM>(m, s, four, four);
    law_whole_register::<PmCfgLayout, Piix3PM>(m, t, one, one);
}

} // verus!
