//! What a guest can rely on of PCI devices and bridges: where registers stand,
//! what they read as, and what writing to them does.
use crate::common::{
    law_le16_round_trip, law_le32_round_trip, law_le64_round_trip, le16, le32, le64, val16, val32,
};
use crate::hw::pci::bar::{bar_read, bars_wf, bars_written, entry_ok};
use crate::hw::pci::bridge::{
    bridge_reset, bridge_table, secondary_set, Bridge, BridgeLayout, BridgeModel, BridgeReg,
    LogicalBusId, RoutedBusId, RouterView,
};
use crate::hw::pci::bus::Endpoint;
use crate::hw::pci::device::{
    std_rd, std_table, DevModel, DevView, DeviceState, StdCfgLayout, StdCfgReg,
};
use crate::hw::pci::msix::{
    func_events, MsiMsg, MsixBarLayout, MsixBarReg, MsixCapLayout, MsixCapReg, MsixCfg, MsixEntry,
    MsixModel,
};
use crate::hw::pci::topology::{
    attach_place, bridge_of, bridge_ok, built, BridgeDescription, TopoView,
};
use crate::hw::pci::{ecam_bdf, BarN, Bdf, BusLocation, BusNum, DevEvent, INTxPinID};
use crate::regmap::{law_whole_register, space_read, space_write, table_find, RegSpan};
use vstd::prelude::*;

verus! {

// ---------------------------------------------------------------------------
// MSI-X
// ---------------------------------------------------------------------------

/// The enable and mask bits of the message control register read back as they
/// were written, next to the number of vectors, less one.
pub proof fn law_message_control(m: MsixModel, val: u16, buf: Seq<u8>)
    requires
        m.cfg.wf(),
        buf.len() == 2,
    ensures
        ({
            let n = space_write::<MsixCapLayout, MsixCfg>(m, 0, le16(val));
            &&& space_read::<MsixCapLayout, MsixCfg>(n, 0, buf) == le16(
                (m.cfg.count - 1 + val - val % 0x4000) as u16,
            )
            &&& n.cfg.count == m.cfg.count
            &&& n.cfg.bar == m.cfg.bar
        }),
{
    let s = RegSpan { id: MsixCapReg::MsgCtrl, start: 0, len: 2, passthru: false };
    law_le16_round_trip(val, le16(val));
    law_whole_register::<MsixCapLayout, MsixCfg>(m, s, buf, le16(val));
    let n = space_write::<MsixCapLayout, MsixCfg>(m, 0, le16(val));
    law_whole_register::<MsixCapLayout, MsixCfg>(n, s, buf, le16(val));
    assert(val / 0x8000 == 1 <==> val >= 0x8000);
}

/// After a write to the message control register, an interrupt of a vector is
/// sent at once exactly if interrupts are enabled (bit 15) and neither all
/// vectors (bit 14) nor this one is masked. It waits if they are enabled and one
/// of the masks is set, and is lost if they are not enabled.
pub proof fn law_message_control_fires(m: MsixModel, val: u16, i: int)
    requires
        m.cfg.wf(),
        0 <= i < m.cfg.count,
    ensures
        ({
            let n = space_write::<MsixCapLayout, MsixCfg>(m, 0, le16(val));
            let e = n.cfg.entries[i];
            let enabled = val >= 0x8000;
            let masked = (val / 0x4000) % 2 == 1 || m.cfg.entries[i].mask_vec;
            &&& e.addr == m.cfg.entries[i].addr
            &&& e.data == m.cfg.entries[i].data
            &&& e.mask_vec == m.cfg.entries[i].mask_vec
            &&& e.fire_msg() == if enabled && !masked {
                Some(MsiMsg { addr: e.addr, data: e.data })
            } else {
                None
            }
            &&& enabled && masked ==> e.fired().pending
            &&& !enabled || !masked ==> e.fired() == e
        }),
{
    let s = RegSpan { id: MsixCapReg::MsgCtrl, start: 0, len: 2, passthru: false };
    law_le16_round_trip(val, le16(val));
    law_whole_register::<MsixCapLayout, MsixCfg>(m, s, le16(val), le16(val));
    assert(m.cfg.entries[i].mask_func == m.cfg.func_mask);
    assert(val / 0x8000 == 1 <==> val >= 0x8000);
}

/// An interrupt that waits is sent, and waits no longer, when the mask of all
/// vectors is lifted, unless its own vector is masked.
pub proof fn law_unmask_sends(m: MsixModel, val: u16, i: int)
    requires
        m.cfg.wf(),
        0 <= i < m.cfg.count,
        m.cfg.func_mask,
        (val / 0x4000) % 2 == 0,
        m.cfg.entries[i].pending,
        !m.cfg.entries[i].mask_vec,
    ensures
        ({
            let n = space_write::<MsixCapLayout, MsixCfg>(m, 0, le16(val));
            let e = m.cfg.entries[i];
            &&& n.events.contains(DevEvent::SendMsi(MsiMsg { addr: e.addr, data: e.data }))
            &&& !n.cfg.entries[i].pending
        }),
{
    let s = RegSpan { id: MsixCapReg::MsgCtrl, start: 0, len: 2, passthru: false };
    law_le16_round_trip(val, le16(val));
    law_whole_register::<MsixCapLayout, MsixCfg>(m, s, le16(val), le16(val));
    let c = m.cfg;
    let ena = val / 0x8000 == 1;
    let sent = func_events(c.entries, false, ena, c.entries.len() as int);
    let msg = DevEvent::SendMsi(MsiMsg { addr: c.entries[i].addr, data: c.entries[i].data });
    lemma_sent(c.entries, false, ena, c.entries.len() as int, i);
    let k = choose|k: int| 0 <= k < sent.len() && sent[k] == msg;
    let n = space_write::<MsixCapLayout, MsixCfg>(m, 0, le16(val));
    assert(n.events[m.events.len() + k] == msg);
}

proof fn lemma_sent(entries: Seq<MsixEntry>, mask: bool, ena: bool, n: int, i: int)
    requires
        0 <= i < n <= entries.len(),
        !mask,
        entries[i].pending,
        !entries[i].mask_vec,
    ensures
        func_events(entries, mask, ena, n).contains(
            DevEvent::SendMsi(MsiMsg { addr: entries[i].addr, data: entries[i].data }),
        ),
    decreases n,
{
    let msg = DevEvent::SendMsi(MsiMsg { addr: entries[i].addr, data: entries[i].data });
    let all = func_events(entries, mask, ena, n);
    let before = func_events(entries, mask, ena, n - 1);
    if i < n - 1 {
        lemma_sent(entries, mask, ena, n - 1, i);
        let k = choose|k: int| 0 <= k < before.len() && before[k] == msg;
        assert(all[k] == msg);
    } else {
        assert(all[before.len() as int] == msg);
    }
}

/// The capability tells in which BAR the table and the pending bits are. The
/// table starts the BAR, and the pending bits start at the next multiple of 4096
/// bytes after it.
pub proof fn law_capability_tells_table(m: MsixModel, buf: Seq<u8>)
    requires
        m.cfg.wf(),
        buf.len() == 4,
    ensures
        space_read::<MsixCapLayout, MsixCfg>(m, 2, buf) == le32(m.cfg.bar.spec_idx() as u32),
        ({
            let off = val32(space_read::<MsixCapLayout, MsixCfg>(m, 6, buf)) - m.cfg.bar.spec_idx();
            off % 4096 == 0 && 16 * m.cfg.count <= off < 16 * m.cfg.count + 4096
        }),
{
    let s = RegSpan { id: MsixCapReg::TableOff, start: 2, len: 4, passthru: false };
    let t = RegSpan { id: MsixCapReg::PbaOff, start: 6, len: 4, passthru: false };
    law_whole_register::<MsixCapLayout, MsixCfg>(m, s, buf, buf);
    law_whole_register::<MsixCapLayout, MsixCfg>(m, t, buf, buf);
    let v = (m.cfg.pba_off + m.cfg.bar.spec_idx()) as u32;
    law_le32_round_trip(v, le32(v));
}

/// The table holds 16 bytes for each vector. The first eight are the address of
/// its message: what is written there is what the vector goes by from then on,
/// and can be read back. Other vectors are not touched.
pub proof fn law_table_address(m: MsixModel, i: u16, addr: u64)
    requires
        m.cfg.wf(),
        i < m.cfg.count,
    ensures
        ({
            let n = space_write::<MsixBarLayout, MsixCfg>(m, 16 * i, le64(addr));
            let e = m.cfg.entries[i as int];
            &&& n.cfg.entries == m.cfg.entries.update(i as int, MsixEntry { addr, ..e })
            &&& space_read::<MsixBarLayout, MsixCfg>(n, 16 * i, le64(0)) == le64(addr)
        }),
{
    crate::hw::pci::msix::law_msix_bar_layout(m.cfg.count);
    let s = header_span(MsixBarReg::Addr(i), (16 * i) as usize, 8);
    law_le64_round_trip(addr, le64(addr));
    law_whole_register::<MsixBarLayout, MsixCfg>(m, s, le64(0), le64(addr));
    let n = space_write::<MsixBarLayout, MsixCfg>(m, 16 * i, le64(addr));
    law_whole_register::<MsixBarLayout, MsixCfg>(n, s, le64(0), le64(addr));
}

/// The next four bytes are the data of the message of the vector.
pub proof fn law_table_data(m: MsixModel, i: u16, data: u32)
    requires
        m.cfg.wf(),
        i < m.cfg.count,
    ensures
        ({
            let n = space_write::<MsixBarLayout, MsixCfg>(m, 16 * i + 8, le32(data));
            let e = m.cfg.entries[i as int];
            &&& n.cfg.entries == m.cfg.entries.update(i as int, MsixEntry { data, ..e })
            &&& space_read::<MsixBarLayout, MsixCfg>(n, 16 * i + 8, le32(0)) == le32(data)
        }),
{
    crate::hw::pci::msix::law_msix_bar_layout(m.cfg.count);
    let s = header_span(MsixBarReg::Data(i), (16 * i + 8) as usize, 4);
    law_le32_round_trip(data, le32(data));
    law_whole_register::<MsixBarLayout, MsixCfg>(m, s, le32(0), le32(data));
    let n = space_write::<MsixBarLayout, MsixCfg>(m, 16 * i + 8, le32(data));
    law_whole_register::<MsixBarLayout, MsixCfg>(n, s, le32(0), le32(data));
}

/// The lowest bit of the last four bytes masks the vector. A message that waits
/// is sent when nothing masks it any longer.
pub proof fn law_table_mask(m: MsixModel, i: u16, ctrl: u32)
    requires
        m.cfg.wf(),
        i < m.cfg.count,
    ensures
        ({
            let n = space_write::<MsixBarLayout, MsixCfg>(m, 16 * i + 12, le32(ctrl));
            let e = m.cfg.entries[i as int];
            let t = n.cfg.entries[i as int];
            let sent = e.pending && ctrl % 2 == 0 && !m.cfg.func_mask;
            &&& n.cfg.entries == m.cfg.entries.update(i as int, t)
            &&& t.mask_vec == (ctrl % 2 == 1)
            &&& t.addr == e.addr
            &&& t.data == e.data
            &&& t.pending == (e.pending && !sent)
            &&& sent ==> n.events.contains(
                DevEvent::SendMsi(MsiMsg { addr: e.addr, data: e.data }),
            )
            &&& space_read::<MsixBarLayout, MsixCfg>(n, 16 * i + 12, le32(0)) == le32(ctrl % 2)
        }),
{
    crate::hw::pci::msix::law_msix_bar_layout(m.cfg.count);
    let s = header_span(MsixBarReg::VecCtrl(i), (16 * i + 12) as usize, 4);
    law_le32_round_trip(ctrl, le32(ctrl));
    law_whole_register::<MsixBarLayout, MsixCfg>(m, s, le32(0), le32(ctrl));
    let n = space_write::<MsixBarLayout, MsixCfg>(m, 16 * i + 12, le32(ctrl));
    law_whole_register::<MsixBarLayout, MsixCfg>(n, s, le32(0), le32(ctrl));
    let e = m.cfg.entries[i as int];
    assert(e.mask_func == m.cfg.func_mask);
    if e.pending && ctrl % 2 == 0 && !m.cfg.func_mask {
        let msg = DevEvent::SendMsi(MsiMsg { addr: e.addr, data: e.data });
        assert(n.events[m.events.len() as int] == msg);
    }
}

// ---------------------------------------------------------------------------
// Devices
// ---------------------------------------------------------------------------

/// Where the registers of the header of a device stand.
#[verifier::rlimit(60)]
pub proof fn law_header_found()
    ensures
        table_find(std_table(), 0, 0, 0x00) == Some(header_span(StdCfgReg::VendorId, 0x00, 2)),
        table_find(std_table(), 0, 0, 0x02) == Some(header_span(StdCfgReg::DeviceId, 0x02, 2)),
        table_find(std_table(), 0, 0, 0x04) == Some(header_span(StdCfgReg::Command, 0x04, 2)),
        table_find(std_table(), 0, 0, 0x06) == Some(header_span(StdCfgReg::Status, 0x06, 2)),
        table_find(std_table(), 0, 0, 0x08) == Some(header_span(StdCfgReg::RevisionId, 0x08, 1)),
        table_find(std_table(), 0, 0, 0x09) == Some(header_span(StdCfgReg::ProgIf, 0x09, 1)),
        table_find(std_table(), 0, 0, 0x0a) == Some(header_span(StdCfgReg::Subclass, 0x0a, 1)),
        table_find(std_table(), 0, 0, 0x0b) == Some(header_span(StdCfgReg::Class, 0x0b, 1)),
        table_find(std_table(), 0, 0, 0x0e) == Some(header_span(StdCfgReg::HeaderType, 0x0e, 1)),
        table_find(std_table(), 0, 0, 0x2c) == Some(header_span(StdCfgReg::SubVendorId, 0x2c, 2)),
        table_find(std_table(), 0, 0, 0x2e) == Some(header_span(StdCfgReg::SubDeviceId, 0x2e, 2)),
        table_find(std_table(), 0, 0, 0x34) == Some(header_span(StdCfgReg::CapPtr, 0x34, 1)),
        table_find(std_table(), 0, 0, 0x3c) == Some(header_span(StdCfgReg::IntrLine, 0x3c, 1)),
        table_find(std_table(), 0, 0, 0x3d) == Some(header_span(StdCfgReg::IntrPin, 0x3d, 1)),
        forall|n: BarN|
            table_find(std_table(), 0, 0, 0x10 + 4 * #[trigger] n.spec_idx()) == Some(
                header_span(StdCfgReg::Bar(n), (0x10 + 4 * n.spec_idx()) as usize, 4),
            ),
{
    reveal_with_fuel(table_find, 30);
    assert forall|n: BarN|
        table_find(std_table(), 0, 0, 0x10 + 4 * #[trigger] n.spec_idx()) == Some(
            header_span(StdCfgReg::Bar(n), (0x10 + 4 * n.spec_idx()) as usize, 4),
        ) by {
        match n {
            BarN::BAR0 => {},
            BarN::BAR1 => {},
            BarN::BAR2 => {},
            BarN::BAR3 => {},
            BarN::BAR4 => {},
            BarN::BAR5 => {},
        }
    }
}

/// A register of a header that is taken as a whole.
pub open spec fn header_span<Id>(id: Id, start: usize, len: usize) -> RegSpan<Id> {
    RegSpan { id, start, len, passthru: false }
}

/// What the header of a device tells the guest.
pub proof fn law_header_tells(m: DevModel, one: Seq<u8>, two: Seq<u8>)
    requires
        one.len() == 1,
        two.len() == 2,
    ensures
        space_read::<StdCfgLayout, DeviceState>(m, 0x00, two) == le16(m.dev.ident.vendor_id),
        space_read::<StdCfgLayout, DeviceState>(m, 0x02, two) == le16(m.dev.ident.device_id),
        space_read::<StdCfgLayout, DeviceState>(m, 0x08, one) == seq![m.dev.ident.revision_id],
        space_read::<StdCfgLayout, DeviceState>(m, 0x09, one) == seq![m.dev.ident.prog_if],
        space_read::<StdCfgLayout, DeviceState>(m, 0x0a, one) == seq![m.dev.ident.subclass],
        space_read::<StdCfgLayout, DeviceState>(m, 0x0b, one) == seq![m.dev.ident.class],
        space_read::<StdCfgLayout, DeviceState>(m, 0x2c, two) == le16(m.dev.ident.sub_vendor_id),
        space_read::<StdCfgLayout, DeviceState>(m, 0x2e, two) == le16(m.dev.ident.sub_device_id),
        // Devices that share a slot say so
        space_read::<StdCfgLayout, DeviceState>(m, 0x0e, one) == seq![
            if m.dev.attach is Some && m.slot.is_multifunc {
                0x80u8
            } else {
                0
            },
        ],
        // Bit 4 says that there are capabilities, and bit 3 that the interrupt
        // pin is asserted
        ({
            let status = val16(space_read::<StdCfgLayout, DeviceState>(m, 0x06, two));
            &&& (status / 0x10) % 2 == 1 <==> m.dev.caps.len() > 0
            &&& (status / 8) % 2 == 1 <==> m.dev.lintr_support && m.slot.lintr_asserted && (
            m.dev.attach matches Some(a) && a.lintr_cfg is Some)
            &&& status % 8 == 0 && status < 0x20
        }),
        m.dev.caps.len() > 0 ==> space_read::<StdCfgLayout, DeviceState>(m, 0x34, one) == seq![
            m.dev.caps[0].offset,
        ],
        // The pin counts from 1; 0 means none
        space_read::<StdCfgLayout, DeviceState>(m, 0x3d, one) == seq![
            match m.dev.attach {
                Some(a) => match a.lintr_cfg {
                    Some(l) if m.dev.lintr_support => match l.id {
                        INTxPinID::IntA => 1u8,
                        INTxPinID::IntB => 2,
                        INTxPinID::IntC => 3,
                        INTxPinID::IntD => 4,
                    },
                    _ => 0,
                },
                None => 0,
            },
        ],
{
    law_header_found();
    lemma_header_reads(m, one, two);
    let status = m.dev.status(m.slot);
    law_le16_round_trip(status, le16(status));
}

/// Whole registers of the header are read as such.
proof fn lemma_header_reads(m: DevModel, one: Seq<u8>, two: Seq<u8>)
    requires
        one.len() == 1,
        two.len() == 2,
    ensures
        space_read::<StdCfgLayout, DeviceState>(m, 0x00, two) == std_rd(m, StdCfgReg::VendorId, 2),
        space_read::<StdCfgLayout, DeviceState>(m, 0x02, two) == std_rd(m, StdCfgReg::DeviceId, 2),
        space_read::<StdCfgLayout, DeviceState>(m, 0x06, two) == std_rd(m, StdCfgReg::Status, 2),
        space_read::<StdCfgLayout, DeviceState>(m, 0x08, one) == std_rd(m, StdCfgReg::RevisionId, 1),
        space_read::<StdCfgLayout, DeviceState>(m, 0x09, one) == std_rd(m, StdCfgReg::ProgIf, 1),
        space_read::<StdCfgLayout, DeviceState>(m, 0x0a, one) == std_rd(m, StdCfgReg::Subclass, 1),
        space_read::<StdCfgLayout, DeviceState>(m, 0x0b, one) == std_rd(m, StdCfgReg::Class, 1),
        space_read::<StdCfgLayout, DeviceState>(m, 0x0e, one) == std_rd(m, StdCfgReg::HeaderType, 1),
        space_read::<StdCfgLayout, DeviceState>(m, 0x2c, two) == std_rd(
            m,
            StdCfgReg::SubVendorId,
            2,
        ),
        space_read::<StdCfgLayout, DeviceState>(m, 0x2e, two) == std_rd(
            m,
            StdCfgReg::SubDeviceId,
            2,
        ),
        space_read::<StdCfgLayout, DeviceState>(m, 0x34, one) == std_rd(m, StdCfgReg::CapPtr, 1),
        space_read::<StdCfgLayout, DeviceState>(m, 0x3d, one) == std_rd(m, StdCfgReg::IntrPin, 1),
{
    law_header_found();
    let t = std_table();
    law_whole_register::<StdCfgLayout, DeviceState>(m, table_find(t, 0, 0, 0x00)->0, two, two);
    law_whole_register::<StdCfgLayout, DeviceState>(m, table_find(t, 0, 0, 0x02)->0, two, two);
    law_whole_register::<StdCfgLayout, DeviceState>(m, table_find(t, 0, 0, 0x06)->0, two, two);
    law_whole_register::<StdCfgLayout, DeviceState>(m, table_find(t, 0, 0, 0x08)->0, one, one);
    law_whole_register::<StdCfgLayout, DeviceState>(m, table_find(t, 0, 0, 0x09)->0, one, one);
    law_whole_register::<StdCfgLayout, DeviceState>(m, table_find(t, 0, 0, 0x0a)->0, one, one);
    law_whole_register::<StdCfgLayout, DeviceState>(m, table_find(t, 0, 0, 0x0b)->0, one, one);
    law_whole_register::<StdCfgLayout, DeviceState>(m, table_find(t, 0, 0, 0x0e)->0, one, one);
    law_whole_register::<StdCfgLayout, DeviceState>(m, table_find(t, 0, 0, 0x2c)->0, two, two);
    law_whole_register::<StdCfgLayout, DeviceState>(m, table_find(t, 0, 0, 0x2e)->0, two, two);
    law_whole_register::<StdCfgLayout, DeviceState>(m, table_find(t, 0, 0, 0x34)->0, one, one);
    law_whole_register::<StdCfgLayout, DeviceState>(m, table_find(t, 0, 0, 0x3d)->0, one, one);
}

/// The bits of the command register: accesses by ports, accesses by memory,
/// accesses of the device to memory, and no interrupts by pin. What is written
/// to them is kept and can be read back; other bits read as 0.
pub proof fn law_command_bits(m: DevModel, val: u16)
    ensures
        ({
            let n = space_write::<StdCfgLayout, DeviceState>(m, 0x04, le16(val));
            let c = n.dev.reg_command;
            &&& c.io_en <==> val % 2 == 1
            &&& c.mmio_en <==> (val / 2) % 2 == 1
            &&& c.busmstr_en <==> (val / 4) % 2 == 1
            &&& c.intx_dis <==> (val / 0x400) % 2 == 1
            &&& space_read::<StdCfgLayout, DeviceState>(n, 0x04, le16(0)) == le16(
                (val % 8 + 0x400 * ((val / 0x400) % 2)) as u16,
            )
            &&& n.dev.bars == m.dev.bars
            &&& n.dev.reg_intr_line == m.dev.reg_intr_line
        }),
{
    law_header_found();
    let s = header_span(StdCfgReg::Command, 0x04, 2);
    law_le16_round_trip(val, le16(val));
    law_whole_register::<StdCfgLayout, DeviceState>(m, s, le16(0), le16(val));
    let n = space_write::<StdCfgLayout, DeviceState>(m, 0x04, le16(val));
    law_whole_register::<StdCfgLayout, DeviceState>(n, s, le16(0), le16(val));
}

/// The interrupt line register keeps what is written to it.
pub proof fn law_interrupt_line(m: DevModel, val: u8)
    ensures
        ({
            let n = space_write::<StdCfgLayout, DeviceState>(m, 0x3c, seq![val]);
            &&& space_read::<StdCfgLayout, DeviceState>(n, 0x3c, seq![0u8]) == seq![val]
            &&& n == (DevModel { dev: DevView { reg_intr_line: val, ..m.dev }, ..m })
        }),
{
    law_header_found();
    let s = header_span(StdCfgReg::IntrLine, 0x3c, 1);
    law_whole_register::<StdCfgLayout, DeviceState>(m, s, seq![0u8], seq![val]);
    let n = space_write::<StdCfgLayout, DeviceState>(m, 0x3c, seq![val]);
    law_whole_register::<StdCfgLayout, DeviceState>(n, s, seq![0u8], seq![val]);
}

/// A BAR register is written and read at its place in the header, and leaves the
/// others as they were, but for the two halves of a 64-bit BAR, which together
/// hold one address.
pub proof fn law_bar_registers(m: DevModel, n: BarN, k: BarN, val: u32)
    requires
        bars_wf(m.dev.bars),
        k != n,
    ensures
        ({
            let off = 0x10 + 4 * n.spec_idx();
            let after = space_write::<StdCfgLayout, DeviceState>(m, off, le32(val));
            &&& after.dev == (DevView {
                bars: bars_written(m.dev.bars, n.spec_idx(), val),
                ..m.dev
            })
            &&& bar_read(after.dev.bars, k.spec_idx()) == bar_read(m.dev.bars, k.spec_idx())
        }),
{
    law_header_found();
    let i = n.spec_idx();
    let s = header_span(StdCfgReg::Bar(n), (0x10 + 4 * i) as usize, 4);
    law_le32_round_trip(val, le32(val));
    law_whole_register::<StdCfgLayout, DeviceState>(m, s, le32(0), le32(val));
    assert(entry_ok(m.dev.bars, i));
    assert(entry_ok(m.dev.bars, k.spec_idx()));
    crate::hw::pci::bar::law_bar_read_back(m.dev.bars, i, val);
}

// ---------------------------------------------------------------------------
// Bridges
// ---------------------------------------------------------------------------

/// Where the registers of the header of a bridge stand.
#[verifier::rlimit(60)]
pub proof fn law_bridge_found()
    ensures
        table_find(bridge_table(), 0, 0, 0x00) == Some(
            header_span(BridgeReg::Common(StdCfgReg::VendorId), 0x00, 2),
        ),
        table_find(bridge_table(), 0, 0, 0x02) == Some(
            header_span(BridgeReg::Common(StdCfgReg::DeviceId), 0x02, 2),
        ),
        table_find(bridge_table(), 0, 0, 0x04) == Some(
            header_span(BridgeReg::Common(StdCfgReg::Command), 0x04, 2),
        ),
        table_find(bridge_table(), 0, 0, 0x09) == Some(
            header_span(BridgeReg::Common(StdCfgReg::ProgIf), 0x09, 1),
        ),
        table_find(bridge_table(), 0, 0, 0x0a) == Some(
            header_span(BridgeReg::Common(StdCfgReg::Subclass), 0x0a, 1),
        ),
        table_find(bridge_table(), 0, 0, 0x0b) == Some(
            header_span(BridgeReg::Common(StdCfgReg::Class), 0x0b, 1),
        ),
        table_find(bridge_table(), 0, 0, 0x0e) == Some(
            header_span(BridgeReg::Common(StdCfgReg::HeaderType), 0x0e, 1),
        ),
        table_find(bridge_table(), 0, 0, 0x18) == Some(header_span(BridgeReg::PrimaryBus, 0x18, 1)),
        table_find(bridge_table(), 0, 0, 0x19) == Some(
            header_span(BridgeReg::SecondaryBus, 0x19, 1),
        ),
        table_find(bridge_table(), 0, 0, 0x1a) == Some(
            header_span(BridgeReg::SubordinateBus, 0x1a, 1),
        ),
        table_find(bridge_table(), 0, 0, 0x20) == Some(header_span(BridgeReg::MemoryBase, 0x20, 2)),
        table_find(bridge_table(), 0, 0, 0x22) == Some(
            header_span(BridgeReg::MemoryLimit, 0x22, 2),
        ),
{
    reveal_with_fuel(table_find, 36);
}

/// What can be set of a bridge, as the guest reads it.
#[verifier::opaque]
pub open spec fn bridge_settings(m: BridgeModel) -> (u8, u8, u8, u16, u16, u16) {
    (
        space_read::<BridgeLayout, Bridge>(m, 0x18, seq![0u8])[0],
        space_read::<BridgeLayout, Bridge>(m, 0x19, seq![0u8])[0],
        space_read::<BridgeLayout, Bridge>(m, 0x1a, seq![0u8])[0],
        val16(space_read::<BridgeLayout, Bridge>(m, 0x20, le16(0))),
        val16(space_read::<BridgeLayout, Bridge>(m, 0x22, le16(0))),
        val16(space_read::<BridgeLayout, Bridge>(m, 0x04, le16(0))),
    )
}

/// What the settings of a bridge are read from.
proof fn lemma_bridge_settings(m: BridgeModel)
    ensures
        bridge_settings(m) == (
            m.bridge.primary_bus.0,
            m.bridge.secondary_bus.0,
            m.bridge.subordinate_bus.0,
            (m.bridge.memory_base - m.bridge.memory_base % 16) as u16,
            (m.bridge.memory_limit - m.bridge.memory_limit % 16) as u16,
            m.bridge.reg_command.spec_bits(),
        ),
{
    reveal(bridge_settings);
    law_bridge_found();
    let t = bridge_table();
    let one = seq![0u8];
    let two = le16(0);
    law_whole_register::<BridgeLayout, Bridge>(m, table_find(t, 0, 0, 0x18)->0, one, one);
    law_whole_register::<BridgeLayout, Bridge>(m, table_find(t, 0, 0, 0x19)->0, one, one);
    law_whole_register::<BridgeLayout, Bridge>(m, table_find(t, 0, 0, 0x1a)->0, one, one);
    law_whole_register::<BridgeLayout, Bridge>(m, table_find(t, 0, 0, 0x20)->0, two, two);
    law_whole_register::<BridgeLayout, Bridge>(m, table_find(t, 0, 0, 0x22)->0, two, two);
    law_whole_register::<BridgeLayout, Bridge>(m, table_find(t, 0, 0, 0x04)->0, two, two);
    let base = (m.bridge.memory_base - m.bridge.memory_base % 16) as u16;
    let limit = (m.bridge.memory_limit - m.bridge.memory_limit % 16) as u16;
    let cmd = m.bridge.reg_command.spec_bits();
    law_le16_round_trip(base, le16(base));
    law_le16_round_trip(limit, le16(limit));
    law_le16_round_trip(cmd, le16(cmd));
}

/// A write to one of the bus numbers of a bridge.
proof fn lemma_number_written(m: BridgeModel, n: u8, off: int)
    requires
        off == 0x18 || off == 0x19 || off == 0x1a,
    ensures
        space_write::<BridgeLayout, Bridge>(m, off, seq![n]) == if off == 0x18 {
            BridgeModel { bridge: Bridge { primary_bus: BusNum(n), ..m.bridge }, ..m }
        } else if off == 0x19 {
            secondary_set(m, n)
        } else {
            BridgeModel { bridge: Bridge { subordinate_bus: BusNum(n), ..m.bridge }, ..m }
        },
{
    law_bridge_found();
    let s = table_find(bridge_table(), 0, 0, off)->0;
    law_whole_register::<BridgeLayout, Bridge>(m, s, seq![n], seq![n]);
}

/// A write to one end of the memory window of a bridge.
proof fn lemma_window_written(m: BridgeModel, val: u16, off: int)
    requires
        off == 0x20 || off == 0x22,
    ensures
        space_write::<BridgeLayout, Bridge>(m, off, le16(val)) == if off == 0x20 {
            BridgeModel { bridge: Bridge { memory_base: val, ..m.bridge }, ..m }
        } else {
            BridgeModel { bridge: Bridge { memory_limit: val, ..m.bridge }, ..m }
        },
{
    law_bridge_found();
    law_le16_round_trip(val, le16(val));
    let s = table_find(bridge_table(), 0, 0, off)->0;
    law_whole_register::<BridgeLayout, Bridge>(m, s, le16(val), le16(val));
}

/// A write to the command register of a bridge.
proof fn lemma_command_written(m: BridgeModel, val: u16)
    ensures
        ({
            let n = space_write::<BridgeLayout, Bridge>(m, 0x04, le16(val));
            &&& n == (BridgeModel {
                bridge: Bridge { reg_command: n.bridge.reg_command, ..m.bridge },
                ..m
            })
            &&& n.bridge.reg_command.spec_bits() == val % 8 + 0x400 * ((val / 0x400) % 2)
        }),
{
    law_bridge_found();
    law_le16_round_trip(val, le16(val));
    let s = table_find(bridge_table(), 0, 0, 0x04)->0;
    law_whole_register::<BridgeLayout, Bridge>(m, s, le16(val), le16(val));
}

/// What is written to the bus numbers of a bridge is read back, and each of them
/// leaves the other settings as they were. A secondary bus number is kept if no
/// other bus is reached under it.
#[verifier::rlimit(40)]
pub proof fn law_bridge_numbers_kept(m: BridgeModel, n: u8)
    requires
        m.router.wf(),
        m.bridge.routed_by(m.router),
    ensures
        ({
            let (pri, sec, sub, base, limit, cmd) = bridge_settings(m);
            let free = n == 0 || n == sec || m.router.routed[n as int] is None;
            let new_sec = if free {
                n
            } else {
                sec
            };
            &&& bridge_settings(space_write::<BridgeLayout, Bridge>(m, 0x18, seq![n])) == (
                n,
                sec,
                sub,
                base,
                limit,
                cmd,
            )
            &&& bridge_settings(space_write::<BridgeLayout, Bridge>(m, 0x19, seq![n])) == (
                pri,
                new_sec,
                sub,
                base,
                limit,
                cmd,
            )
            &&& bridge_settings(space_write::<BridgeLayout, Bridge>(m, 0x1a, seq![n])) == (
                pri,
                sec,
                n,
                base,
                limit,
                cmd,
            )
        }),
{
    lemma_number_written(m, n, 0x18);
    lemma_number_written(m, n, 0x19);
    lemma_number_written(m, n, 0x1a);
    lemma_bridge_settings(m);
    lemma_bridge_settings(space_write::<BridgeLayout, Bridge>(m, 0x18, seq![n]));
    lemma_bridge_settings(space_write::<BridgeLayout, Bridge>(m, 0x19, seq![n]));
    lemma_bridge_settings(space_write::<BridgeLayout, Bridge>(m, 0x1a, seq![n]));
}

/// What is written to the memory window and the command of a bridge is read
/// back, the window without its lowest four bits, and each of them leaves the
/// other settings as they were.
#[verifier::rlimit(40)]
pub proof fn law_bridge_window_kept(m: BridgeModel, val: u16)
    ensures
        ({
            let (pri, sec, sub, base, limit, cmd) = bridge_settings(m);
            let window = (val - val % 16) as u16;
            &&& bridge_settings(space_write::<BridgeLayout, Bridge>(m, 0x20, le16(val))) == (
                pri,
                sec,
                sub,
                window,
                limit,
                cmd,
            )
            &&& bridge_settings(space_write::<BridgeLayout, Bridge>(m, 0x22, le16(val))) == (
                pri,
                sec,
                sub,
                base,
                window,
                cmd,
            )
            &&& bridge_settings(space_write::<BridgeLayout, Bridge>(m, 0x04, le16(val))) == (
                pri,
                sec,
                sub,
                base,
                limit,
                (val % 8 + 0x400 * ((val / 0x400) % 2)) as u16,
            )
        }),
{
    lemma_bridge_settings(m);
    lemma_window_written(m, val, 0x20);
    lemma_window_written(m, val, 0x22);
    lemma_command_written(m, val);
    lemma_bridge_settings(space_write::<BridgeLayout, Bridge>(m, 0x20, le16(val)));
    lemma_bridge_settings(space_write::<BridgeLayout, Bridge>(m, 0x22, le16(val)));
    lemma_bridge_settings(space_write::<BridgeLayout, Bridge>(m, 0x04, le16(val)));
}

/// A guest recognises a bridge: it has the header of one, and says that it is
/// one.
pub proof fn law_bridge_recognised(vendor: u16, device: u16, index: usize, bus: LogicalBusId, r: RouterView)
    ensures
        ({
            let b = Bridge::spec_new(vendor, device, index, bus);
            let m = BridgeModel { bridge: b, router: r };
            &&& space_read::<BridgeLayout, Bridge>(m, 0x00, le16(0)) == le16(vendor)
            &&& space_read::<BridgeLayout, Bridge>(m, 0x02, le16(0)) == le16(device)
            &&& space_read::<BridgeLayout, Bridge>(m, 0x0b, seq![0u8]) == seq![6u8]
            &&& space_read::<BridgeLayout, Bridge>(m, 0x0a, seq![0u8]) == seq![4u8]
            &&& space_read::<BridgeLayout, Bridge>(m, 0x09, seq![0u8]) == seq![0u8]
            &&& space_read::<BridgeLayout, Bridge>(m, 0x0e, seq![0u8]) == seq![1u8]
            &&& bridge_settings(m) == (0u8, 0u8, 0u8, 0u16, 0u16, 0u16)
        }),
{
    law_bridge_found();
    let m = BridgeModel { bridge: Bridge::spec_new(vendor, device, index, bus), router: r };
    let t = bridge_table();
    let one = seq![0u8];
    let two = le16(0);
    law_whole_register::<BridgeLayout, Bridge>(m, table_find(t, 0, 0, 0x00)->0, two, two);
    law_whole_register::<BridgeLayout, Bridge>(m, table_find(t, 0, 0, 0x02)->0, two, two);
    law_whole_register::<BridgeLayout, Bridge>(m, table_find(t, 0, 0, 0x0b)->0, one, one);
    law_whole_register::<BridgeLayout, Bridge>(m, table_find(t, 0, 0, 0x0a)->0, one, one);
    law_whole_register::<BridgeLayout, Bridge>(m, table_find(t, 0, 0, 0x09)->0, one, one);
    law_whole_register::<BridgeLayout, Bridge>(m, table_find(t, 0, 0, 0x0e)->0, one, one);
    lemma_bridge_settings(m);
}

/// A bridge that is reset is set to nothing, and nothing is reached over it.
pub proof fn law_bridge_reset_clears(m: BridgeModel)
    requires
        m.router.wf(),
        m.bridge.routed_by(m.router),
    ensures
        ({
            let t = bridge_reset(m);
            let (pri, sec, sub, base, limit, _) = bridge_settings(t);
            &&& (pri, sec, sub, base, limit) == (0u8, 0u8, 0u8, 0u16, 0u16)
            &&& m.bridge.secondary_bus.0 != 0 ==> t.router.routed[m.bridge.secondary_bus.0 as int]
                is None
            &&& forall|k: int|
                0 <= k < 256 && k != m.bridge.secondary_bus.0 ==> #[trigger] t.router.routed[k]
                    == m.router.routed[k]
        }),
{
    lemma_bridge_settings(bridge_reset(m));
}

/// Accesses to a bus number reach what is on the bus behind the bridge that the
/// guest has given that number to, and nothing else. Numbers that no bridge has
/// reach nothing, and number 0 always reaches the root bus.
pub proof fn law_accesses_follow_bridges(v: TopoView, i: int, loc: BusLocation)
    requires
        v.wf(),
        0 <= i < v.bridges.len(),
        v.bridges[i].secondary_bus.0 != 0,
    ensures
        v.router.logical[v.bridges[i].downstream_bus_id.0 as int] matches Some(b) && v.target(
            RoutedBusId(v.bridges[i].secondary_bus.0),
            loc,
        ) == v.buses[b as int].at(loc),
        v.target(RoutedBusId(0), loc) == v.buses[0].at(loc),
{
    assert(bridge_ok(v, i));
}

/// The function at an offset of the memory-mapped configuration space: 4096
/// bytes for each function, 8 functions for each device, 32 devices for each
/// bus.
pub proof fn law_ecam_address(bus: u8, dev: u8, func: u8, off: u16)
    requires
        dev < 32,
        func < 8,
        off < 4096,
    ensures
        ({
            let at = ((bus * 32 + dev) * 8 + func) * 4096 + off;
            &&& ecam_bdf(256, at as usize) == (Bdf {
                bus: BusNum(bus),
                location: BusLocation { dev, func },
            })
            &&& at % 0x1000 == off
        }),
{
    let f = (bus * 32 + dev) * 8 + func;
    let at = f * 4096 + off;
    assert(at / 0x1000 == f && at % 0x1000 == off);
    let d = bus * 32 + dev;
    assert(f / 8 == d && f % 8 == func);
    assert(at / 0x8000 == (at / 0x1000) / 8);
    assert(d / 32 == bus && d % 32 == dev);
    assert(at / 0x10_0000 == (at / 0x8000) / 32);
}

/// A guest finds the bridges of a topology that was asked for: one on the root
/// bus at its place there, and one behind it under the bus number that the guest
/// gives the first one, at its place on that bus.
pub proof fn law_bridges_enumerated(
    bridges: Seq<BridgeDescription>,
    v: TopoView,
    i: int,
    j: int,
    n: u8,
)
    requires
        v.wf(),
        built(bridges, v),
        bridges.len() < usize::MAX,
        0 <= i < bridges.len(),
        0 <= j < bridges.len(),
        bridges[i].attachment_addr.bus.0 == 0,
        bridges[j].attachment_addr.bus.0 == bridges[i].downstream_bus_id.0,
        n != 0,
    ensures
        ({
            let m = BridgeModel { bridge: v.bridges[i], router: v.router };
            let w = v.with_bridge(i, space_write::<BridgeLayout, Bridge>(m, 0x19, seq![n]));
            &&& v.target(RoutedBusId(0), bridges[i].attachment_addr.location) == Some(
                Endpoint::Bridge(i as usize),
            )
            &&& v.target(RoutedBusId(n), bridges[j].attachment_addr.location) is None
            &&& w.target(RoutedBusId(n), bridges[j].attachment_addr.location) == Some(
                Endpoint::Bridge(j as usize),
            )
            &&& v.bridges[j].ident.vendor_id == bridges[j].vendor_id
            &&& v.bridges[j].ident.device_id == bridges[j].device_id
        }),
{
    let m = BridgeModel { bridge: v.bridges[i], router: v.router };
    lemma_number_written(m, n, 0x19);
    let (di, dj) = (bridges[i], bridges[j]);
    assert(v.bridges[i] == bridge_of(di, i));
    assert(v.bridges[j] == bridge_of(dj, j));
    assert(v.router.logical[di.downstream_bus_id.0 as int] == Some((i + 1) as usize));
    assert(attach_place(v.router.logical, di).0 == 0);
    assert(attach_place(v.router.logical, dj).0 == i + 1);
    assert(v.router.routed[n as int] is None);
}

} // verus!
