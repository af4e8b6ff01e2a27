//! The state that every PCI device has: its configuration space, BARs and
//! interrupts.
use crate::common::{
    byte_vec, copy_vec, get_le16, get_le32, le16, le16_vec, le32, le32_vec, overlay, val16, val32,
    zero_vec, zeros, RWOp, ReadOp,
};
use crate::hw::pci::bar::{
    bar_home, bar_read, bar_written, bars_imported, bars_wf, bars_written, defs_ok, entry_export,
    law_bars_migrate, new_bars, saved_ok, BarDefine, BarStateV1, Bars, Entry, EntryKind,
};
use crate::hw::pci::bits::{
    CAP_ID_MSIX, HEADER_TYPE_DEVICE, HEADER_TYPE_MULTIFUNC, LEN_CFG_ECAM, LEN_CFG_STD,
    REG_STATUS_CAP_LIST, REG_STATUS_INTR,
};
use crate::hw::pci::bus::Attachment;
use crate::hw::pci::cfgspace::{
    find_region, layout_ok, lemma_region_at, region_at, region_free, region_ok, Cap, CfgBuilder,
    CfgReg,
};
use crate::hw::pci::msix::{
    law_msix_bar_layout, law_msix_migrates, lemma_cap_shape, msix_bar_size, MsixBarLayout, MsixCapLayout, MsixCfg, MsixHdl,
    MsixModel, MsixStateV1, MsixView, MSIX_CAP_LEN,
};
use crate::hw::pci::{BarN, DevEvent, IntrMode, LintrCfg};
use crate::migrate::MigrateStateError;
use crate::regmap::{
    find_in_table, lemma_table_find, part_write, process_read, process_write, reg_start,
    space_read, space_write, span_part, table_find, RegDef, RegSpace, RegSpan,
};
use vstd::arithmetic::power2::pow2;
use vstd::prelude::*;

verus! {

/// A register of the standard header.
#[derive(Clone, Copy, Debug, PartialEq, Eq, Structural)]
pub enum StdCfgReg {
    VendorId,
    DeviceId,
    Command,
    Status,
    RevisionId,
    ProgIf,
    Subclass,
    Class,
    CacheLineSize,
    LatencyTimer,
    HeaderType,
    Bist,
    Bar(BarN),
    CardbusPtr,
    SubVendorId,
    SubDeviceId,
    ExpansionRomAddr,
    CapPtr,
    Reserved,
    IntrLine,
    IntrPin,
    MinGrant,
    MaxLatency,
}

impl StdCfgReg {
    /// The number of bytes of the register, or 0 if that differs.
    pub open spec fn size(self) -> int {
        match self {
            StdCfgReg::VendorId => 2,
            StdCfgReg::DeviceId => 2,
            StdCfgReg::Command => 2,
            StdCfgReg::Status => 2,
            StdCfgReg::Bar(_) => 4,
            StdCfgReg::CardbusPtr => 4,
            StdCfgReg::SubVendorId => 2,
            StdCfgReg::SubDeviceId => 2,
            StdCfgReg::ExpansionRomAddr => 4,
            StdCfgReg::Reserved => 0,
            _ => 1,
        }
    }
}

/// The layout of the standard header.
pub struct StdCfgLayout;

/// The layout of the configuration space.
pub struct CfgLayout;

/// A register of the standard header of `len` bytes.
pub open spec fn std_def(id: StdCfgReg, len: usize) -> RegDef<StdCfgReg> {
    RegDef { id, len, passthru: false }
}

/// The registers of the standard header, in their order.
pub open spec fn std_table() -> Seq<RegDef<StdCfgReg>> {
    seq![
        std_def(StdCfgReg::VendorId, 2),
        std_def(StdCfgReg::DeviceId, 2),
        std_def(StdCfgReg::Command, 2),
        std_def(StdCfgReg::Status, 2),
        std_def(StdCfgReg::RevisionId, 1),
        std_def(StdCfgReg::ProgIf, 1),
        std_def(StdCfgReg::Subclass, 1),
        std_def(StdCfgReg::Class, 1),
        std_def(StdCfgReg::CacheLineSize, 1),
        std_def(StdCfgReg::LatencyTimer, 1),
        std_def(StdCfgReg::HeaderType, 1),
        std_def(StdCfgReg::Bist, 1),
        std_def(StdCfgReg::Bar(BarN::BAR0), 4),
        std_def(StdCfgReg::Bar(BarN::BAR1), 4),
        std_def(StdCfgReg::Bar(BarN::BAR2), 4),
        std_def(StdCfgReg::Bar(BarN::BAR3), 4),
        std_def(StdCfgReg::Bar(BarN::BAR4), 4),
        std_def(StdCfgReg::Bar(BarN::BAR5), 4),
        std_def(StdCfgReg::CardbusPtr, 4),
        std_def(StdCfgReg::SubVendorId, 2),
        std_def(StdCfgReg::SubDeviceId, 2),
        std_def(StdCfgReg::ExpansionRomAddr, 4),
        std_def(StdCfgReg::CapPtr, 1),
        std_def(StdCfgReg::Reserved, 7),
        std_def(StdCfgReg::IntrLine, 1),
        std_def(StdCfgReg::IntrPin, 1),
        std_def(StdCfgReg::MinGrant, 1),
        std_def(StdCfgReg::MaxLatency, 1),
    ]
}

/// Where registers of the standard header are, and that they fill it.
pub proof fn law_std_layout()
    ensures
        std_table().len() == 28,
        reg_start(std_table(), 0) == 0,
        reg_start(std_table(), 2) == 0x04,
        reg_start(std_table(), 10) == 0x0e,
        reg_start(std_table(), 12) == 0x10,
        reg_start(std_table(), 22) == 0x34,
        reg_start(std_table(), 24) == 0x3c,
        reg_start(std_table(), 28) == LEN_CFG_STD,
{
    reveal_with_fuel(reg_start, 29);
}

/// The registers of the standard header, in their order.
pub fn std_layout() -> (r: Vec<RegDef<StdCfgReg>>)
    ensures
        r@ == std_table(),
{
    let mut v: Vec<RegDef<StdCfgReg>> = Vec::new();
    v.push(RegDef { id: StdCfgReg::VendorId, len: 2, passthru: false });
    v.push(RegDef { id: StdCfgReg::DeviceId, len: 2, passthru: false });
    v.push(RegDef { id: StdCfgReg::Command, len: 2, passthru: false });
    v.push(RegDef { id: StdCfgReg::Status, len: 2, passthru: false });
    v.push(RegDef { id: StdCfgReg::RevisionId, len: 1, passthru: false });
    v.push(RegDef { id: StdCfgReg::ProgIf, len: 1, passthru: false });
    v.push(RegDef { id: StdCfgReg::Subclass, len: 1, passthru: false });
    v.push(RegDef { id: StdCfgReg::Class, len: 1, passthru: false });
    v.push(RegDef { id: StdCfgReg::CacheLineSize, len: 1, passthru: false });
    v.push(RegDef { id: StdCfgReg::LatencyTimer, len: 1, passthru: false });
    v.push(RegDef { id: StdCfgReg::HeaderType, len: 1, passthru: false });
    v.push(RegDef { id: StdCfgReg::Bist, len: 1, passthru: false });
    v.push(RegDef { id: StdCfgReg::Bar(BarN::BAR0), len: 4, passthru: false });
    v.push(RegDef { id: StdCfgReg::Bar(BarN::BAR1), len: 4, passthru: false });
    v.push(RegDef { id: StdCfgReg::Bar(BarN::BAR2), len: 4, passthru: false });
    v.push(RegDef { id: StdCfgReg::Bar(BarN::BAR3), len: 4, passthru: false });
    v.push(RegDef { id: StdCfgReg::Bar(BarN::BAR4), len: 4, passthru: false });
    v.push(RegDef { id: StdCfgReg::Bar(BarN::BAR5), len: 4, passthru: false });
    v.push(RegDef { id: StdCfgReg::CardbusPtr, len: 4, passthru: false });
    v.push(RegDef { id: StdCfgReg::SubVendorId, len: 2, passthru: false });
    v.push(RegDef { id: StdCfgReg::SubDeviceId, len: 2, passthru: false });
    v.push(RegDef { id: StdCfgReg::ExpansionRomAddr, len: 4, passthru: false });
    v.push(RegDef { id: StdCfgReg::CapPtr, len: 1, passthru: false });
    v.push(RegDef { id: StdCfgReg::Reserved, len: 7, passthru: false });
    v.push(RegDef { id: StdCfgReg::IntrLine, len: 1, passthru: false });
    v.push(RegDef { id: StdCfgReg::IntrPin, len: 1, passthru: false });
    v.push(RegDef { id: StdCfgReg::MinGrant, len: 1, passthru: false });
    v.push(RegDef { id: StdCfgReg::MaxLatency, len: 1, passthru: false });
    assert(v@ =~= std_table());
    v
}

/// What identifies a device.
#[derive(Clone, Copy, Debug, PartialEq, Eq, Structural)]
pub struct Ident {
    pub vendor_id: u16,
    pub device_id: u16,
    pub class: u8,
    pub subclass: u8,
    pub prog_if: u8,
    pub revision_id: u8,
    pub sub_vendor_id: u16,
    pub sub_device_id: u16,
}

impl Default for Ident {
    fn default() -> (r: Ident)
        ensures
            r == (Ident {
                vendor_id: 0,
                device_id: 0,
                class: 0,
                subclass: 0,
                prog_if: 0,
                revision_id: 0,
                sub_vendor_id: 0,
                sub_device_id: 0,
            }),
    {
        Ident {
            vendor_id: 0,
            device_id: 0,
            class: 0,
            subclass: 0,
            prog_if: 0,
            revision_id: 0,
            sub_vendor_id: 0,
            sub_device_id: 0,
        }
    }
}

// ---------------------------------------------------------------------------
// The command register
// ---------------------------------------------------------------------------

/// What the command register enables.
#[derive(Clone, Copy, Debug, PartialEq, Eq, Structural)]
pub struct RegCmd {
    /// Accesses to BARs in port space
    pub io_en: bool,
    /// Accesses to BARs in memory space
    pub mmio_en: bool,
    /// Accesses of the device to memory
    pub busmstr_en: bool,
    /// Interrupts by pin are disabled
    pub intx_dis: bool,
}

impl RegCmd {
    /// Nothing enabled.
    pub open spec fn spec_empty() -> RegCmd {
        RegCmd { io_en: false, mmio_en: false, busmstr_en: false, intx_dis: false }
    }

    /// The value of the register.
    pub open spec fn spec_bits(self) -> u16 {
        ((if self.io_en {
            0x1int
        } else {
            0
        }) + (if self.mmio_en {
            0x2int
        } else {
            0
        }) + (if self.busmstr_en {
            0x4int
        } else {
            0
        }) + (if self.intx_dis {
            0x400int
        } else {
            0
        })) as u16
    }

    /// What a value of the register enables, whatever other bits it holds.
    pub open spec fn spec_truncate(v: u16) -> RegCmd {
        RegCmd {
            io_en: v % 2 == 1,
            mmio_en: (v / 2) % 2 == 1,
            busmstr_en: (v / 4) % 2 == 1,
            intx_dis: (v / 0x400) % 2 == 1,
        }
    }

    /// Nothing enabled.
    pub fn empty() -> (r: RegCmd)
        ensures
            r == Self::spec_empty(),
    {
        RegCmd { io_en: false, mmio_en: false, busmstr_en: false, intx_dis: false }
    }

    /// The value of the register.
    pub fn bits(&self) -> (r: u16)
        ensures
            r == self.spec_bits(),
    {
        let a: u16 = if self.io_en {
            0x1
        } else {
            0
        };
        let b: u16 = if self.mmio_en {
            0x2
        } else {
            0
        };
        let c: u16 = if self.busmstr_en {
            0x4
        } else {
            0
        };
        let d: u16 = if self.intx_dis {
            0x400
        } else {
            0
        };
        a + b + c + d
    }

    /// What a value of the register enables, whatever other bits it holds.
    pub fn from_bits_truncate(v: u16) -> (r: RegCmd)
        ensures
            r == Self::spec_truncate(v),
    {
        RegCmd {
            io_en: v % 2 == 1,
            mmio_en: (v / 2) % 2 == 1,
            busmstr_en: (v / 4) % 2 == 1,
            intx_dis: (v / 0x400) % 2 == 1,
        }
    }

    /// What a value of the register enables, if it holds no other bits.
    pub fn from_bits(v: u16) -> (r: Option<RegCmd>)
        ensures
            r == (if Self::spec_truncate(v).spec_bits() == v {
                Some(Self::spec_truncate(v))
            } else {
                None
            }),
    {
        let c: RegCmd = Self::from_bits_truncate(v);
        if c.bits() == v {
            Some(c)
        } else {
            None
        }
    }
}

/// The value of the command register tells what it enables.
pub proof fn law_command_round_trip(c: RegCmd)
    ensures
        RegCmd::spec_truncate(c.spec_bits()) == c,
{
}

// ---------------------------------------------------------------------------
// The state
// ---------------------------------------------------------------------------

/// What the bus tells of the place of a device.
#[derive(Clone, Copy, Debug, PartialEq, Eq, Structural)]
pub struct SlotInfo {
    /// Whether the device has several functions.
    pub is_multifunc: bool,
    /// Whether the line that its interrupt pin drives is asserted.
    pub lintr_asserted: bool,
}

/// What accesses to a device depend on and bring about.
#[derive(Debug)]
pub struct DevCtx {
    pub slot: SlotInfo,
    pub events: Vec<DevEvent>,
}

/// What the state of a device holds.
#[verifier::ext_equal]
pub struct DevView {
    pub ident: Ident,
    pub lintr_support: bool,
    pub regions: Seq<RegSpan<CfgReg>>,
    pub caps: Seq<Cap>,
    pub msix: Option<MsixView>,
    pub reg_command: RegCmd,
    pub reg_intr_line: u8,
    pub attach: Option<Attachment>,
    pub bars: Seq<Entry>,
}

/// The state of a device.
#[derive(Debug)]
pub struct DeviceState {
    pub ident: Ident,
    /// Whether the device can use an interrupt pin.
    pub lintr_support: bool,
    /// The layout of the configuration space.
    pub regions: Vec<RegSpan<CfgReg>>,
    pub caps: Vec<Cap>,
    pub msix_cfg: Option<MsixCfg>,
    pub reg_command: RegCmd,
    pub reg_intr_line: u8,
    /// The place of the device, once it has one.
    pub attach: Option<Attachment>,
    pub bars: Bars,
}

/// What optional MSI-X state holds.
pub open spec fn msix_view(m: Option<MsixCfg>) -> Option<MsixView> {
    match m {
        Some(c) => Some(c@),
        None => None,
    }
}

impl View for DeviceState {
    type V = DevView;

    open spec fn view(&self) -> DevView {
        DevView {
            ident: self.ident,
            lintr_support: self.lintr_support,
            regions: self.regions@,
            caps: self.caps@,
            msix: msix_view(self.msix_cfg),
            reg_command: self.reg_command,
            reg_intr_line: self.reg_intr_line,
            attach: self.attach,
            bars: self.bars.entries@,
        }
    }
}

/// A device with what accesses to it deal with.
#[verifier::ext_equal]
pub struct DevModel {
    pub dev: DevView,
    pub slot: SlotInfo,
    pub events: Seq<DevEvent>,
}

impl DevView {
    /// The invariant of devices.
    pub open spec fn wf(self) -> bool {
        &&& layout_ok(self.regions, self.caps)
        &&& bars_wf(self.bars)
        &&& self.msix matches Some(c) ==> c.wf()
        &&& self.caps_served()
    }

    /// Whether there is MSI-X state if there is a capability for it.
    pub open spec fn caps_served(self) -> bool {
        forall|i: int|
            0 <= i < self.caps.len() && (#[trigger] self.caps[i]).id == CAP_ID_MSIX
                ==> self.msix is Some
    }

    /// Whether the place of the device gives it an interrupt pin.
    pub open spec fn has_pin(self) -> bool {
        match self.attach {
            Some(a) => a.lintr_cfg is Some,
            None => false,
        }
    }

    /// How the device signals interrupts.
    pub open spec fn intr_mode(self) -> IntrMode {
        if self.msix matches Some(c) && c.enabled {
            IntrMode::Msix
        } else if self.has_pin() && !self.reg_command.intx_dis {
            IntrMode::INTxPin
        } else {
            IntrMode::Disabled
        }
    }

    /// What the status register reads as.
    pub open spec fn status(self, slot: SlotInfo) -> u16 {
        ((if self.lintr_support && self.has_pin() && slot.lintr_asserted {
            REG_STATUS_INTR as int
        } else {
            0
        }) + (if self.caps.len() > 0 {
            REG_STATUS_CAP_LIST as int
        } else {
            0
        })) as u16
    }

    /// What the interrupt pin register reads as.
    pub open spec fn intr_pin(self) -> u8 {
        if self.lintr_support {
            match self.attach {
                Some(a) => match a.lintr_cfg {
                    Some(l) => l.id.spec_raw(),
                    None => 0,
                },
                None => 0,
            }
        } else {
            0
        }
    }

    /// Whether BARs of this kind are enabled.
    pub open spec fn bar_enabled(self, def: BarDefine) -> bool {
        if def.spec_is_pio() {
            self.reg_command.io_en
        } else {
            self.reg_command.mmio_en
        }
    }
}

/// What a read of a register of the standard header gives.
pub open spec fn std_rd(m: DevModel, id: StdCfgReg, len: nat) -> Seq<u8> {
    let d = m.dev;
    match id {
        StdCfgReg::VendorId => le16(d.ident.vendor_id),
        StdCfgReg::DeviceId => le16(d.ident.device_id),
        StdCfgReg::Class => seq![d.ident.class],
        StdCfgReg::Subclass => seq![d.ident.subclass],
        StdCfgReg::SubVendorId => le16(d.ident.sub_vendor_id),
        StdCfgReg::SubDeviceId => le16(d.ident.sub_device_id),
        StdCfgReg::ProgIf => seq![d.ident.prog_if],
        StdCfgReg::RevisionId => seq![d.ident.revision_id],
        StdCfgReg::Command => le16(d.reg_command.spec_bits()),
        StdCfgReg::Status => le16(d.status(m.slot)),
        StdCfgReg::IntrLine => seq![d.reg_intr_line],
        StdCfgReg::IntrPin => seq![d.intr_pin()],
        StdCfgReg::Bar(n) => le32(bar_read(d.bars, n.spec_idx())),
        StdCfgReg::CapPtr => seq![
            if d.caps.len() > 0 {
                d.caps[0].offset
            } else {
                0u8
            },
        ],
        StdCfgReg::HeaderType => seq![
            if d.attach is Some && m.slot.is_multifunc {
                0x80u8
            } else {
                0u8
            },
        ],
        _ => zeros(len),
    }
}

/// What a change of the command register does to one BAR.
pub open spec fn cmd_bar_event(e: Entry, i: int, before: RegCmd, after: RegCmd) -> Seq<DevEvent> {
    match e.kind.spec_define() {
        None => Seq::empty(),
        Some(def) => {
            let was = if def.spec_is_pio() {
                before.io_en
            } else {
                before.mmio_en
            };
            let now = if def.spec_is_pio() {
                after.io_en
            } else {
                after.mmio_en
            };
            if was == now {
                Seq::empty()
            } else if now {
                seq![DevEvent::BarRegister(BarN::spec_of(i), def, e.value)]
            } else {
                seq![DevEvent::BarUnregister(BarN::spec_of(i))]
            }
        },
    }
}

/// What a change of the command register does to the first `n` BARs.
pub open spec fn cmd_events(bars: Seq<Entry>, before: RegCmd, after: RegCmd, n: int) -> Seq<DevEvent>
    decreases n,
{
    if n <= 0 {
        Seq::empty()
    } else {
        cmd_events(bars, before, after, n - 1) + cmd_bar_event(bars[n - 1], n - 1, before, after)
    }
}

/// What a write to the command register leads to.
pub open spec fn cmd_written(m: DevModel, val: RegCmd) -> DevModel {
    let before = m.dev.reg_command;
    let dev = DevView { reg_command: val, ..m.dev };
    let events = m.events + cmd_events(m.dev.bars, before, val, 6);
    DevModel {
        dev,
        events: if before.intx_dis != val.intx_dis {
            events.push(DevEvent::IntrModeChange(dev.intr_mode()))
        } else {
            events
        },
        ..m
    }
}

/// What a write to a BAR leads to: if its address changes while it is enabled,
/// it is moved.
pub open spec fn bar_reg_written(m: DevModel, n: BarN, val: u32) -> DevModel {
    let s = m.dev.bars;
    let i = n.spec_idx();
    let h = bar_home(s, i);
    let dev = DevView { bars: bars_written(s, i, val), ..m.dev };
    let new = bar_written(s, i, val);
    let moved = !(s[i].kind is Empty) && new != s[h].value && m.dev.bar_enabled(
        s[h].kind.spec_define()->0,
    );
    DevModel {
        dev,
        events: if moved {
            m.events.push(DevEvent::BarUnregister(BarN::spec_of(h))).push(
                DevEvent::BarRegister(BarN::spec_of(h), s[h].kind.spec_define()->0, new),
            )
        } else {
            m.events
        },
        ..m
    }
}

/// What a write to a register of the standard header leads to.
pub open spec fn std_wr(m: DevModel, id: StdCfgReg, data: Seq<u8>) -> DevModel {
    match id {
        StdCfgReg::Command => cmd_written(m, RegCmd::spec_truncate(val16(data))),
        StdCfgReg::IntrLine => DevModel {
            dev: DevView { reg_intr_line: data[0], ..m.dev },
            ..m
        },
        StdCfgReg::Bar(n) => bar_reg_written(m, n, val32(data)),
        _ => m,
    }
}

/// Registers that identify a device, or tell of its place, its interrupt pin or
/// its capabilities, are not changed by any write.
pub proof fn law_header_read_only(m: DevModel, id: StdCfgReg, data: Seq<u8>, other: StdCfgReg, len: nat)
    requires
        !(other is Command || other is IntrLine || other is Bar),
    ensures
        std_rd(std_wr(m, id, data), other, len) == std_rd(m, other, len),
{
}

/// What is written to the interrupt line register, and the known bits of what
/// is written to the command register, can be read back.
pub proof fn law_header_read_back(m: DevModel, data: Seq<u8>)
    ensures
        data.len() == 1 ==> std_rd(std_wr(m, StdCfgReg::IntrLine, data), StdCfgReg::IntrLine, 1)
            == data,
        std_rd(std_wr(m, StdCfgReg::Command, data), StdCfgReg::Command, 2) == le16(
            RegCmd::spec_truncate(val16(data)).spec_bits(),
        ),
{
    if data.len() == 1 {
        assert(seq![data[0]] =~= data);
    }
}

/// A change of the command register enables the BARs whose kind it enables,
/// disables those whose kind it disables, and leaves all others alone.
pub proof fn law_command_bars(e: Entry, i: int, before: RegCmd, after: RegCmd)
    ensures
        ({
            let ev = cmd_bar_event(e, i, before, after);
            match e.kind.spec_define() {
                None => ev.len() == 0,
                Some(def) => {
                    let was = if def.spec_is_pio() {
                        before.io_en
                    } else {
                        before.mmio_en
                    };
                    let now = if def.spec_is_pio() {
                        after.io_en
                    } else {
                        after.mmio_en
                    };
                    &&& ev.contains(DevEvent::BarRegister(BarN::spec_of(i), def, e.value)) <==> !was
                        && now
                    &&& ev.contains(DevEvent::BarUnregister(BarN::spec_of(i))) <==> was && !now
                    &&& ev.len() <= 1
                },
            }
        }),
{
    let ev = cmd_bar_event(e, i, before, after);
    if ev.len() > 0 {
        assert(ev.contains(ev[0]));
    }
}

impl RegSpace<StdCfgLayout> for DeviceState {
    type Id = StdCfgReg;

    type Ctx = DevCtx;

    type V = DevModel;

    open spec fn model(&self, ctx: &DevCtx) -> DevModel {
        DevModel { dev: self@, slot: ctx.slot, events: ctx.events@ }
    }

    open spec fn inv(&self, ctx: &DevCtx) -> bool {
        self@.wf() && self@.attach is Some
    }

    open spec fn span_at(m: DevModel, off: int) -> Option<RegSpan<StdCfgReg>> {
        table_find(std_table(), 0, 0, off)
    }

    open spec fn access_ok(m: DevModel, id: StdCfgReg, off: int, len: int) -> bool {
        id is Reserved || (off == 0 && len == id.size())
    }

    open spec fn reg_rd(m: DevModel, id: StdCfgReg, off: int, buf: Seq<u8>) -> Seq<u8> {
        std_rd(m, id, buf.len())
    }

    open spec fn reg_wr(m: DevModel, id: StdCfgReg, off: int, data: Seq<u8>) -> DevModel {
        std_wr(m, id, data)
    }

    proof fn span_laws(&self, ctx: &DevCtx, off: int) {
        law_std_layout();
        lemma_table_find(std_table(), 0, 0, off);
    }

    fn find(&self, ctx: &DevCtx, off: usize) -> (r: Option<RegSpan<StdCfgReg>>) {
        proof {
            law_std_layout();
        }
        find_in_table(&std_layout(), off)
    }

    fn read_reg(&self, ctx: &DevCtx, id: StdCfgReg, off: usize, buf: Vec<u8>) -> (r: Vec<u8>) {
        self.cfg_std_read(id, buf.len(), ctx)
    }

    fn write_reg(&mut self, ctx: &mut DevCtx, id: StdCfgReg, off: usize, data: Vec<u8>) {
        self.cfg_std_write(id, &data, ctx);
    }
}

impl DeviceState {
    /// The device with what accesses to it deal with.
    pub open spec fn in_ctx(&self, ctx: &DevCtx) -> DevModel {
        DevModel { dev: self@, slot: ctx.slot, events: ctx.events@ }
    }

    /// How the device signals interrupts.
    pub fn get_intr_mode(&self) -> (r: IntrMode)
        ensures
            r == self@.intr_mode(),
    {
        if let Some(cfg) = &self.msix_cfg {
            if cfg.is_enabled() {
                return IntrMode::Msix;
            }
        }
        if let Some(attach) = &self.attach {
            if attach.lintr_cfg().is_some() && !self.reg_command.intx_dis {
                return IntrMode::INTxPin;
            }
        }
        IntrMode::Disabled
    }

    /// Reads a register of the standard header.
    pub fn cfg_std_read(&self, id: StdCfgReg, len: usize, ctx: &DevCtx) -> (r: Vec<u8>)
        requires
            self@.wf(),
            id is Reserved || len == id.size(),
        ensures
            r@ == std_rd(self.in_ctx(ctx), id, len as nat),
            r@.len() == len,
    {
        match id {
            StdCfgReg::VendorId => le16_vec(self.ident.vendor_id),
            StdCfgReg::DeviceId => le16_vec(self.ident.device_id),
            StdCfgReg::Class => byte_vec(self.ident.class),
            StdCfgReg::Subclass => byte_vec(self.ident.subclass),
            StdCfgReg::SubVendorId => le16_vec(self.ident.sub_vendor_id),
            StdCfgReg::SubDeviceId => le16_vec(self.ident.sub_device_id),
            StdCfgReg::ProgIf => byte_vec(self.ident.prog_if),
            StdCfgReg::RevisionId => byte_vec(self.ident.revision_id),
            StdCfgReg::Command => le16_vec(self.reg_command.bits()),
            StdCfgReg::Status => {
                let mut val: u16 = 0;
                if self.lintr_support {
                    if let Some(attach) = &self.attach {
                        if attach.lintr_cfg().is_some() && ctx.slot.lintr_asserted {
                            val = val + REG_STATUS_INTR;
                        }
                    }
                }
                if self.caps.len() > 0 {
                    val = val + REG_STATUS_CAP_LIST;
                }
                le16_vec(val)
            },
            StdCfgReg::IntrLine => byte_vec(self.reg_intr_line),
            StdCfgReg::IntrPin => {
                let mut pin: u8 = 0;
                if self.lintr_support {
                    if let Some(attach) = &self.attach {
                        if let Some(l) = attach.lintr_cfg() {
                            pin = l.id.raw();
                        }
                    }
                }
                byte_vec(pin)
            },
            StdCfgReg::Bar(bar) => le32_vec(self.bars.reg_read(bar)),
            StdCfgReg::CapPtr => byte_vec(
                if self.caps.len() > 0 {
                    self.caps[0].offset
                } else {
                    0
                },
            ),
            StdCfgReg::HeaderType => {
                let mut val: u8 = HEADER_TYPE_DEVICE;
                if self.attach.is_some() && ctx.slot.is_multifunc {
                    val = val + HEADER_TYPE_MULTIFUNC;
                }
                byte_vec(val)
            },
            // There is no expansion ROM, and the rest is not implemented.
            _ => zero_vec(len),
        }
    }

    /// Writes a register of the standard header.
    pub fn cfg_std_write(&mut self, id: StdCfgReg, data: &Vec<u8>, ctx: &mut DevCtx)
        requires
            old(self)@.wf(),
            id is Reserved || data@.len() == id.size(),
        ensures
            final(self)@.wf(),
            final(self).in_ctx(final(ctx)) == std_wr(old(self).in_ctx(old(ctx)), id, data@),
    {
        match id {
            StdCfgReg::Command => {
                let val: u16 = get_le16(data, 0);
                assert(data@.subrange(0, 2) =~= data@);
                self.reg_cmd_write(RegCmd::from_bits_truncate(val), &mut ctx.events);
            },
            StdCfgReg::IntrLine => {
                self.reg_intr_line = data[0];
            },
            StdCfgReg::Bar(bar) => {
                let val: u32 = get_le32(data, 0);
                assert(data@.subrange(0, 4) =~= data@);
                if let Some(w) = self.bars.reg_write(bar, val) {
                    let enabled: bool = (self.reg_command.io_en && w.def.is_pio()) || (
                    self.reg_command.mmio_en && w.def.is_mmio());
                    if enabled {
                        ctx.events.push(DevEvent::BarUnregister(w.id));
                        ctx.events.push(DevEvent::BarRegister(w.id, w.def, w.val_new));
                    }
                }
            },
            // Read-only, or not implemented
            _ => {},
        }
    }

    /// Writes the command register: BARs are enabled and disabled, and the
    /// device is told if its interrupts are signalled in another way.
    pub fn reg_cmd_write(&mut self, val: RegCmd, events: &mut Vec<DevEvent>)
        requires
            old(self)@.wf(),
        ensures
            final(self)@.wf(),
            forall|slot: SlotInfo|
                (DevModel { dev: final(self)@, slot, events: final(events)@ })
                    == #[trigger] cmd_written(
                    (DevModel { dev: old(self)@, slot, events: old(events)@ }),
                    val,
                ),
    {
        let before: RegCmd = self.reg_command;
        let ghost v0 = self@;
        let ghost ev0 = events@;
        assert(ev0 + Seq::<DevEvent>::empty() =~= ev0);
        let mut i: u8 = 0;
        while i < 6
            invariant
                i <= 6,
                self@ == v0,
                before == v0.reg_command,
                events@ == ev0 + cmd_events(v0.bars, before, val, i as int),
            decreases 6 - i,
        {
            if let Some(n) = BarN::from_repr(i) {
                if let Some((def, v)) = self.bars.get(n) {
                    if before.io_en != val.io_en && def.is_pio() {
                        if val.io_en {
                            events.push(DevEvent::BarRegister(n, def, v));
                        } else {
                            events.push(DevEvent::BarUnregister(n));
                        }
                    }
                    if before.mmio_en != val.mmio_en && def.is_mmio() {
                        if val.mmio_en {
                            events.push(DevEvent::BarRegister(n, def, v));
                        } else {
                            events.push(DevEvent::BarUnregister(n));
                        }
                    }
                }
            }
            i += 1;
            assert(events@ =~= ev0 + cmd_events(v0.bars, before, val, i as int));
        }
        self.reg_command = val;
        if before.intx_dis != val.intx_dis {
            let mode: IntrMode = self.get_intr_mode();
            events.push(DevEvent::IntrModeChange(mode));
        }
    }
}

// ---------------------------------------------------------------------------
// The configuration space
// ---------------------------------------------------------------------------

/// What accesses to MSI-X state deal with.
pub open spec fn msix_model(m: DevModel) -> MsixModel {
    MsixModel { cfg: m.dev.msix->0, events: m.events }
}

/// What a read of a region of the configuration space leaves in a buffer. A
/// region that the device handles by itself is left to it.
pub open spec fn dev_cfg_rd(m: DevModel, id: CfgReg, off: int, buf: Seq<u8>) -> Seq<u8> {
    match id {
        CfgReg::Std => space_read::<StdCfgLayout, DeviceState>(m, off, buf),
        CfgReg::Custom(_) => buf,
        CfgReg::CapId(i) => seq![m.dev.caps[i as int].id],
        CfgReg::CapNext(i) => seq![
            if i + 1 < m.dev.caps.len() {
                m.dev.caps[i + 1].offset
            } else {
                0u8
            },
        ],
        CfgReg::CapBody(i) => if m.dev.caps[i as int].id == CAP_ID_MSIX {
            space_read::<MsixCapLayout, MsixCfg>(msix_model(m), off, buf)
        } else {
            buf
        },
    }
}

/// What a write to a region of the configuration space leads to.
pub open spec fn dev_cfg_wr(m: DevModel, id: CfgReg, off: int, data: Seq<u8>) -> DevModel {
    match id {
        CfgReg::Std => space_write::<StdCfgLayout, DeviceState>(m, off, data),
        CfgReg::CapBody(i) => if m.dev.caps[i as int].id == CAP_ID_MSIX {
            let after = space_write::<MsixCapLayout, MsixCfg>(msix_model(m), off, data);
            let dev = DevView { msix: Some(after.cfg), ..m.dev };
            DevModel {
                dev,
                events: after.events.push(DevEvent::IntrModeChange(dev.intr_mode())),
                ..m
            }
        } else {
            m
        },
        _ => m,
    }
}

/// Whether a region takes an access of `len` bytes at `off` within it.
pub open spec fn dev_cfg_ok(m: DevModel, id: CfgReg, off: int, len: int) -> bool {
    match id {
        CfgReg::Std => 0 <= off && off + len <= LEN_CFG_STD,
        CfgReg::Custom(_) => 0 <= off && off + len <= LEN_CFG_ECAM,
        CfgReg::CapId(i) => i < m.dev.caps.len() && off == 0 && len == 1,
        CfgReg::CapNext(i) => i < m.dev.caps.len() && off == 0 && len == 1,
        CfgReg::CapBody(i) => i < m.dev.caps.len() && 0 <= off && off + len <= LEN_CFG_ECAM,
    }
}

/// The chain of capabilities visits all of them: the pointer in the header
/// leads to the first one, and each one leads to the next, up to the last,
/// which leads nowhere.
pub proof fn law_capability_chain(m: DevModel, i: int)
    requires
        m.dev.wf(),
        0 <= i < m.dev.caps.len(),
    ensures
        std_rd(m, StdCfgReg::CapPtr, 1) == seq![m.dev.caps[0].offset],
        ({
            let o = m.dev.caps[i].offset as int;
            &&& region_at(m.dev.regions, 0, o) matches Some(r) && dev_cfg_rd(
                m,
                r.id,
                o - r.start,
                zeros(1),
            ) == seq![m.dev.caps[i].id]
            &&& region_at(m.dev.regions, 0, o + 1) matches Some(r) && dev_cfg_rd(
                m,
                r.id,
                o + 1 - r.start,
                zeros(1),
            ) == seq![
                if i + 1 < m.dev.caps.len() {
                    m.dev.caps[i + 1].offset
                } else {
                    0u8
                },
            ]
        }),
{
    assert(crate::hw::pci::cfgspace::cap_placed(m.dev.regions, m.dev.caps, i));
}

impl DeviceState {
    /// Reads from a region of the configuration space.
    pub fn cfg_region_read(&self, id: CfgReg, off: usize, buf: Vec<u8>, ctx: &DevCtx) -> (r: Vec<u8>)
        requires
            self@.wf(),
            self@.attach is Some,
            dev_cfg_ok(self.in_ctx(ctx), id, off as int, buf@.len() as int),
        ensures
            r@ == dev_cfg_rd(self.in_ctx(ctx), id, off as int, buf@),
            r@.len() == buf@.len(),
    {
        match id {
            CfgReg::Std => process_read::<StdCfgLayout, DeviceState>(self, ctx, off, buf),
            CfgReg::Custom(_) => buf,
            CfgReg::CapId(i) => byte_vec(self.caps[i as usize].id),
            CfgReg::CapNext(i) => {
                let next: usize = i as usize + 1;
                byte_vec(
                    if next < self.caps.len() {
                        self.caps[next].offset
                    } else {
                        0
                    },
                )
            },
            CfgReg::CapBody(i) => {
                if self.caps[i as usize].id == CAP_ID_MSIX {
                    match &self.msix_cfg {
                        Some(cfg) => cfg.cfg_read(&ctx.events, off, buf),
                        None => buf,
                    }
                } else {
                    buf
                }
            },
        }
    }

    /// Writes to a region of the configuration space.
    pub fn cfg_region_write(&mut self, id: CfgReg, off: usize, data: Vec<u8>, ctx: &mut DevCtx)
        requires
            old(self)@.wf(),
            old(self)@.attach is Some,
            dev_cfg_ok(old(self).in_ctx(old(ctx)), id, off as int, data@.len() as int),
        ensures
            final(self)@.wf(),
            final(self)@.same_shape(old(self)@),
            final(self).in_ctx(final(ctx)) == dev_cfg_wr(
                old(self).in_ctx(old(ctx)),
                id,
                off as int,
                data@,
            ),
    {
        let ghost v0 = self@;
        proof {
            lemma_region_shape(self.in_ctx(ctx), id, off as int, data@);
        }
        match id {
            CfgReg::Std => {
                process_write::<StdCfgLayout, DeviceState>(self, ctx, off, data);
            },
            CfgReg::CapBody(i) => {
                if self.caps[i as usize].id == CAP_ID_MSIX {
                    assert(v0.caps[i as int].id == CAP_ID_MSIX);
                    if let Some(cfg) = &mut self.msix_cfg {
                        cfg.cfg_write(&mut ctx.events, off, data);
                    }
                    // Interrupts may now be signalled in another way.
                    let mode: IntrMode = self.get_intr_mode();
                    ctx.events.push(DevEvent::IntrModeChange(mode));
                }
            },
            _ => {},
        }
    }
}

impl RegSpace<CfgLayout> for DeviceState {
    type Id = CfgReg;

    type Ctx = DevCtx;

    type V = DevModel;

    open spec fn model(&self, ctx: &DevCtx) -> DevModel {
        self.in_ctx(ctx)
    }

    open spec fn inv(&self, ctx: &DevCtx) -> bool {
        self@.wf() && self@.attach is Some
    }

    open spec fn span_at(m: DevModel, off: int) -> Option<RegSpan<CfgReg>> {
        region_at(m.dev.regions, 0, off)
    }

    open spec fn access_ok(m: DevModel, id: CfgReg, off: int, len: int) -> bool {
        dev_cfg_ok(m, id, off, len)
    }

    open spec fn reg_rd(m: DevModel, id: CfgReg, off: int, buf: Seq<u8>) -> Seq<u8> {
        dev_cfg_rd(m, id, off, buf)
    }

    open spec fn reg_wr(m: DevModel, id: CfgReg, off: int, data: Seq<u8>) -> DevModel {
        dev_cfg_wr(m, id, off, data)
    }

    proof fn span_laws(&self, ctx: &DevCtx, off: int) {
        lemma_cfg_spans(self@, off);
    }

    fn find(&self, ctx: &DevCtx, off: usize) -> (r: Option<RegSpan<CfgReg>>) {
        proof {
            lemma_region_bounds(self@);
        }
        find_region(&self.regions, off)
    }

    fn read_reg(&self, ctx: &DevCtx, id: CfgReg, off: usize, buf: Vec<u8>) -> (r: Vec<u8>) {
        self.cfg_region_read(id, off, buf, ctx)
    }

    fn write_reg(&mut self, ctx: &mut DevCtx, id: CfgReg, off: usize, data: Vec<u8>) {
        self.cfg_region_write(id, off, data, ctx);
    }
}

/// Regions end within the configuration space.
pub proof fn lemma_region_bounds(v: DevView)
    requires
        v.wf(),
    ensures
        forall|k: int|
            0 <= k < v.regions.len() ==> (#[trigger] v.regions[k]).start + v.regions[k].len
                <= LEN_CFG_ECAM,
{
    assert forall|k: int| 0 <= k < v.regions.len() implies (#[trigger] v.regions[k]).start
        + v.regions[k].len <= LEN_CFG_ECAM by {
        assert(region_ok(v.regions[k], v.caps.len()));
    }
}

/// Regions take the accesses that they are given.
pub proof fn lemma_cfg_spans(v: DevView, off: int)
    requires
        v.wf(),
    ensures
        region_at(v.regions, 0, off) matches Some(s) ==> {
            &&& s.start <= off < s.start + s.len
            &&& s.start + s.len <= LEN_CFG_ECAM
            &&& forall|m: DevModel|
                #![trigger dev_cfg_ok(m, s.id, 0, s.len as int)]
                m.dev == v && !s.passthru ==> dev_cfg_ok(m, s.id, 0, s.len as int)
            &&& forall|m: DevModel, o: int, n: int|
                m.dev == v && s.passthru && 0 <= o && 0 < n && o + n <= s.len
                    ==> #[trigger] dev_cfg_ok(m, s.id, o, n)
        },
{
    lemma_region_at(v.regions, 0, off);
    if let Some(s) = region_at(v.regions, 0, off) {
        let k = choose|k: int| 0 <= k < v.regions.len() && #[trigger] v.regions[k] == s;
        assert(region_ok(v.regions[k], v.caps.len()));
    }
}

impl DevView {
    /// Whether two states are those of the same device in the same place.
    pub open spec fn same_shape(self, v: DevView) -> bool {
        &&& self.ident == v.ident
        &&& self.lintr_support == v.lintr_support
        &&& self.regions == v.regions
        &&& self.caps == v.caps
        &&& self.attach == v.attach
        &&& match (self.msix, v.msix) {
            (Some(a), Some(b)) => a.count == b.count && a.bar == b.bar,
            (None, None) => true,
            _ => false,
        }
    }
}

proof fn lemma_std_shape(m: DevModel, off: int, data: Seq<u8>)
    ensures
        space_write::<StdCfgLayout, DeviceState>(m, off, data).dev.same_shape(m.dev),
    decreases data.len(),
{
    if data.len() > 0 {
        match <DeviceState as RegSpace<StdCfgLayout>>::span_at(m, off) {
            None => {
                lemma_std_shape(m, off + 1, data.skip(1));
            },
            Some(s) => {
                let n = span_part(s, off, data.len() as int);
                if 0 < n {
                    lemma_std_shape(
                        part_write::<StdCfgLayout, DeviceState>(m, s, off, data),
                        off + n,
                        data.skip(n),
                    );
                }
            },
        }
    }
}

proof fn lemma_region_shape(m: DevModel, id: CfgReg, off: int, data: Seq<u8>)
    requires
        m.dev.caps_served(),
        id matches CfgReg::CapBody(i) ==> i < m.dev.caps.len(),
    ensures
        dev_cfg_wr(m, id, off, data).dev.same_shape(m.dev),
{
    match id {
        CfgReg::Std => {
            lemma_std_shape(m, off, data);
        },
        CfgReg::CapBody(i) => {
            if m.dev.caps[i as int].id == CAP_ID_MSIX {
                lemma_cap_shape(msix_model(m), off, data);
            }
        },
        _ => {},
    }
}

proof fn lemma_cfg_shape(m: DevModel, off: int, data: Seq<u8>)
    requires
        m.dev.caps_served(),
        layout_ok(m.dev.regions, m.dev.caps),
    ensures
        space_write::<CfgLayout, DeviceState>(m, off, data).dev.same_shape(m.dev),
    decreases data.len(),
{
    if data.len() > 0 {
        match <DeviceState as RegSpace<CfgLayout>>::span_at(m, off) {
            None => {
                lemma_cfg_shape(m, off + 1, data.skip(1));
            },
            Some(s) => {
                lemma_region_at(m.dev.regions, 0, off);
                let k = choose|k: int|
                    0 <= k < m.dev.regions.len() && #[trigger] m.dev.regions[k] == s;
                assert(region_ok(m.dev.regions[k], m.dev.caps.len()));
                let n = span_part(s, off, data.len() as int);
                if 0 < n {
                    let o = off - s.start;
                    lemma_region_shape(m, s.id, o, data.take(n));
                    lemma_region_shape(
                        m,
                        s.id,
                        0,
                        overlay(dev_cfg_rd(m, s.id, 0, zeros(s.len as nat)), o, data.take(n)),
                    );
                    lemma_cfg_shape(
                        part_write::<CfgLayout, DeviceState>(m, s, off, data),
                        off + n,
                        data.skip(n),
                    );
                }
            },
        }
    }
}

impl DeviceState {
    /// Services an access to the configuration space of a device that handles
    /// no region of it by itself.
    pub fn cfg_rw(&mut self, rwo: RWOp, ctx: &mut DevCtx) -> (r: RWOp)
        requires
            old(self)@.wf(),
            old(self)@.attach is Some,
            rwo.spec_offset() + rwo.bytes().len() <= usize::MAX,
        ensures
            final(self)@.wf(),
            final(self)@.same_shape(old(self)@),
            r.spec_offset() == rwo.spec_offset(),
            r is Read <==> rwo is Read,
            r.bytes().len() == rwo.bytes().len(),
            rwo is Read ==> {
                &&& final(self).in_ctx(final(ctx)) == old(self).in_ctx(old(ctx))
                &&& r.bytes() == space_read::<CfgLayout, DeviceState>(
                    old(self).in_ctx(old(ctx)),
                    rwo.spec_offset() as int,
                    rwo.bytes(),
                )
            },
            rwo is Write ==> {
                &&& r.bytes() == rwo.bytes()
                &&& final(self).in_ctx(final(ctx)) == space_write::<CfgLayout, DeviceState>(
                    old(self).in_ctx(old(ctx)),
                    rwo.spec_offset() as int,
                    rwo.bytes(),
                )
            },
    {
        match rwo {
            RWOp::Read(ro) => {
                let offset: usize = ro.offset;
                let buf: Vec<u8> = process_read::<CfgLayout, DeviceState>(
                    self,
                    ctx,
                    offset,
                    ro.buf,
                );
                RWOp::Read(ReadOp { offset, buf })
            },
            RWOp::Write(wo) => {
                let copy: Vec<u8> = copy_vec(&wo.buf);
                proof {
                    lemma_cfg_shape(self.in_ctx(ctx), wo.offset as int, copy@);
                }
                process_write::<CfgLayout, DeviceState>(self, ctx, wo.offset, copy);
                RWOp::Write(wo)
            },
        }
    }

    /// Services an access to a BAR, if it is that of the MSI-X table. Any other
    /// access is given back, to be serviced by the device.
    pub fn bar_rw(&mut self, bar: BarN, rwo: RWOp, ctx: &mut DevCtx) -> (r: Result<RWOp, RWOp>)
        requires
            old(self)@.wf(),
            rwo.spec_offset() + rwo.bytes().len() <= usize::MAX,
        ensures
            final(self)@.wf(),
            final(self)@.same_shape(old(self)@),
            ({
                let m = old(self).in_ctx(old(ctx));
                let t = final(self).in_ctx(final(ctx));
                let off = rwo.spec_offset() as int;
                if m.dev.msix matches Some(c) && c.bar == bar {
                    &&& r matches Ok(op) && op.spec_offset() == rwo.spec_offset() && (op is Read
                        <==> rwo is Read) && op.bytes() == if rwo is Read {
                        space_read::<MsixBarLayout, MsixCfg>(msix_model(m), off, rwo.bytes())
                    } else {
                        rwo.bytes()
                    }
                    &&& t == if rwo is Read {
                        m
                    } else {
                        let after = space_write::<MsixBarLayout, MsixCfg>(
                            msix_model(m),
                            off,
                            rwo.bytes(),
                        );
                        DevModel {
                            dev: DevView { msix: Some(after.cfg), ..m.dev },
                            events: after.events,
                            ..m
                        }
                    }
                } else {
                    r == Err::<RWOp, RWOp>(rwo) && t == m
                }
            }),
    {
        if let Some(cfg) = &mut self.msix_cfg {
            if cfg.bar_match(bar) {
                return match rwo {
                    RWOp::Read(ro) => {
                        let offset: usize = ro.offset;
                        let buf: Vec<u8> = cfg.bar_read(&ctx.events, offset, ro.buf);
                        Ok(RWOp::Read(ReadOp { offset, buf }))
                    },
                    RWOp::Write(wo) => {
                        let copy: Vec<u8> = copy_vec(&wo.buf);
                        cfg.bar_write(&mut ctx.events, wo.offset, copy);
                        Ok(RWOp::Write(wo))
                    },
                };
            }
        }
        Err(rwo)
    }
}

// ---------------------------------------------------------------------------
// Life of a device
// ---------------------------------------------------------------------------

/// What a reset does to the first `n` BARs: their addresses become 0.
pub open spec fn bars_reset(bars: Seq<Entry>, n: int) -> Seq<Entry> {
    Seq::new(
        bars.len(),
        |i: int|
            if i < n && bars[i].kind.spec_define() is Some {
                Entry { value: 0, ..bars[i] }
            } else {
                bars[i]
            },
    )
}

/// What a reset tells of the first `n` BARs: they are placed nowhere.
pub open spec fn reset_events(bars: Seq<Entry>, n: int) -> Seq<DevEvent>
    decreases n,
{
    if n <= 0 {
        Seq::empty()
    } else if bars[n - 1].kind.spec_define() is Some {
        reset_events(bars, n - 1).push(DevEvent::BarUnregister(BarN::spec_of(n - 1)))
    } else {
        reset_events(bars, n - 1)
    }
}

/// What a reset leads to.
pub open spec fn dev_reset(m: DevModel) -> DevModel {
    let dev = DevView {
        reg_command: RegCmd::spec_empty(),
        msix: match m.dev.msix {
            Some(c) => Some(MsixView::spec_new(c.count, c.bar)),
            None => None,
        },
        ..m.dev
    };
    DevModel {
        dev: DevView { bars: bars_reset(m.dev.bars, 6), ..dev },
        events: m.events.push(DevEvent::IntrModeChange(dev.intr_mode())) + reset_events(
            m.dev.bars,
            6,
        ),
        ..m
    }
}

/// A second reset changes nothing about the device.
pub proof fn law_reset_idempotent(m: DevModel)
    requires
        m.dev.wf(),
    ensures
        dev_reset(dev_reset(m)).dev == dev_reset(m).dev,
{
    let once = dev_reset(m).dev;
    let twice = dev_reset(dev_reset(m)).dev;
    assert(twice.bars =~= once.bars);
    assert(twice =~= once);
}

/// What the state of a device is saved as.
#[derive(Debug)]
pub struct PciStateV1 {
    pub reg_command: u16,
    pub reg_intr_line: u8,
    pub bars: BarStateV1,
    pub msix: Option<MsixStateV1>,
}

impl DevView {
    /// Whether the state is saved as `s`.
    pub open spec fn saved_as(self, s: PciStateV1) -> bool {
        &&& s.reg_command == self.reg_command.spec_bits()
        &&& s.reg_intr_line == self.reg_intr_line
        &&& forall|i: int|
            0 <= i < 6 ==> #[trigger] s.bars.entries@[i] == entry_export(self.bars[i])
        &&& match (self.msix, s.msix) {
            (Some(c), Some(x)) => c.saved_as(x),
            (None, None) => true,
            _ => false,
        }
    }
}

/// What the BARs among the first `n` that are enabled lead to when the state of
/// a device is taken over.
pub open spec fn import_events(bars: Seq<Entry>, cmd: RegCmd, n: int) -> Seq<DevEvent>
    decreases n,
{
    if n <= 0 {
        Seq::empty()
    } else {
        let rest = import_events(bars, cmd, n - 1);
        let e = bars[n - 1];
        match e.kind.spec_define() {
            Some(def) => if (def.spec_is_pio() && cmd.io_en) || (!def.spec_is_pio() && cmd.mmio_en) {
                rest.push(DevEvent::BarRegister(BarN::spec_of(n - 1), def, e.value))
            } else {
                rest
            },
            None => rest,
        }
    }
}

/// What taking over MSI-X state leads to.
pub open spec fn msix_imported(c: Option<MsixView>, s: Option<MsixStateV1>) -> (
    Option<MsixView>,
    Option<MigrateStateError>,
) {
    match (c, s) {
        (Some(c), Some(s)) => if c.count != s.count {
            (Some(c), Some(MigrateStateError::MsixCount(c.count, s.count)))
        } else if c.count != s.entries@.len() {
            (
                Some(c),
                Some(MigrateStateError::MsixEntryCount(c.count as u64, s.entries@.len() as u64)),
            )
        } else {
            (Some(c.imported(s)), None)
        },
        (None, None) => (None, None),
        (None, Some(_)) => (None, Some(MigrateStateError::MsixUnexpected)),
        (Some(c), None) => (Some(c), Some(MigrateStateError::MsixMissing)),
    }
}

/// What taking over a saved state leads to, and why it failed, if it did.
pub open spec fn dev_imported(m: DevModel, s: PciStateV1) -> (DevModel, Option<MigrateStateError>) {
    let cmd = RegCmd::spec_truncate(s.reg_command);
    if cmd.spec_bits() != s.reg_command {
        (m, Some(MigrateStateError::PciCommand(s.reg_command)))
    } else {
        let (bars, e) = bars_imported(m.dev.bars, s.bars.entries@, 0);
        let dev = DevView {
            reg_command: cmd,
            reg_intr_line: s.reg_intr_line,
            bars,
            ..m.dev
        };
        if e is Some {
            (DevModel { dev, ..m }, e)
        } else {
            let (msix, e2) = msix_imported(m.dev.msix, s.msix);
            (
                DevModel {
                    dev: DevView { msix, ..dev },
                    events: m.events + import_events(bars, cmd, 6),
                    ..m
                },
                e2,
            )
        }
    }
}

/// A device that takes over the state that another one of the same kind saved
/// is in the same state, and no error occurs.
pub proof fn law_device_migrates(from: DevView, to: DevModel, s: PciStateV1)
    requires
        from.wf(),
        to.dev.wf(),
        from.saved_as(s),
        (from.msix is Some) == (to.dev.msix is Some),
        from.msix matches Some(c) ==> to.dev.msix matches Some(d) && d.count == c.count && d.bar
            == c.bar,
    ensures
        ({
            let (m, e) = dev_imported(to, s);
            &&& e is None
            &&& m.dev.reg_command == from.reg_command
            &&& m.dev.reg_intr_line == from.reg_intr_line
            &&& m.dev.msix == from.msix
            &&& forall|k: int|
                0 <= k < 6 ==> #[trigger] m.dev.bars[k].kind == from.bars[k].kind && (
                from.bars[k].kind.spec_define() is Some ==> m.dev.bars[k].value
                    == from.bars[k].value)
        }),
{
    law_command_round_trip(from.reg_command);
    assert(crate::hw::pci::bar::entry_ok(from.bars, 0));
    law_bars_migrate(from.bars, to.dev.bars, s.bars.entries@, 0);
    if let Some(c) = from.msix {
        law_msix_migrates(c, to.dev.msix->0, s.msix->0);
    }
}

impl DeviceState {
    /// Resets the device: its BARs are disabled and lose their addresses, and
    /// its interrupts are no longer signalled by messages.
    pub fn reset(&mut self, ctx: &mut DevCtx)
        requires
            old(self)@.wf(),
        ensures
            final(self)@.wf(),
            final(self).in_ctx(final(ctx)) == dev_reset(old(self).in_ctx(old(ctx))),
    {
        self.reg_command = RegCmd::empty();
        if let Some(cfg) = &mut self.msix_cfg {
            cfg.reset();
        }
        let mode: IntrMode = self.get_intr_mode();
        ctx.events.push(DevEvent::IntrModeChange(mode));
        let ghost v1 = self@;
        let ghost ev1 = ctx.events@;
        let ghost b0 = self@.bars;
        assert(ev1 + Seq::<DevEvent>::empty() =~= ev1);
        assert(b0 =~= bars_reset(b0, 0));
        let mut i: u8 = 0;
        while i < 6
            invariant
                i <= 6,
                self@ == (DevView { bars: bars_reset(b0, i as int), ..v1 }),
                self@.wf(),
                b0.len() == 6,
                ctx.slot == old(ctx).slot,
                ctx.events@ == ev1 + reset_events(b0, i as int),
            decreases 6 - i,
        {
            let ghost before = self@.bars;
            if let Some(n) = BarN::from_repr(i) {
                if self.bars.get(n).is_some() {
                    self.bars.set(n, 0);
                    ctx.events.push(DevEvent::BarUnregister(n));
                }
            }
            i += 1;
            assert(self@.bars =~= bars_reset(b0, i as int));
            assert(ctx.events@ =~= ev1 + reset_events(b0, i as int));
        }
    }

    /// Gives the device its place on a bus.
    pub fn attach(&mut self, attachment: Attachment)
        requires
            old(self)@.attach is None,
        ensures
            final(self)@ == (DevView { attach: Some(attachment), ..old(self)@ }),
    {
        self.attach = Some(attachment);
    }

    /// The interrupt pin of the device, if its place gives it one.
    pub fn lintr_pin(&self) -> (r: Option<LintrCfg>)
        ensures
            r == (match self@.attach {
                Some(a) => a.lintr_cfg,
                None => None,
            }),
    {
        match &self.attach {
            Some(a) => a.lintr_cfg(),
            None => None,
        }
    }

    /// Lends the interrupt vectors of the device, if it has any. They are given
    /// back by [`DeviceState::msix_return`].
    pub fn msix_hdl(&mut self) -> (r: Option<MsixHdl>)
        ensures
            final(self)@ == (DevView { msix: None, ..old(self)@ }),
            match r {
                Some(h) => old(self)@.msix == Some(h.cfg@),
                None => old(self)@.msix is None,
            },
    {
        let mut cfg: Option<MsixCfg> = None;
        std::mem::swap(&mut cfg, &mut self.msix_cfg);
        match cfg {
            Some(c) => Some(MsixHdl::new(c)),
            None => None,
        }
    }

    /// Takes interrupt vectors that were lent back.
    pub fn msix_return(&mut self, hdl: MsixHdl)
        ensures
            final(self)@ == (DevView { msix: Some(hdl.cfg@), ..old(self)@ }),
    {
        self.msix_cfg = Some(hdl.cfg);
    }

    /// The state to be moved to another host.
    pub fn export(&self) -> (r: PciStateV1)
        ensures
            self@.saved_as(r),
    {
        PciStateV1 {
            reg_command: self.reg_command.bits(),
            reg_intr_line: self.reg_intr_line,
            bars: self.bars.export(),
            msix: match &self.msix_cfg {
                Some(cfg) => Some(cfg.export()),
                None => None,
            },
        }
    }

    /// Takes over the state brought from another host. Enabled BARs are placed.
    pub fn import(&mut self, state: PciStateV1, ctx: &mut DevCtx) -> (r: Result<
        (),
        MigrateStateError,
    >)
        requires
            old(self)@.wf(),
        ensures
            ({
                let (m, e) = dev_imported(old(self).in_ctx(old(ctx)), state);
                &&& final(self).in_ctx(final(ctx)) == m
                &&& match e {
                    Some(e) => r == Err::<(), MigrateStateError>(e),
                    None => r is Ok,
                }
            }),
            r is Ok && saved_ok(state.bars.entries@) ==> final(self)@.wf(),
    {
        let cmd: RegCmd = match RegCmd::from_bits(state.reg_command) {
            Some(c) => c,
            None => {
                return Err(MigrateStateError::PciCommand(state.reg_command));
            },
        };
        self.reg_command = cmd;
        self.reg_intr_line = state.reg_intr_line;
        match self.bars.import(state.bars) {
            Err(e) => {
                return Err(e);
            },
            Ok(()) => {},
        }
        let ghost v1 = self@;
        let ghost ev0 = ctx.events@;
        assert(ev0 + Seq::<DevEvent>::empty() =~= ev0);
        let mut i: u8 = 0;
        while i < 6
            invariant
                i <= 6,
                self@ == v1,
                cmd == v1.reg_command,
                ctx.slot == old(ctx).slot,
                ctx.events@ == ev0 + import_events(v1.bars, cmd, i as int),
            decreases 6 - i,
        {
            if let Some(n) = BarN::from_repr(i) {
                if let Some((def, addr)) = self.bars.get(n) {
                    if (cmd.io_en && def.is_pio()) || (cmd.mmio_en && def.is_mmio()) {
                        ctx.events.push(DevEvent::BarRegister(n, def, addr));
                    }
                }
            }
            i += 1;
            assert(ctx.events@ =~= ev0 + import_events(v1.bars, cmd, i as int));
        }
        match (&mut self.msix_cfg, &state.msix) {
            (Some(cfg), Some(saved)) => cfg.import(saved),
            (None, None) => Ok(()),
            (None, Some(_)) => Err(MigrateStateError::MsixUnexpected),
            (Some(_), None) => Err(MigrateStateError::MsixMissing),
        }
    }
}

// ---------------------------------------------------------------------------
// Building a device
// ---------------------------------------------------------------------------

/// The region of the standard header.
pub open spec fn std_region() -> RegSpan<CfgReg> {
    RegSpan { id: CfgReg::Std, start: 0, len: LEN_CFG_STD, passthru: true }
}

/// The region at `offset` that a device handles by itself.
pub open spec fn custom_region(offset: u8, len: usize) -> RegSpan<CfgReg> {
    RegSpan { id: CfgReg::Custom(offset), start: offset as usize, len, passthru: true }
}

/// The regions of the capability number `i` at `offset`: its id, the pointer to
/// the next one, and its body of `len` bytes.
pub open spec fn cap_regions(i: u8, offset: u8, len: usize) -> Seq<RegSpan<CfgReg>> {
    seq![
        RegSpan { id: CfgReg::CapId(i), start: offset as usize, len: 1, passthru: false },
        RegSpan { id: CfgReg::CapNext(i), start: (offset + 1) as usize, len: 1, passthru: false },
        RegSpan { id: CfgReg::CapBody(i), start: (offset + 2) as usize, len, passthru: true },
    ]
}

/// BARs of the given kinds without addresses.
pub open spec fn bars_of(kinds: Seq<EntryKind>) -> Seq<Entry> {
    Seq::new(kinds.len(), |i: int| Entry { kind: kinds[i], value: 0 })
}

/// A device without capabilities when the power comes on: it has no place yet,
/// and nothing of it is enabled.
pub open spec fn plain_device(
    ident: Ident,
    lintr_support: bool,
    regions: Seq<RegSpan<CfgReg>>,
    kinds: Seq<EntryKind>,
) -> DevView {
    DevView {
        ident,
        lintr_support,
        regions,
        caps: Seq::empty(),
        msix: None,
        reg_command: RegCmd::spec_empty(),
        reg_intr_line: 0xff,
        attach: None,
        bars: bars_of(kinds),
    }
}

/// Six BARs that are not implemented.
pub open spec fn no_bars() -> Seq<EntryKind> {
    Seq::new(6, |i: int| EntryKind::Empty)
}

/// Whether a number is a power of two.
pub open spec fn is_pow2(n: int) -> bool {
    exists|j: nat| n == #[trigger] pow2(j)
}

/// Builds the state of a device.
#[derive(Debug)]
pub struct Builder {
    pub ident: Ident,
    pub lintr_support: bool,
    pub msix_cfg: Option<MsixCfg>,
    pub bars: [Option<BarDefine>; 6],
    pub cfg_builder: CfgBuilder,
}

impl Builder {
    /// The invariant of a device that is being built.
    pub open spec fn wf(self) -> bool {
        &&& self.cfg_builder.wf()
        &&& self.msix_cfg matches Some(c) ==> c.wf()
        &&& self.msix_cfg is None ==> forall|i: int|
            0 <= i < self.cfg_builder.caps@.len() ==> (#[trigger] self.cfg_builder.caps@[i]).id
                != CAP_ID_MSIX
        &&& forall|i: int|
            0 <= i < 6 ==> (#[trigger] self.bars@[i] matches Some(d) ==> d.spec_size() > 0)
    }

    /// Whether `self` is `b` but for what the layout, the BARs and the MSI-X
    /// state are.
    pub open spec fn same_device(self, b: Builder) -> bool {
        self.ident == b.ident && self.lintr_support == b.lintr_support
    }

    /// A device without BARs, interrupts or capabilities.
    pub fn new(ident: Ident) -> (r: Builder)
        ensures
            r.wf(),
            r.ident == ident,
            !r.lintr_support,
            r.msix_cfg is None,
            forall|i: int| 0 <= i < 6 ==> #[trigger] r.bars@[i] is None,
            r.cfg_builder.regions@ == seq![std_region()],
            r.cfg_builder.caps@.len() == 0,
            r.cfg_builder.cap_next == LEN_CFG_STD,
    {
        Builder {
            ident,
            lintr_support: false,
            msix_cfg: None,
            bars: [None;6],
            cfg_builder: CfgBuilder::new(),
        }
    }

    /// Adds a BAR in port space. Its size must be a power of two, and at least
    /// 4.
    pub fn add_bar_io(self, bar: BarN, size: u16) -> (r: Builder)
        requires
            self.wf(),
            is_pow2(size as int),
            size >= 4,
            self.bars@[bar.spec_idx()] is None,
        ensures
            r.wf(),
            r.same_device(self),
            r.msix_cfg == self.msix_cfg,
            r.cfg_builder == self.cfg_builder,
            r.bars@ == self.bars@.update(bar.spec_idx(), Some(BarDefine::Pio(size))),
    {
        let mut this: Builder = self;
        this.bars[bar.idx()] = Some(BarDefine::Pio(size));
        this
    }

    /// Adds a BAR in the 32-bit memory space. Its size must be a power of two,
    /// and at least 16.
    pub fn add_bar_mmio(self, bar: BarN, size: u32) -> (r: Builder)
        requires
            self.wf(),
            is_pow2(size as int),
            size >= 16,
            self.bars@[bar.spec_idx()] is None,
        ensures
            r.wf(),
            r.same_device(self),
            r.msix_cfg == self.msix_cfg,
            r.cfg_builder == self.cfg_builder,
            r.bars@ == self.bars@.update(bar.spec_idx(), Some(BarDefine::Mmio(size))),
    {
        let mut this: Builder = self;
        this.bars[bar.idx()] = Some(BarDefine::Mmio(size));
        this
    }

    /// Adds a BAR in the 64-bit memory space, which takes up the next register
    /// too. Its size must be a power of two, and at least 16.
    pub fn add_bar_mmio64(self, bar: BarN, size: u64) -> (r: Builder)
        requires
            self.wf(),
            is_pow2(size as int),
            size >= 16,
            bar.spec_idx() < 5,
            self.bars@[bar.spec_idx()] is None,
            self.bars@[bar.spec_idx() + 1] is None,
        ensures
            r.wf(),
            r.same_device(self),
            r.msix_cfg == self.msix_cfg,
            r.cfg_builder == self.cfg_builder,
            r.bars@ == self.bars@.update(bar.spec_idx(), Some(BarDefine::Mmio64(size))),
    {
        let mut this: Builder = self;
        this.bars[bar.idx()] = Some(BarDefine::Mmio64(size));
        this
    }

    /// Lets the device use an interrupt pin.
    pub fn add_lintr(self) -> (r: Builder)
        requires
            self.wf(),
        ensures
            r.wf(),
            r == (Builder { lintr_support: true, ..self }),
    {
        let mut this: Builder = self;
        this.lintr_support = true;
        this
    }

    /// Adds a region of the configuration space that the device handles by
    /// itself.
    pub fn add_custom_cfg(self, offset: u8, len: u8) -> (r: Builder)
        requires
            self.wf(),
            0 < len,
            region_free(self.cfg_builder.regions@, offset as int, len as int),
        ensures
            r.wf(),
            r.same_device(self),
            r.msix_cfg == self.msix_cfg,
            r.bars == self.bars,
            r.cfg_builder.regions@ == self.cfg_builder.regions@.push(
                custom_region(offset, len as usize),
            ),
            r.cfg_builder.caps == self.cfg_builder.caps,
            r.cfg_builder.cap_next == self.cfg_builder.cap_next,
    {
        let mut this: Builder = self;
        this.cfg_builder.add_custom(offset, len);
        this
    }

    /// Adds `count` MSI-X interrupt vectors, whose table is placed by a BAR of
    /// its own.
    pub fn add_cap_msix(self, bar: BarN, count: u16) -> (r: Builder)
        requires
            self.wf(),
            self.msix_cfg is None,
            0 < count <= 2048,
            self.bars@[bar.spec_idx()] is None,
            self.cfg_builder.caps@.len() < 64,
            (self.cfg_builder.cap_next + 2 + MSIX_CAP_LEN) % 4 == 0,
            self.cfg_builder.cap_next + 2 + MSIX_CAP_LEN <= u8::MAX,
            region_free(
                self.cfg_builder.regions@,
                self.cfg_builder.cap_next as int,
                2 + MSIX_CAP_LEN,
            ),
        ensures
            r.wf(),
            r.same_device(self),
            r.msix_cfg matches Some(c) && c@ == MsixView::spec_new(count, bar),
            r.bars@ == self.bars@.update(
                bar.spec_idx(),
                Some(BarDefine::Mmio(msix_bar_size(count) as u32)),
            ),
            r.cfg_builder.caps@ == self.cfg_builder.caps@.push(
                Cap { id: CAP_ID_MSIX, offset: self.cfg_builder.cap_next },
            ),
            r.cfg_builder.cap_next == self.cfg_builder.cap_next + 2 + MSIX_CAP_LEN,
            r.cfg_builder.regions@ == self.cfg_builder.regions@ + cap_regions(
                self.cfg_builder.caps@.len() as u8,
                self.cfg_builder.cap_next,
                MSIX_CAP_LEN,
            ),
    {
        proof {
            law_msix_bar_layout(count);
        }
        let (cfg, bar_size): (MsixCfg, usize) = MsixCfg::new(count, bar);
        let mut this: Builder = self.add_bar_mmio(bar, bar_size as u32);
        this.msix_cfg = Some(cfg);
        this.cfg_builder.add_capability(CAP_ID_MSIX, MSIX_CAP_LEN as u8);
        assert(this.cfg_builder.regions@ =~= self.cfg_builder.regions@ + cap_regions(
            self.cfg_builder.caps@.len() as u8,
            self.cfg_builder.cap_next,
            MSIX_CAP_LEN,
        ));
        this
    }

    /// The state of the device.
    pub fn finish(self) -> (r: DeviceState)
        requires
            self.wf(),
            defs_ok(self.bars@),
        ensures
            r@.wf(),
            r@.ident == self.ident,
            r@.lintr_support == self.lintr_support,
            r@.regions == self.cfg_builder.regions@,
            r@.caps == self.cfg_builder.caps@,
            r@.msix == msix_view(self.msix_cfg),
            r@.reg_command == RegCmd::spec_empty(),
            r@.reg_intr_line == 0xff,
            r@.attach is None,
            r@.bars == new_bars(self.bars@),
    {
        let bars: Bars = Bars::new(&self.bars);
        let (regions, caps): (Vec<RegSpan<CfgReg>>, Vec<Cap>) = self.cfg_builder.finish();
        DeviceState {
            ident: self.ident,
            lintr_support: self.lintr_support,
            regions,
            caps,
            msix_cfg: self.msix_cfg,
            reg_command: RegCmd::empty(),
            reg_intr_line: 0xff,
            attach: None,
            bars,
        }
    }
}

} // verus!
