//! The power management part of the PIIX4 chip.
use crate::common::{
    byte_vec, copy_vec, get_le16, le16, le16_vec, le32, le32_vec, val16, zero_vec, zeros, RWOp,
    ReadOp,
};
use crate::hw::ids::{PIIX4_PM_DEV_ID, PIIX4_PM_SUB_DEV_ID, VENDOR_INTEL, VENDOR_OXIDE};
use crate::hw::pci::bar::saved_ok;
use crate::hw::pci::bits::{CLASS_BRIDGE, SUBCLASS_BRIDGE_OTHER};
use crate::hw::pci::bus::Attachment;
use crate::hw::pci::cfgspace::{find_region, lemma_region_at, region_at, region_ok, CfgReg};
use crate::hw::pci::device::{
    custom_region, dev_cfg_ok, dev_cfg_rd, dev_cfg_wr, dev_imported, dev_reset, lemma_cfg_spans,
    lemma_region_bounds, no_bars, plain_device, std_region, Builder, CfgLayout, DevCtx, DevModel,
    DevView, DeviceState, Ident, PciStateV1,
};
use crate::intr_pins::PinEvent;
use crate::migrate::MigrateStateError;
use crate::regmap::{
    find_in_table, law_table_covers, lemma_table_find, process_read, process_write, reg_start,
    space_read, space_write, table_find, RegDef, RegSpace, RegSpan,
};
use vstd::prelude::*;

verus! {

/// Where the registers of the chip stand in the configuration space.
pub const PMCFG_OFFSET: u8 = 0x40;

/// Number of bytes of these registers.
pub const PMCFG_LEN: usize = 0x98;

/// The port of the power management registers.
pub const PMBASE_DEFAULT: u16 = 0xb000;

/// Number of ports of the power management registers.
pub const PMBASE_LEN: u16 = 0x40;

/// Where the timer stands among the power management registers.
pub const PM_TMR_OFFSET: u16 = 0x8;

/// A register of the chip in its configuration space.
#[derive(Clone, Copy, Debug, PartialEq, Eq, Structural)]
pub enum PmCfg {
    PmBase,
    CountA,
    CountB,
    GpInputCtl,
    DevResD,
    DevActA,
    DevActB,
    DevResA,
    DevResB,
    DevResC,
    DevResE,
    DevResF,
    DevResG,
    DevResH,
    DevResI,
    DevResJ,
    PmRegMisc,
    SmbusBase,
    SmbusHostCfg,
    SmbusSlaveCmd,
    SmbusSlaveShadow1,
    SmbusSlaveShadow2,
    SmbusRev,
    Reserved,
}

impl PmCfg {
    /// The number of bytes of the register. Reserved ones take any number.
    pub open spec fn size(self) -> int {
        match self {
            PmCfg::PmRegMisc
            | PmCfg::SmbusHostCfg
            | PmCfg::SmbusSlaveCmd
            | PmCfg::SmbusSlaveShadow1
            | PmCfg::SmbusSlaveShadow2
            | PmCfg::SmbusRev => 1,
            PmCfg::DevResD
            | PmCfg::DevResG => 2,
            PmCfg::PmBase
            | PmCfg::CountA
            | PmCfg::CountB
            | PmCfg::GpInputCtl
            | PmCfg::DevActA
            | PmCfg::DevActB
            | PmCfg::DevResA
            | PmCfg::DevResB
            | PmCfg::DevResC
            | PmCfg::DevResE
            | PmCfg::DevResF
            | PmCfg::DevResH
            | PmCfg::DevResI
            | PmCfg::DevResJ
            | PmCfg::SmbusBase => 4,
            PmCfg::Reserved => 0,
        }
    }
}

/// A register of the table.
pub open spec fn pm_cfg_def(id: PmCfg, len: usize) -> RegDef<PmCfg> {
    RegDef { id, len, passthru: id == PmCfg::Reserved }
}

/// The registers of the chip in its configuration space, in their order.
pub open spec fn pm_cfg_table() -> Seq<RegDef<PmCfg>> {
    seq![
        pm_cfg_def(PmCfg::PmBase, 4),
        pm_cfg_def(PmCfg::CountA, 4),
        pm_cfg_def(PmCfg::CountB, 4),
        pm_cfg_def(PmCfg::GpInputCtl, 4),
        pm_cfg_def(PmCfg::DevResD, 2),
        pm_cfg_def(PmCfg::Reserved, 2),
        pm_cfg_def(PmCfg::DevActA, 4),
        pm_cfg_def(PmCfg::DevActB, 4),
        pm_cfg_def(PmCfg::DevResA, 4),
        pm_cfg_def(PmCfg::DevResB, 4),
        pm_cfg_def(PmCfg::DevResC, 4),
        pm_cfg_def(PmCfg::DevResE, 4),
        pm_cfg_def(PmCfg::DevResF, 4),
        pm_cfg_def(PmCfg::DevResG, 2),
        pm_cfg_def(PmCfg::Reserved, 2),
        pm_cfg_def(PmCfg::DevResH, 4),
        pm_cfg_def(PmCfg::DevResI, 4),
        pm_cfg_def(PmCfg::DevResJ, 4),
        pm_cfg_def(PmCfg::PmRegMisc, 1),
        pm_cfg_def(PmCfg::Reserved, 15),
        pm_cfg_def(PmCfg::SmbusBase, 4),
        pm_cfg_def(PmCfg::Reserved, 62),
        pm_cfg_def(PmCfg::SmbusHostCfg, 1),
        pm_cfg_def(PmCfg::SmbusSlaveCmd, 1),
        pm_cfg_def(PmCfg::SmbusSlaveShadow1, 1),
        pm_cfg_def(PmCfg::SmbusSlaveShadow2, 1),
        pm_cfg_def(PmCfg::SmbusRev, 1),
        pm_cfg_def(PmCfg::Reserved, 1),
    ]
}

/// The registers of the chip in its configuration space, in their order.
pub fn pm_cfg_layout() -> (r: Vec<RegDef<PmCfg>>)
    ensures
        r@ == pm_cfg_table(),
{
    let mut r: Vec<RegDef<PmCfg>> = Vec::new();
    r.push(RegDef { id: PmCfg::PmBase, len: 4, passthru: false });
    r.push(RegDef { id: PmCfg::CountA, len: 4, passthru: false });
    r.push(RegDef { id: PmCfg::CountB, len: 4, passthru: false });
    r.push(RegDef { id: PmCfg::GpInputCtl, len: 4, passthru: false });
    r.push(RegDef { id: PmCfg::DevResD, len: 2, passthru: false });
    r.push(RegDef { id: PmCfg::Reserved, len: 2, passthru: true });
    r.push(RegDef { id: PmCfg::DevActA, len: 4, passthru: false });
    r.push(RegDef { id: PmCfg::DevActB, len: 4, passthru: false });
    r.push(RegDef { id: PmCfg::DevResA, len: 4, passthru: false });
    r.push(RegDef { id: PmCfg::DevResB, len: 4, passthru: false });
    r.push(RegDef { id: PmCfg::DevResC, len: 4, passthru: false });
    r.push(RegDef { id: PmCfg::DevResE, len: 4, passthru: false });
    r.push(RegDef { id: PmCfg::DevResF, len: 4, passthru: false });
    r.push(RegDef { id: PmCfg::DevResG, len: 2, passthru: false });
    r.push(RegDef { id: PmCfg::Reserved, len: 2, passthru: true });
    r.push(RegDef { id: PmCfg::DevResH, len: 4, passthru: false });
    r.push(RegDef { id: PmCfg::DevResI, len: 4, passthru: false });
    r.push(RegDef { id: PmCfg::DevResJ, len: 4, passthru: false });
    r.push(RegDef { id: PmCfg::PmRegMisc, len: 1, passthru: false });
    r.push(RegDef { id: PmCfg::Reserved, len: 15, passthru: true });
    r.push(RegDef { id: PmCfg::SmbusBase, len: 4, passthru: false });
    r.push(RegDef { id: PmCfg::Reserved, len: 62, passthru: true });
    r.push(RegDef { id: PmCfg::SmbusHostCfg, len: 1, passthru: false });
    r.push(RegDef { id: PmCfg::SmbusSlaveCmd, len: 1, passthru: false });
    r.push(RegDef { id: PmCfg::SmbusSlaveShadow1, len: 1, passthru: false });
    r.push(RegDef { id: PmCfg::SmbusSlaveShadow2, len: 1, passthru: false });
    r.push(RegDef { id: PmCfg::SmbusRev, len: 1, passthru: false });
    r.push(RegDef { id: PmCfg::Reserved, len: 1, passthru: true });
    assert(r@ =~= pm_cfg_table());
    r
}

/// A power management register.
#[derive(Clone, Copy, Debug, PartialEq, Eq, Structural)]
pub enum PmReg {
    PmSts,
    PmEn,
    PmCntrl,
    PmTmr,
    GpSts,
    GpEn,
    PCntrl,
    PLvl2,
    PLvl3,
    GlbSts,
    DevSts,
    GlbEn,
    GlbCtl,
    DevCtl,
    GpiReg,
    GpoReg,
    Reserved,
}

impl PmReg {
    /// The number of bytes of the register. Reserved ones take any number.
    pub open spec fn size(self) -> int {
        match self {
            PmReg::PLvl2
            | PmReg::PLvl3 => 1,
            PmReg::PmSts
            | PmReg::PmEn
            | PmReg::PmCntrl
            | PmReg::GpSts
            | PmReg::GpEn
            | PmReg::GlbSts
            | PmReg::GlbEn => 2,
            PmReg::PmTmr
            | PmReg::PCntrl
            | PmReg::DevSts
            | PmReg::GlbCtl
            | PmReg::DevCtl
            | PmReg::GpiReg
            | PmReg::GpoReg => 4,
            PmReg::Reserved => 0,
        }
    }
}

/// A register of the table.
pub open spec fn pm_reg_def(id: PmReg, len: usize) -> RegDef<PmReg> {
    RegDef { id, len, passthru: id == PmReg::Reserved }
}

/// The power management registers, in their order.
pub open spec fn pm_reg_table() -> Seq<RegDef<PmReg>> {
    seq![
        pm_reg_def(PmReg::PmSts, 2),
        pm_reg_def(PmReg::PmEn, 2),
        pm_reg_def(PmReg::PmCntrl, 2),
        pm_reg_def(PmReg::Reserved, 2),
        pm_reg_def(PmReg::PmTmr, 4),
        pm_reg_def(PmReg::GpSts, 2),
        pm_reg_def(PmReg::GpEn, 2),
        pm_reg_def(PmReg::PCntrl, 4),
        pm_reg_def(PmReg::PLvl2, 1),
        pm_reg_def(PmReg::PLvl3, 1),
        pm_reg_def(PmReg::Reserved, 2),
        pm_reg_def(PmReg::GlbSts, 2),
        pm_reg_def(PmReg::Reserved, 2),
        pm_reg_def(PmReg::DevSts, 4),
        pm_reg_def(PmReg::GlbEn, 2),
        pm_reg_def(PmReg::Reserved, 6),
        pm_reg_def(PmReg::GlbCtl, 4),
        pm_reg_def(PmReg::DevCtl, 4),
        pm_reg_def(PmReg::GpiReg, 4),
        pm_reg_def(PmReg::GpoReg, 4),
        pm_reg_def(PmReg::Reserved, 8),
    ]
}

/// The power management registers, in their order.
pub fn pm_reg_layout() -> (r: Vec<RegDef<PmReg>>)
    ensures
        r@ == pm_reg_table(),
{
    let mut r: Vec<RegDef<PmReg>> = Vec::new();
    r.push(RegDef { id: PmReg::PmSts, len: 2, passthru: false });
    r.push(RegDef { id: PmReg::PmEn, len: 2, passthru: false });
    r.push(RegDef { id: PmReg::PmCntrl, len: 2, passthru: false });
    r.push(RegDef { id: PmReg::Reserved, len: 2, passthru: true });
    r.push(RegDef { id: PmReg::PmTmr, len: 4, passthru: false });
    r.push(RegDef { id: PmReg::GpSts, len: 2, passthru: false });
    r.push(RegDef { id: PmReg::GpEn, len: 2, passthru: false });
    r.push(RegDef { id: PmReg::PCntrl, len: 4, passthru: false });
    r.push(RegDef { id: PmReg::PLvl2, len: 1, passthru: false });
    r.push(RegDef { id: PmReg::PLvl3, len: 1, passthru: false });
    r.push(RegDef { id: PmReg::Reserved, len: 2, passthru: true });
    r.push(RegDef { id: PmReg::GlbSts, len: 2, passthru: false });
    r.push(RegDef { id: PmReg::Reserved, len: 2, passthru: true });
    r.push(RegDef { id: PmReg::DevSts, len: 4, passthru: false });
    r.push(RegDef { id: PmReg::GlbEn, len: 2, passthru: false });
    r.push(RegDef { id: PmReg::Reserved, len: 6, passthru: true });
    r.push(RegDef { id: PmReg::GlbCtl, len: 4, passthru: false });
    r.push(RegDef { id: PmReg::DevCtl, len: 4, passthru: false });
    r.push(RegDef { id: PmReg::GpiReg, len: 4, passthru: false });
    r.push(RegDef { id: PmReg::GpoReg, len: 4, passthru: false });
    r.push(RegDef { id: PmReg::Reserved, len: 8, passthru: true });
    assert(r@ =~= pm_reg_table());
    r
}

/// The tables fill the places of their registers, without gaps.
pub proof fn law_pm_layout()
    ensures
        reg_start(pm_cfg_table(), pm_cfg_table().len() as int) == PMCFG_LEN,
        reg_start(pm_reg_table(), pm_reg_table().len() as int) == PMBASE_LEN,
        forall|off: int|
            0 <= off < PMCFG_LEN ==> #[trigger] table_find(pm_cfg_table(), 0, 0, off) is Some,
        forall|off: int|
            0 <= off < PMBASE_LEN ==> #[trigger] table_find(pm_reg_table(), 0, 0, off) is Some,
{
    reveal_with_fuel(reg_start, 29);
    assert forall|off: int| 0 <= off < PMCFG_LEN implies #[trigger] table_find(
        pm_cfg_table(),
        0,
        0,
        off,
    ) is Some by {
        law_table_covers(pm_cfg_table(), 0, off);
    }
    assert forall|off: int| 0 <= off < PMBASE_LEN implies #[trigger] table_find(
        pm_reg_table(),
        0,
        0,
        off,
    ) is Some by {
        law_table_covers(pm_reg_table(), 0, off);
    }
}

/// Controls of the power management.
#[derive(Clone, Copy, Debug, PartialEq, Eq, Structural)]
pub struct PmCntrl {
    /// Power management events cause interrupts.
    pub sci_en: bool,
    /// Three bits: the kind of sleep.
    pub sus_typ: u8,
    /// The machine is to sleep.
    pub sus_en: bool,
}

impl PmCntrl {
    /// Whether the kind of sleep has no more than its bits.
    pub open spec fn wf(self) -> bool {
        self.sus_typ < 8
    }

    /// The value of the register.
    pub open spec fn spec_bits(self) -> u16 {
        ((if self.sci_en {
            1int
        } else {
            0
        }) + 0x400 * self.sus_typ + (if self.sus_en {
            0x2000int
        } else {
            0
        })) as u16
    }

    /// What a value of the register sets, whatever other bits it holds.
    pub open spec fn spec_truncate(v: u16) -> PmCntrl {
        PmCntrl {
            sci_en: v % 2 == 1,
            sus_typ: ((v / 0x400) % 8) as u8,
            sus_en: (v / 0x2000) % 2 == 1,
        }
    }

    /// The value of the register.
    pub fn bits(&self) -> (r: u16)
        requires
            self.wf(),
        ensures
            r == self.spec_bits(),
    {
        (if self.sci_en {
            1u16
        } else {
            0
        }) + 0x400 * self.sus_typ as u16 + (if self.sus_en {
            0x2000u16
        } else {
            0
        })
    }

    /// What a value of the register sets, whatever other bits it holds.
    pub fn from_bits_truncate(v: u16) -> (r: PmCntrl)
        ensures
            r == Self::spec_truncate(v),
            r.wf(),
    {
        PmCntrl {
            sci_en: v % 2 == 1,
            sus_typ: ((v / 0x400) % 8) as u8,
            sus_en: (v / 0x2000) % 2 == 1,
        }
    }
}

/// The value of the control register tells what it sets.
pub proof fn law_pm_control_round_trip(c: PmCntrl)
    requires
        c.wf(),
    ensures
        PmCntrl::spec_truncate(c.spec_bits()) == c,
{
    let v = c.spec_bits();
    let b: int = if c.sus_en {
        1
    } else {
        0
    };
    assert(v / 0x400 == c.sus_typ + 8 * b);
    assert(v / 0x2000 == b);
}

/// The bit of the power button in the status and in the enabled events.
pub const PWRBTN: u16 = 0x100;

/// Whether a value has the bit of the power button.
pub open spec fn has_button(v: u16) -> bool {
    (v / PWRBTN) % 2 == 1
}

/// The value of a register with only the bit of the power button.
pub open spec fn button_bits(set: bool) -> u16 {
    if set {
        PWRBTN
    } else {
        0
    }
}

/// The value of a register with only the bit of the power button.
fn get_button_bits(set: bool) -> (r: u16)
    ensures
        r == button_bits(set),
{
    if set {
        PWRBTN
    } else {
        0
    }
}

/// What the power management registers hold.
#[derive(Clone, Copy, Debug, PartialEq, Eq, Structural)]
pub struct PMRegs {
    /// The port of the registers.
    pub pm_base: u16,
    /// The power button was pressed.
    pub pwrbtn_sts: bool,
    /// The power button is to cause an event.
    pub pwrbtn_en: bool,
    pub pm_ctrl: PmCntrl,
}

impl PMRegs {
    /// What the registers hold when the power comes on.
    pub open spec fn spec_default() -> PMRegs {
        PMRegs {
            pm_base: PMBASE_DEFAULT,
            pwrbtn_sts: false,
            pwrbtn_en: false,
            pm_ctrl: PmCntrl { sci_en: false, sus_typ: 0, sus_en: false },
        }
    }

    /// Resets the registers.
    pub fn reset(&mut self)
        ensures
            *final(self) == Self::spec_default(),
    {
        *self = PMRegs::default();
    }
}

impl Default for PMRegs {
    /// What the registers hold when the power comes on.
    fn default() -> (r: Self)
        ensures
            r == PMRegs::spec_default(),
    {
        PMRegs {
            pm_base: PMBASE_DEFAULT,
            pwrbtn_sts: false,
            pwrbtn_en: false,
            pm_ctrl: PmCntrl { sci_en: false, sus_typ: 0, sus_en: false },
        }
    }
}

/// What accesses to the chip depend on and bring about.
#[derive(Debug)]
pub struct PmCtx {
    pub dev: DevCtx,
    /// What happens to the line that turns the power off.
    pub pins: Vec<PinEvent>,
}

/// What the chip and its context hold.
#[verifier::ext_equal]
pub struct PmModel {
    pub dev: DevModel,
    pub regs: PMRegs,
    pub pmtmr_located: bool,
    pub power_pin: Option<u32>,
    pub pins: Seq<PinEvent>,
}

/// What a register in the configuration space reads as. The port of the power
/// management registers reads with the bit that tells of ports, which are
/// enabled.
pub open spec fn pmcfg_rd(m: PmModel, id: PmCfg, len: nat) -> Seq<u8> {
    match id {
        PmCfg::PmRegMisc => seq![1u8],
        PmCfg::PmBase => le32((m.regs.pm_base - m.regs.pm_base % 2 + 1) as u32),
        _ => zeros(len),
    }
}

/// What a power management register reads as.
pub open spec fn pmreg_rd(m: PmModel, id: PmReg, len: nat) -> Seq<u8> {
    match id {
        PmReg::PmSts => le16(button_bits(m.regs.pwrbtn_sts)),
        PmReg::PmEn => le16(button_bits(m.regs.pwrbtn_en)),
        PmReg::PmCntrl => le16(m.regs.pm_ctrl.spec_bits()),
        _ => zeros(len),
    }
}

/// What a write to a power management register leads to. Bits of the status are
/// cleared by ones. A machine that is to sleep in the kind that is numbered 0
/// is turned off, and the bit that asks for it reads as 0.
pub open spec fn pmreg_wr(m: PmModel, id: PmReg, data: Seq<u8>) -> PmModel {
    match id {
        PmReg::PmSts => PmModel {
            regs: PMRegs {
                pwrbtn_sts: m.regs.pwrbtn_sts && !has_button(val16(data)),
                ..m.regs
            },
            ..m
        },
        PmReg::PmEn => PmModel {
            regs: PMRegs { pwrbtn_en: has_button(val16(data)), ..m.regs },
            ..m
        },
        PmReg::PmCntrl => {
            let c = PmCntrl::spec_truncate(val16(data));
            PmModel {
                regs: PMRegs { pm_ctrl: PmCntrl { sus_en: false, ..c }, ..m.regs },
                pins: if c.sus_en && c.sus_typ == 0 && m.power_pin is Some {
                    m.pins.push(PinEvent::Pulse(m.power_pin->0))
                } else {
                    m.pins
                },
                ..m
            }
        },
        _ => m,
    }
}

/// The power management registers.
pub struct PmRegLayout {}

/// The registers in the configuration space.
pub struct PmCfgLayout {}

/// Whether the only region that a device handles by itself is that of the
/// registers of the chip.
pub open spec fn pm_layout(v: DevView) -> bool {
    forall|k: int|
        0 <= k < v.regions.len() ==> ((#[trigger] v.regions[k]).id is Custom ==> v.regions[k].len
            == PMCFG_LEN)
}

/// The power management part of the PIIX4 chip.
#[derive(Debug)]
pub struct Piix3PM {
    pub pci_state: DeviceState,
    pub regs: PMRegs,
    /// Whether the hypervisor knows the port of the timer.
    pub pmtmr_located: bool,
    /// The line that turns the power off.
    pub power_pin: Option<u32>,
}

/// The state of the chip, as it is moved to another host.
#[derive(Clone, Copy, Debug, PartialEq, Eq, Structural)]
pub struct Piix3PmV1 {
    pub pm_base: u16,
    pub pm_status: u16,
    pub pm_ena: u16,
    pub pm_ctrl: u16,
}

impl Piix3PM {
    /// What the chip and its context hold.
    pub open spec fn in_ctx(&self, ctx: &PmCtx) -> PmModel {
        PmModel {
            dev: self.pci_state.in_ctx(&ctx.dev),
            regs: self.regs,
            pmtmr_located: self.pmtmr_located,
            power_pin: self.power_pin,
            pins: ctx.pins@,
        }
    }

    /// The invariant of the chip.
    pub open spec fn wf(&self) -> bool {
        &&& self.pci_state@.wf()
        &&& pm_layout(self.pci_state@)
        &&& self.regs.pm_ctrl.wf()
    }

    /// Reads a register in the configuration space.
    pub fn pmcfg_read(&self, id: PmCfg, len: usize) -> (r: Vec<u8>)
        requires
            id != PmCfg::Reserved ==> len == id.size(),
        ensures
            forall|ctx: PmCtx| #[trigger] pmcfg_rd(self.in_ctx(&ctx), id, len as nat) == r@,
            r@.len() == len,
    {
        match id {
            PmCfg::PmRegMisc => byte_vec(1),
            PmCfg::PmBase => {
                let base: u32 = self.regs.pm_base as u32;
                le32_vec(base - base % 2 + 1)
            },
            _ => zero_vec(len),
        }
    }

    /// Reads a power management register.
    pub fn pmreg_read(&self, id: PmReg, len: usize) -> (r: Vec<u8>)
        requires
            self.wf(),
            id != PmReg::Reserved ==> len == id.size(),
        ensures
            forall|ctx: PmCtx| #[trigger] pmreg_rd(self.in_ctx(&ctx), id, len as nat) == r@,
            r@.len() == len,
    {
        match id {
            PmReg::PmSts => le16_vec(get_button_bits(self.regs.pwrbtn_sts)),
            PmReg::PmEn => le16_vec(get_button_bits(self.regs.pwrbtn_en)),
            PmReg::PmCntrl => le16_vec(self.regs.pm_ctrl.bits()),
            _ => zero_vec(len),
        }
    }

    /// Writes a power management register.
    pub fn pmreg_write(&mut self, id: PmReg, data: &Vec<u8>, ctx: &mut PmCtx)
        requires
            old(self).wf(),
            id != PmReg::Reserved ==> data@.len() == id.size(),
        ensures
            final(self).wf(),
            final(self).pci_state == old(self).pci_state,
            final(ctx).dev == old(ctx).dev,
            final(self).in_ctx(final(ctx)) == pmreg_wr(old(self).in_ctx(old(ctx)), id, data@),
    {
        let ghost m0 = self.in_ctx(ctx);
        match id {
            PmReg::PmSts => {
                assert(data@.subrange(0, 2) =~= data@);
                let val: u16 = get_le16(data, 0);
                if (val / PWRBTN) % 2 == 1 {
                    self.regs.pwrbtn_sts = false;
                }
            },
            PmReg::PmEn => {
                assert(data@.subrange(0, 2) =~= data@);
                let val: u16 = get_le16(data, 0);
                self.regs.pwrbtn_en = (val / PWRBTN) % 2 == 1;
            },
            PmReg::PmCntrl => {
                assert(data@.subrange(0, 2) =~= data@);
                let mut ctrl: PmCntrl = PmCntrl::from_bits_truncate(get_le16(data, 0));
                if ctrl.sus_en {
                    ctrl.sus_en = false;
                    if ctrl.sus_typ == 0 {
                        if let Some(line) = self.power_pin {
                            ctx.pins.push(PinEvent::Pulse(line));
                        }
                    }
                }
                self.regs.pm_ctrl = ctrl;
            },
            _ => {},
        }
        assert(self.in_ctx(ctx) =~= pmreg_wr(m0, id, data@));
    }
}

/// Registers of the tables have their sizes.
proof fn lemma_pm_table_sizes()
    ensures
        forall|k: int|
            0 <= k < pm_cfg_table().len() ==> (#[trigger] pm_cfg_table()[k]).len > 0 && (
            pm_cfg_table()[k].id != PmCfg::Reserved ==> pm_cfg_table()[k].len
                == pm_cfg_table()[k].id.size() && !pm_cfg_table()[k].passthru),
        forall|k: int|
            0 <= k < pm_reg_table().len() ==> (#[trigger] pm_reg_table()[k]).len > 0 && (
            pm_reg_table()[k].id != PmReg::Reserved ==> pm_reg_table()[k].len
                == pm_reg_table()[k].id.size() && !pm_reg_table()[k].passthru),
{
}

impl RegSpace<PmRegLayout> for Piix3PM {
    type Id = PmReg;

    type Ctx = PmCtx;

    type V = PmModel;

    open spec fn model(&self, ctx: &PmCtx) -> PmModel {
        self.in_ctx(ctx)
    }

    open spec fn inv(&self, ctx: &PmCtx) -> bool {
        self.wf()
    }

    open spec fn span_at(m: PmModel, off: int) -> Option<RegSpan<PmReg>> {
        table_find(pm_reg_table(), 0, 0, off)
    }

    open spec fn access_ok(m: PmModel, id: PmReg, off: int, len: int) -> bool {
        id != PmReg::Reserved ==> off == 0 && len == id.size()
    }

    open spec fn reg_rd(m: PmModel, id: PmReg, off: int, buf: Seq<u8>) -> Seq<u8> {
        pmreg_rd(m, id, buf.len())
    }

    open spec fn reg_wr(m: PmModel, id: PmReg, off: int, data: Seq<u8>) -> PmModel {
        pmreg_wr(m, id, data)
    }

    proof fn span_laws(&self, ctx: &PmCtx, off: int) {
        law_pm_layout();
        lemma_table_find(pm_reg_table(), 0, 0, off);
        lemma_pm_table_sizes();
    }

    fn find(&self, ctx: &PmCtx, off: usize) -> (r: Option<RegSpan<PmReg>>) {
        proof {
            law_pm_layout();
        }
        let layout: Vec<RegDef<PmReg>> = pm_reg_layout();
        find_in_table(&layout, off)
    }

    fn read_reg(&self, ctx: &PmCtx, id: PmReg, off: usize, buf: Vec<u8>) -> (r: Vec<u8>) {
        let r: Vec<u8> = self.pmreg_read(id, buf.len());
        assert(pmreg_rd(self.in_ctx(ctx), id, buf@.len()) == r@);
        r
    }

    fn write_reg(&mut self, ctx: &mut PmCtx, id: PmReg, off: usize, data: Vec<u8>) {
        self.pmreg_write(id, &data, ctx);
    }
}

impl RegSpace<PmCfgLayout> for Piix3PM {
    type Id = PmCfg;

    type Ctx = PmCtx;

    type V = PmModel;

    open spec fn model(&self, ctx: &PmCtx) -> PmModel {
        self.in_ctx(ctx)
    }

    open spec fn inv(&self, ctx: &PmCtx) -> bool {
        self.wf()
    }

    open spec fn span_at(m: PmModel, off: int) -> Option<RegSpan<PmCfg>> {
        table_find(pm_cfg_table(), 0, 0, off)
    }

    open spec fn access_ok(m: PmModel, id: PmCfg, off: int, len: int) -> bool {
        id != PmCfg::Reserved ==> off == 0 && len == id.size()
    }

    open spec fn reg_rd(m: PmModel, id: PmCfg, off: int, buf: Seq<u8>) -> Seq<u8> {
        pmcfg_rd(m, id, buf.len())
    }

    // Writes are ignored.
    open spec fn reg_wr(m: PmModel, id: PmCfg, off: int, data: Seq<u8>) -> PmModel {
        m
    }

    proof fn span_laws(&self, ctx: &PmCtx, off: int) {
        law_pm_layout();
        lemma_table_find(pm_cfg_table(), 0, 0, off);
        lemma_pm_table_sizes();
    }

    fn find(&self, ctx: &PmCtx, off: usize) -> (r: Option<RegSpan<PmCfg>>) {
        proof {
            law_pm_layout();
        }
        let layout: Vec<RegDef<PmCfg>> = pm_cfg_layout();
        find_in_table(&layout, off)
    }

    fn read_reg(&self, ctx: &PmCtx, id: PmCfg, off: usize, buf: Vec<u8>) -> (r: Vec<u8>) {
        let r: Vec<u8> = self.pmcfg_read(id, buf.len());
        assert(pmcfg_rd(self.in_ctx(ctx), id, buf@.len()) == r@);
        r
    }

    fn write_reg(&mut self, ctx: &mut PmCtx, id: PmCfg, off: usize, data: Vec<u8>) {
    }
}

/// What a read of a region of the configuration space gives.
pub open spec fn pm_cfg_region_rd(m: PmModel, id: CfgReg, off: int, buf: Seq<u8>) -> Seq<u8> {
    if id is Custom {
        space_read::<PmCfgLayout, Piix3PM>(m, off, buf)
    } else {
        dev_cfg_rd(m.dev, id, off, buf)
    }
}

/// What a write to a region of the configuration space leads to.
pub open spec fn pm_cfg_region_wr(m: PmModel, id: CfgReg, off: int, data: Seq<u8>) -> PmModel {
    if id is Custom {
        space_write::<PmCfgLayout, Piix3PM>(m, off, data)
    } else {
        PmModel { dev: dev_cfg_wr(m.dev, id, off, data), ..m }
    }
}

/// Writes to the registers in the configuration space are ignored.
pub proof fn law_pm_cfg_read_only(m: PmModel, off: int, data: Seq<u8>)
    ensures
        space_write::<PmCfgLayout, Piix3PM>(m, off, data) == m,
    decreases data.len(),
{
    if data.len() > 0 {
        match <Piix3PM as RegSpace<PmCfgLayout>>::span_at(m, off) {
            None => {
                law_pm_cfg_read_only(m, off + 1, data.skip(1));
            },
            Some(s) => {
                let n = crate::regmap::span_part(s, off, data.len() as int);
                if 0 < n {
                    law_pm_cfg_read_only(m, off + n, data.skip(n));
                }
            },
        }
    }
}

/// The regions of the chip take the accesses that they are given.
proof fn lemma_pm_spans(v: DevView, off: int)
    requires
        v.wf(),
        pm_layout(v),
    ensures
        region_at(v.regions, 0, off) matches Some(s) ==> (s.id is Custom ==> s.passthru && s.len
            == PMCFG_LEN),
{
    lemma_region_at(v.regions, 0, off);
    if let Some(s) = region_at(v.regions, 0, off) {
        let k = choose|k: int| 0 <= k < v.regions.len() && #[trigger] v.regions[k] == s;
        assert(region_ok(v.regions[k], v.caps.len()));
    }
}

impl RegSpace<CfgLayout> for Piix3PM {
    type Id = CfgReg;

    type Ctx = PmCtx;

    type V = PmModel;

    open spec fn model(&self, ctx: &PmCtx) -> PmModel {
        self.in_ctx(ctx)
    }

    open spec fn inv(&self, ctx: &PmCtx) -> bool {
        self.wf() && self.pci_state@.attach is Some
    }

    open spec fn span_at(m: PmModel, off: int) -> Option<RegSpan<CfgReg>> {
        region_at(m.dev.dev.regions, 0, off)
    }

    open spec fn access_ok(m: PmModel, id: CfgReg, off: int, len: int) -> bool {
        if id is Custom {
            0 <= off && off + len <= PMCFG_LEN
        } else {
            dev_cfg_ok(m.dev, id, off, len)
        }
    }

    open spec fn reg_rd(m: PmModel, id: CfgReg, off: int, buf: Seq<u8>) -> Seq<u8> {
        pm_cfg_region_rd(m, id, off, buf)
    }

    open spec fn reg_wr(m: PmModel, id: CfgReg, off: int, data: Seq<u8>) -> PmModel {
        pm_cfg_region_wr(m, id, off, data)
    }

    proof fn span_laws(&self, ctx: &PmCtx, off: int) {
        lemma_cfg_spans(self.pci_state@, off);
        lemma_pm_spans(self.pci_state@, off);
        if let Some(s) = region_at(self.pci_state@.regions, 0, off) {
            assert(!s.passthru ==> dev_cfg_ok(self.in_ctx(ctx).dev, s.id, 0, s.len as int));
            assert forall|o: int, n: int|
                s.passthru && 0 <= o && 0 < n && o + n <= s.len implies #[trigger] <Self as RegSpace<
                CfgLayout,
            >>::access_ok(self.in_ctx(ctx), s.id, o, n) by {
                assert(dev_cfg_ok(self.in_ctx(ctx).dev, s.id, o, n));
            }
        }
    }

    fn find(&self, ctx: &PmCtx, off: usize) -> (r: Option<RegSpan<CfgReg>>) {
        proof {
            lemma_region_bounds(self.pci_state@);
        }
        find_region(&self.pci_state.regions, off)
    }

    fn read_reg(&self, ctx: &PmCtx, id: CfgReg, off: usize, buf: Vec<u8>) -> (r: Vec<u8>) {
        match id {
            CfgReg::Custom(_) => process_read::<PmCfgLayout, Piix3PM>(self, ctx, off, buf),
            _ => self.pci_state.cfg_region_read(id, off, buf, &ctx.dev),
        }
    }

    fn write_reg(&mut self, ctx: &mut PmCtx, id: CfgReg, off: usize, data: Vec<u8>) {
        match id {
            CfgReg::Custom(_) => {
                proof {
                    law_pm_cfg_read_only(self.in_ctx(ctx), off as int, data@);
                }
                process_write::<PmCfgLayout, Piix3PM>(self, ctx, off, data);
            },
            _ => {
                self.pci_state.cfg_region_write(id, off, data, &mut ctx.dev);
            },
        }
    }
}

/// The chip, as a device, when the power comes on.
pub open spec fn pm_device() -> DevView {
    plain_device(
        Ident {
            vendor_id: VENDOR_INTEL,
            device_id: PIIX4_PM_DEV_ID,
            class: CLASS_BRIDGE,
            subclass: SUBCLASS_BRIDGE_OTHER,
            prog_if: 0,
            revision_id: 3,
            sub_vendor_id: VENDOR_OXIDE,
            sub_device_id: PIIX4_PM_SUB_DEV_ID,
        },
        true,
        seq![std_region(), custom_region(PMCFG_OFFSET, PMCFG_LEN)],
        no_bars(),
    )
}

impl Piix3PM {
    /// The chip when the power comes on.
    pub fn create(power_pin: Option<u32>) -> (r: Self)
        ensures
            r.wf(),
            r.regs == PMRegs::spec_default(),
            !r.pmtmr_located,
            r.power_pin == power_pin,
            r.pci_state@ == pm_device(),
            region_at(r.pci_state@.regions, 0, PMCFG_OFFSET as int) == Some(
                RegSpan {
                    id: CfgReg::Custom(PMCFG_OFFSET),
                    start: PMCFG_OFFSET as usize,
                    len: PMCFG_LEN,
                    passthru: true,
                },
            ),
    {
        let builder: Builder = Builder::new(
            Ident {
                vendor_id: VENDOR_INTEL,
                device_id: PIIX4_PM_DEV_ID,
                class: CLASS_BRIDGE,
                subclass: SUBCLASS_BRIDGE_OTHER,
                prog_if: 0,
                // Guests take the timer of an earlier revision for a slow one.
                revision_id: 3,
                sub_vendor_id: VENDOR_OXIDE,
                sub_device_id: PIIX4_PM_SUB_DEV_ID,
            },
        );
        let pci_state: DeviceState = builder.add_custom_cfg(
            PMCFG_OFFSET,
            PMCFG_LEN as u8,
        ).add_lintr().finish();
        proof {
            reveal_with_fuel(region_at, 3);
        }
        assert(pci_state@ =~= pm_device());
        Piix3PM { pci_state, regs: PMRegs::default(), pmtmr_located: false, power_pin }
    }

    /// Gives the chip its place on a bus.
    pub fn pci_attach(&mut self, attachment: Attachment)
        requires
            old(self).wf(),
            old(self).pci_state@.attach is None,
        ensures
            final(self).wf(),
            final(self).pci_state@ == (DevView {
                attach: Some(attachment),
                ..old(self).pci_state@
            }),
            final(self).regs == old(self).regs,
            final(self).pmtmr_located == old(self).pmtmr_located,
            final(self).power_pin == old(self).power_pin,
    {
        self.pci_state.attach(attachment);
    }

    /// The range of ports of the chip, and the port of the timer that the
    /// hypervisor is told.
    pub fn attach(&self) -> (r: ((u16, u16), u16))
        ensures
            r.0 == (PMBASE_DEFAULT, PMBASE_LEN),
            r.1 == PMBASE_DEFAULT + PM_TMR_OFFSET,
    {
        ((PMBASE_DEFAULT, PMBASE_LEN), PMBASE_DEFAULT + PM_TMR_OFFSET)
    }

    /// Services an access to the power management registers.
    pub fn pio_rw(&mut self, rwo: RWOp, ctx: &mut PmCtx) -> (r: RWOp)
        requires
            old(self).wf(),
            rwo.spec_offset() + rwo.bytes().len() <= usize::MAX,
        ensures
            final(self).wf(),
            r.spec_offset() == rwo.spec_offset(),
            r is Read <==> rwo is Read,
            rwo is Read ==> {
                &&& final(self).in_ctx(final(ctx)) == old(self).in_ctx(old(ctx))
                &&& r.bytes() == space_read::<PmRegLayout, Piix3PM>(
                    old(self).in_ctx(old(ctx)),
                    rwo.spec_offset() as int,
                    rwo.bytes(),
                )
            },
            rwo is Write ==> {
                &&& r.bytes() == rwo.bytes()
                &&& final(self).in_ctx(final(ctx)) == space_write::<PmRegLayout, Piix3PM>(
                    old(self).in_ctx(old(ctx)),
                    rwo.spec_offset() as int,
                    rwo.bytes(),
                )
            },
    {
        match rwo {
            RWOp::Read(ro) => {
                let offset: usize = ro.offset;
                let buf: Vec<u8> = process_read::<PmRegLayout, Piix3PM>(self, ctx, offset, ro.buf);
                RWOp::Read(ReadOp { offset, buf })
            },
            RWOp::Write(wo) => {
                let copy: Vec<u8> = copy_vec(&wo.buf);
                process_write::<PmRegLayout, Piix3PM>(self, ctx, wo.offset, copy);
                RWOp::Write(wo)
            },
        }
    }

    /// Services an access to the configuration space.
    pub fn cfg_rw(&mut self, rwo: RWOp, ctx: &mut PmCtx) -> (r: RWOp)
        requires
            old(self).wf(),
            old(self).pci_state@.attach is Some,
            rwo.spec_offset() + rwo.bytes().len() <= usize::MAX,
        ensures
            final(self).wf(),
            final(self).pci_state@.attach is Some,
            r.spec_offset() == rwo.spec_offset(),
            r is Read <==> rwo is Read,
            rwo is Read ==> {
                &&& final(self).in_ctx(final(ctx)) == old(self).in_ctx(old(ctx))
                &&& r.bytes() == space_read::<CfgLayout, Piix3PM>(
                    old(self).in_ctx(old(ctx)),
                    rwo.spec_offset() as int,
                    rwo.bytes(),
                )
            },
            rwo is Write ==> {
                &&& r.bytes() == rwo.bytes()
                &&& final(self).in_ctx(final(ctx)) == space_write::<CfgLayout, Piix3PM>(
                    old(self).in_ctx(old(ctx)),
                    rwo.spec_offset() as int,
                    rwo.bytes(),
                )
            },
    {
        match rwo {
            RWOp::Read(ro) => {
                let offset: usize = ro.offset;
                let buf: Vec<u8> = process_read::<CfgLayout, Piix3PM>(self, ctx, offset, ro.buf);
                RWOp::Read(ReadOp { offset, buf })
            },
            RWOp::Write(wo) => {
                let copy: Vec<u8> = copy_vec(&wo.buf);
                process_write::<CfgLayout, Piix3PM>(self, ctx, wo.offset, copy);
                RWOp::Write(wo)
            },
        }
    }

    /// The port of the timer that the hypervisor is to be told, unless it knows
    /// it. This is asked when the machine starts, and when it resumes.
    pub fn ensure_pmtmr_located(&mut self) -> (r: Option<u16>)
        requires
            old(self).wf(),
            old(self).regs.pm_base + PM_TMR_OFFSET <= u16::MAX,
        ensures
            final(self).wf(),
            *final(self) == (Piix3PM { pmtmr_located: true, ..*old(self) }),
            r == (if old(self).pmtmr_located {
                None::<u16>
            } else {
                Some((old(self).regs.pm_base + PM_TMR_OFFSET) as u16)
            }),
    {
        if !self.pmtmr_located {
            self.pmtmr_located = true;
            Some(self.regs.pm_base + PM_TMR_OFFSET)
        } else {
            None
        }
    }

    /// Resets the chip. The hypervisor is to be told the port of the timer
    /// again, once the machine runs.
    pub fn reset(&mut self, ctx: &mut PmCtx)
        requires
            old(self).wf(),
        ensures
            final(self).wf(),
            final(self).in_ctx(final(ctx)) == (PmModel {
                dev: dev_reset(old(self).in_ctx(old(ctx)).dev),
                regs: PMRegs::spec_default(),
                pmtmr_located: false,
                ..old(self).in_ctx(old(ctx))
            }),
    {
        self.pci_state.reset(&mut ctx.dev);
        self.regs.reset();
        self.pmtmr_located = false;
    }

    /// The state to be moved to another host.
    pub fn export(&self) -> (r: (Piix3PmV1, PciStateV1))
        requires
            self.wf(),
        ensures
            r.0 == saved_regs(self.regs),
            self.pci_state@.saved_as(r.1),
    {
        (
            Piix3PmV1 {
                pm_base: self.regs.pm_base,
                pm_status: get_button_bits(self.regs.pwrbtn_sts),
                pm_ena: get_button_bits(self.regs.pwrbtn_en),
                pm_ctrl: self.regs.pm_ctrl.bits(),
            },
            self.pci_state.export(),
        )
    }

    /// Takes over the state brought from another host.
    pub fn import(&mut self, data: Piix3PmV1, pci: PciStateV1, ctx: &mut PmCtx) -> (r: Result<
        (),
        MigrateStateError,
    >)
        requires
            old(self).wf(),
        ensures
            ({
                let m0 = old(self).in_ctx(old(ctx));
                let (regs, e) = regs_imported(m0.regs, data);
                match e {
                    Some(e) => {
                        &&& r == Err::<(), MigrateStateError>(e)
                        &&& final(self).in_ctx(final(ctx)) == (PmModel { regs, ..m0 })
                    },
                    None => {
                        let (dev, e) = dev_imported(m0.dev, pci);
                        &&& final(self).in_ctx(final(ctx)) == (PmModel { regs, dev, ..m0 })
                        &&& match e {
                            Some(e) => r == Err::<(), MigrateStateError>(e),
                            None => r is Ok,
                        }
                    },
                }
            }),
            r is Ok && saved_ok(pci.bars.entries@) ==> final(self).wf(),
    {
        self.regs.pm_base = data.pm_base;
        if data.pm_status != 0 && data.pm_status != PWRBTN {
            return Err(MigrateStateError::Piix3PmStatus(data.pm_status));
        }
        self.regs.pwrbtn_sts = data.pm_status == PWRBTN;
        if data.pm_ena != 0 && data.pm_ena != PWRBTN {
            return Err(MigrateStateError::Piix3PmEna(data.pm_ena));
        }
        self.regs.pwrbtn_en = data.pm_ena == PWRBTN;
        let ctrl: PmCntrl = PmCntrl::from_bits_truncate(data.pm_ctrl);
        if ctrl.bits() != data.pm_ctrl {
            return Err(MigrateStateError::Piix3PmCtrl(data.pm_ctrl));
        }
        self.regs.pm_ctrl = ctrl;
        self.pci_state.import(pci, &mut ctx.dev)
    }
}

/// What is saved of the registers.
pub open spec fn saved_regs(regs: PMRegs) -> Piix3PmV1 {
    Piix3PmV1 {
        pm_base: regs.pm_base,
        pm_status: button_bits(regs.pwrbtn_sts),
        pm_ena: button_bits(regs.pwrbtn_en),
        pm_ctrl: regs.pm_ctrl.spec_bits(),
    }
}

/// The registers after saved ones were taken over, up to the first value that
/// cannot be, and why it cannot be.
pub open spec fn regs_imported(regs: PMRegs, s: Piix3PmV1) -> (PMRegs, Option<MigrateStateError>) {
    let r1 = PMRegs { pm_base: s.pm_base, ..regs };
    let r2 = PMRegs { pwrbtn_sts: s.pm_status == PWRBTN, ..r1 };
    let r3 = PMRegs { pwrbtn_en: s.pm_ena == PWRBTN, ..r2 };
    let ctrl = PmCntrl::spec_truncate(s.pm_ctrl);
    if s.pm_status != 0 && s.pm_status != PWRBTN {
        (r1, Some(MigrateStateError::Piix3PmStatus(s.pm_status)))
    } else if s.pm_ena != 0 && s.pm_ena != PWRBTN {
        (r2, Some(MigrateStateError::Piix3PmEna(s.pm_ena)))
    } else if ctrl.spec_bits() != s.pm_ctrl {
        (r3, Some(MigrateStateError::Piix3PmCtrl(s.pm_ctrl)))
    } else {
        (PMRegs { pm_ctrl: ctrl, ..r3 }, None)
    }
}

/// Registers that take over what others saved hold what those held.
pub proof fn law_pm_migrates(from: PMRegs, to: PMRegs)
    requires
        from.pm_ctrl.wf(),
    ensures
        regs_imported(to, saved_regs(from)) == (from, None::<MigrateStateError>),
{
    law_pm_control_round_trip(from.pm_ctrl);
}

/// A machine that asks for its power to be turned off has it turned off, and
/// one that asks for another kind of sleep has not.
pub proof fn law_soft_off(m: PmModel, v: u16, line: u32)
    requires
        m.power_pin == Some(line),
    ensures
        ({
            let c = PmCntrl::spec_truncate(v);
            let n = pmreg_wr(m, PmReg::PmCntrl, le16(v));
            &&& n.pins == if c.sus_en && c.sus_typ == 0 {
                m.pins.push(PinEvent::Pulse(line))
            } else {
                m.pins
            }
            &&& !n.regs.pm_ctrl.sus_en
        }),
{
    crate::common::law_le16_round_trip(v, le16(v));
}

/// The power button is reported until the guest clears it by a one.
pub proof fn law_button_write_clears(m: PmModel, v: u16)
    ensures
        pmreg_wr(m, PmReg::PmSts, le16(v)).regs.pwrbtn_sts == (m.regs.pwrbtn_sts && !has_button(v)),
{
    crate::common::law_le16_round_trip(v, le16(v));
}

} // verus!
