//! The Intel 440FX chipset: the host bridge, the bridge to the low pin count
//! bus, and the power management.
use crate::common::{RWOp, ReadOp};
use crate::hw::bhyve::pmtimer::BhyvePmTimer;
use crate::hw::chipset::irq::{
    pic_line, pin_handle, IrqConfig, IrqView, LNKPin, LNK_LINE_BASE, SCI_IRQ,
};
use crate::hw::chipset::lpc::{lpc_device, LpcCtx, LpcModel, Piix3Lpc};
use crate::hw::chipset::pm::{
    pm_device, PMRegs, Piix3PM, PmCtx, PmModel, PMBASE_DEFAULT, PMBASE_LEN, PM_TMR_OFFSET,
};
use crate::hw::chipset::Chipset;
use crate::hw::ibmpc::{LEN_FAST_A20, LEN_POST_CODE, PORT_FAST_A20, PORT_POST_CODE};
use crate::hw::ids::{PIIX4_HB_DEV_ID, PIIX4_HB_SUB_DEV_ID, VENDOR_INTEL, VENDOR_OXIDE};
use crate::hw::pci::bar::saved_ok;
use crate::hw::pci::bits::{
    CLASS_BRIDGE, LEN_PCI_CONFIG_ADDR, LEN_PCI_CONFIG_DATA, PCIE_MAX_BUSES_PER_ECAM_REGION,
    PORT_PCI_CONFIG_ADDR, PORT_PCI_CONFIG_DATA, SUBCLASS_BRIDGE_HOST,
};
use crate::hw::pci::bridge::{Bridge, BridgeLayout, BridgeModel};
use crate::hw::pci::bus::{Attachment, BusView, Endpoint};
use crate::hw::pci::device::{
    dev_imported, dev_reset, no_bars, plain_device, std_region, Builder, CfgLayout, DevCtx,
    DevModel, DevView, DeviceState, Ident, PciStateV1, SlotInfo,
};
use crate::hw::pci::topology::{
    bridges_exist, route_exists, CfgAnswer, LogicalBusId, RoutedBusId, TopoView, Topology,
};
use crate::hw::pci::{
    ecam_bdf, pio_bdf, unclaimed, Bdf, BusLocation, BusNum, CfgDispatch, DevEvent, INTxPinID,
    LintrCfg, PcieCfgDecoder, PioCfgDecoder,
};
use crate::intr_pins::PinEvent;
use crate::migrate::MigrateStateError;
use crate::regmap::{space_read, space_write};
use vstd::prelude::*;

verus! {

/// Where the host bridge is on bus 0.
pub const HB_DEV: u8 = 0;

/// The function of the host bridge.
pub const HB_FUNC: u8 = 0;

/// Where the bridge to the low pin count bus is on bus 0.
pub const LPC_DEV: u8 = 1;

/// The function of the bridge to the low pin count bus.
pub const LPC_FUNC: u8 = 0;

/// Where the power management is on bus 0.
pub const PM_DEV: u8 = 1;

/// The function of the power management.
pub const PM_FUNC: u8 = 3;

/// The number by which the topology knows the host bridge.
pub const HB_ID: u32 = 0;

/// The number by which the topology knows the bridge to the low pin count bus.
pub const LPC_ID: u32 = 1;

/// The number by which the topology knows the power management.
pub const PM_ID: u32 = 2;

/// The first number for devices that are not part of the chipset.
pub const FIRST_DEVICE_ID: u32 = 3;

/// Where the configuration space of PCIe stands in memory.
pub const ADDR_PCIE_ECAM_REGION: usize = 0xe000_0000;

/// The size of the configuration space of PCIe.
pub const LEN_PCI_ECAM_REGION: usize = 0x1000_0000;

// ---------------------------------------------------------------------------
// The host bridge
// ---------------------------------------------------------------------------

/// The host bridge.
#[derive(Debug)]
pub struct Piix4HostBridge {
    pub pci_state: DeviceState,
}

/// The host bridge, as a device, when the power comes on.
pub open spec fn hb_device() -> DevView {
    plain_device(
        Ident {
            vendor_id: VENDOR_INTEL,
            device_id: PIIX4_HB_DEV_ID,
            class: CLASS_BRIDGE,
            subclass: SUBCLASS_BRIDGE_HOST,
            prog_if: 0,
            revision_id: 0,
            sub_vendor_id: VENDOR_OXIDE,
            sub_device_id: PIIX4_HB_SUB_DEV_ID,
        },
        false,
        seq![std_region()],
        no_bars(),
    )
}

impl Piix4HostBridge {
    /// The host bridge when the power comes on.
    pub fn create() -> (r: Self)
        ensures
            r.pci_state@.wf(),
            r.pci_state@ == hb_device(),
    {
        let builder: Builder = Builder::new(
            Ident {
                vendor_id: VENDOR_INTEL,
                device_id: PIIX4_HB_DEV_ID,
                class: CLASS_BRIDGE,
                subclass: SUBCLASS_BRIDGE_HOST,
                prog_if: 0,
                revision_id: 0,
                sub_vendor_id: VENDOR_OXIDE,
                sub_device_id: PIIX4_HB_SUB_DEV_ID,
            },
        );
        let pci_state: DeviceState = builder.finish();
        assert(pci_state@ =~= hb_device());
        Piix4HostBridge { pci_state }
    }

    /// Resets the host bridge.
    pub fn reset(&mut self, ctx: &mut DevCtx)
        requires
            old(self).pci_state@.wf(),
        ensures
            final(self).pci_state@.wf(),
            final(self).pci_state.in_ctx(final(ctx)) == dev_reset(
                old(self).pci_state.in_ctx(old(ctx)),
            ),
    {
        self.pci_state.reset(ctx);
    }

    /// The state to be moved to another host.
    pub fn export(&self) -> (r: PciStateV1)
        ensures
            self.pci_state@.saved_as(r),
    {
        self.pci_state.export()
    }

    /// Takes over the state brought from another host.
    pub fn import(&mut self, state: PciStateV1, ctx: &mut DevCtx) -> (r: Result<
        (),
        MigrateStateError,
    >)
        requires
            old(self).pci_state@.wf(),
        ensures
            ({
                let (m, e) = dev_imported(old(self).pci_state.in_ctx(old(ctx)), state);
                &&& final(self).pci_state.in_ctx(final(ctx)) == m
                &&& match e {
                    Some(e) => r == Err::<(), MigrateStateError>(e),
                    None => r is Ok,
                }
            }),
            r is Ok && saved_ok(state.bars.entries@) ==> final(self).pci_state@.wf(),
    {
        self.pci_state.import(state, ctx)
    }
}

// ---------------------------------------------------------------------------
// The chipset
// ---------------------------------------------------------------------------

/// What a chipset is made with.
#[derive(Clone, Copy, Debug, PartialEq, Eq, Structural)]
pub struct Opts {
    /// Whether there is a configuration space of PCIe in memory.
    pub enable_pcie: bool,
    /// The line that turns the power off.
    pub power_pin: Option<u32>,
    /// The line that resets the machine.
    pub reset_pin: Option<u32>,
}

impl Default for Opts {
    /// No configuration space in memory, and no lines.
    fn default() -> (r: Self)
        ensures
            r == (Opts { enable_pcie: false, power_pin: None, reset_pin: None }),
    {
        Opts { enable_pcie: false, power_pin: None, reset_pin: None }
    }
}

/// What the bridge to the low pin count bus holds.
#[verifier::ext_equal]
pub struct LpcState {
    pub dev: DevView,
    pub pir: Seq<u8>,
    pub post_code: u8,
    pub irq: IrqView,
}

/// What the power management holds.
#[verifier::ext_equal]
pub struct PmState {
    pub dev: DevView,
    pub regs: PMRegs,
    pub pmtmr_located: bool,
    pub power_pin: Option<u32>,
}

/// What a chipset holds.
#[verifier::ext_equal]
pub struct ChipView {
    pub topo: TopoView,
    pub pci_cfg: PioCfgDecoder,
    pub pcie_cfg: PcieCfgDecoder,
    pub enable_pcie: bool,
    pub power_pin: Option<u32>,
    pub reset_pin: Option<u32>,
    pub hb: DevView,
    pub lpc: LpcState,
    pub pm: PmState,
    pub pm_timer: BhyvePmTimer,
}

/// The chipset.
#[derive(Debug)]
pub struct I440Fx {
    pub pci_topology: Topology,
    pub pci_cfg: PioCfgDecoder,
    pub pcie_cfg: PcieCfgDecoder,
    pub enable_pcie: bool,
    pub pin_power: Option<u32>,
    pub pin_reset: Option<u32>,
    pub dev_hb: Piix4HostBridge,
    pub dev_lpc: Piix3Lpc,
    pub dev_pm: Piix3PM,
    pub pm_timer: BhyvePmTimer,
}

/// The state of the chipset itself, as it is moved to another host.
#[derive(Clone, Copy, Debug, PartialEq, Eq, Structural)]
pub struct I440FXChipsetV1 {
    pub pci_cfg_addr: u32,
}

/// What became of an access to the configuration space that the chipset has
/// serviced.
#[derive(Debug)]
pub struct CfgReply {
    pub op: RWOp,
    /// What it brought about outside of the device.
    pub events: Vec<DevEvent>,
    /// What happened to interrupt lines.
    pub pins: Vec<PinEvent>,
}

/// What becomes of an access to the configuration space.
#[derive(Debug)]
pub enum CfgOutcome {
    /// It is serviced.
    Done(CfgReply),
    /// The device of that number is to service it.
    Device(u32, RWOp),
}

impl View for I440Fx {
    type V = ChipView;

    open spec fn view(&self) -> ChipView {
        ChipView {
            topo: self.pci_topology@,
            pci_cfg: self.pci_cfg,
            pcie_cfg: self.pcie_cfg,
            enable_pcie: self.enable_pcie,
            power_pin: self.pin_power,
            reset_pin: self.pin_reset,
            hb: self.dev_hb.pci_state@,
            lpc: LpcState {
                dev: self.dev_lpc.pci_state@,
                pir: self.dev_lpc.reg_pir@,
                post_code: self.dev_lpc.post_code,
                irq: self.dev_lpc.irq_config@,
            },
            pm: PmState {
                dev: self.dev_pm.pci_state@,
                regs: self.dev_pm.regs,
                pmtmr_located: self.dev_pm.pmtmr_located,
                power_pin: self.dev_pm.power_pin,
            },
            pm_timer: self.pm_timer,
        }
    }
}

/// The interrupt pin of a function: functions take turns, from the second pin
/// on.
pub open spec fn intx_of(func: u8) -> INTxPinID {
    if (func + 1) % 4 == 0 {
        INTxPinID::IntA
    } else if (func + 1) % 4 == 1 {
        INTxPinID::IntB
    } else if (func + 1) % 4 == 2 {
        INTxPinID::IntC
    } else {
        INTxPinID::IntD
    }
}

/// Which of the four lines the function at a place drives: the pins of the
/// first device drive the last line, and the first three, in this order, and
/// each further device starts one line later.
pub open spec fn lnk_index(loc: BusLocation) -> int {
    (loc.dev + intx_of(loc.func).spec_raw() + 2) % 4
}

/// The interrupt pin of the function at a place of bus 0, and the line that it
/// drives.
pub open spec fn lintr_of(loc: BusLocation) -> LintrCfg {
    LintrCfg { id: intx_of(loc.func), line: (LNK_LINE_BASE + lnk_index(loc)) as u32 }
}

/// The four lines are shared out evenly: neighbouring devices drive neighbouring
/// lines with the same pin, and so do neighbouring pins of a device.
pub proof fn law_lines_shared_out(dev: u8, func: u8)
    requires
        dev < 31,
        func < 7,
    ensures
        lnk_index(BusLocation { dev: (dev + 1) as u8, func }) == (lnk_index(
            BusLocation { dev, func },
        ) + 1) % 4,
        lnk_index(BusLocation { dev, func: (func + 1) as u8 }) == (lnk_index(
            BusLocation { dev, func },
        ) + 1) % 4,
{
}

/// The place of a function on bus 0.
pub open spec fn on_bus0(dev: u8, func: u8) -> BusLocation {
    BusLocation { dev, func }
}

/// What bus 0 tells of the place of a device.
pub open spec fn chip_slot(v: ChipView, loc: BusLocation) -> SlotInfo {
    SlotInfo {
        is_multifunc: v.topo.buses[0].multifunc(loc.dev),
        lintr_asserted: v.lpc.irq.lnk[lnk_index(loc)].asserted,
    }
}

/// The bridge to the low pin count bus at the beginning of an access.
pub open spec fn lpc_model(v: ChipView) -> LpcModel {
    LpcModel {
        dev: DevModel {
            dev: v.lpc.dev,
            slot: chip_slot(v, on_bus0(LPC_DEV, LPC_FUNC)),
            events: Seq::empty(),
        },
        pir: v.lpc.pir,
        post_code: v.lpc.post_code,
        irq: v.lpc.irq,
        pins: Seq::empty(),
    }
}

/// The power management at the beginning of an access.
pub open spec fn pm_model(v: ChipView) -> PmModel {
    PmModel {
        dev: DevModel {
            dev: v.pm.dev,
            slot: chip_slot(v, on_bus0(PM_DEV, PM_FUNC)),
            events: Seq::empty(),
        },
        regs: v.pm.regs,
        pmtmr_located: v.pm.pmtmr_located,
        power_pin: v.pm.power_pin,
        pins: Seq::empty(),
    }
}

/// The host bridge at the beginning of an access.
pub open spec fn hb_model(v: ChipView) -> DevModel {
    DevModel { dev: v.hb, slot: chip_slot(v, on_bus0(HB_DEV, HB_FUNC)), events: Seq::empty() }
}

/// What an access to the configuration space leads to.
#[verifier::ext_equal]
pub struct ChipStep {
    pub v: ChipView,
    /// The device that is to service the access, if the chipset does not.
    pub device: Option<u32>,
    /// The bytes that are read.
    pub data: Seq<u8>,
    pub events: Seq<DevEvent>,
    pub pins: Seq<PinEvent>,
}

/// An access that changes nothing.
pub open spec fn quiet(v: ChipView, data: Seq<u8>) -> ChipStep {
    ChipStep { v, device: None, data, events: Seq::empty(), pins: Seq::empty() }
}

/// An access to the configuration space of the host bridge.
pub open spec fn hb_step(v: ChipView, off: int, data: Seq<u8>, write: bool) -> ChipStep {
    let m = hb_model(v);
    if write {
        let n = space_write::<CfgLayout, DeviceState>(m, off, data);
        ChipStep { v: ChipView { hb: n.dev, ..v }, events: n.events, ..quiet(v, data) }
    } else {
        quiet(v, space_read::<CfgLayout, DeviceState>(m, off, data))
    }
}

/// An access to the configuration space of the bridge to the low pin count bus.
pub open spec fn lpc_step(v: ChipView, off: int, data: Seq<u8>, write: bool) -> ChipStep {
    let m = lpc_model(v);
    if write {
        let n = space_write::<CfgLayout, Piix3Lpc>(m, off, data);
        ChipStep {
            v: ChipView {
                lpc: LpcState { dev: n.dev.dev, pir: n.pir, post_code: n.post_code, irq: n.irq },
                ..v
            },
            events: n.dev.events,
            pins: n.pins,
            ..quiet(v, data)
        }
    } else {
        quiet(v, space_read::<CfgLayout, Piix3Lpc>(m, off, data))
    }
}

/// An access to the configuration space of the power management.
pub open spec fn pm_step(v: ChipView, off: int, data: Seq<u8>, write: bool) -> ChipStep {
    let m = pm_model(v);
    if write {
        let n = space_write::<CfgLayout, Piix3PM>(m, off, data);
        ChipStep {
            v: ChipView {
                pm: PmState {
                    dev: n.dev.dev,
                    regs: n.regs,
                    pmtmr_located: n.pmtmr_located,
                    power_pin: n.power_pin,
                },
                ..v
            },
            events: n.dev.events,
            pins: n.pins,
            ..quiet(v, data)
        }
    } else {
        quiet(v, space_read::<CfgLayout, Piix3PM>(m, off, data))
    }
}

/// An access to the configuration space of a bridge of the topology.
pub open spec fn bridge_step(v: ChipView, i: int, off: int, data: Seq<u8>, write: bool) -> ChipStep {
    let m = BridgeModel { bridge: v.topo.bridges[i], router: v.topo.router };
    if write {
        ChipStep {
            v: ChipView {
                topo: v.topo.with_bridge(i, space_write::<BridgeLayout, Bridge>(m, off, data)),
                ..v
            },
            ..quiet(v, data)
        }
    } else {
        quiet(v, space_read::<BridgeLayout, Bridge>(m, off, data))
    }
}

/// What an access to nothing reads as: all ones.
pub open spec fn nothing_read(data: Seq<u8>, write: bool) -> Seq<u8> {
    if write {
        data
    } else {
        Seq::new(data.len(), |i: int| 0xffu8)
    }
}

/// An access to the configuration space of a function.
pub open spec fn cfg_step(v: ChipView, bdf: Bdf, off: int, data: Seq<u8>, write: bool) -> ChipStep {
    match v.topo.target(RoutedBusId(bdf.bus.0), bdf.location) {
        None => quiet(v, nothing_read(data, write)),
        Some(Endpoint::Bridge(i)) => bridge_step(v, i as int, off, data, write),
        Some(Endpoint::Device(d)) => {
            if d == HB_ID {
                hb_step(v, off, data, write)
            } else if d == LPC_ID {
                lpc_step(v, off, data, write)
            } else if d == PM_ID {
                pm_step(v, off, data, write)
            } else {
                ChipStep { device: Some(d), ..quiet(v, data) }
            }
        },
    }
}

/// Whether an outcome is that of a step, for an access at an offset.
pub open spec fn outcome_of(s: ChipStep, off: int, write: bool, r: CfgOutcome) -> bool {
    match r {
        CfgOutcome::Done(reply) => {
            &&& s.device is None
            &&& reply.op.spec_offset() == off
            &&& reply.op is Write <==> write
            &&& reply.op.bytes() == s.data
            &&& reply.events@ == s.events
            &&& reply.pins@ == s.pins
        },
        CfgOutcome::Device(d, op) => {
            &&& s.device == Some(d)
            &&& op.spec_offset() == off
            &&& op is Write <==> write
            &&& op.bytes() == s.data
        },
    }
}

/// The ranges of addresses that a chipset answers at, each with its length.
#[derive(Clone, Copy, Debug, PartialEq, Eq)]
pub struct ChipRanges {
    pub config_addr: (u16, u16),
    pub config_data: (u16, u16),
    pub fast_a20: (u16, u16),
    pub post_code: (u16, u16),
    pub pm_regs: (u16, u16),
    /// The configuration space in memory, if there is one.
    pub ecam: Option<(usize, usize)>,
}

/// What bus 0 holds after the chipset was attached to it.
pub open spec fn with_chipset(b: BusView) -> BusView {
    b.with(on_bus0(HB_DEV, HB_FUNC), Endpoint::Device(HB_ID)).with(
        on_bus0(LPC_DEV, LPC_FUNC),
        Endpoint::Device(LPC_ID),
    ).with(on_bus0(PM_DEV, PM_FUNC), Endpoint::Device(PM_ID))
}

impl I440Fx {
    /// The invariant of the chipset.
    pub open spec fn wf(&self) -> bool {
        &&& self.pci_topology@.wf()
        &&& self.pci_topology@.buses.len() > 0
        &&& self.pcie_cfg.wf()
        &&& self.pcie_cfg.max_buses == PCIE_MAX_BUSES_PER_ECAM_REGION
        &&& self.dev_hb.pci_state@.wf()
        &&& self.dev_lpc.wf()
        &&& self.dev_pm.wf()
        &&& self.dev_hb.pci_state@.attach is Some
        &&& self.dev_lpc.pci_state@.attach is Some
        &&& self.dev_pm.pci_state@.attach is Some
    }

    /// The chipset, attached to bus 0 of a topology.
    pub fn create(pci_topology: Topology, opts: Opts) -> (r: Self)
        requires
            pci_topology@.wf(),
            pci_topology@.buses.len() > 0,
            pci_topology@.buses[0].at(on_bus0(HB_DEV, HB_FUNC)) is None,
            pci_topology@.buses[0].at(on_bus0(LPC_DEV, LPC_FUNC)) is None,
            pci_topology@.buses[0].at(on_bus0(PM_DEV, PM_FUNC)) is None,
        ensures
            r.wf(),
            r@.topo == (TopoView {
                buses: pci_topology@.buses.update(0, with_chipset(pci_topology@.buses[0])),
                ..pci_topology@
            }),
            r@.pci_cfg.addr == 0,
            r@.pcie_cfg.max_buses == PCIE_MAX_BUSES_PER_ECAM_REGION,
            r@.enable_pcie == opts.enable_pcie,
            r@.power_pin == opts.power_pin,
            r@.reset_pin == opts.reset_pin,
            r@.hb == (DevView {
                attach: Some(
                    Attachment {
                        location: on_bus0(HB_DEV, HB_FUNC),
                        lintr_cfg: Some(lintr_of(on_bus0(HB_DEV, HB_FUNC))),
                    },
                ),
                ..hb_device()
            }),
            r@.lpc.dev == (DevView {
                attach: Some(
                    Attachment {
                        location: on_bus0(LPC_DEV, LPC_FUNC),
                        lintr_cfg: Some(lintr_of(on_bus0(LPC_DEV, LPC_FUNC))),
                    },
                ),
                ..lpc_device()
            }),
            r@.lpc.pir == crate::common::zeros(4),
            r@.lpc.post_code == 0,
            r@.lpc.irq.lnk == Seq::new(4, |i: int| LNKPin { asserted: false, pin: None }),
            r@.lpc.irq.sci == (LNKPin { asserted: false, pin: Some(SCI_IRQ as u32) }),
            r@.pm.dev == (DevView {
                attach: Some(
                    Attachment {
                        location: on_bus0(PM_DEV, PM_FUNC),
                        lintr_cfg: Some(lintr_of(on_bus0(PM_DEV, PM_FUNC))),
                    },
                ),
                ..pm_device()
            }),
            r@.pm.regs == PMRegs::spec_default(),
            r@.pm.power_pin == opts.power_pin,
            !r@.pm.pmtmr_located,
            r@.pm_timer == (BhyvePmTimer {
                ioport: (PMBASE_DEFAULT + PM_TMR_OFFSET) as u16,
                attached_ioport: None,
            }),
    {
        let ghost t0 = pci_topology@;
        let mut topo: Topology = pci_topology;
        let mut hb: Piix4HostBridge = Piix4HostBridge::create();
        let mut lpc: Piix3Lpc = Piix3Lpc::create(IrqConfig::create());
        let mut pm: Piix3PM = Piix3PM::create(opts.power_pin);

        assert(bridges_exist(t0.buses[0], t0.bridges.len()));
        let hb_loc: BusLocation = BusLocation { dev: HB_DEV, func: HB_FUNC };
        let a_hb: Attachment = attach_at(&mut topo, hb_loc, HB_ID);
        hb.pci_state.attach(a_hb);

        let lpc_loc: BusLocation = BusLocation { dev: LPC_DEV, func: LPC_FUNC };
        let a_lpc: Attachment = attach_at(&mut topo, lpc_loc, LPC_ID);
        lpc.pci_attach(a_lpc);

        let pm_loc: BusLocation = BusLocation { dev: PM_DEV, func: PM_FUNC };
        let a_pm: Attachment = attach_at(&mut topo, pm_loc, PM_ID);
        pm.pci_attach(a_pm);
        assert(topo@.buses =~= t0.buses.update(0, with_chipset(t0.buses[0])));

        I440Fx {
            pci_topology: topo,
            pci_cfg: PioCfgDecoder::new(),
            pcie_cfg: PcieCfgDecoder::new(PCIE_MAX_BUSES_PER_ECAM_REGION),
            enable_pcie: opts.enable_pcie,
            pin_power: opts.power_pin,
            pin_reset: opts.reset_pin,
            dev_hb: hb,
            dev_lpc: lpc,
            dev_pm: pm,
            pm_timer: BhyvePmTimer::create(PMBASE_DEFAULT + PM_TMR_OFFSET),
        }
    }

    /// The ranges of addresses that the chipset answers at.
    pub fn ranges(&self) -> (r: ChipRanges)
        ensures
            r == (ChipRanges {
                config_addr: (PORT_PCI_CONFIG_ADDR, LEN_PCI_CONFIG_ADDR),
                config_data: (PORT_PCI_CONFIG_DATA, LEN_PCI_CONFIG_DATA),
                fast_a20: (PORT_FAST_A20, LEN_FAST_A20),
                post_code: (PORT_POST_CODE, LEN_POST_CODE),
                pm_regs: (PMBASE_DEFAULT, PMBASE_LEN),
                ecam: if self@.enable_pcie {
                    Some((ADDR_PCIE_ECAM_REGION, LEN_PCI_ECAM_REGION))
                } else {
                    None
                },
            }),
    {
        let lpc: [(u16, u16); 2] = self.dev_lpc.attach();
        ChipRanges {
            config_addr: (PORT_PCI_CONFIG_ADDR, LEN_PCI_CONFIG_ADDR),
            config_data: (PORT_PCI_CONFIG_DATA, LEN_PCI_CONFIG_DATA),
            fast_a20: lpc[0],
            post_code: lpc[1],
            pm_regs: self.dev_pm.attach().0,
            ecam: if self.enable_pcie {
                Some((ADDR_PCIE_ECAM_REGION, LEN_PCI_ECAM_REGION))
            } else {
                None
            },
        }
    }

    /// What bus 0 tells of the place of a device on it.
    pub fn slot(&self, dev: u8, func: u8) -> (r: SlotInfo)
        requires
            self.wf(),
            dev < 32,
            func < 8,
        ensures
            r == chip_slot(self@, on_bus0(dev, func)),
    {
        let cfg: LintrCfg = route_lintr(BusLocation { dev, func });
        let idx: usize = (cfg.line - LNK_LINE_BASE) as usize;
        assert(self.pci_topology.buses@[0]@ == self.pci_topology@.buses[0]);
        assert(bridges_exist(self.pci_topology@.buses[0], self.pci_topology@.bridges.len()));
        SlotInfo {
            is_multifunc: self.pci_topology.buses[0].is_multifunc(dev),
            lintr_asserted: self.dev_lpc.irq_config.lnk_pins[idx].is_asserted(),
        }
    }

    /// Services an access to the configuration space of a device of the
    /// chipset.
    fn own_cfg_rw(&mut self, d: u32, rwo: RWOp) -> (r: CfgReply)
        requires
            old(self).wf(),
            d < FIRST_DEVICE_ID,
            rwo.spec_offset() + rwo.bytes().len() <= usize::MAX,
        ensures
            final(self).wf(),
            ({
                let (off, data) = (rwo.spec_offset() as int, rwo.bytes());
                let s = if d == HB_ID {
                    hb_step(old(self)@, off, data, rwo is Write)
                } else if d == LPC_ID {
                    lpc_step(old(self)@, off, data, rwo is Write)
                } else {
                    pm_step(old(self)@, off, data, rwo is Write)
                };
                &&& final(self)@ == s.v
                &&& outcome_of(s, off, rwo is Write, CfgOutcome::Done(r))
            }),
    {
        let ghost v0 = self@;
        let ghost (off, data, write) = (rwo.spec_offset() as int, rwo.bytes(), rwo is Write);
        if d == HB_ID {
            let slot: SlotInfo = self.slot(HB_DEV, HB_FUNC);
            let mut ctx: DevCtx = DevCtx { slot, events: Vec::new() };
            assert(self.dev_hb.pci_state.in_ctx(&ctx) =~= hb_model(v0));
            let op: RWOp = self.dev_hb.pci_state.cfg_rw(rwo, &mut ctx);
            assert(self@ =~= hb_step(v0, off, data, write).v);
            CfgReply { op, events: ctx.events, pins: Vec::new() }
        } else if d == LPC_ID {
            let slot: SlotInfo = self.slot(LPC_DEV, LPC_FUNC);
            let mut ctx: LpcCtx = LpcCtx {
                dev: DevCtx { slot, events: Vec::new() },
                pins: Vec::new(),
            };
            assert(self.dev_lpc.in_ctx(&ctx) =~= lpc_model(v0));
            let op: RWOp = self.dev_lpc.cfg_rw(rwo, &mut ctx);
            assert(self@ =~= lpc_step(v0, off, data, write).v);
            CfgReply { op, events: ctx.dev.events, pins: ctx.pins }
        } else {
            let slot: SlotInfo = self.slot(PM_DEV, PM_FUNC);
            let mut ctx: PmCtx = PmCtx {
                dev: DevCtx { slot, events: Vec::new() },
                pins: Vec::new(),
            };
            assert(self.dev_pm.in_ctx(&ctx) =~= pm_model(v0));
            let op: RWOp = self.dev_pm.cfg_rw(rwo, &mut ctx);
            assert(self@ =~= pm_step(v0, off, data, write).v);
            CfgReply { op, events: ctx.dev.events, pins: ctx.pins }
        }
    }

    /// Issues an access to the configuration space of a function.
    pub fn pci_cfg_rw(&mut self, bdf: Bdf, rwo: RWOp) -> (r: CfgOutcome)
        requires
            old(self).wf(),
            bdf.location.wf(),
            rwo.spec_offset() + rwo.bytes().len() <= usize::MAX,
        ensures
            final(self).wf(),
            ({
                let s = cfg_step(
                    old(self)@,
                    bdf,
                    rwo.spec_offset() as int,
                    rwo.bytes(),
                    rwo is Write,
                );
                &&& final(self)@ == s.v
                &&& outcome_of(s, rwo.spec_offset() as int, rwo is Write, r)
            }),
    {
        let ghost v0 = self@;
        let ghost (off, data, write) = (rwo.spec_offset() as int, rwo.bytes(), rwo is Write);
        let bus: RoutedBusId = RoutedBusId(bdf.bus.get());
        match self.pci_topology.target_of(bus, bdf.location) {
            None => {
                let op: RWOp = unclaimed(rwo);
                assert(op.bytes() =~= nothing_read(data, write));
                CfgOutcome::Done(CfgReply { op, events: Vec::new(), pins: Vec::new() })
            },
            Some(Endpoint::Device(d)) => {
                if d < FIRST_DEVICE_ID {
                    CfgOutcome::Done(self.own_cfg_rw(d, rwo))
                } else {
                    CfgOutcome::Device(d, rwo)
                }
            },
            Some(Endpoint::Bridge(i)) => {
                let op: RWOp = match self.pci_topology.pci_cfg_rw(bus, bdf.location, rwo) {
                    Some(CfgAnswer::Bridge(op)) => op,
                    Some(CfgAnswer::Device(_, op)) => op,
                    None => RWOp::Read(ReadOp { offset: 0, buf: Vec::new() }),
                };
                assert(self@ =~= bridge_step(v0, i as int, off, data, write).v);
                CfgOutcome::Done(CfgReply { op, events: Vec::new(), pins: Vec::new() })
            },
        }
    }

    /// Hands an access to the function that it is meant for.
    fn dispatch(&mut self, to: CfgDispatch) -> (r: CfgOutcome)
        requires
            old(self).wf(),
            match to {
                CfgDispatch::Function(bdf, op) => bdf.location.wf() && op.spec_offset()
                    + op.bytes().len() <= usize::MAX,
                CfgDispatch::Unclaimed(_) => true,
            },
        ensures
            final(self).wf(),
            match to {
                CfgDispatch::Function(bdf, op) => {
                    let s = cfg_step(
                        old(self)@,
                        bdf,
                        op.spec_offset() as int,
                        op.bytes(),
                        op is Write,
                    );
                    &&& final(self)@ == s.v
                    &&& outcome_of(s, op.spec_offset() as int, op is Write, r)
                },
                CfgDispatch::Unclaimed(op) => {
                    &&& final(self)@ == old(self)@
                    &&& outcome_of(
                        quiet(old(self)@, op.bytes()),
                        op.spec_offset() as int,
                        op is Write,
                        r,
                    )
                },
            },
    {
        match to {
            CfgDispatch::Function(bdf, op) => self.pci_cfg_rw(bdf, op),
            CfgDispatch::Unclaimed(op) => CfgOutcome::Done(
                CfgReply { op, events: Vec::new(), pins: Vec::new() },
            ),
        }
    }

    /// Services an access to the ports of the configuration space.
    pub fn pio_rw(&mut self, port: u16, rwo: RWOp) -> (r: CfgOutcome)
        requires
            old(self).wf(),
            port == PORT_PCI_CONFIG_ADDR || port == PORT_PCI_CONFIG_DATA,
            rwo.spec_offset() + rwo.bytes().len() <= 4,
        ensures
            final(self).wf(),
            ({
                let (off, data, write) = (
                    rwo.spec_offset() as int,
                    rwo.bytes(),
                    rwo is Write,
                );
                let v = old(self)@;
                if port == PORT_PCI_CONFIG_ADDR {
                    let whole = off == 0 && data.len() == 4;
                    &&& final(self)@ == (ChipView {
                        pci_cfg: PioCfgDecoder {
                            addr: if whole && write {
                                crate::common::val32(data)
                            } else {
                                v.pci_cfg.addr
                            },
                        },
                        ..v
                    })
                    &&& outcome_of(
                        quiet(
                            v,
                            if whole && !write {
                                crate::common::le32(v.pci_cfg.addr)
                            } else {
                                data
                            },
                        ),
                        off,
                        write,
                        r,
                    )
                } else if v.pci_cfg.addr >= 0x8000_0000 {
                    let at = off + v.pci_cfg.addr % 0x100;
                    let s = cfg_step(v, pio_bdf(v.pci_cfg.addr), at, data, write);
                    &&& final(self)@ == s.v
                    &&& outcome_of(s, at, write, r)
                } else {
                    &&& final(self)@ == v
                    &&& outcome_of(quiet(v, nothing_read(data, write)), off, write, r)
                }
            }),
    {
        let ghost (data, write) = (rwo.bytes(), rwo is Write);
        if port == PORT_PCI_CONFIG_ADDR {
            let op: RWOp = self.pci_cfg.service_addr(rwo);
            CfgOutcome::Done(CfgReply { op, events: Vec::new(), pins: Vec::new() })
        } else {
            let to: CfgDispatch = self.pci_cfg.service_data(rwo);
            proof {
                if let CfgDispatch::Unclaimed(o) = &to {
                    assert(o.bytes() =~= nothing_read(data, write));
                }
            }
            self.dispatch(to)
        }
    }

    /// Services an access to the configuration space in memory.
    pub fn pcie_ecam_rw(&mut self, rwo: RWOp) -> (r: CfgOutcome)
        requires
            old(self).wf(),
            rwo.spec_offset() + rwo.bytes().len() <= usize::MAX,
        ensures
            final(self).wf(),
            ({
                let (off, data, write) = (
                    rwo.spec_offset() as int,
                    rwo.bytes(),
                    rwo is Write,
                );
                let v = old(self)@;
                if off % 0x1000 + data.len() <= 0x1000 {
                    let bdf = ecam_bdf(PCIE_MAX_BUSES_PER_ECAM_REGION, rwo.spec_offset());
                    let s = cfg_step(v, bdf, off % 0x1000, data, write);
                    &&& final(self)@ == s.v
                    &&& outcome_of(s, off % 0x1000, write, r)
                } else {
                    &&& final(self)@ == v
                    &&& outcome_of(quiet(v, nothing_read(data, write)), off, write, r)
                }
            }),
    {
        let ghost (data, write) = (rwo.bytes(), rwo is Write);
        let to: CfgDispatch = self.pcie_cfg.service(rwo);
        proof {
            if let CfgDispatch::Unclaimed(o) = &to {
                assert(o.bytes() =~= nothing_read(data, write));
            }
        }
        self.dispatch(to)
    }

    /// Takes what happens to a line. Lines of PCI devices lead on as the
    /// chipset is told; other lines are not its business.
    pub fn pin_event(&mut self, ev: PinEvent, events: &mut Vec<PinEvent>)
        requires
            old(self).wf(),
        ensures
            final(self).wf(),
            ({
                let line = match ev {
                    PinEvent::Assert(l) => l,
                    PinEvent::Deassert(l) => l,
                    PinEvent::Pulse(l) => l,
                };
                let v = old(self)@;
                if LNK_LINE_BASE <= line < LNK_LINE_BASE + 4 {
                    let idx = line - LNK_LINE_BASE;
                    let irq = v.lpc.irq;
                    &&& final(self)@ == (ChipView {
                        lpc: LpcState {
                            irq: IrqView {
                                lnk: irq.lnk.update(idx, irq.lnk[idx].changed(ev)),
                                ..irq
                            },
                            ..v.lpc
                        },
                        ..v
                    })
                    &&& final(events)@ == old(events)@ + irq.lnk[idx].change_events(ev)
                } else {
                    &&& final(self)@ == v
                    &&& final(events)@ == old(events)@.push(ev)
                }
            }),
    {
        let line: u32 = match ev {
            PinEvent::Assert(l) => l,
            PinEvent::Deassert(l) => l,
            PinEvent::Pulse(l) => l,
        };
        if line >= LNK_LINE_BASE && line < LNK_LINE_BASE + 4 {
            let idx: usize = (line - LNK_LINE_BASE) as usize;
            self.dev_lpc.irq_config.lnk_event(idx, ev, events);
        } else {
            events.push(ev);
        }
    }

    /// The state to be moved to another host.
    pub fn export(&self) -> (r: I440FXChipsetV1)
        ensures
            r.pci_cfg_addr == self@.pci_cfg.addr,
    {
        I440FXChipsetV1 { pci_cfg_addr: self.pci_cfg.addr() }
    }

    /// Takes over the state brought from another host.
    pub fn import(&mut self, data: I440FXChipsetV1)
        requires
            old(self).wf(),
        ensures
            final(self).wf(),
            final(self)@ == (ChipView {
                pci_cfg: PioCfgDecoder { addr: data.pci_cfg_addr },
                ..old(self)@
            }),
    {
        self.pci_cfg.set_addr(data.pci_cfg_addr);
    }
}

/// The interrupt pin of the function at a place of bus 0, and the line that it
/// drives.
pub fn route_lintr(location: BusLocation) -> (r: LintrCfg)
    requires
        location.wf(),
    ensures
        r == lintr_of(location),
        LNK_LINE_BASE <= r.line < LNK_LINE_BASE + 4,
{
    let id: INTxPinID = match (location.func + 1) % 4 {
        0 => INTxPinID::IntA,
        1 => INTxPinID::IntB,
        2 => INTxPinID::IntC,
        _ => INTxPinID::IntD,
    };
    let route: u8 = (location.dev + id.raw() + 2) % 4;
    LintrCfg { id, line: LNK_LINE_BASE + route as u32 }
}

/// Attaches a device to bus 0 of a topology, at a free place.
fn attach_at(topo: &mut Topology, location: BusLocation, dev: u32) -> (r: Attachment)
    requires
        old(topo)@.wf(),
        old(topo)@.buses.len() > 0,
        location.wf(),
        old(topo)@.buses[0].at(location) is None,
    ensures
        final(topo)@.wf(),
        final(topo)@ == (TopoView {
            buses: old(topo)@.buses.update(
                0,
                old(topo)@.buses[0].with(location, Endpoint::Device(dev)),
            ),
            ..old(topo)@
        }),
        r == (Attachment { location, lintr_cfg: Some(lintr_of(location)) }),
{
    let lintr: LintrCfg = route_lintr(location);
    match topo.pci_attach(LogicalBusId(0), location, Endpoint::Device(dev), Some(lintr)) {
        Ok(a) => a,
        Err(_) => Attachment { location, lintr_cfg: Some(lintr) },
    }
}

impl Chipset for I440Fx {
    open spec fn chipset_ok(&self) -> bool {
        self.wf()
    }

    open spec fn can_attach(&self, bdf: Bdf, dev: u32) -> bool {
        &&& bdf.location.wf()
        &&& dev >= FIRST_DEVICE_ID
        &&& self@.topo.router.logical[bdf.bus.0 as int] matches Some(i)
            && self@.topo.buses[i as int].at(bdf.location) is None
    }

    open spec fn irq_line(&self, irq: u8) -> Option<u32> {
        pic_line(irq)
    }

    open spec fn power_line(&self) -> Option<u32> {
        self@.power_pin
    }

    open spec fn reset_line(&self) -> Option<u32> {
        self@.reset_pin
    }

    fn pci_attach(&mut self, bdf: Bdf, dev: u32) -> (r: Attachment)
        ensures
            r.lintr_cfg == (if bdf.bus.0 == 0 {
                Some(lintr_of(bdf.location))
            } else {
                None
            }),
            ({
                let i = old(self)@.topo.router.logical[bdf.bus.0 as int]->0 as int;
                final(self)@ == (ChipView {
                    topo: TopoView {
                        buses: old(self)@.topo.buses.update(
                            i,
                            old(self)@.topo.buses[i].with(bdf.location, Endpoint::Device(dev)),
                        ),
                        ..old(self)@.topo
                    },
                    ..old(self)@
                })
            }),
    {
        assert(route_exists(self@.topo, bdf.bus.0 as int));
        let lintr_cfg: Option<LintrCfg> = if bdf.bus.get() == 0 {
            Some(route_lintr(bdf.location))
        } else {
            None
        };
        match self.pci_topology.pci_attach(
            LogicalBusId(bdf.bus.get()),
            bdf.location,
            Endpoint::Device(dev),
            lintr_cfg,
        ) {
            Ok(a) => a,
            Err(_) => Attachment { location: bdf.location, lintr_cfg },
        }
    }

    fn irq_pin(&self, irq: u8) -> (r: Option<u32>) {
        pin_handle(irq)
    }

    fn power_pin(&self) -> (r: Option<u32>) {
        self.pin_power
    }

    fn reset_pin(&self) -> (r: Option<u32>) {
        self.pin_reset
    }
}

/// What is attached to a bus can be reached, and is asked about its
/// configuration space.
pub proof fn law_attached_is_reached(v: ChipView, loc: BusLocation, dev: u32, off: int, data: Seq<u8>, write: bool)
    requires
        v.topo.wf(),
        v.topo.buses.len() > 0,
        v.topo.buses[0].at(loc) == Some(Endpoint::Device(dev)),
        dev >= FIRST_DEVICE_ID,
    ensures
        cfg_step(v, Bdf { bus: BusNum(0), location: loc }, off, data, write) == (ChipStep {
            device: Some(dev),
            ..quiet(v, data)
        }),
{
}

} // verus!
