//! The PIIX3 bridge to the low pin count bus. It decides where the interrupts
//! of PCI devices lead.
use crate::common::{byte_vec, copy_vec, zeros, RWOp, ReadOp};
use crate::hw::chipset::irq::{route_pin, IrqConfig, IrqView};
use crate::hw::ibmpc::{LEN_FAST_A20, LEN_POST_CODE, PORT_FAST_A20, PORT_POST_CODE};
use crate::hw::ids::{PIIX3_ISA_DEV_ID, PIIX3_ISA_SUB_DEV_ID, VENDOR_INTEL, VENDOR_OXIDE};
use crate::hw::pci::bar::saved_ok;
use crate::hw::pci::bits::{CLASS_BRIDGE, SUBCLASS_BRIDGE_ISA};
use crate::hw::pci::bus::Attachment;
use crate::hw::pci::cfgspace::{find_region, lemma_region_at, region_at, region_ok, CfgReg};
use crate::hw::pci::device::{
    custom_region, dev_cfg_ok, dev_cfg_rd, dev_cfg_wr, dev_imported, dev_reset,
    law_device_migrates, lemma_cfg_spans, lemma_region_bounds, no_bars, plain_device, std_region,
    Builder, CfgLayout, DevCtx, DevModel, DevView, DeviceState, Ident, PciStateV1,
};
use crate::intr_pins::PinEvent;
use crate::migrate::MigrateStateError;
use crate::regmap::{
    process_read, process_write, space_read, space_write, RegSpace, RegSpan,
};
use vstd::prelude::*;

verus! {

/// Where the registers that route interrupts stand in the configuration space.
pub const PIR_OFFSET: u8 = 0x60;

/// Number of these registers.
pub const PIR_LEN: usize = 4;

/// What the register of address line 20 reads as: the line is always enabled.
pub const FAST_A20_OPEN: u8 = 0x02;

/// Whether interrupts of PCI devices can lead to a line of the interrupt
/// controller: 3 to 7, 9 to 12, 14 and 15 can be used.
pub open spec fn pir_irq_ok(irq: u8) -> bool {
    3 <= irq <= 7 || 9 <= irq <= 12 || irq == 14 || irq == 15
}

/// Whether interrupts of PCI devices can lead to a line of the interrupt
/// controller.
pub fn valid_pir_irq(irq: u8) -> (r: bool)
    ensures
        r == pir_irq_ok(irq),
{
    (3 <= irq && irq <= 7) || (9 <= irq && irq <= 12) || irq == 14 || irq == 15
}

/// The line of the interrupt controller that the value of a routing register
/// asks for. The upper bit disables the route.
pub open spec fn pir_route(val: u8) -> Option<u8> {
    if val < 0x80 && pir_irq_ok(val % 16) {
        Some(val % 16)
    } else {
        None
    }
}

/// What accesses to the bridge depend on and bring about.
#[derive(Debug)]
pub struct LpcCtx {
    pub dev: DevCtx,
    /// What happens to lines of the interrupt controller.
    pub pins: Vec<PinEvent>,
}

/// What the bridge and its context hold.
#[verifier::ext_equal]
pub struct LpcModel {
    pub dev: DevModel,
    pub pir: Seq<u8>,
    pub post_code: u8,
    pub irq: IrqView,
    pub pins: Seq<PinEvent>,
}

/// What the bridge and its context hold after a routing register was written.
pub open spec fn pir_written(m: LpcModel, idx: int, val: u8) -> LpcModel {
    if m.pir[idx] != val {
        let pin = route_pin(pir_route(val));
        LpcModel {
            pir: m.pir.update(idx, val),
            irq: m.irq.routed(idx, pin),
            pins: m.pins + m.irq.lnk[idx].reassign_events(pin),
            ..m
        }
    } else {
        m
    }
}

/// What they hold after routing registers were written, one after the other.
pub open spec fn pirs_written(m: LpcModel, off: int, data: Seq<u8>) -> LpcModel
    decreases data.len(),
{
    if data.len() == 0 {
        m
    } else {
        pir_written(
            pirs_written(m, off, data.drop_last()),
            off + data.len() - 1,
            data.last(),
        )
    }
}

/// What a read of a region of the configuration space gives.
pub open spec fn lpc_cfg_rd(m: LpcModel, id: CfgReg, off: int, buf: Seq<u8>) -> Seq<u8> {
    if id is Custom {
        m.pir.subrange(off, off + buf.len())
    } else {
        dev_cfg_rd(m.dev, id, off, buf)
    }
}

/// What a write to a region of the configuration space leads to.
pub open spec fn lpc_cfg_wr(m: LpcModel, id: CfgReg, off: int, data: Seq<u8>) -> LpcModel {
    if id is Custom {
        pirs_written(m, off, data)
    } else {
        LpcModel { dev: dev_cfg_wr(m.dev, id, off, data), ..m }
    }
}

/// What they hold after a saved state was taken over, and why that failed, if it
/// did.
pub open spec fn lpc_imported(m: LpcModel, input: Piix3LpcV1, pci: PciStateV1) -> (
    LpcModel,
    Option<MigrateStateError>,
) {
    let (dev, e) = dev_imported(m.dev, pci);
    (LpcModel { dev, pir: input.pir_regs@, post_code: input.post_code, ..m }, e)
}

/// Whether a saved state is that of the bridge.
pub open spec fn lpc_saved_as(m: LpcModel, input: Piix3LpcV1, pci: PciStateV1) -> bool {
    &&& input.pir_regs@ == m.pir
    &&& input.post_code == m.post_code
    &&& m.dev.dev.saved_as(pci)
}

/// Whether the only region that a device handles by itself is that of the
/// routing registers.
pub open spec fn lpc_layout(v: DevView) -> bool {
    forall|k: int|
        0 <= k < v.regions.len() ==> ((#[trigger] v.regions[k]).id is Custom ==> v.regions[k].len
            == PIR_LEN)
}

/// The PIIX3 bridge.
#[derive(Debug)]
pub struct Piix3Lpc {
    pub pci_state: DeviceState,
    /// The registers that route interrupts.
    pub reg_pir: [u8; 4],
    /// What the guest last told of its progress.
    pub post_code: u8,
    pub irq_config: IrqConfig,
}

/// The state of the bridge, as it is moved to another host.
#[derive(Clone, Copy, Debug)]
pub struct Piix3LpcV1 {
    pub pir_regs: [u8; 4],
    pub post_code: u8,
}

impl Piix3Lpc {
    /// What the bridge and its context hold.
    pub open spec fn in_ctx(&self, ctx: &LpcCtx) -> LpcModel {
        LpcModel {
            dev: self.pci_state.in_ctx(&ctx.dev),
            pir: self.reg_pir@,
            post_code: self.post_code,
            irq: self.irq_config@,
            pins: ctx.pins@,
        }
    }

    /// The invariant of bridges.
    pub open spec fn wf(&self) -> bool {
        &&& self.pci_state@.wf()
        &&& lpc_layout(self.pci_state@)
        &&& self.irq_config@.lnk.len() == 4
    }

    /// Writes a routing register.
    pub fn write_pir(&mut self, idx: usize, val: u8, ctx: &mut LpcCtx)
        requires
            old(self).wf(),
            idx < PIR_LEN,
        ensures
            final(self).wf(),
            final(self).pci_state == old(self).pci_state,
            final(ctx).dev == old(ctx).dev,
            final(self).in_ctx(final(ctx)) == pir_written(
                old(self).in_ctx(old(ctx)),
                idx as int,
                val,
            ),
    {
        let ghost m0 = self.in_ctx(ctx);
        if self.reg_pir[idx] != val {
            let disabled: bool = val >= 0x80;
            let irq: u8 = val % 16;
            if !disabled && valid_pir_irq(irq) {
                self.irq_config.set_lnk_route(idx, Some(irq), &mut ctx.pins);
            } else {
                self.irq_config.set_lnk_route(idx, None, &mut ctx.pins);
            }
            self.reg_pir[idx] = val;
        }
        assert(self.in_ctx(ctx) =~= pir_written(m0, idx as int, val));
    }

    /// Writes routing registers, one after the other.
    fn write_pirs(&mut self, off: usize, data: &Vec<u8>, ctx: &mut LpcCtx)
        requires
            old(self).wf(),
            off + data@.len() <= PIR_LEN,
        ensures
            final(self).wf(),
            final(self).pci_state == old(self).pci_state,
            final(ctx).dev == old(ctx).dev,
            final(self).in_ctx(final(ctx)) == pirs_written(
                old(self).in_ctx(old(ctx)),
                off as int,
                data@,
            ),
    {
        let ghost m0 = self.in_ctx(ctx);
        let mut i: usize = 0;
        assert(data@.take(0) =~= Seq::<u8>::empty());
        while i < data.len()
            invariant
                i <= data@.len(),
                off + data@.len() <= PIR_LEN,
                self.wf(),
                self.pci_state == old(self).pci_state,
                ctx.dev == old(ctx).dev,
                self.in_ctx(ctx) == pirs_written(m0, off as int, data@.take(i as int)),
            decreases data@.len() - i,
        {
            assert(data@.take(i + 1).drop_last() =~= data@.take(i as int));
            self.write_pir(off + i, data[i], ctx);
            i += 1;
        }
        assert(data@.take(data@.len() as int) =~= data@);
    }

    /// A copy of some of the routing registers.
    fn read_pirs(&self, off: usize, len: usize) -> (r: Vec<u8>)
        requires
            off + len <= PIR_LEN,
        ensures
            r@ == self.reg_pir@.subrange(off as int, off + len),
    {
        let mut r: Vec<u8> = Vec::new();
        let mut i: usize = 0;
        while i < len
            invariant
                i <= len,
                off + len <= PIR_LEN,
                r@ == self.reg_pir@.subrange(off as int, off + i),
            decreases len - i,
        {
            r.push(self.reg_pir[off + i]);
            i += 1;
            assert(r@ =~= self.reg_pir@.subrange(off as int, off + i));
        }
        r
    }
}

/// The regions of the bridge take the accesses that they are given.
proof fn lemma_lpc_spans(v: DevView, off: int)
    requires
        v.wf(),
        lpc_layout(v),
    ensures
        region_at(v.regions, 0, off) matches Some(s) ==> (s.id is Custom ==> s.passthru && s.len
            == PIR_LEN),
{
    lemma_region_at(v.regions, 0, off);
    if let Some(s) = region_at(v.regions, 0, off) {
        let k = choose|k: int| 0 <= k < v.regions.len() && #[trigger] v.regions[k] == s;
        assert(region_ok(v.regions[k], v.caps.len()));
    }
}

impl RegSpace<CfgLayout> for Piix3Lpc {
    type Id = CfgReg;

    type Ctx = LpcCtx;

    type V = LpcModel;

    open spec fn model(&self, ctx: &LpcCtx) -> LpcModel {
        self.in_ctx(ctx)
    }

    open spec fn inv(&self, ctx: &LpcCtx) -> bool {
        self.wf() && self.pci_state@.attach is Some
    }

    open spec fn span_at(m: LpcModel, off: int) -> Option<RegSpan<CfgReg>> {
        region_at(m.dev.dev.regions, 0, off)
    }

    open spec fn access_ok(m: LpcModel, id: CfgReg, off: int, len: int) -> bool {
        if id is Custom {
            0 <= off && off + len <= PIR_LEN
        } else {
            dev_cfg_ok(m.dev, id, off, len)
        }
    }

    open spec fn reg_rd(m: LpcModel, id: CfgReg, off: int, buf: Seq<u8>) -> Seq<u8> {
        lpc_cfg_rd(m, id, off, buf)
    }

    open spec fn reg_wr(m: LpcModel, id: CfgReg, off: int, data: Seq<u8>) -> LpcModel {
        lpc_cfg_wr(m, id, off, data)
    }

    proof fn span_laws(&self, ctx: &LpcCtx, off: int) {
        lemma_cfg_spans(self.pci_state@, off);
        lemma_lpc_spans(self.pci_state@, off);
        if let Some(s) = region_at(self.pci_state@.regions, 0, off) {
            assert(!s.passthru ==> dev_cfg_ok(self.in_ctx(ctx).dev, s.id, 0, s.len as int));
            assert forall|o: int, n: int|
                s.passthru && 0 <= o && 0 < n && o + n <= s.len implies #[trigger] Self::access_ok(
                self.in_ctx(ctx),
                s.id,
                o,
                n,
            ) by {
                assert(dev_cfg_ok(self.in_ctx(ctx).dev, s.id, o, n));
            }
        }
    }

    fn find(&self, ctx: &LpcCtx, off: usize) -> (r: Option<RegSpan<CfgReg>>) {
        proof {
            lemma_region_bounds(self.pci_state@);
        }
        find_region(&self.pci_state.regions, off)
    }

    fn read_reg(&self, ctx: &LpcCtx, id: CfgReg, off: usize, buf: Vec<u8>) -> (r: Vec<u8>) {
        match id {
            CfgReg::Custom(_) => self.read_pirs(off, buf.len()),
            _ => self.pci_state.cfg_region_read(id, off, buf, &ctx.dev),
        }
    }

    fn write_reg(&mut self, ctx: &mut LpcCtx, id: CfgReg, off: usize, data: Vec<u8>) {
        match id {
            CfgReg::Custom(_) => {
                self.write_pirs(off, &data, ctx);
            },
            _ => {
                self.pci_state.cfg_region_write(id, off, data, &mut ctx.dev);
            },
        }
    }
}

/// The bridge, as a device, when the power comes on.
pub open spec fn lpc_device() -> DevView {
    plain_device(
        Ident {
            vendor_id: VENDOR_INTEL,
            device_id: PIIX3_ISA_DEV_ID,
            class: CLASS_BRIDGE,
            subclass: SUBCLASS_BRIDGE_ISA,
            prog_if: 0,
            revision_id: 0,
            sub_vendor_id: VENDOR_OXIDE,
            sub_device_id: PIIX3_ISA_SUB_DEV_ID,
        },
        false,
        seq![std_region(), custom_region(PIR_OFFSET, PIR_LEN)],
        no_bars(),
    )
}

impl Piix3Lpc {
    /// The bridge when the power comes on.
    pub fn create(irq_config: IrqConfig) -> (r: Self)
        requires
            irq_config@.lnk.len() == 4,
        ensures
            r.wf(),
            r.reg_pir@ == zeros(4),
            r.post_code == 0,
            r.irq_config == irq_config,
            r.pci_state@ == lpc_device(),
            region_at(r.pci_state@.regions, 0, PIR_OFFSET as int) == Some(
                RegSpan {
                    id: CfgReg::Custom(PIR_OFFSET),
                    start: PIR_OFFSET as usize,
                    len: PIR_LEN,
                    passthru: true,
                },
            ),
    {
        let builder: Builder = Builder::new(
            Ident {
                vendor_id: VENDOR_INTEL,
                device_id: PIIX3_ISA_DEV_ID,
                class: CLASS_BRIDGE,
                subclass: SUBCLASS_BRIDGE_ISA,
                prog_if: 0,
                revision_id: 0,
                sub_vendor_id: VENDOR_OXIDE,
                sub_device_id: PIIX3_ISA_SUB_DEV_ID,
            },
        );
        let pci_state: DeviceState = builder.add_custom_cfg(PIR_OFFSET, PIR_LEN as u8).finish();
        proof {
            reveal_with_fuel(region_at, 3);
        }
        assert(pci_state@ =~= lpc_device());
        let r: Piix3Lpc = Piix3Lpc { pci_state, reg_pir: [0u8;4], post_code: 0, irq_config };
        assert(r.reg_pir@ =~= zeros(4));
        r
    }

    /// Gives the bridge its place on a bus.
    pub fn pci_attach(&mut self, attachment: Attachment)
        requires
            old(self).wf(),
            old(self).pci_state@.attach is None,
        ensures
            final(self).wf(),
            final(self).pci_state@ == (DevView {
                attach: Some(attachment),
                ..old(self).pci_state@
            }),
            final(self).reg_pir == old(self).reg_pir,
            final(self).post_code == old(self).post_code,
            final(self).irq_config == old(self).irq_config,
    {
        self.pci_state.attach(attachment);
    }

    /// The ranges of ports of the bridge, each with its length.
    pub fn attach(&self) -> (r: [(u16, u16); 2])
        ensures
            r@[0] == (PORT_FAST_A20, LEN_FAST_A20),
            r@[1] == (PORT_POST_CODE, LEN_POST_CODE),
    {
        [(PORT_FAST_A20, LEN_FAST_A20), (PORT_POST_CODE, LEN_POST_CODE)]
    }

    /// Services an access to the ports of the bridge.
    pub fn pio_rw(&mut self, port: u16, rwo: RWOp) -> (r: RWOp)
        requires
            rwo.bytes().len() == 1,
        ensures
            r.spec_offset() == rwo.spec_offset(),
            r is Read <==> rwo is Read,
            r.bytes() == if rwo is Read && port == PORT_FAST_A20 {
                seq![FAST_A20_OPEN]
            } else if rwo is Read && port == PORT_POST_CODE {
                seq![old(self).post_code]
            } else {
                rwo.bytes()
            },
            *final(self) == (Piix3Lpc {
                post_code: if rwo is Write && port == PORT_POST_CODE {
                    rwo.bytes()[0]
                } else {
                    old(self).post_code
                },
                ..*old(self)
            }),
    {
        match rwo {
            RWOp::Read(ro) => {
                if port == PORT_FAST_A20 {
                    RWOp::Read(ReadOp { offset: ro.offset, buf: byte_vec(FAST_A20_OPEN) })
                } else if port == PORT_POST_CODE {
                    RWOp::Read(ReadOp { offset: ro.offset, buf: byte_vec(self.post_code) })
                } else {
                    RWOp::Read(ro)
                }
            },
            RWOp::Write(wo) => {
                if port == PORT_POST_CODE {
                    self.post_code = wo.buf[0];
                }
                RWOp::Write(wo)
            },
        }
    }

    /// Services an access to the configuration space.
    pub fn cfg_rw(&mut self, rwo: RWOp, ctx: &mut LpcCtx) -> (r: RWOp)
        requires
            old(self).wf(),
            old(self).pci_state@.attach is Some,
            rwo.spec_offset() + rwo.bytes().len() <= usize::MAX,
        ensures
            final(self).wf(),
            final(self).pci_state@.attach is Some,
            r.spec_offset() == rwo.spec_offset(),
            r is Read <==> rwo is Read,
            rwo is Read ==> {
                &&& final(self).in_ctx(final(ctx)) == old(self).in_ctx(old(ctx))
                &&& r.bytes() == space_read::<CfgLayout, Piix3Lpc>(
                    old(self).in_ctx(old(ctx)),
                    rwo.spec_offset() as int,
                    rwo.bytes(),
                )
            },
            rwo is Write ==> {
                &&& r.bytes() == rwo.bytes()
                &&& final(self).in_ctx(final(ctx)) == space_write::<CfgLayout, Piix3Lpc>(
                    old(self).in_ctx(old(ctx)),
                    rwo.spec_offset() as int,
                    rwo.bytes(),
                )
            },
    {
        match rwo {
            RWOp::Read(ro) => {
                let offset: usize = ro.offset;
                let buf: Vec<u8> = process_read::<CfgLayout, Piix3Lpc>(self, ctx, offset, ro.buf);
                RWOp::Read(ReadOp { offset, buf })
            },
            RWOp::Write(wo) => {
                let copy: Vec<u8> = copy_vec(&wo.buf);
                process_write::<CfgLayout, Piix3Lpc>(self, ctx, wo.offset, copy);
                RWOp::Write(wo)
            },
        }
    }

    /// Resets the bridge as a PCI device. The routes of interrupts stay.
    pub fn reset(&mut self, ctx: &mut LpcCtx)
        requires
            old(self).wf(),
        ensures
            final(self).wf(),
            final(self).in_ctx(final(ctx)) == (LpcModel {
                dev: dev_reset(old(self).in_ctx(old(ctx)).dev),
                ..old(self).in_ctx(old(ctx))
            }),
    {
        self.pci_state.reset(&mut ctx.dev);
    }

    /// The state to be moved to another host.
    pub fn export(&self) -> (r: (Piix3LpcV1, PciStateV1))
        ensures
            r.0.pir_regs@ == self.reg_pir@,
            r.0.post_code == self.post_code,
            self.pci_state@.saved_as(r.1),
    {
        (
            Piix3LpcV1 { pir_regs: self.reg_pir, post_code: self.post_code },
            self.pci_state.export(),
        )
    }

    /// Takes over the state brought from another host.
    pub fn import(&mut self, input: Piix3LpcV1, pci: PciStateV1, ctx: &mut LpcCtx) -> (r: Result<
        (),
        MigrateStateError,
    >)
        requires
            old(self).wf(),
        ensures
            ({
                let (m, e) = lpc_imported(old(self).in_ctx(old(ctx)), input, pci);
                &&& final(self).in_ctx(final(ctx)) == m
                &&& match e {
                    Some(e) => r == Err::<(), MigrateStateError>(e),
                    None => r is Ok,
                }
            }),
            r is Ok && saved_ok(pci.bars.entries@) ==> final(self).wf(),
    {
        self.post_code = input.post_code;
        self.reg_pir = input.pir_regs;
        self.pci_state.import(pci, &mut ctx.dev)
    }
}

/// A bridge that takes over the state that another one saved holds the same
/// routing registers and the same progress, and no error occurs. The lines keep
/// leading where they led.
pub proof fn law_lpc_migrates(from: LpcModel, to: LpcModel, input: Piix3LpcV1, pci: PciStateV1)
    requires
        from.dev.dev.wf(),
        to.dev.dev.wf(),
        from.dev.dev.msix is None,
        to.dev.dev.msix is None,
        lpc_saved_as(from, input, pci),
    ensures
        ({
            let (m, e) = lpc_imported(to, input, pci);
            &&& e is None
            &&& m.pir == from.pir
            &&& m.post_code == from.post_code
            &&& m.dev.dev.reg_command == from.dev.dev.reg_command
            &&& m.dev.dev.reg_intr_line == from.dev.dev.reg_intr_line
            &&& m.irq == to.irq
            &&& m.pins == to.pins
        }),
{
    law_device_migrates(from.dev.dev, to.dev, pci);
}

/// Whether all lines lead where the routing registers say.
pub open spec fn routes_match(m: LpcModel) -> bool {
    &&& m.pir.len() == 4
    &&& m.irq.lnk.len() == 4
    &&& forall|k: int|
        0 <= k < 4 ==> (#[trigger] m.irq.lnk[k]).pin == route_pin(pir_route(m.pir[k]))
}

/// Writes to the routing registers keep all lines leading where the registers
/// say.
pub proof fn law_routes_match(m: LpcModel, off: int, data: Seq<u8>)
    requires
        routes_match(m),
        0 <= off,
        off + data.len() <= 4,
    ensures
        routes_match(pirs_written(m, off, data)),
    decreases data.len(),
{
    if data.len() > 0 {
        law_routes_match(m, off, data.drop_last());
    }
}

/// A route that a guest sets is one that it reads back, and the line then leads
/// to the interrupt controller as the register says.
pub proof fn law_pir_routes(m: LpcModel, idx: int, val: u8)
    requires
        m.pir.len() == 4,
        m.irq.lnk.len() == 4,
        0 <= idx < 4,
        m.pir[idx] != val,
    ensures
        pir_written(m, idx, val).pir[idx] == val,
        pir_written(m, idx, val).irq.lnk[idx].pin == route_pin(pir_route(val)),
        pir_written(m, idx, val).irq.lnk[idx].asserted == m.irq.lnk[idx].asserted,
        forall|k: int|
            0 <= k < 4 && k != idx ==> #[trigger] pir_written(m, idx, val).irq.lnk[k]
                == m.irq.lnk[k] && pir_written(m, idx, val).pir[k] == m.pir[k],
{
}

} // verus!
