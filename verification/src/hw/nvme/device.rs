//! An NVMe controller as a PCI device.
use crate::block::{DeviceInfo, IoResult, Operation, Request};
use crate::common::{MemAccessor, MemCtx, RWOp};
use crate::hw::ids::{OXIDE_OUI, PROPOLIS_NVME_DEV_ID, VENDOR_OXIDE};
use crate::hw::nvme::admin::NvmeModel;
use crate::hw::nvme::bits::{
    AdminQueueAttrs, Capabilities, Configuration, IdentifyController, IdentifyNamespace,
    NvmQueueEntrySize, Status,
};
use crate::hw::nvme::cmds::io_completion;
use crate::hw::nvme::ctrl::{
    dissociate_events, empty_cqs, empty_sqs, lemma_regs, CtrlState, CtrlView, NvmeCtrl, NvmeCtrlV1,
    NvmeEvent, MAX_NUM_QUEUES, NVME_MSIX_COUNT,
};
use crate::hw::nvme::migrate::{disk_noted, import_events, saved_consistent};
use crate::hw::nvme::queue::{CompQueueView, DeviceId, Permit, QueueId, SubQueue};
use crate::hw::nvme::regs::{
    ctrl_space_read, ctrl_space_write, in_env, NvmeEnv, CONTROLLER_REG_SZ, IO_DOORBELL_START,
};
use crate::hw::nvme::requests::{permit_live, req_completed, req_found, RequestView};
use crate::hw::pci::bar::{saved_ok, Entry, EntryKind};
use crate::hw::pci::bits::{
    CAP_ID_MSIX, CLASS_STORAGE, LEN_CFG_STD, PROGIF_ENTERPRISE_NVME, SUBCLASS_STORAGE_NVM,
};
use crate::hw::pci::bus::Attachment;
use crate::hw::pci::cfgspace::{Cap, CfgReg};
use crate::hw::pci::device::{
    dev_imported, dev_reset, msix_model, Builder, CfgLayout, DevCtx, DevModel, DevView, DeviceState,
    Ident, PciStateV1, RegCmd,
};
use crate::hw::pci::msix::{msix_bar_size, MsixBarLayout, MsixCfg, MsixHdl, MsixView};
use crate::hw::pci::BarN;
use crate::migrate::MigrateStateError;
use crate::regmap::{space_read, space_write, RegSpan};
use vstd::prelude::*;

verus! {

/// An NVMe controller as a PCI device.
pub struct PciNvme {
    /// The controller.
    pub state: NvmeCtrl,
    /// What every PCI device has.
    pub pci_state: DeviceState,
}

/// Whether a controller identifies itself as one with the serial number `sn`
/// and the limit `mdts` on data transfers: it has one namespace, a volatile
/// write cache and doorbell buffers, and queue entries of 64 and 16 bytes.
pub open spec fn identified(id: IdentifyController, sn: [u8; 20], mdts: u8) -> bool {
    exists|z: IdentifyController| #[trigger]
        z.is_zeroed() && id == (IdentifyController {
            vid: VENDOR_OXIDE,
            ssvid: VENDOR_OXIDE,
            sn,
            ieee: OXIDE_OUI,
            mdts,
            sqes: NvmQueueEntrySize(0).spec_with_maximum(6).spec_with_required(6),
            cqes: NvmQueueEntrySize(0).spec_with_maximum(4).spec_with_required(4),
            nn: 1,
            vwc: 1,
            oacs: 0x100,
            ..z
        })
}

/// Whether the controller can take an access to a BAR: that of its registers,
/// where a write is either to doorbells, of which it fills one, or to others, or
/// that of the interrupt vectors.
pub open spec fn bar_takes(bar: BarN, rwo: RWOp) -> bool {
    let (off, len) = (rwo.spec_offset(), rwo.bytes().len());
    if bar == BarN::BAR0 {
        &&& off + len <= CONTROLLER_REG_SZ
        &&& rwo is Write ==> if off >= IO_DOORBELL_START {
            len >= 4
        } else {
            off + len <= IO_DOORBELL_START
        }
    } else {
        bar == BarN::BAR4 && off + len <= usize::MAX
    }
}

/// Whether the controller can take an access to a BAR.
pub fn takes_bar_access(bar: BarN, rwo: &RWOp) -> (r: bool)
    ensures
        r == bar_takes(bar, *rwo),
{
    let (off, len): (usize, usize) = (rwo.offset(), rwo.len());
    match bar {
        BarN::BAR0 => {
            off <= CONTROLLER_REG_SZ && len <= CONTROLLER_REG_SZ - off && match rwo {
                RWOp::Read(_) => true,
                RWOp::Write(_) => if off >= IO_DOORBELL_START {
                    len >= 4
                } else {
                    len <= IO_DOORBELL_START - off
                },
            }
        },
        BarN::BAR4 => off <= usize::MAX - len,
        _ => false,
    }
}

impl PciNvme {
    /// The invariant of the device.
    pub open spec fn wf(&self) -> bool {
        &&& self.state@.wf()
        &&& self.pci_state@.wf()
        &&& self.pci_state@.msix matches Some(c) && c.count == NVME_MSIX_COUNT && c.bar
            == BarN::BAR4
    }

    /// The controller with what it works on.
    pub open spec fn model(&self, acc: MemAccessor, events: Seq<NvmeEvent>) -> NvmeModel {
        NvmeModel {
            ctrl: self.state@,
            msix: self.pci_state@.msix->0,
            acc: acc@,
            events,
        }
    }

    /// Creates a controller with the given serial number and limit on data
    /// transfers.
    pub fn create(serial_number: &[u8; 20], mdts: Option<u8>, device_id: DeviceId) -> (r: PciNvme)
        requires
            mdts matches Some(n) ==> n < 64,
        ensures
            r.wf(),
            r.state@.device_id == device_id,
            r.state@.ctrl == (CtrlState {
                // Queues of up to 65536 entries, which must be contiguous, and
                // the NVM command set
                cap: Capabilities(0).spec_with_mqes(0xffff).spec_with_cqr(
                    true,
                ).spec_with_css_nvm(true),
                cc: Configuration(0),
                csts: Status(0),
                aqa: AdminQueueAttrs(0),
                admin_sq_base: 0,
                admin_cq_base: 0,
            }),
            r.state@.doorbell_buf is None,
            !r.state@.msix_attached,
            r.state@.next_serial == 0,
            r.state@.cqs == Seq::new(MAX_NUM_QUEUES as nat, |i: int| None::<CompQueueView>),
            r.state@.sqs == Seq::new(MAX_NUM_QUEUES as nat, |i: int| None::<SubQueue>),
            identified(
                r.state@.ctrl_ident,
                *serial_number,
                match mdts {
                    Some(n) => n,
                    None => 0,
                },
            ),
            r.state@.ns_ident.is_zeroed(),
            r.pci_state@.ident == (Ident {
                vendor_id: VENDOR_OXIDE,
                device_id: PROPOLIS_NVME_DEV_ID,
                class: CLASS_STORAGE,
                subclass: SUBCLASS_STORAGE_NVM,
                prog_if: PROGIF_ENTERPRISE_NVME,
                revision_id: 0,
                sub_vendor_id: VENDOR_OXIDE,
                sub_device_id: PROPOLIS_NVME_DEV_ID,
            }),
            r.pci_state@.attach is None,
            !r.pci_state@.lintr_support,
            r.pci_state@.reg_command == RegCmd::spec_empty(),
            r.pci_state@.reg_intr_line == 0xff,
            r.pci_state@.regions == seq![
                RegSpan { id: CfgReg::Std, start: 0, len: LEN_CFG_STD, passthru: true },
                RegSpan { id: CfgReg::CapId(0), start: 0x40, len: 1, passthru: false },
                RegSpan { id: CfgReg::CapNext(0), start: 0x41, len: 1, passthru: false },
                RegSpan { id: CfgReg::CapBody(0), start: 0x42, len: 10, passthru: true },
            ],
            r.pci_state@.caps == seq![Cap { id: CAP_ID_MSIX, offset: 0x40 }],
            r.pci_state@.msix == Some(MsixView::spec_new(NVME_MSIX_COUNT, BarN::BAR4)),
            r.pci_state@.bars == seq![
                Entry { kind: EntryKind::Mmio64(CONTROLLER_REG_SZ as u64), value: 0 },
                Entry { kind: EntryKind::Mmio64High, value: 0 },
                Entry { kind: EntryKind::Empty, value: 0 },
                Entry { kind: EntryKind::Empty, value: 0 },
                Entry {
                    kind: EntryKind::Mmio(msix_bar_size(NVME_MSIX_COUNT) as u32),
                    value: 0,
                },
                Entry { kind: EntryKind::Empty, value: 0 },
            ],
    {
        let ident: Ident = Ident {
            vendor_id: VENDOR_OXIDE,
            device_id: PROPOLIS_NVME_DEV_ID,
            class: CLASS_STORAGE,
            subclass: SUBCLASS_STORAGE_NVM,
            prog_if: PROGIF_ENTERPRISE_NVME,
            revision_id: 0,
            sub_vendor_id: VENDOR_OXIDE,
            sub_device_id: PROPOLIS_NVME_DEV_ID,
        };
        let zero: IdentifyController = IdentifyController::default();
        let mut ctrl_ident: IdentifyController = zero;
        ctrl_ident.vid = VENDOR_OXIDE;
        ctrl_ident.ssvid = VENDOR_OXIDE;
        ctrl_ident.sn = *serial_number;
        ctrl_ident.ieee = OXIDE_OUI;
        ctrl_ident.mdts = match mdts {
            Some(n) => n,
            None => 0,
        };
        // Entries have no extra data, so that the required size is the maximum.
        ctrl_ident.sqes = NvmQueueEntrySize(0).with_maximum(6).with_required(6);
        ctrl_ident.cqes = NvmQueueEntrySize(0).with_maximum(4).with_required(4);
        ctrl_ident.nn = 1;
        ctrl_ident.vwc = 1;
        ctrl_ident.oacs = 0x100;
        let state: NvmeCtrl = NvmeCtrl {
            device_id,
            ctrl: CtrlState {
                cap: Capabilities(0).with_mqes(0xffff).with_cqr(true).with_css_nvm(true),
                cc: Configuration(0),
                csts: Status(0),
                aqa: AdminQueueAttrs(0),
                admin_sq_base: 0,
                admin_cq_base: 0,
            },
            doorbell_buf: None,
            msix_attached: false,
            next_serial: 0,
            cqs: empty_cqs(),
            sqs: empty_sqs(),
            ctrl_ident,
            ns_ident: IdentifyNamespace::default(),
        };
        proof {
            assert(zero.is_zeroed());
            vstd::arithmetic::power2::lemma2_to64();
            assert(crate::hw::pci::device::is_pow2(CONTROLLER_REG_SZ as int)) by {
                assert(CONTROLLER_REG_SZ == vstd::arithmetic::power2::pow2(14));
            }
        }
        let pci_state: DeviceState = Builder::new(ident).add_bar_mmio64(
            BarN::BAR0,
            CONTROLLER_REG_SZ as u64,
        ).add_cap_msix(BarN::BAR4, NVME_MSIX_COUNT).finish();
        assert(pci_state@.regions =~= seq![
            RegSpan { id: CfgReg::Std, start: 0, len: LEN_CFG_STD, passthru: true },
            RegSpan { id: CfgReg::CapId(0), start: 0x40, len: 1, passthru: false },
            RegSpan { id: CfgReg::CapNext(0), start: 0x41, len: 1, passthru: false },
            RegSpan { id: CfgReg::CapBody(0), start: 0x42, len: 10, passthru: true },
        ]);
        assert(pci_state@.caps =~= seq![Cap { id: CAP_ID_MSIX, offset: 0x40 }]);
        assert(pci_state@.bars =~= seq![
            Entry { kind: EntryKind::Mmio64(CONTROLLER_REG_SZ as u64), value: 0 },
            Entry { kind: EntryKind::Mmio64High, value: 0 },
            Entry { kind: EntryKind::Empty, value: 0 },
            Entry { kind: EntryKind::Empty, value: 0 },
            Entry { kind: EntryKind::Mmio(msix_bar_size(NVME_MSIX_COUNT) as u32), value: 0 },
            Entry { kind: EntryKind::Empty, value: 0 },
        ]);
        PciNvme { state, pci_state }
    }

    /// Gives the device its place on a bus. From now on, queues can use its
    /// interrupt vectors.
    pub fn attach(&mut self, attachment: Attachment)
        requires
            old(self).wf(),
            old(self).pci_state@.attach is None,
        ensures
            final(self).wf(),
            final(self).pci_state@ == (DevView {
                attach: Some(attachment),
                ..old(self).pci_state@
            }),
            final(self).state@ == (CtrlView { msix_attached: true, ..old(self).state@ }),
    {
        let ghost v0 = self.state@;
        self.pci_state.attach(attachment);
        self.state.msix_attached = true;
        proof {
            lemma_regs(v0, self.state@);
        }
    }

    /// Takes note of the disk that the backend holds.
    pub fn update_block_info(&mut self, info: DeviceInfo)
        requires
            old(self).wf(),
        ensures
            final(self).wf(),
            final(self).pci_state == old(self).pci_state,
            disk_noted(old(self).state@, final(self).state@, info),
    {
        self.state.update_block_info(info);
    }

    /// Hands the controller what it works on.
    fn lend(&mut self, acc: &mut MemAccessor, events: &mut Vec<NvmeEvent>) -> (r: NvmeEnv)
        requires
            old(self).wf(),
        ensures
            final(self).state == old(self).state,
            final(self).pci_state@ == (DevView { msix: None, ..old(self).pci_state@ }),
            old(self).pci_state@.msix == Some(r.msix@),
            r.acc == *old(acc),
            r.events == *old(events),
    {
        let mut taken: Vec<NvmeEvent> = Vec::new();
        std::mem::swap(&mut taken, events);
        let mut mem: MemAccessor = MemAccessor::new(MemCtx::new(0, 0));
        std::mem::swap(&mut mem, acc);
        match self.pci_state.msix_hdl() {
            Some(hdl) => NvmeEnv { msix: hdl.cfg, acc: mem, events: taken },
            None => {
                let (cfg, _size): (MsixCfg, usize) = MsixCfg::new(NVME_MSIX_COUNT, BarN::BAR4);
                NvmeEnv { msix: cfg, acc: mem, events: taken }
            },
        }
    }

    /// Takes back what the controller worked on.
    fn take_back(&mut self, env: NvmeEnv, acc: &mut MemAccessor, events: &mut Vec<NvmeEvent>)
        ensures
            final(self).state == old(self).state,
            final(self).pci_state@ == (DevView {
                msix: Some(env.msix@),
                ..old(self).pci_state@
            }),
            *final(acc) == env.acc,
            *final(events) == env.events,
    {
        self.pci_state.msix_return(MsixHdl::new(env.msix));
        *acc = env.acc;
        *events = env.events;
    }

    /// Services an access to the registers of the controller.
    fn ctrl_rw(&mut self, rwo: RWOp, acc: &mut MemAccessor, events: &mut Vec<NvmeEvent>) -> (r:
        RWOp)
        requires
            old(self).wf(),
            rwo.spec_offset() + rwo.bytes().len() <= CONTROLLER_REG_SZ,
            rwo is Write ==> if rwo.spec_offset() >= IO_DOORBELL_START {
                rwo.bytes().len() >= 4
            } else {
                rwo.spec_offset() + rwo.bytes().len() <= IO_DOORBELL_START
            },
        ensures
            final(self).wf(),
            r.spec_offset() == rwo.spec_offset(),
            r is Read <==> rwo is Read,
            final(self).pci_state@ == (DevView {
                msix: final(self).pci_state@.msix,
                ..old(self).pci_state@
            }),
            rwo is Read ==> {
                &&& r.bytes() == ctrl_space_read(
                    old(self).model(*old(acc), old(events)@),
                    rwo.spec_offset() as int,
                    rwo.bytes(),
                )
                &&& final(self).model(*final(acc), final(events)@) == old(self).model(
                    *old(acc),
                    old(events)@,
                )
            },
            rwo is Write ==> {
                &&& r.bytes() == rwo.bytes()
                &&& final(self).model(*final(acc), final(events)@) == ctrl_space_write(
                    old(self).model(*old(acc), old(events)@),
                    rwo.spec_offset() as int,
                    rwo.bytes(),
                )
            },
    {
        let ghost m = self.model(*acc, events@);
        let ghost dev = self.pci_state@;
        let mut env: NvmeEnv = self.lend(acc, events);
        assert(in_env(self.state, env) == m);
        let out: RWOp = self.state.space_rw(rwo, &mut env);
        let ghost after = in_env(self.state, env);
        self.take_back(env, acc, events);
        assert(self.model(*acc, events@) == after);
        assert(self.pci_state@.regions == dev.regions);
        out
    }

    /// Services an access to a BAR: BAR 0 places the registers of the
    /// controller, and BAR 4 the table of interrupt vectors.
    pub fn bar_rw(
        &mut self,
        bar: BarN,
        rwo: RWOp,
        ctx: &mut DevCtx,
        acc: &mut MemAccessor,
        events: &mut Vec<NvmeEvent>,
    ) -> (r: RWOp)
        requires
            old(self).wf(),
            bar_takes(bar, rwo),
        ensures
            final(self).wf(),
            r.spec_offset() == rwo.spec_offset(),
            r is Read <==> rwo is Read,
            ({
                let off = rwo.spec_offset() as int;
                let m = old(self).model(*old(acc), old(events)@);
                let d = old(self).pci_state.in_ctx(old(ctx));
                if bar == BarN::BAR0 {
                    &&& r.bytes() == if rwo is Read {
                        ctrl_space_read(m, off, rwo.bytes())
                    } else {
                        rwo.bytes()
                    }
                    &&& final(self).model(*final(acc), final(events)@) == if rwo is Read {
                        m
                    } else {
                        ctrl_space_write(m, off, rwo.bytes())
                    }
                    &&& final(self).pci_state.in_ctx(final(ctx)) == (DevModel {
                        dev: DevView { msix: final(self).pci_state@.msix, ..d.dev },
                        ..d
                    })
                } else {
                    &&& r.bytes() == if rwo is Read {
                        space_read::<MsixBarLayout, MsixCfg>(msix_model(d), off, rwo.bytes())
                    } else {
                        rwo.bytes()
                    }
                    &&& final(self).pci_state.in_ctx(final(ctx)) == if rwo is Read {
                        d
                    } else {
                        let after = space_write::<MsixBarLayout, MsixCfg>(
                            msix_model(d),
                            off,
                            rwo.bytes(),
                        );
                        DevModel {
                            dev: DevView { msix: Some(after.cfg), ..d.dev },
                            events: after.events,
                            ..d
                        }
                    }
                    &&& final(self).state == old(self).state
                    &&& *final(acc) == *old(acc)
                    &&& *final(events) == *old(events)
                }
            }),
    {
        match self.pci_state.bar_rw(bar, rwo, ctx) {
            Ok(op) => op,
            Err(op) => self.ctrl_rw(op, acc, events),
        }
    }

    /// Services an access to the configuration space.
    pub fn cfg_rw(&mut self, rwo: RWOp, ctx: &mut DevCtx) -> (r: RWOp)
        requires
            old(self).wf(),
            old(self).pci_state@.attach is Some,
            rwo.spec_offset() + rwo.bytes().len() <= usize::MAX,
        ensures
            final(self).wf(),
            final(self).state == old(self).state,
            final(self).pci_state@.same_shape(old(self).pci_state@),
            r.spec_offset() == rwo.spec_offset(),
            r is Read <==> rwo is Read,
            r.bytes() == if rwo is Read {
                space_read::<CfgLayout, DeviceState>(
                    old(self).pci_state.in_ctx(old(ctx)),
                    rwo.spec_offset() as int,
                    rwo.bytes(),
                )
            } else {
                rwo.bytes()
            },
            final(self).pci_state.in_ctx(final(ctx)) == if rwo is Read {
                old(self).pci_state.in_ctx(old(ctx))
            } else {
                space_write::<CfgLayout, DeviceState>(
                    old(self).pci_state.in_ctx(old(ctx)),
                    rwo.spec_offset() as int,
                    rwo.bytes(),
                )
            },
    {
        self.pci_state.cfg_rw(rwo, ctx)
    }

    /// Takes the next request to the backend off an I/O queue, together with
    /// the permit for its completion.
    pub fn next_req(&mut self, qid: QueueId, acc: &mut MemAccessor, events: &mut Vec<NvmeEvent>) -> (r:
        Option<(Request, Permit)>)
        requires
            old(self).wf(),
        ensures
            final(self).wf(),
            final(self).pci_state@ == (DevView {
                msix: final(self).pci_state@.msix,
                ..old(self).pci_state@
            }),
            ({
                let (m, found) = req_found(old(self).model(*old(acc), old(events)@), qid);
                &&& final(self).model(*final(acc), final(events)@) == m
                &&& match r {
                    None => found is None,
                    Some((req, permit)) => found == Some(
                        ((RequestView { op: req.op, regions: req.regions@ }), permit),
                    ),
                }
            }),
            r matches Some((_, permit)) ==> permit_live(final(self).state@, permit),
    {
        let ghost m = self.model(*acc, events@);
        let mut env: NvmeEnv = self.lend(acc, events);
        assert(in_env(self.state, env) == m);
        let out: Option<(Request, Permit)> = self.state.next_req(qid, &mut env);
        let ghost after = in_env(self.state, env);
        self.take_back(env, acc, events);
        assert(self.model(*acc, events@) == after);
        out
    }

    /// Completes a request with the result that the backend reports.
    pub fn complete(
        &mut self,
        op: Operation,
        result: IoResult,
        permit: Permit,
        acc: &mut MemAccessor,
        events: &mut Vec<NvmeEvent>,
    )
        requires
            old(self).wf(),
            op !is Discard,
            permit_live(old(self).state@, permit),
        ensures
            final(self).wf(),
            final(self).pci_state@ == (DevView {
                msix: final(self).pci_state@.msix,
                ..old(self).pci_state@
            }),
            final(self).model(*final(acc), final(events)@) == req_completed(
                old(self).model(*old(acc), old(events)@),
                permit,
                io_completion(result),
            ),
    {
        let ghost m = self.model(*acc, events@);
        let mut env: NvmeEnv = self.lend(acc, events);
        assert(in_env(self.state, env) == m);
        self.state.complete(op, result, permit, &mut env);
        let ghost after = in_env(self.state, env);
        self.take_back(env, acc, events);
        assert(self.model(*acc, events@) == after);
    }

    /// Resets the controller and the PCI state.
    pub fn reset(&mut self, ctx: &mut DevCtx, events: &mut Vec<NvmeEvent>)
        requires
            old(self).wf(),
        ensures
            final(self).wf(),
            final(self).state@ == old(self).state@.spec_reset(),
            final(events)@ == old(events)@ + dissociate_events(old(self).state@.sqs, 16),
            final(self).pci_state.in_ctx(final(ctx)) == dev_reset(
                old(self).pci_state.in_ctx(old(ctx)),
            ),
    {
        self.state.reset(events);
        self.pci_state.reset(ctx);
    }

    /// The state to be moved to another host.
    pub fn export(&self) -> (r: (NvmeCtrlV1, PciStateV1))
        requires
            self.wf(),
        ensures
            self.state@.saved_as(r.0),
            self.pci_state@.saved_as(r.1),
    {
        (self.state.export(), self.pci_state.export())
    }

    /// Takes over the state brought from another host, first that of the
    /// controller, then that of the PCI device.
    pub fn import(
        &mut self,
        ctrl: &NvmeCtrlV1,
        pci: PciStateV1,
        ctx: &mut DevCtx,
        acc: &mut MemAccessor,
        events: &mut Vec<NvmeEvent>,
    ) -> (r: Result<(), MigrateStateError>)
        requires
            old(self).wf(),
        ensures
            final(acc)@ == old(acc)@,
            final(events)@ == old(events)@ + import_events(old(self).state@, *ctrl),
            ({
                let (v, e) = old(self).state@.spec_import(*ctrl);
                let (m, e2) = dev_imported(old(self).pci_state.in_ctx(old(ctx)), pci);
                &&& final(self).state@ == v
                &&& match e {
                    Some(e) => {
                        &&& r == Err::<(), MigrateStateError>(e)
                        &&& final(self).pci_state == old(self).pci_state
                        &&& *final(ctx) == *old(ctx)
                    },
                    None => {
                        &&& final(self).pci_state.in_ctx(final(ctx)) == m
                        &&& match e2 {
                            Some(e2) => r == Err::<(), MigrateStateError>(e2),
                            None => r is Ok,
                        }
                    },
                }
            }),
            r is Ok && saved_consistent(*ctrl) && saved_ok(pci.bars.entries@)
                ==> final(self).wf(),
    {
        match self.state.import(ctrl, acc, events) {
            Err(e) => Err(e),
            Ok(()) => self.pci_state.import(pci, ctx),
        }
    }
}

} // verus!
