//! The admin commands of an NVMe controller.
use crate::block::QueueAction;
use crate::common::{
    lemma_put_runs, sub_vec, zero_vec, zeros, GuestAddr, GuestRegion, MemAccessView, MemAccessor,
    MemCtx, MemView, PAGE_SIZE,
};
use crate::hw::nvme::bits::{
    page_size_of, StatusCodeType, SubmissionQueueEntry, IDENT_CNS_CONTROLLER, IDENT_CNS_NAMESPACE,
    STS_CREATE_IO_Q_INVAL_CQ, STS_CREATE_IO_Q_INVAL_INT_VEC, STS_CREATE_IO_Q_INVAL_QID,
    STS_CREATE_IO_Q_INVAL_QSIZE, STS_DATA_XFER_ERR, STS_DELETE_IO_Q_INVAL_QID,
    STS_DELETE_IO_Q_INVAL_Q_DELETION, STS_INTERNAL_ERR, STS_INVALID_NS, STS_INVAL_FIELD,
    STS_INVAL_OPC,
};
use crate::hw::nvme::cmds::{
    cmd_err, gen_err, law_prp_regions, ok_val, queue_err_completion, total_len, AbortCmd, AdminCmd,
    Completion, CreateIOCQCmd, CreateIOSQCmd, DoorbellBufCfgCmd, FeatInterruptVectorConfig,
    FeatNumberQueues, FeatTemperatureThreshold, FeatVolatileWriteCache, FeatureIdent,
    GetFeaturesCmd, GetLogPageCmd, IdentifyCmd, PrpView, SetFeaturesCmd, ThresholdTemperatureSelect,
    ThresholdTypeSelect,
};
use crate::hw::nvme::ctrl::{
    lemma_set_cq, lemma_set_sq, CtrlView, NvmeCtrl, NvmeEvent, MAX_NUM_IO_QUEUES, MAX_NUM_QUEUES,
    NVME_MSIX_COUNT,
};
use crate::hw::nvme::queue::{
    sqid_to_block_qid, CreateParams, DoorbellBuffer, Permit, PopOutcome, QueueId, ADMIN_QUEUE_ID,
};
use crate::hw::nvme::NvmeError;
use crate::hw::pci::msix::{MsixCfg, MsixView};
use crate::hw::pci::BarN;
use vstd::prelude::*;

verus! {

/// A controller with what it works on: its interrupt vectors, guest memory, and
/// what it has brought about outside.
#[verifier::ext_equal]
pub struct NvmeModel {
    pub ctrl: CtrlView,
    pub msix: MsixView,
    pub acc: MemAccessView,
    pub events: Seq<NvmeEvent>,
}

impl NvmeModel {
    /// The invariant of a controller and its interrupt vectors.
    pub open spec fn wf(self) -> bool {
        &&& self.ctrl.wf()
        &&& self.msix.wf()
        &&& self.msix.count == NVME_MSIX_COUNT
        &&& self.msix.bar == BarN::BAR4
    }

    /// What an interrupt of a vector leads to, if there is one.
    pub open spec fn fired(self, iv: Option<u16>) -> NvmeModel {
        match iv {
            None => self,
            Some(i) => NvmeModel {
                msix: self.msix.spec_fire(i),
                events: match self.msix.entries[i as int].fire_msg() {
                    Some(msg) => self.events.push(NvmeEvent::Msi(msg)),
                    None => self.events,
                },
                ..self
            },
        }
    }
}

// ---------------------------------------------------------------------------
// Data for the guest
// ---------------------------------------------------------------------------

/// Whether all of the regions are backed by memory.
pub open spec fn all_covered(mem: MemView, regions: Seq<GuestRegion>) -> bool {
    forall|i: int|
        0 <= i < regions.len() ==> mem.covers((#[trigger] regions[i]).0, regions[i].1 as int)
}

/// Memory after the first `n` regions were zeroed.
pub open spec fn zeroed(mem: MemView, regions: Seq<GuestRegion>, n: int) -> MemView
    decreases n,
{
    if n <= 0 {
        mem
    } else {
        zeroed(mem, regions, n - 1).put(regions[n - 1].0, zeros(regions[n - 1].1 as nat))
    }
}

/// Memory after `data` was spread over the regions, in order.
pub open spec fn scattered(mem: MemView, regions: Seq<GuestRegion>, data: Seq<u8>) -> MemView
    decreases regions.len(),
{
    if regions.len() == 0 || data.len() == 0 {
        mem
    } else {
        let n = if regions[0].1 < data.len() {
            regions[0].1 as int
        } else {
            data.len() as int
        };
        scattered(mem.put(regions[0].0, data.take(n)), regions.skip(1), data.skip(n))
    }
}

/// Memory after the result of a command was written to the regions, and
/// whether it could be: there must be room for it, and memory behind the room.
pub open spec fn admin_result(mem: MemView, regions: Seq<GuestRegion>, data: Seq<u8>) -> (
    MemView,
    bool,
) {
    if total_len(regions) < data.len() || !all_covered(mem, regions) {
        (mem, false)
    } else {
        (scattered(mem, regions, data), true)
    }
}

/// A write keeps what is backed by memory.
pub proof fn lemma_put_covers(mem: MemView, addr: GuestAddr, data: Seq<u8>)
    ensures
        forall|a: GuestAddr, n: int|
            mem.put(addr, data).covers(a, n) == #[trigger] mem.covers(a, n),
{
    lemma_put_runs(mem, addr, data);
    assert forall|a: GuestAddr, n: int|
        mem.put(addr, data).covers(a, n) == #[trigger] mem.covers(a, n) by {
        assert(mem.put(addr, data).run_of(a, n) == mem.run_of(a, n));
    }
}

/// Zeroing keeps what is backed by memory.
proof fn lemma_zeroed_covers(mem: MemView, regions: Seq<GuestRegion>, n: int)
    ensures
        forall|a: GuestAddr, k: int|
            zeroed(mem, regions, n).covers(a, k) == #[trigger] mem.covers(a, k),
    decreases n,
{
    if n > 0 {
        lemma_zeroed_covers(mem, regions, n - 1);
        lemma_put_covers(
            zeroed(mem, regions, n - 1),
            regions[n - 1].0,
            zeros(regions[n - 1].1 as nat),
        );
    }
}

/// Checks whether all of the regions are backed by memory.
fn check_covered(mem: &MemCtx, regions: &Vec<GuestRegion>) -> (r: bool)
    ensures
        r == all_covered(mem@, regions@),
{
    let mut i: usize = 0;
    while i < regions.len()
        invariant
            i <= regions@.len(),
            forall|k: int|
                0 <= k < i ==> mem@.covers((#[trigger] regions@[k]).0, regions@[k].1 as int),
        decreases regions@.len() - i,
    {
        let reg: GuestRegion = regions[i];
        if !mem.is_backed(reg.0, reg.1) {
            assert(!mem@.covers(regions@[i as int].0, regions@[i as int].1 as int));
            return false;
        }
        i += 1;
    }
    true
}

/// Zeroes the regions, all of which must be backed by memory.
fn zero_regions(mem: &mut MemCtx, regions: &Vec<GuestRegion>)
    requires
        all_covered(old(mem)@, regions@),
        forall|i: int| 0 <= i < regions@.len() ==> (#[trigger] regions@[i]).1 <= PAGE_SIZE,
    ensures
        final(mem)@ == zeroed(old(mem)@, regions@, regions@.len() as int),
{
    let ghost m0 = mem@;
    let mut i: usize = 0;
    while i < regions.len()
        invariant
            i <= regions@.len(),
            forall|k: int| 0 <= k < regions@.len() ==> (#[trigger] regions@[k]).1 <= PAGE_SIZE,
            mem@ == zeroed(m0, regions@, i as int),
        decreases regions@.len() - i,
    {
        let reg: GuestRegion = regions[i];
        let data: Vec<u8> = zero_vec(reg.1 as usize);
        let _stored: bool = mem.write_bytes(reg.0, &data);
        i += 1;
    }
}

/// Spreads the result of a command over the regions. Gives nothing if it does
/// not fit, or if a region is not backed by memory.
pub fn write_admin_result(mem: &mut MemCtx, regions: &Vec<GuestRegion>, data: &Vec<u8>) -> (r:
    Option<()>)
    ensures
        ({
            let (m, ok) = admin_result(old(mem)@, regions@, data@);
            &&& final(mem)@ == m
            &&& r is Some <==> ok
        }),
{
    let mut need: u64 = data.len() as u64;
    let mut i: usize = 0;
    while i < regions.len()
        invariant
            i <= regions@.len(),
            need == (if total_len(regions@.take(i as int)) >= data@.len() {
                0int
            } else {
                data@.len() - total_len(regions@.take(i as int))
            }),
        decreases regions@.len() - i,
    {
        let reg: GuestRegion = regions[i];
        proof {
            assert(regions@.take(i + 1).drop_last() =~= regions@.take(i as int));
            lemma_total_nonneg(regions@.take(i as int));
        }
        need = if reg.1 >= need {
            0
        } else {
            need - reg.1
        };
        i += 1;
    }
    assert(regions@.take(regions@.len() as int) =~= regions@);
    if need > 0 {
        return None;
    }
    if !check_covered(mem, regions) {
        return None;
    }
    let ghost goal = scattered(mem@, regions@, data@);
    let len: usize = data.len();
    let mut done: usize = 0;
    let mut j: usize = 0;
    assert(regions@.skip(0) =~= regions@);
    assert(data@.skip(0) =~= data@);
    while j < regions.len() && done < len
        invariant
            j <= regions@.len(),
            done <= len,
            len == data@.len(),
            scattered(mem@, regions@.skip(j as int), data@.skip(done as int)) == goal,
        decreases regions@.len() - j,
    {
        let reg: GuestRegion = regions[j];
        let left: usize = len - done;
        let n: usize = if reg.1 < left as u64 {
            reg.1 as usize
        } else {
            left
        };
        let piece: Vec<u8> = sub_vec(data, done, done + n);
        proof {
            assert(piece@ =~= data@.skip(done as int).take(n as int));
            assert(data@.skip(done as int).skip(n as int) =~= data@.skip(done + n));
            assert(regions@.skip(j as int).skip(1) =~= regions@.skip(j + 1));
            assert(regions@.skip(j as int)[0] == reg);
        }
        let _stored: bool = mem.write_bytes(reg.0, &piece);
        done = done + n;
        j += 1;
    }
    Some(())
}

/// Regions have no negative length.
proof fn lemma_total_nonneg(s: Seq<GuestRegion>)
    ensures
        total_len(s) >= 0,
    decreases s.len(),
{
    if s.len() > 0 {
        lemma_total_nonneg(s.drop_last());
    }
}

// ---------------------------------------------------------------------------
// What the commands do
// ---------------------------------------------------------------------------

/// The completion of an Abort command. Commands in progress cannot be aborted.
pub open spec fn abort_completion(v: CtrlView, cmd: AbortCmd) -> Completion {
    if v.sq(cmd.sqid) is None {
        gen_err(STS_INVAL_FIELD).spec_dnr()
    } else {
        ok_val(1)
    }
}

/// What a Create I/O Completion Queue command does.
pub open spec fn create_io_cq(v: CtrlView, cmd: CreateIOCQCmd, acc: MemAccessView) -> (
    CtrlView,
    MemAccessView,
    Completion,
) {
    let params = CreateParams {
        id: cmd.qid,
        device_id: v.device_id,
        base: GuestAddr(cmd.prp),
        size: cmd.qsize,
    };
    if v.ctrl.cc.spec_iocqes() == 0 {
        (v, acc, cmd_err(STS_CREATE_IO_Q_INVAL_QSIZE))
    } else if cmd.intr_vector >= NVME_MSIX_COUNT {
        (v, acc, cmd_err(STS_CREATE_IO_Q_INVAL_INT_VEC))
    } else if !cmd.phys_contig {
        (v, acc, gen_err(STS_INVAL_FIELD))
    } else {
        let (w, a, e) = v.spec_create_cq(params, false, cmd.intr_vector, acc);
        (
            w,
            a,
            match e {
                None => ok_val(0),
                Some(NvmeError::InvalidCompQueue(_)) => cmd_err(STS_CREATE_IO_Q_INVAL_QID),
                Some(NvmeError::CompQueueAlreadyExists(_)) => cmd_err(STS_CREATE_IO_Q_INVAL_QID),
                Some(NvmeError::QueueCreateErr(err)) => queue_err_completion(err),
                Some(_) => gen_err(STS_INTERNAL_ERR),
            },
        )
    }
}

/// What a Create I/O Submission Queue command does.
pub open spec fn create_io_sq(
    v: CtrlView,
    cmd: CreateIOSQCmd,
    acc: MemAccessView,
    events: Seq<NvmeEvent>,
) -> (CtrlView, MemAccessView, Seq<NvmeEvent>, Completion) {
    let params = CreateParams {
        id: cmd.qid,
        device_id: v.device_id,
        base: GuestAddr(cmd.prp),
        size: cmd.qsize,
    };
    if v.ctrl.cc.spec_iosqes() == 0 {
        (v, acc, events, cmd_err(STS_CREATE_IO_Q_INVAL_QSIZE))
    } else if !cmd.phys_contig {
        (v, acc, events, gen_err(STS_INVAL_FIELD))
    } else {
        let (w, a, e) = v.spec_create_sq(params, false, cmd.cqid, acc);
        match e {
            None => (
                w.sq_associated(cmd.qid),
                a,
                events.push(NvmeEvent::Block(QueueAction::Associate((cmd.qid - 1) as u16))),
                ok_val(0),
            ),
            Some(NvmeError::InvalidCompQueue(_)) => (w, a, events, cmd_err(STS_CREATE_IO_Q_INVAL_CQ)),
            Some(NvmeError::InvalidSubQueue(_)) => (w, a, events, cmd_err(STS_CREATE_IO_Q_INVAL_QID)),
            Some(NvmeError::SubQueueAlreadyExists(_)) => (
                w,
                a,
                events,
                cmd_err(STS_CREATE_IO_Q_INVAL_QID),
            ),
            Some(NvmeError::QueueCreateErr(err)) => (w, a, events, queue_err_completion(err)),
            Some(_) => (w, a, events, gen_err(STS_INTERNAL_ERR)),
        }
    }
}

/// What a Delete I/O Completion Queue command does.
pub open spec fn delete_io_cq(v: CtrlView, cqid: QueueId) -> (CtrlView, Completion) {
    if cqid == ADMIN_QUEUE_ID {
        (v, cmd_err(STS_DELETE_IO_Q_INVAL_QID))
    } else {
        let (w, e) = v.spec_delete_cq(cqid);
        (
            w,
            match e {
                None => ok_val(0),
                Some(NvmeError::InvalidCompQueue(_)) => cmd_err(STS_DELETE_IO_Q_INVAL_QID),
                Some(NvmeError::AssociatedSubQueuesStillExist(_, _)) => cmd_err(
                    STS_DELETE_IO_Q_INVAL_Q_DELETION,
                ),
                Some(_) => gen_err(STS_INTERNAL_ERR),
            },
        )
    }
}

/// What a Delete I/O Submission Queue command does.
pub open spec fn delete_io_sq(v: CtrlView, sqid: QueueId, events: Seq<NvmeEvent>) -> (
    CtrlView,
    Seq<NvmeEvent>,
    Completion,
) {
    if sqid == ADMIN_QUEUE_ID {
        (v, events, cmd_err(STS_DELETE_IO_Q_INVAL_QID))
    } else {
        let (w, e) = v.spec_delete_sq(sqid);
        match e {
            None => (
                w,
                events.push(NvmeEvent::Block(QueueAction::Dissociate((sqid - 1) as u16))),
                ok_val(0),
            ),
            Some(NvmeError::InvalidSubQueue(_)) => (w, events, cmd_err(STS_DELETE_IO_Q_INVAL_QID)),
            Some(_) => (w, events, gen_err(STS_INTERNAL_ERR)),
        }
    }
}

/// What a Get Log Page command does: all logs are empty. Misaligned PRP entries
/// are refused.
pub open spec fn get_log_page(cmd: GetLogPageCmd, mem: MemView) -> (MemView, Completion) {
    if cmd.prp1 % 4 != 0 || cmd.prp2 % 4 != 0 {
        (mem, gen_err(STS_INVAL_FIELD))
    } else {
        let regions = PrpView::spec_new(cmd.len as u64, cmd.prp1, cmd.prp2).regions(mem);
        if all_covered(mem, regions) {
            (zeroed(mem, regions, regions.len() as int), ok_val(0))
        } else {
            (mem, gen_err(STS_DATA_XFER_ERR))
        }
    }
}

/// What writing an identify structure to the guest leads to. Misaligned PRP
/// entries are refused.
pub open spec fn identify_write(cmd: IdentifyCmd, mem: MemView, data: Seq<u8>) -> (
    MemView,
    Completion,
) {
    if cmd.prp1 % 4 != 0 || cmd.prp2 % 4 != 0 {
        (mem, gen_err(STS_INVAL_FIELD))
    } else {
        let regions = PrpView::spec_new(PAGE_SIZE, cmd.prp1, cmd.prp2).regions(mem);
        let (m, ok) = admin_result(mem, regions, data);
        (
            m,
            if ok {
                ok_val(0)
            } else {
                gen_err(STS_DATA_XFER_ERR)
            },
        )
    }
}

/// What an Identify command does. There is one namespace, of identifier 1.
pub open spec fn identify(v: CtrlView, cmd: IdentifyCmd, mem: MemView) -> (MemView, Completion) {
    if cmd.cns == IDENT_CNS_NAMESPACE {
        if cmd.nsid == 1 {
            identify_write(cmd, mem, v.ns_ident.encode())
        } else {
            (mem, gen_err(STS_INVALID_NS))
        }
    } else if cmd.cns == IDENT_CNS_CONTROLLER {
        identify_write(cmd, mem, v.ctrl_ident.encode())
    } else {
        (mem, gen_err(STS_INVAL_FIELD))
    }
}

/// The temperature threshold that is reported, in Kelvin.
pub open spec fn reported_threshold(sel: ThresholdTemperatureSelect, typ: ThresholdTypeSelect) -> u16 {
    if typ is Under {
        0
    } else if sel is Composite {
        373
    } else {
        0xffff
    }
}

/// The completion of a Get Features command.
pub open spec fn get_features(cmd: GetFeaturesCmd) -> Completion {
    match cmd.fid {
        FeatureIdent::Arbitration => ok_val(7),
        FeatureIdent::PowerManagement => ok_val(0),
        FeatureIdent::TemperatureThreshold => {
            let query = FeatTemperatureThreshold(cmd.cdw11);
            let sel = query.spec_tmpsel();
            let typ = query.spec_thsel();
            if sel is Reserved || typ is Reserved {
                gen_err(STS_INVAL_FIELD)
            } else {
                ok_val(
                    FeatTemperatureThreshold(0).spec_with_tmpsel(sel).spec_with_thsel(
                        typ,
                    ).spec_with_tmpth(reported_threshold(sel, typ)).0,
                )
            }
        },
        FeatureIdent::ErrorRecovery => ok_val(0),
        FeatureIdent::NumberOfQueues => ok_val(
            (FeatNumberQueues { ncq: 15, nsq: 15 }).spec_to_dword(),
        ),
        FeatureIdent::InterruptCoalescing => ok_val(0),
        FeatureIdent::InterruptVectorConfiguration => ok_val(
            (FeatInterruptVectorConfig {
                iv: FeatInterruptVectorConfig::spec_from_dword(cmd.cdw11).iv,
                cd: true,
            }).spec_to_dword(),
        ),
        FeatureIdent::WriteAtomicity => ok_val(0),
        FeatureIdent::AsynchronousEventConfiguration => ok_val(0),
        FeatureIdent::VolatileWriteCache => ok_val(
            (FeatVolatileWriteCache { wce: true }).spec_to_dword(),
        ),
        _ => gen_err(STS_INVAL_FIELD).spec_dnr(),
    }
}

/// The lesser of a number and the number of I/O queues.
pub open spec fn at_most_io_queues(n: u16) -> u16 {
    if n < MAX_NUM_IO_QUEUES {
        n
    } else {
        15
    }
}

/// The completion of a Set Features command.
pub open spec fn set_features(cmd: SetFeaturesCmd) -> Completion {
    match cmd.fid {
        FeatureIdent::NumberOfQueues => match FeatNumberQueues::spec_from_dword(cmd.cdw11) {
            Err(_) => gen_err(STS_INVAL_FIELD),
            Ok(nq) => ok_val(
                (FeatNumberQueues {
                    ncq: at_most_io_queues(nq.ncq),
                    nsq: at_most_io_queues(nq.nsq),
                }).spec_to_dword(),
            ),
        },
        FeatureIdent::VolatileWriteCache => ok_val(0),
        _ => gen_err(STS_INVAL_FIELD).spec_dnr(),
    }
}

/// What a Doorbell Buffer Config command does. The buffers must be pages.
pub open spec fn doorbell_buf_cfg(v: CtrlView, cmd: DoorbellBufCfgCmd, acc: MemAccessView) -> (
    CtrlView,
    MemAccessView,
    Completion,
) {
    let mps = page_size_of(v.ctrl.cc.spec_mps()) as int;
    if cmd.shadow_doorbell_buffer as int % mps != 0 || cmd.eventidx_buffer as int % mps != 0 {
        (v, acc, gen_err(STS_INVAL_FIELD))
    } else {
        let db = Some(
            DoorbellBuffer {
                shadow: GuestAddr(cmd.shadow_doorbell_buffer),
                eventidx: GuestAddr(cmd.eventidx_buffer),
            },
        );
        (v.with_db_bufs(db), v.db_bufs_synced(db, false, acc), ok_val(0))
    }
}

/// What an admin command does, and its completion.
pub open spec fn admin_exec(m: NvmeModel, cmd: AdminCmd) -> (NvmeModel, Completion) {
    match cmd {
        AdminCmd::Abort(c) => (m, abort_completion(m.ctrl, c)),
        AdminCmd::CreateIOCompQ(c) => {
            let (ctrl, acc, comp) = create_io_cq(m.ctrl, c, m.acc);
            (NvmeModel { ctrl, acc, ..m }, comp)
        },
        AdminCmd::CreateIOSubQ(c) => {
            let (ctrl, acc, events, comp) = create_io_sq(m.ctrl, c, m.acc, m.events);
            (NvmeModel { ctrl, acc, events, ..m }, comp)
        },
        AdminCmd::GetLogPage(c) => {
            let (mem, comp) = get_log_page(c, m.acc.mem);
            (NvmeModel { acc: MemAccessView { mem, ..m.acc }, ..m }, comp)
        },
        AdminCmd::Identify(c) => {
            let (mem, comp) = identify(m.ctrl, c, m.acc.mem);
            (NvmeModel { acc: MemAccessView { mem, ..m.acc }, ..m }, comp)
        },
        AdminCmd::GetFeatures(c) => (m, get_features(c)),
        AdminCmd::SetFeatures(c) => (m, set_features(c)),
        AdminCmd::DeleteIOCompQ(cqid) => {
            let (ctrl, comp) = delete_io_cq(m.ctrl, cqid);
            (NvmeModel { ctrl, ..m }, comp)
        },
        AdminCmd::DeleteIOSubQ(sqid) => {
            let (ctrl, events, comp) = delete_io_sq(m.ctrl, sqid, m.events);
            (NvmeModel { ctrl, events, ..m }, comp)
        },
        AdminCmd::AsyncEventReq => (m, gen_err(STS_INVAL_OPC).spec_dnr()),
        AdminCmd::DoorbellBufCfg(c) => {
            let (ctrl, acc, comp) = doorbell_buf_cfg(m.ctrl, c, m.acc);
            (NvmeModel { ctrl, acc, ..m }, comp)
        },
        AdminCmd::Unknown(_) => (m, gen_err(STS_INTERNAL_ERR)),
    }
}

/// The command of an entry of the admin submission queue. One that cannot be
/// parsed counts as unknown.
pub open spec fn admin_cmd(raw: SubmissionQueueEntry) -> AdminCmd {
    match AdminCmd::spec_parse(raw) {
        Ok(cmd) => cmd,
        Err(_) => AdminCmd::Unknown(raw),
    }
}

/// What an attempt to take an entry off the admin submission queue gives.
pub open spec fn admin_pop(m: NvmeModel) -> PopOutcome {
    (m.ctrl.sqs[0]->0).spec_pop(m.ctrl.cqs[0]->0, m.acc)
}

/// What such an attempt leaves behind.
pub open spec fn after_pop(m: NvmeModel) -> NvmeModel {
    let out = admin_pop(m);
    NvmeModel {
        ctrl: m.ctrl.with_cq(0, Some(out.cq)).with_sq(0, Some(out.sq)),
        acc: out.acc,
        ..m
    }
}

/// What the completion of an admin command leads to.
pub open spec fn admin_complete(m: NvmeModel, permit: Permit, comp: Completion) -> NvmeModel {
    let (q, acc, iv) = permit.spec_complete(comp, m.ctrl.cqs[0]->0, m.ctrl.sqs[0], m.acc);
    (NvmeModel { ctrl: m.ctrl.with_cq(0, Some(q)), acc, ..m }).fired(iv)
}

/// What the next admin command leads to, if there is one.
pub open spec fn admin_step(m: NvmeModel) -> NvmeModel {
    match admin_pop(m).got {
        None => after_pop(m),
        Some((sub, permit, _)) => {
            let (m2, comp) = admin_exec(after_pop(m), admin_cmd(sub));
            admin_complete(m2, permit, comp)
        },
    }
}

/// What up to `fuel` admin commands lead to.
pub open spec fn admin_run(m: NvmeModel, fuel: nat) -> NvmeModel
    decreases fuel,
{
    if fuel == 0 {
        m
    } else if admin_pop(m).got is None {
        admin_step(m)
    } else {
        admin_run(admin_step(m), (fuel - 1) as nat)
    }
}

/// The interrupt vector of the admin completion queue, if that is not empty.
pub open spec fn admin_vector(m: NvmeModel) -> Option<u16> {
    let q = m.ctrl.cqs[0]->0;
    if q.state.queue.empty() {
        None
    } else {
        Some(q.iv)
    }
}

/// What processing the admin submission queue leads to.
pub open spec fn admin_processed(m: NvmeModel) -> NvmeModel {
    let after = admin_run(m, u64::MAX as nat);
    after.fired(admin_vector(after))
}

/// Whether both controllers have admin queues, with as many entries promised.
pub open spec fn keeps_admin(v: CtrlView, w: CtrlView) -> bool {
    &&& w.cqs[0] is Some
    &&& w.sqs[0] is Some
    &&& (w.cqs[0]->0).state.outstanding() == (v.cqs[0]->0).state.outstanding()
    &&& (w.cqs[0]->0).id == (v.cqs[0]->0).id
    &&& w.ctrl == v.ctrl
}

impl NvmeCtrl {
    /// Abort: tells that the command was not aborted.
    pub fn acmd_abort(&self, cmd: &AbortCmd) -> (r: Completion)
        requires
            self@.shape(),
        ensures
            r == abort_completion(self@, *cmd),
    {
        if cmd.sqid as usize >= MAX_NUM_QUEUES || self.sqs[cmd.sqid as usize].is_none() {
            return Completion::generic_err(STS_INVAL_FIELD).dnr();
        }
        Completion::success_val(1)
    }

    /// Create I/O Completion Queue.
    pub fn acmd_create_io_cq(&mut self, cmd: &CreateIOCQCmd, acc: &mut MemAccessor) -> (r:
        Completion)
        requires
            old(self)@.wf(),
        ensures
            (final(self)@, final(acc)@, r) == create_io_cq(old(self)@, *cmd, old(acc)@),
            final(self)@.wf(),
    {
        if self.ctrl.cc.iocqes() == 0 {
            return Completion::specific_err(
                StatusCodeType::CmdSpecific,
                STS_CREATE_IO_Q_INVAL_QSIZE,
            );
        }
        if cmd.intr_vector >= NVME_MSIX_COUNT {
            return Completion::specific_err(
                StatusCodeType::CmdSpecific,
                STS_CREATE_IO_Q_INVAL_INT_VEC,
            );
        }
        if !cmd.phys_contig {
            return Completion::generic_err(STS_INVAL_FIELD);
        }
        let params: CreateParams = CreateParams {
            id: cmd.qid,
            device_id: self.device_id,
            base: GuestAddr(cmd.prp),
            size: cmd.qsize,
        };
        match self.create_cq(params, false, cmd.intr_vector, acc) {
            Ok(()) => Completion::success(),
            Err(NvmeError::InvalidCompQueue(_)) => Completion::specific_err(
                StatusCodeType::CmdSpecific,
                STS_CREATE_IO_Q_INVAL_QID,
            ),
            Err(NvmeError::CompQueueAlreadyExists(_)) => Completion::specific_err(
                StatusCodeType::CmdSpecific,
                STS_CREATE_IO_Q_INVAL_QID,
            ),
            Err(NvmeError::QueueCreateErr(err)) => Completion::from(err),
            Err(_) => Completion::generic_err(STS_INTERNAL_ERR),
        }
    }

    /// Create I/O Submission Queue.
    pub fn acmd_create_io_sq(
        &mut self,
        cmd: &CreateIOSQCmd,
        acc: &mut MemAccessor,
        events: &mut Vec<NvmeEvent>,
    ) -> (r: Completion)
        requires
            old(self)@.wf(),
        ensures
            (final(self)@, final(acc)@, final(events)@, r) == create_io_sq(
                old(self)@,
                *cmd,
                old(acc)@,
                old(events)@,
            ),
            final(self)@.wf(),
    {
        if self.ctrl.cc.iosqes() == 0 {
            return Completion::specific_err(
                StatusCodeType::CmdSpecific,
                STS_CREATE_IO_Q_INVAL_QSIZE,
            );
        }
        if !cmd.phys_contig {
            return Completion::generic_err(STS_INVAL_FIELD);
        }
        let params: CreateParams = CreateParams {
            id: cmd.qid,
            device_id: self.device_id,
            base: GuestAddr(cmd.prp),
            size: cmd.qsize,
        };
        match self.create_sq(params, false, cmd.cqid, acc) {
            Ok(()) => {
                self.io_sq_post_create(cmd.qid, events);
                Completion::success()
            },
            Err(NvmeError::InvalidCompQueue(_)) => Completion::specific_err(
                StatusCodeType::CmdSpecific,
                STS_CREATE_IO_Q_INVAL_CQ,
            ),
            Err(NvmeError::InvalidSubQueue(_)) => Completion::specific_err(
                StatusCodeType::CmdSpecific,
                STS_CREATE_IO_Q_INVAL_QID,
            ),
            Err(NvmeError::SubQueueAlreadyExists(_)) => Completion::specific_err(
                StatusCodeType::CmdSpecific,
                STS_CREATE_IO_Q_INVAL_QID,
            ),
            Err(NvmeError::QueueCreateErr(err)) => Completion::from(err),
            Err(_) => Completion::generic_err(STS_INTERNAL_ERR),
        }
    }

    /// Delete I/O Completion Queue.
    pub fn acmd_delete_io_cq(&mut self, cqid: QueueId) -> (r: Completion)
        requires
            old(self)@.wf(),
        ensures
            (final(self)@, r) == delete_io_cq(old(self)@, cqid),
            final(self)@.wf(),
    {
        if cqid == ADMIN_QUEUE_ID {
            return Completion::specific_err(
                StatusCodeType::CmdSpecific,
                STS_DELETE_IO_Q_INVAL_QID,
            );
        }
        match self.delete_cq(cqid) {
            Ok(()) => Completion::success(),
            Err(NvmeError::InvalidCompQueue(_)) => Completion::specific_err(
                StatusCodeType::CmdSpecific,
                STS_DELETE_IO_Q_INVAL_QID,
            ),
            Err(NvmeError::AssociatedSubQueuesStillExist(_, _)) => Completion::specific_err(
                StatusCodeType::CmdSpecific,
                STS_DELETE_IO_Q_INVAL_Q_DELETION,
            ),
            Err(_) => Completion::generic_err(STS_INTERNAL_ERR),
        }
    }

    /// Delete I/O Submission Queue.
    pub fn acmd_delete_io_sq(&mut self, sqid: QueueId, events: &mut Vec<NvmeEvent>) -> (r:
        Completion)
        requires
            old(self)@.wf(),
        ensures
            (final(self)@, final(events)@, r) == delete_io_sq(old(self)@, sqid, old(events)@),
            final(self)@.wf(),
    {
        if sqid == ADMIN_QUEUE_ID {
            return Completion::specific_err(
                StatusCodeType::CmdSpecific,
                STS_DELETE_IO_Q_INVAL_QID,
            );
        }
        match self.delete_sq(sqid) {
            Ok(()) => {
                events.push(NvmeEvent::Block(QueueAction::Dissociate(sqid_to_block_qid(sqid))));
                Completion::success()
            },
            Err(NvmeError::InvalidSubQueue(_)) => Completion::specific_err(
                StatusCodeType::CmdSpecific,
                STS_DELETE_IO_Q_INVAL_QID,
            ),
            Err(_) => Completion::generic_err(STS_INTERNAL_ERR),
        }
    }

    /// Get Log Page.
    pub fn acmd_get_log_page(&self, cmd: &GetLogPageCmd, mem: &mut MemCtx) -> (r: Completion)
        ensures
            (final(mem)@, r) == get_log_page(*cmd, old(mem)@),
    {
        if cmd.prp1 % 4 != 0 || cmd.prp2 % 4 != 0 {
            return Completion::generic_err(STS_INVAL_FIELD);
        }
        let regions: Vec<GuestRegion> = cmd.data(mem).collect();
        proof {
            law_prp_regions(PrpView::spec_new(cmd.len as u64, cmd.prp1, cmd.prp2), mem@);
        }
        if check_covered(mem, &regions) {
            zero_regions(mem, &regions);
            Completion::success()
        } else {
            Completion::generic_err(STS_DATA_XFER_ERR)
        }
    }

    fn write_identify(cmd: &IdentifyCmd, data: &Vec<u8>, mem: &mut MemCtx) -> (r: Completion)
        requires
            data@.len() == 4096,
        ensures
            (final(mem)@, r) == identify_write(*cmd, old(mem)@, data@),
    {
        if cmd.prp1 % 4 != 0 || cmd.prp2 % 4 != 0 {
            return Completion::generic_err(STS_INVAL_FIELD);
        }
        let regions: Vec<GuestRegion> = cmd.data(mem).collect();
        match write_admin_result(mem, &regions, data) {
            Some(_) => Completion::success(),
            None => Completion::generic_err(STS_DATA_XFER_ERR),
        }
    }

    /// Identify.
    pub fn acmd_identify(&self, cmd: &IdentifyCmd, mem: &mut MemCtx) -> (r: Completion)
        ensures
            (final(mem)@, r) == identify(self@, *cmd, old(mem)@),
    {
        if cmd.cns == IDENT_CNS_NAMESPACE {
            if cmd.nsid == 1 {
                let data: Vec<u8> = self.ns_ident.to_bytes();
                Self::write_identify(cmd, &data, mem)
            } else {
                // 0 is no namespace, and that for all namespaces is not supported.
                Completion::generic_err(STS_INVALID_NS)
            }
        } else if cmd.cns == IDENT_CNS_CONTROLLER {
            let data: Vec<u8> = self.ctrl_ident.to_bytes();
            Self::write_identify(cmd, &data, mem)
        } else {
            Completion::generic_err(STS_INVAL_FIELD)
        }
    }

    /// Get Features.
    pub fn acmd_get_features(&self, cmd: &GetFeaturesCmd) -> (r: Completion)
        ensures
            r == get_features(*cmd),
    {
        match cmd.fid {
            // No limit on arbitration bursts
            FeatureIdent::Arbitration => Completion::success_val(7),
            FeatureIdent::PowerManagement => Completion::success_val(0),
            FeatureIdent::TemperatureThreshold => {
                let query: FeatTemperatureThreshold = FeatTemperatureThreshold(cmd.cdw11);
                let sel: ThresholdTemperatureSelect = query.tmpsel();
                let typ: ThresholdTypeSelect = query.thsel();
                match (sel, typ) {
                    (ThresholdTemperatureSelect::Reserved(_), _) => Completion::generic_err(
                        STS_INVAL_FIELD,
                    ),
                    (_, ThresholdTypeSelect::Reserved(_)) => Completion::generic_err(
                        STS_INVAL_FIELD,
                    ),
                    _ => {
                        let mut out: FeatTemperatureThreshold = FeatTemperatureThreshold(0);
                        out.set_tmpsel(sel);
                        out.set_thsel(typ);
                        let limit: u16 = match (sel, typ) {
                            (_, ThresholdTypeSelect::Under) => 0,
                            // 100 degrees Celsius
                            (ThresholdTemperatureSelect::Composite, _) => 273 + 100,
                            _ => 0xffff,
                        };
                        out.set_tmpth(limit);
                        Completion::success_val(out.0)
                    },
                }
            },
            FeatureIdent::ErrorRecovery => Completion::success_val(0),
            FeatureIdent::NumberOfQueues => {
                let nq: FeatNumberQueues = FeatNumberQueues {
                    ncq: MAX_NUM_IO_QUEUES as u16,
                    nsq: MAX_NUM_IO_QUEUES as u16,
                };
                Completion::success_val(nq.to_dword())
            },
            FeatureIdent::InterruptCoalescing => Completion::success_val(0),
            FeatureIdent::InterruptVectorConfiguration => {
                let cfg: FeatInterruptVectorConfig = FeatInterruptVectorConfig::from_dword(
                    cmd.cdw11,
                );
                // Coalescing is disabled for all vectors
                let out: FeatInterruptVectorConfig = FeatInterruptVectorConfig {
                    iv: cfg.iv,
                    cd: true,
                };
                Completion::success_val(out.to_dword())
            },
            FeatureIdent::WriteAtomicity => Completion::success_val(0),
            FeatureIdent::AsynchronousEventConfiguration => Completion::success_val(0),
            FeatureIdent::VolatileWriteCache => {
                // An enabled write cache makes the guest issue flushes
                let out: FeatVolatileWriteCache = FeatVolatileWriteCache { wce: true };
                Completion::success_val(out.to_dword())
            },
            _ => Completion::generic_err(STS_INVAL_FIELD).dnr(),
        }
    }

    /// Set Features.
    pub fn acmd_set_features(&self, cmd: &SetFeaturesCmd) -> (r: Completion)
        ensures
            r == set_features(*cmd),
    {
        match cmd.fid {
            FeatureIdent::NumberOfQueues => match FeatNumberQueues::from_dword(cmd.cdw11) {
                Err(_) => Completion::generic_err(STS_INVAL_FIELD),
                Ok(nq) => {
                    let max: u16 = MAX_NUM_IO_QUEUES as u16;
                    let clamped: FeatNumberQueues = FeatNumberQueues {
                        ncq: if nq.ncq < max {
                            nq.ncq
                        } else {
                            max
                        },
                        nsq: if nq.nsq < max {
                            nq.nsq
                        } else {
                            max
                        },
                    };
                    Completion::success_val(clamped.to_dword())
                },
            },
            FeatureIdent::VolatileWriteCache => Completion::success(),
            _ => Completion::generic_err(STS_INVAL_FIELD).dnr(),
        }
    }

    /// Doorbell Buffer Config.
    pub fn acmd_doorbell_buf_cfg(&mut self, cmd: &DoorbellBufCfgCmd, acc: &mut MemAccessor) -> (r:
        Completion)
        requires
            old(self)@.wf(),
        ensures
            (final(self)@, final(acc)@, r) == doorbell_buf_cfg(old(self)@, *cmd, old(acc)@),
            final(self)@.wf(),
    {
        let mps: u64 = self.get_mps();
        if cmd.shadow_doorbell_buffer % mps != 0 || cmd.eventidx_buffer % mps != 0 {
            return Completion::generic_err(STS_INVAL_FIELD);
        }
        let db: DoorbellBuffer = DoorbellBuffer {
            shadow: GuestAddr(cmd.shadow_doorbell_buffer),
            eventidx: GuestAddr(cmd.eventidx_buffer),
        };
        self.set_db_bufs(Some(db), false, acc);
        Completion::success()
    }

    /// Executes an admin command.
    pub fn admin_exec(&mut self, cmd: AdminCmd, acc: &mut MemAccessor, events: &mut Vec<NvmeEvent>) -> (r:
        Completion)
        requires
            old(self)@.wf(),
        ensures
            forall|msix: MsixView|
                ((NvmeModel {
                    ctrl: final(self)@,
                    msix,
                    acc: final(acc)@,
                    events: final(events)@,
                }), r) == #[trigger] admin_exec(
                    (NvmeModel {
                        ctrl: old(self)@,
                        msix,
                        acc: old(acc)@,
                        events: old(events)@,
                    }),
                    cmd,
                ),
            final(self)@.wf(),
    {
        match cmd {
            AdminCmd::Abort(c) => self.acmd_abort(&c),
            AdminCmd::CreateIOCompQ(c) => self.acmd_create_io_cq(&c, acc),
            AdminCmd::CreateIOSubQ(c) => self.acmd_create_io_sq(&c, acc, events),
            AdminCmd::GetLogPage(c) => self.acmd_get_log_page(&c, &mut acc.mem),
            AdminCmd::Identify(c) => self.acmd_identify(&c, &mut acc.mem),
            AdminCmd::GetFeatures(c) => self.acmd_get_features(&c),
            AdminCmd::SetFeatures(c) => self.acmd_set_features(&c),
            AdminCmd::DeleteIOCompQ(cqid) => self.acmd_delete_io_cq(cqid),
            AdminCmd::DeleteIOSubQ(sqid) => self.acmd_delete_io_sq(sqid, events),
            AdminCmd::AsyncEventReq => {
                // Asynchronous events are not supported, and guests are to stop
                // asking for them.
                Completion::generic_err(STS_INVAL_OPC).dnr()
            },
            AdminCmd::DoorbellBufCfg(c) => self.acmd_doorbell_buf_cfg(&c, acc),
            AdminCmd::Unknown(_) => Completion::generic_err(STS_INTERNAL_ERR),
        }
    }
}

proof fn lemma_keeps_create_cq(v: CtrlView, cmd: CreateIOCQCmd, acc: MemAccessView)
    requires
        v.shape(),
        v.cqs[0] is Some,
        v.sqs[0] is Some,
    ensures
        keeps_admin(v, create_io_cq(v, cmd, acc).0),
{
    let w = create_io_cq(v, cmd, acc).0;
    if w != v {
        assert(w.cqs[0] == v.cqs[0]);
        assert(w.sqs[0] == v.sqs[0]);
    }
}

proof fn lemma_keeps_create_sq(
    v: CtrlView,
    cmd: CreateIOSQCmd,
    acc: MemAccessView,
    events: Seq<NvmeEvent>,
)
    requires
        v.shape(),
        v.cqs[0] is Some,
        v.sqs[0] is Some,
    ensures
        keeps_admin(v, create_io_sq(v, cmd, acc, events).0),
{
    let w = create_io_sq(v, cmd, acc, events).0;
    if w != v {
        assert(w.cqs[0] == v.cqs[0]);
        assert(w.sqs[0] == v.sqs[0]);
    }
}

proof fn lemma_keeps_delete(v: CtrlView, id: QueueId, events: Seq<NvmeEvent>)
    requires
        v.shape(),
        v.cqs[0] is Some,
        v.sqs[0] is Some,
    ensures
        keeps_admin(v, delete_io_cq(v, id).0),
        keeps_admin(v, delete_io_sq(v, id, events).0),
{
    if id != 0 && id < MAX_NUM_QUEUES {
        assert(v.sq_linked(id as int));
    }
}

proof fn lemma_keeps_doorbell(v: CtrlView, cmd: DoorbellBufCfgCmd, acc: MemAccessView)
    requires
        v.shape(),
        v.cqs[0] is Some,
        v.sqs[0] is Some,
    ensures
        keeps_admin(v, doorbell_buf_cfg(v, cmd, acc).0),
{
}

/// No admin command touches the admin queues, but for their doorbell buffers.
pub proof fn lemma_admin_keeps(m: NvmeModel, cmd: AdminCmd)
    requires
        m.ctrl.shape(),
        m.ctrl.cqs[0] is Some,
        m.ctrl.sqs[0] is Some,
    ensures
        keeps_admin(m.ctrl, admin_exec(m, cmd).0.ctrl),
        admin_exec(m, cmd).0.msix == m.msix,
{
    match cmd {
        AdminCmd::CreateIOCompQ(c) => {
            lemma_keeps_create_cq(m.ctrl, c, m.acc);
        },
        AdminCmd::CreateIOSubQ(c) => {
            lemma_keeps_create_sq(m.ctrl, c, m.acc, m.events);
        },
        AdminCmd::DeleteIOCompQ(id) => {
            lemma_keeps_delete(m.ctrl, id, m.events);
        },
        AdminCmd::DeleteIOSubQ(id) => {
            lemma_keeps_delete(m.ctrl, id, m.events);
        },
        AdminCmd::DoorbellBufCfg(c) => {
            lemma_keeps_doorbell(m.ctrl, c, m.acc);
        },
        _ => {},
    }
}

/// The controller with what it works on.
pub open spec fn model_of(
    ctrl: NvmeCtrl,
    msix: MsixCfg,
    acc: MemAccessor,
    events: Seq<NvmeEvent>,
) -> NvmeModel {
    NvmeModel { ctrl: ctrl@, msix: msix@, acc: acc@, events }
}

/// Signals an interrupt of a vector, if there is one.
pub fn fire_vector(iv: Option<u16>, msix: &mut MsixCfg, events: &mut Vec<NvmeEvent>)
    requires
        old(msix).wf(),
        iv matches Some(i) ==> i < old(msix)@.count,
    ensures
        final(msix).wf(),
        final(msix)@.count == old(msix)@.count,
        final(msix)@.bar == old(msix)@.bar,
        forall|ctrl: CtrlView, acc: MemAccessView|
            (NvmeModel { ctrl, msix: final(msix)@, acc, events: final(events)@ })
                == #[trigger] (NvmeModel {
                ctrl,
                msix: old(msix)@,
                acc,
                events: old(events)@,
            }).fired(iv),
{
    if let Some(i) = iv {
        if let Some(msg) = msix.fire(i) {
            events.push(NvmeEvent::Msi(msg));
        }
    }
}

impl NvmeCtrl {
    /// Executes the next admin command and completes it. Tells whether there
    /// was one.
    pub fn admin_step(
        &mut self,
        msix: &mut MsixCfg,
        acc: &mut MemAccessor,
        events: &mut Vec<NvmeEvent>,
    ) -> (r: bool)
        requires
            model_of(*old(self), *old(msix), *old(acc), old(events)@).wf(),
            old(self)@.cqs[0] is Some,
            old(self)@.sqs[0] is Some,
        ensures
            ({
                let m = model_of(*old(self), *old(msix), *old(acc), old(events)@);
                &&& model_of(*final(self), *final(msix), *final(acc), final(events)@)
                    == admin_step(m)
                &&& r <==> admin_pop(m).got is Some
            }),
            model_of(*final(self), *final(msix), *final(acc), final(events)@).wf(),
            final(self)@.cqs[0] is Some,
            final(self)@.sqs[0] is Some,
    {
        let ghost m0 = model_of(*self, *msix, *acc, events@);
        proof {
            assert(m0.ctrl.cq_ok(0));
            assert(m0.ctrl.sq_ok(0));
        }
        let popped: Option<(SubmissionQueueEntry, Permit, u16)> = match (
            &mut self.cqs[0],
            &mut self.sqs[0],
        ) {
            (Some(cq), Some(sq)) => sq.pop(cq, acc),
            _ => None,
        };
        let ghost m1 = model_of(*self, *msix, *acc, events@);
        proof {
            let out = admin_pop(m0);
            lemma_set_cq(m0.ctrl, 0, out.cq);
            lemma_set_sq(m0.ctrl.with_cq(0, Some(out.cq)), 0, out.sq);
            assert(m1.ctrl.cqs =~= after_pop(m0).ctrl.cqs);
            assert(m1.ctrl.sqs =~= after_pop(m0).ctrl.sqs);
            assert(m1 == after_pop(m0));
        }
        match popped {
            None => false,
            Some((sub, permit, _idx)) => {
                let cmd: AdminCmd = match AdminCmd::parse(sub) {
                    Ok(cmd) => cmd,
                    Err(_) => AdminCmd::Unknown(sub),
                };
                let comp: Completion = self.admin_exec(cmd, acc, events);
                let ghost m2 = model_of(*self, *msix, *acc, events@);
                proof {
                    lemma_admin_keeps(m1, cmd);
                    assert((m2, comp) == admin_exec(m1, cmd));
                    assert(m2.ctrl.cq_ok(0));
                    assert(m2.ctrl.sq_ok(0));
                }
                let iv: Option<u16> = match &mut self.cqs[0] {
                    Some(cq) => permit.complete(comp, cq, self.sqs[0].as_ref(), acc),
                    None => None,
                };
                proof {
                    let q = self@.cqs[0]->0;
                    lemma_set_cq(m2.ctrl, 0, q);
                    assert(self@.cqs =~= m2.ctrl.with_cq(0, Some(q)).cqs);
                    assert(self@ == m2.ctrl.with_cq(0, Some(q)));
                    assert(model_of(*self, *msix, *acc, events@).fired(iv) == admin_complete(
                        m2,
                        permit,
                        comp,
                    ));
                }
                fire_vector(iv, msix, events);
                true
            },
        }
    }

    /// Processes the entries of the admin submission queue, and tells the guest
    /// of the completions. There must be an admin queue.
    pub fn process_admin_queue(
        &mut self,
        msix: &mut MsixCfg,
        acc: &mut MemAccessor,
        events: &mut Vec<NvmeEvent>,
    )
        requires
            model_of(*old(self), *old(msix), *old(acc), old(events)@).wf(),
            old(self)@.cqs[0] is Some,
            old(self)@.sqs[0] is Some,
        ensures
            model_of(*final(self), *final(msix), *final(acc), final(events)@) == admin_processed(
                model_of(*old(self), *old(msix), *old(acc), old(events)@),
            ),
            model_of(*final(self), *final(msix), *final(acc), final(events)@).wf(),
            final(self)@.cqs[0] is Some,
            final(self)@.sqs[0] is Some,
    {
        let ghost m0 = model_of(*self, *msix, *acc, events@);
        let ghost goal = admin_run(m0, u64::MAX as nat);
        let mut fuel: u64 = u64::MAX;
        let mut more: bool = true;
        while more && fuel > 0
            invariant
                model_of(*self, *msix, *acc, events@).wf(),
                self@.cqs[0] is Some,
                self@.sqs[0] is Some,
                more ==> admin_run(model_of(*self, *msix, *acc, events@), fuel as nat) == goal,
                !more ==> model_of(*self, *msix, *acc, events@) == goal,
            decreases fuel,
        {
            more = self.admin_step(msix, acc, events);
            fuel -= 1;
        }
        let ghost m1 = model_of(*self, *msix, *acc, events@);
        assert(m1 == goal);
        proof {
            assert(m1.ctrl.cq_ok(0));
        }
        let iv: Option<u16> = match &self.cqs[0] {
            Some(cq) => cq.fire_interrupt(),
            None => None,
        };
        fire_vector(iv, msix, events);
    }
}

} // verus!
