//! The NVMe controller: its registers, and the queues that it owns.
use crate::block::QueueAction;
use crate::common::{GuestAddr, MemAccessView, MemAccessor};
use crate::hw::nvme::bits::{
    page_bytes, page_size_of, AdminQueueAttrs, ArbitrationMechanism, Capabilities, Configuration,
    IOCommandSet, IdentifyController, IdentifyNamespace, LbaFormat, Status,
};
use crate::hw::nvme::queue::{
    lemma_without_id, spec_validate, sqid_to_block_qid, without_id, CompQueue, CompQueueView,
    CreateParams, DeviceId, DoorbellBuffer, NvmeCompQueueV1, NvmeSubQueueV1, QueueCreateErr,
    QueueId, SubQueue, TransferParams, ADMIN_QUEUE_ID,
};
use crate::hw::nvme::NvmeError;
use crate::hw::pci::msix::MsiMsg;
use vstd::prelude::*;

verus! {

/// Number of interrupt vectors of the controller.
pub const NVME_MSIX_COUNT: u16 = 1024;

/// The most completion or submission queues, counting the admin queues.
pub const MAX_NUM_QUEUES: usize = 16;

/// The most I/O completion or submission queues.
pub const MAX_NUM_IO_QUEUES: usize = 15;

/// What the controller brings about outside of it, in the order in which it
/// happens.
#[derive(Clone, Copy, Debug, PartialEq, Eq, Structural)]
pub enum NvmeEvent {
    /// An interrupt is signalled.
    Msi(MsiMsg),
    /// The block layer is told about a queue.
    Block(QueueAction),
}

/// The registers of the controller.
#[derive(Clone, Copy, Debug, Default, PartialEq, Eq, Structural)]
pub struct CtrlState {
    pub cap: Capabilities,
    pub cc: Configuration,
    pub csts: Status,
    pub aqa: AdminQueueAttrs,
    /// Base address of the admin submission queue.
    pub admin_sq_base: u64,
    /// Base address of the admin completion queue.
    pub admin_cq_base: u64,
}

/// What a controller holds.
#[verifier::ext_equal]
pub struct CtrlView {
    pub device_id: DeviceId,
    pub ctrl: CtrlState,
    pub doorbell_buf: Option<DoorbellBuffer>,
    pub msix_attached: bool,
    pub next_serial: u64,
    pub cqs: Seq<Option<CompQueueView>>,
    pub sqs: Seq<Option<SubQueue>>,
    pub ctrl_ident: IdentifyController,
    pub ns_ident: IdentifyNamespace,
}

/// An NVMe controller.
pub struct NvmeCtrl {
    pub device_id: DeviceId,
    pub ctrl: CtrlState,
    /// Where the guest has placed the doorbell buffers, if it has.
    pub doorbell_buf: Option<DoorbellBuffer>,
    /// Whether there are interrupts that queues can use.
    pub msix_attached: bool,
    /// The number that the next queue to be created is told apart by.
    pub next_serial: u64,
    /// The completion queues, by their identifiers.
    pub cqs: Vec<Option<CompQueue>>,
    /// The submission queues, by their identifiers.
    pub sqs: Vec<Option<SubQueue>>,
    /// What an Identify Controller command returns.
    pub ctrl_ident: IdentifyController,
    /// What an Identify Namespace command returns.
    pub ns_ident: IdentifyNamespace,
}

/// What slots for completion queues hold.
pub open spec fn cq_views(v: Seq<Option<CompQueue>>) -> Seq<Option<CompQueueView>> {
    Seq::new(
        v.len(),
        |i: int|
            match v[i] {
                Some(q) => Some(q@),
                None => None,
            },
    )
}

impl View for NvmeCtrl {
    type V = CtrlView;

    open spec fn view(&self) -> CtrlView {
        CtrlView {
            device_id: self.device_id,
            ctrl: self.ctrl,
            doorbell_buf: self.doorbell_buf,
            msix_attached: self.msix_attached,
            next_serial: self.next_serial,
            cqs: cq_views(self.cqs@),
            sqs: self.sqs@,
            ctrl_ident: self.ctrl_ident,
            ns_ident: self.ns_ident,
        }
    }
}

/// The state of a controller as it is moved to another host.
#[derive(Debug)]
pub struct NvmeCtrlV1 {
    pub cap: u64,
    pub cc: u32,
    pub csts: u32,
    pub aqa: u32,
    pub acq_base: u64,
    pub asq_base: u64,
    pub dbbuf_shadow: u64,
    pub dbbuf_evtidx: u64,
    pub cqs: Vec<NvmeCompQueueV1>,
    pub sqs: Vec<NvmeSubQueueV1>,
}

impl CtrlView {
    /// The completion queue of an identifier.
    pub open spec fn cq(self, id: QueueId) -> Option<CompQueueView> {
        if id < MAX_NUM_QUEUES {
            self.cqs[id as int]
        } else {
            None
        }
    }

    /// The submission queue of an identifier.
    pub open spec fn sq(self, id: QueueId) -> Option<SubQueue> {
        if id < MAX_NUM_QUEUES {
            self.sqs[id as int]
        } else {
            None
        }
    }

    /// Whether the completion queue in slot `i` has the identifier `i`, and
    /// serves exactly those submission queues that name it.
    pub open spec fn cq_linked(self, i: int) -> bool {
        self.cqs[i] matches Some(q) ==> {
            &&& q.id == i
            &&& q.sqs.no_duplicates()
            &&& forall|s: QueueId|
                #[trigger] q.sqs.contains(s) <==> (self.sq(s) matches Some(x) && x.cq_id == i)
        }
    }

    /// Whether the submission queue in slot `j` has the identifier `j` and its
    /// completion queue exists. The admin queues belong to each other.
    pub open spec fn sq_linked(self, j: int) -> bool {
        self.sqs[j] matches Some(s) ==> {
            &&& s.id == j
            &&& self.cq(s.cq_id) is Some
            &&& (j == 0 <==> s.cq_id == 0)
        }
    }

    /// The invariant of the slots.
    pub open spec fn shape(self) -> bool {
        &&& self.cqs.len() == MAX_NUM_QUEUES
        &&& self.sqs.len() == MAX_NUM_QUEUES
        &&& forall|i: int| 0 <= i < MAX_NUM_QUEUES ==> #[trigger] self.cq_linked(i)
        &&& forall|j: int| 0 <= j < MAX_NUM_QUEUES ==> #[trigger] self.sq_linked(j)
        &&& self.ctrl_ident.mdts < 64
        &&& self.ns_ident.lbaf@[self.ns_ident.flbas as int % 16].lbads < 64
    }

    /// Whether the completion queue in slot `i` is in a state that it can be in.
    pub open spec fn cq_ok(self, i: int) -> bool {
        self.cqs[i] matches Some(q) ==> {
            &&& q.wf()
            &&& q.iv < NVME_MSIX_COUNT
            &&& spec_validate(i == 0, q.base, q.state.queue.size) is Ok
            &&& (i != 0 ==> !q.corked.contains(ADMIN_QUEUE_ID))
        }
    }

    /// Whether the submission queue in slot `j` is in a state that it can be in.
    pub open spec fn sq_ok(self, j: int) -> bool {
        self.sqs[j] matches Some(s) ==> {
            &&& s.wf()
            &&& spec_validate(j == 0, s.base, s.state.size) is Ok
        }
    }

    /// The invariant of the states of the queues.
    pub open spec fn queues_ok(self) -> bool {
        &&& forall|i: int| 0 <= i < MAX_NUM_QUEUES ==> #[trigger] self.cq_ok(i)
        &&& forall|j: int| 0 <= j < MAX_NUM_QUEUES ==> #[trigger] self.sq_ok(j)
    }

    /// The invariant of controllers.
    pub open spec fn wf(self) -> bool {
        self.shape() && self.queues_ok()
    }

    /// The controller with another completion queue in slot `i`.
    pub open spec fn with_cq(self, i: int, q: Option<CompQueueView>) -> CtrlView {
        CtrlView { cqs: self.cqs.update(i, q), ..self }
    }

    /// The controller with another submission queue in slot `j`.
    pub open spec fn with_sq(self, j: int, s: Option<SubQueue>) -> CtrlView {
        CtrlView { sqs: self.sqs.update(j, s), ..self }
    }

    /// The controller with other registers.
    pub open spec fn with_cc(self, cc: Configuration) -> CtrlView {
        CtrlView { ctrl: CtrlState { cc, ..self.ctrl }, ..self }
    }

    /// The controller with another status.
    pub open spec fn with_csts(self, csts: Status) -> CtrlView {
        CtrlView { ctrl: CtrlState { csts, ..self.ctrl }, ..self }
    }

    /// Why a completion queue cannot be created, if it cannot.
    pub open spec fn cq_refusal(self, params: CreateParams, is_admin: bool) -> Option<NvmeError> {
        if params.id >= MAX_NUM_QUEUES {
            Some(NvmeError::InvalidCompQueue(params.id))
        } else if !is_admin && params.id == 0 {
            Some(NvmeError::InvalidCompQueue(params.id))
        } else if self.cqs[params.id as int] is Some {
            Some(NvmeError::CompQueueAlreadyExists(params.id))
        } else if !self.msix_attached {
            Some(NvmeError::MsixHdlUnavailable)
        } else {
            match spec_validate(params.id == ADMIN_QUEUE_ID, params.base, params.size) {
                Err(e) => Some(NvmeError::QueueCreateErr(e)),
                Ok(_) => None,
            }
        }
    }

    /// The completion queue that is created.
    pub open spec fn new_cq(self, params: CreateParams, iv: u16) -> CompQueueView {
        (CompQueueView {
            serial: self.next_serial,
            ..CompQueueView::spec_new(params, iv)
        }).with_db_buf(self.doorbell_buf)
    }

    /// The controller and memory after an attempt to create a completion queue,
    /// and why it failed, if it did.
    pub open spec fn spec_create_cq(
        self,
        params: CreateParams,
        is_admin: bool,
        iv: u16,
        acc: MemAccessView,
    ) -> (CtrlView, MemAccessView, Option<NvmeError>) {
        match self.cq_refusal(params, is_admin) {
            Some(e) => (self, acc, Some(e)),
            None => (
                CtrlView {
                    next_serial: self.next_serial.wrapping_add(1),
                    ..self.with_cq(params.id as int, Some(self.new_cq(params, iv)))
                },
                self.new_cq(params, iv).db_buf_synced(self.doorbell_buf, false, acc),
                None,
            ),
        }
    }

    /// Why a submission queue cannot be created, if it cannot.
    pub open spec fn sq_refusal(self, params: CreateParams, is_admin: bool, cqid: QueueId) -> Option<
        NvmeError,
    > {
        if params.id >= MAX_NUM_QUEUES {
            Some(NvmeError::InvalidSubQueue(params.id))
        } else if !is_admin && params.id == 0 {
            Some(NvmeError::InvalidSubQueue(cqid))
        } else if !is_admin && cqid == 0 {
            Some(NvmeError::InvalidCompQueue(cqid))
        } else if self.sqs[params.id as int] is Some {
            Some(NvmeError::SubQueueAlreadyExists(params.id))
        } else if self.cq(cqid) is None {
            Some(NvmeError::InvalidCompQueue(cqid))
        } else {
            match spec_validate(params.id == ADMIN_QUEUE_ID, params.base, params.size) {
                Err(e) => Some(NvmeError::QueueCreateErr(e)),
                Ok(_) => None,
            }
        }
    }

    /// The submission queue that is created.
    pub open spec fn new_sq(self, params: CreateParams, cqid: QueueId) -> SubQueue {
        (SubQueue {
            serial: self.next_serial,
            ..SubQueue::spec_new(params, cqid)
        }).with_db_buf(self.doorbell_buf)
    }

    /// The controller and memory after an attempt to create a submission queue,
    /// and why it failed, if it did.
    pub open spec fn spec_create_sq(
        self,
        params: CreateParams,
        is_admin: bool,
        cqid: QueueId,
        acc: MemAccessView,
    ) -> (CtrlView, MemAccessView, Option<NvmeError>) {
        match self.sq_refusal(params, is_admin, cqid) {
            Some(e) => (self, acc, Some(e)),
            None => {
                let q = self.cqs[cqid as int]->0;
                (
                    CtrlView {
                        next_serial: self.next_serial.wrapping_add(1),
                        ..self.with_cq(
                            cqid as int,
                            Some(CompQueueView { sqs: q.sqs.push(params.id), ..q }),
                        ).with_sq(params.id as int, Some(self.new_sq(params, cqid)))
                    },
                    self.new_sq(params, cqid).db_buf_synced(self.doorbell_buf, false, acc),
                    None,
                )
            },
        }
    }

    /// The controller after an attempt to delete a completion queue, and why it
    /// failed, if it did.
    pub open spec fn spec_delete_cq(self, cqid: QueueId) -> (CtrlView, Option<NvmeError>) {
        match self.cq(cqid) {
            None => (self, Some(NvmeError::InvalidCompQueue(cqid))),
            Some(q) => if q.sqs.len() > 0 {
                (
                    self,
                    Some(NvmeError::AssociatedSubQueuesStillExist(cqid, q.sqs.len() as usize)),
                )
            } else {
                (self.with_cq(cqid as int, None), None)
            },
        }
    }

    /// The controller after an attempt to delete a submission queue, and why it
    /// failed, if it did.
    pub open spec fn spec_delete_sq(self, sqid: QueueId) -> (CtrlView, Option<NvmeError>) {
        match self.sq(sqid) {
            None => (self, Some(NvmeError::InvalidSubQueue(sqid))),
            Some(s) => {
                let q = self.cqs[s.cq_id as int]->0;
                (
                    self.with_cq(
                        s.cq_id as int,
                        Some(CompQueueView { sqs: without_id(q.sqs, sqid), ..q }),
                    ).with_sq(sqid as int, None),
                    None,
                )
            },
        }
    }

    /// What the admin completion queue is created from.
    pub open spec fn admin_cq_params(self) -> CreateParams {
        CreateParams {
            id: ADMIN_QUEUE_ID,
            device_id: self.device_id,
            base: GuestAddr(self.ctrl.admin_cq_base),
            size: (self.ctrl.aqa.spec_acqs() + 1) as u32,
        }
    }

    /// What the admin submission queue is created from.
    pub open spec fn admin_sq_params(self) -> CreateParams {
        CreateParams {
            id: ADMIN_QUEUE_ID,
            device_id: self.device_id,
            base: GuestAddr(self.ctrl.admin_sq_base),
            size: (self.ctrl.aqa.spec_asqs() + 1) as u32,
        }
    }

    /// The controller and memory after an attempt to create the admin queues.
    pub open spec fn spec_create_admin_queues(self, acc: MemAccessView) -> (
        CtrlView,
        MemAccessView,
        Option<NvmeError>,
    ) {
        let (v1, acc1, e1) = self.spec_create_cq(self.admin_cq_params(), true, 0, acc);
        if e1 is Some {
            (v1, acc1, e1)
        } else {
            v1.spec_create_sq(self.admin_sq_params(), true, ADMIN_QUEUE_ID, acc1)
        }
    }

    /// The limits on the data transfers of submission queues.
    pub open spec fn spec_transfer_params(self) -> TransferParams {
        let lbads = self.ns_ident.lbaf@[self.ns_ident.flbas as int % 16].lbads;
        TransferParams {
            lba_data_size: 1u64 << lbads,
            max_data_tranfser_size: if self.ctrl_ident.mdts == 0 {
                u64::MAX
            } else {
                (page_size_of(self.ctrl.cap.spec_mpsmin()) as u64) << self.ctrl_ident.mdts
            },
        }
    }

    /// The controller after the block layer was told about the new submission
    /// queue `sqid`.
    pub open spec fn sq_associated(self, sqid: QueueId) -> CtrlView {
        self.with_sq(
            sqid as int,
            Some(SubQueue { params: self.spec_transfer_params(), ..self.sqs[sqid as int]->0 }),
        )
    }

    /// The configuration after an attempt to change it to `cc`, and why that
    /// failed, if it did. What was found good before is kept.
    pub open spec fn configured(self, cc: Configuration) -> (Configuration, Option<NvmeError>) {
        let c0 = self.ctrl.cc;
        let c1 = if cc.spec_iocqes() > 0 {
            c0.spec_with_iocqes(cc.spec_iocqes())
        } else {
            c0
        };
        let c2 = if cc.spec_iosqes() > 0 {
            c1.spec_with_iosqes(cc.spec_iosqes())
        } else {
            c1
        };
        if cc.spec_iocqes() > 0 && cc.spec_iocqes() != self.ctrl_ident.cqes.spec_required() {
            (c0, Some(NvmeError::UnsupportedCompQueueEntrySize))
        } else if cc.spec_iosqes() > 0 && cc.spec_iosqes()
            != self.ctrl_ident.sqes.spec_required() {
            (c1, Some(NvmeError::UnsupportedSubQueueEntrySize))
        } else if c2.spec_enabled() {
            (c2, None)
        } else if cc.spec_ams() != ArbitrationMechanism::RoundRobin {
            (c2, Some(NvmeError::UnsupportedArbitrationMechanism))
        } else if cc.spec_mps() < self.ctrl.cap.spec_mpsmin() || cc.spec_mps()
            > self.ctrl.cap.spec_mpsmax() {
            (c2, Some(NvmeError::UnsupportedMemPageSize))
        } else if cc.spec_css() != IOCommandSet::Nvm {
            (c2, Some(NvmeError::UnsupportedCommandSet))
        } else {
            (
                c2.spec_with_ams(cc.spec_ams()).spec_with_mps(cc.spec_mps()).spec_with_css(
                    cc.spec_css(),
                ),
                None,
            )
        }
    }

    /// The controller after an attempt to change its configuration. A failure
    /// is a fatal error of the controller.
    pub open spec fn spec_configure(self, cc: Configuration) -> (CtrlView, Option<NvmeError>) {
        let (c, e) = self.configured(cc);
        let v = self.with_cc(c);
        if e is Some {
            (v.with_csts(self.ctrl.csts.spec_with_cfs(true)), e)
        } else {
            (v, None)
        }
    }

    /// The controller after a reset.
    pub open spec fn spec_reset(self) -> CtrlView {
        CtrlView {
            cqs: Seq::new(MAX_NUM_QUEUES as nat, |i: int| None),
            sqs: Seq::new(MAX_NUM_QUEUES as nat, |i: int| None),
            ctrl: CtrlState { cc: Configuration(0), csts: Status(0), ..self.ctrl },
            doorbell_buf: None,
            ..self
        }
    }
}

/// What the block layer is told when the first `n` submission queues go away.
pub open spec fn dissociate_events(sqs: Seq<Option<SubQueue>>, n: int) -> Seq<NvmeEvent>
    decreases n,
{
    if n <= 0 {
        Seq::empty()
    } else if sqs[n - 1] is Some && n - 1 != 0 {
        dissociate_events(sqs, n - 1).push(
            NvmeEvent::Block(QueueAction::Dissociate((n - 2) as u16)),
        )
    } else {
        dissociate_events(sqs, n - 1)
    }
}

/// A reset controller has no queues and no doorbell buffer, it is not enabled,
/// and it is not changed by another reset, of which the block layer is told
/// nothing.
pub proof fn law_ctrl_reset_idempotent(v: CtrlView, n: int)
    requires
        0 <= n <= MAX_NUM_QUEUES,
    ensures
        v.spec_reset().spec_reset() == v.spec_reset(),
        v.spec_reset().ctrl.cc == Configuration(0),
        v.spec_reset().ctrl.csts == Status(0),
        dissociate_events(v.spec_reset().sqs, n) == Seq::<NvmeEvent>::empty(),
    decreases n,
{
    assert(v.spec_reset().spec_reset() =~= v.spec_reset());
    if n > 0 {
        law_ctrl_reset_idempotent(v, n - 1);
    }
}

/// Changing the state of a completion queue, but not what it serves, keeps the
/// invariants.
pub proof fn lemma_set_cq(v: CtrlView, i: int, q: CompQueueView)
    requires
        v.shape(),
        0 <= i < MAX_NUM_QUEUES,
        v.cqs[i] matches Some(q0) && q.id == q0.id && q.sqs == q0.sqs && q.base == q0.base
            && q.state.queue.size == q0.state.queue.size,
    ensures
        v.with_cq(i, Some(q)).shape(),
        v.queues_ok() && q.wf() && q.iv < NVME_MSIX_COUNT && (i != 0 ==> !q.corked.contains(
            ADMIN_QUEUE_ID,
        )) ==> v.with_cq(i, Some(q)).queues_ok(),
{
    let w = v.with_cq(i, Some(q));
    assert forall|k: int| 0 <= k < MAX_NUM_QUEUES implies #[trigger] w.cq_linked(k) by {
        assert(v.cq_linked(k));
        assert(forall|s: QueueId| w.sq(s) == v.sq(s));
    }
    assert forall|k: int| 0 <= k < MAX_NUM_QUEUES implies #[trigger] w.sq_linked(k) by {
        assert(v.sq_linked(k));
    }
    if v.queues_ok() && q.wf() && q.iv < NVME_MSIX_COUNT && (i != 0 ==> !q.corked.contains(
        ADMIN_QUEUE_ID,
    )) {
        assert forall|k: int| 0 <= k < MAX_NUM_QUEUES implies #[trigger] w.cq_ok(k) by {
            assert(v.cq_ok(k));
        }
        assert forall|k: int| 0 <= k < MAX_NUM_QUEUES implies #[trigger] w.sq_ok(k) by {
            assert(v.sq_ok(k));
        }
    }
}

/// Changing the state of a submission queue keeps the invariants.
pub proof fn lemma_set_sq(v: CtrlView, j: int, s: SubQueue)
    requires
        v.shape(),
        0 <= j < MAX_NUM_QUEUES,
        v.sqs[j] matches Some(s0) && s.id == s0.id && s.cq_id == s0.cq_id && s.base == s0.base
            && s.state.size == s0.state.size,
    ensures
        v.with_sq(j, Some(s)).shape(),
        v.queues_ok() && s.wf() ==> v.with_sq(j, Some(s)).queues_ok(),
{
    let w = v.with_sq(j, Some(s));
    assert forall|k: int| 0 <= k < MAX_NUM_QUEUES implies #[trigger] w.cq_linked(k) by {
        assert(v.cq_linked(k));
        if v.cqs[k] is Some {
            let q = v.cqs[k]->0;
            assert forall|x: QueueId| #[trigger] q.sqs.contains(x) <==> (w.sq(x) matches Some(y)
                && y.cq_id == k) by {
                assert(q.sqs.contains(x) <==> (v.sq(x) matches Some(y) && y.cq_id == k));
            }
        }
    }
    assert forall|k: int| 0 <= k < MAX_NUM_QUEUES implies #[trigger] w.sq_linked(k) by {
        assert(v.sq_linked(k));
    }
    if v.queues_ok() && s.wf() {
        assert forall|k: int| 0 <= k < MAX_NUM_QUEUES implies #[trigger] w.cq_ok(k) by {
            assert(v.cq_ok(k));
        }
        assert forall|k: int| 0 <= k < MAX_NUM_QUEUES implies #[trigger] w.sq_ok(k) by {
            assert(v.sq_ok(k));
        }
    }
}

/// A new completion queue keeps the invariants.
pub proof fn lemma_add_cq(v: CtrlView, i: int, q: CompQueueView)
    requires
        v.shape(),
        0 <= i < MAX_NUM_QUEUES,
        v.cqs[i] is None,
        q.id == i,
        q.sqs.len() == 0,
    ensures
        v.with_cq(i, Some(q)).shape(),
        v.queues_ok() && q.wf() && q.iv < NVME_MSIX_COUNT && q.corked.len() == 0
            && spec_validate(i == 0, q.base, q.state.queue.size) is Ok ==> v.with_cq(
            i,
            Some(q),
        ).queues_ok(),
{
    let w = v.with_cq(i, Some(q));
    assert forall|k: int| 0 <= k < MAX_NUM_QUEUES implies #[trigger] w.cq_linked(k) by {
        assert(v.cq_linked(k));
        if k == i {
            assert forall|x: QueueId| #[trigger] q.sqs.contains(x) <==> (w.sq(x) matches Some(y)
                && y.cq_id == k) by {
                if w.sq(x) is Some {
                    assert(v.sq_linked(x as int));
                }
            }
        } else if v.cqs[k] is Some {
            assert(forall|s: QueueId| w.sq(s) == v.sq(s));
        }
    }
    assert forall|k: int| 0 <= k < MAX_NUM_QUEUES implies #[trigger] w.sq_linked(k) by {
        assert(v.sq_linked(k));
    }
    if v.queues_ok() && q.wf() && q.iv < NVME_MSIX_COUNT && q.corked.len() == 0 && spec_validate(
        i == 0,
        q.base,
        q.state.queue.size,
    ) is Ok {
        assert forall|k: int| 0 <= k < MAX_NUM_QUEUES implies #[trigger] w.cq_ok(k) by {
            assert(v.cq_ok(k));
        }
        assert forall|k: int| 0 <= k < MAX_NUM_QUEUES implies #[trigger] w.sq_ok(k) by {
            assert(v.sq_ok(k));
        }
    }
}

/// A new submission queue, served by an existing completion queue, keeps the
/// invariants.
pub proof fn lemma_add_sq(v: CtrlView, j: int, s: SubQueue, q: CompQueueView)
    requires
        v.shape(),
        0 <= j < MAX_NUM_QUEUES,
        v.sqs[j] is None,
        s.id == j,
        v.cq(s.cq_id) is Some,
        j == 0 <==> s.cq_id == 0,
        q == (CompQueueView { sqs: v.cqs[s.cq_id as int]->0.sqs.push(s.id), ..v.cqs[s.cq_id as int]->0 }),
    ensures
        !v.cqs[s.cq_id as int]->0.sqs.contains(s.id),
        v.with_cq(s.cq_id as int, Some(q)).with_sq(j, Some(s)).shape(),
        v.queues_ok() && s.wf() && spec_validate(j == 0, s.base, s.state.size) is Ok ==> v.with_cq(
            s.cq_id as int,
            Some(q),
        ).with_sq(j, Some(s)).queues_ok(),
{
    let i = s.cq_id as int;
    let q0 = v.cqs[i]->0;
    let w = v.with_cq(i, Some(q)).with_sq(j, Some(s));
    assert(v.cq_linked(i));
    assert(q0.sqs.contains(s.id) <==> (v.sq(s.id) matches Some(y) && y.cq_id == i));
    assert forall|x: QueueId| #[trigger] q.sqs.contains(x) <==> (q0.sqs.contains(x) || x
        == s.id) by {
        if q0.sqs.contains(x) {
            let k = choose|k: int| 0 <= k < q0.sqs.len() && q0.sqs[k] == x;
            assert(q.sqs[k] == x);
        }
        assert(q.sqs[q0.sqs.len() as int] == s.id);
    }
    assert forall|k: int| 0 <= k < MAX_NUM_QUEUES implies #[trigger] w.cq_linked(k) by {
        assert(v.cq_linked(k));
        if w.cqs[k] is Some {
            let qq = w.cqs[k]->0;
            let qv = v.cqs[k]->0;
            assert forall|x: QueueId| #[trigger] qq.sqs.contains(x) <==> (w.sq(x) matches Some(y)
                && y.cq_id == k) by {
                assert(qv.sqs.contains(x) <==> (v.sq(x) matches Some(y) && y.cq_id == k));
            }
        }
    }
    assert forall|k: int| 0 <= k < MAX_NUM_QUEUES implies #[trigger] w.sq_linked(k) by {
        assert(v.sq_linked(k));
    }
    if v.queues_ok() && s.wf() && spec_validate(j == 0, s.base, s.state.size) is Ok {
        assert(v.cq_ok(i));
        assert(q.sqs.no_duplicates());
        assert forall|k: int| 0 <= k < MAX_NUM_QUEUES implies #[trigger] w.cq_ok(k) by {
            assert(v.cq_ok(k));
        }
        assert forall|k: int| 0 <= k < MAX_NUM_QUEUES implies #[trigger] w.sq_ok(k) by {
            assert(v.sq_ok(k));
        }
    }
}

/// Taking away a completion queue that serves nothing keeps the invariants.
pub proof fn lemma_del_cq(v: CtrlView, i: int)
    requires
        v.shape(),
        0 <= i < MAX_NUM_QUEUES,
        v.cqs[i] matches Some(q) && q.sqs.len() == 0,
    ensures
        v.with_cq(i, None).shape(),
        v.queues_ok() ==> v.with_cq(i, None).queues_ok(),
{
    let w = v.with_cq(i, None);
    assert(v.cq_linked(i));
    let q = v.cqs[i]->0;
    assert forall|k: int| 0 <= k < MAX_NUM_QUEUES implies #[trigger] w.cq_linked(k) by {
        assert(v.cq_linked(k));
        assert(forall|s: QueueId| w.sq(s) == v.sq(s));
    }
    assert forall|k: int| 0 <= k < MAX_NUM_QUEUES implies #[trigger] w.sq_linked(k) by {
        assert(v.sq_linked(k));
        if v.sqs[k] is Some {
            let s = v.sqs[k]->0;
            assert(q.sqs.contains(s.id) <==> (v.sq(s.id) matches Some(y) && y.cq_id == i));
        }
    }
    if v.queues_ok() {
        assert forall|k: int| 0 <= k < MAX_NUM_QUEUES implies #[trigger] w.cq_ok(k) by {
            assert(v.cq_ok(k));
        }
        assert forall|k: int| 0 <= k < MAX_NUM_QUEUES implies #[trigger] w.sq_ok(k) by {
            assert(v.sq_ok(k));
        }
    }
}

/// Taking away a submission queue keeps the invariants.
pub proof fn lemma_del_sq(v: CtrlView, j: int)
    requires
        v.shape(),
        0 <= j < MAX_NUM_QUEUES,
        v.sqs[j] is Some,
    ensures
        v.spec_delete_sq(j as u16).0.shape(),
        v.queues_ok() ==> v.spec_delete_sq(j as u16).0.queues_ok(),
{
    let s = v.sqs[j]->0;
    let i = s.cq_id as int;
    assert(v.sq_linked(j));
    assert(v.cq_linked(i));
    let q0 = v.cqs[i]->0;
    lemma_without_id(q0.sqs, s.id);
    let w = v.spec_delete_sq(j as u16).0;
    let q = w.cqs[i]->0;
    assert forall|k: int| 0 <= k < MAX_NUM_QUEUES implies #[trigger] w.cq_linked(k) by {
        assert(v.cq_linked(k));
        if w.cqs[k] is Some {
            let qq = w.cqs[k]->0;
            let qv = v.cqs[k]->0;
            assert forall|x: QueueId| #[trigger] qq.sqs.contains(x) <==> (w.sq(x) matches Some(y)
                && y.cq_id == k) by {
                assert(qv.sqs.contains(x) <==> (v.sq(x) matches Some(y) && y.cq_id == k));
                if k == i {
                    assert(without_id(q0.sqs, s.id).contains(x) <==> q0.sqs.contains(x) && x
                        != s.id);
                }
            }
        }
    }
    assert forall|k: int| 0 <= k < MAX_NUM_QUEUES implies #[trigger] w.sq_linked(k) by {
        assert(v.sq_linked(k));
    }
    if v.queues_ok() {
        assert forall|k: int| 0 <= k < MAX_NUM_QUEUES implies #[trigger] w.cq_ok(k) by {
            assert(v.cq_ok(k));
        }
        assert forall|k: int| 0 <= k < MAX_NUM_QUEUES implies #[trigger] w.sq_ok(k) by {
            assert(v.sq_ok(k));
        }
    }
}

/// The invariants hold after a reset.
pub proof fn lemma_reset_wf(v: CtrlView)
    requires
        v.shape(),
    ensures
        v.spec_reset().wf(),
{
    let w = v.spec_reset();
    assert forall|k: int| 0 <= k < MAX_NUM_QUEUES implies #[trigger] w.cq_linked(k)
        && #[trigger] w.sq_linked(k) && #[trigger] w.cq_ok(k) && #[trigger] w.sq_ok(k) by {
    }
}

/// The completion queue of every submission queue exists, so that it cannot be
/// deleted before them.
pub proof fn law_cq_outlives_its_sqs(v: CtrlView, sqid: QueueId)
    requires
        v.shape(),
        v.sq(sqid) is Some,
    ensures
        ({
            let cqid = v.sq(sqid)->0.cq_id;
            &&& v.cq(cqid) is Some
            &&& v.spec_delete_cq(cqid).0 == v
            &&& v.spec_delete_cq(cqid).1 matches Some(
                NvmeError::AssociatedSubQueuesStillExist(_, _),
            )
        }),
{
    let s = v.sqs[sqid as int]->0;
    assert(v.sq_linked(sqid as int));
    assert(v.cq_linked(s.cq_id as int));
    let q = v.cqs[s.cq_id as int]->0;
    assert(q.sqs.contains(sqid) <==> (v.sq(sqid) matches Some(y) && y.cq_id == s.cq_id));
}

/// Deleting a submission queue right after its creation leaves the completion
/// queue serving the same queues as before.
pub proof fn law_delete_undoes_create_sq(
    v: CtrlView,
    params: CreateParams,
    cqid: QueueId,
    acc: MemAccessView,
)
    requires
        v.shape(),
        v.sq_refusal(params, false, cqid) is None,
    ensures
        ({
            let w = v.spec_create_sq(params, false, cqid, acc).0.spec_delete_sq(params.id).0;
            &&& w.sqs == v.sqs
            &&& w.cqs == v.cqs
        }),
{
    let q = v.cqs[cqid as int]->0;
    let made = v.spec_create_sq(params, false, cqid, acc).0;
    assert(v.cq_linked(cqid as int));
    assert(q.sqs.contains(params.id) <==> (v.sq(params.id) matches Some(y) && y.cq_id == cqid));
    lemma_without_fresh(q.sqs, params.id);
    assert(q.sqs.push(params.id).drop_last() =~= q.sqs);
    let w = made.spec_delete_sq(params.id).0;
    assert(w.sqs =~= v.sqs);
    assert(w.cqs[cqid as int] == v.cqs[cqid as int]);
    assert(w.cqs =~= v.cqs);
}

/// Removing what is not there changes nothing.
proof fn lemma_without_fresh(s: Seq<QueueId>, id: QueueId)
    requires
        !s.contains(id),
    ensures
        without_id(s, id) == s,
    decreases s.len(),
{
    if s.len() > 0 {
        assert(s[s.len() - 1] != id);
        assert forall|k: int| 0 <= k < s.drop_last().len() implies s.drop_last()[k] != id by {
            assert(s[k] != id);
        }
        lemma_without_fresh(s.drop_last(), id);
        assert(s.drop_last().push(s.last()) =~= s);
    }
}

impl NvmeCtrl {
    /// The invariant of controllers.
    pub open spec fn wf(&self) -> bool {
        self@.wf()
    }

    /// Creates a completion queue. Its identifier must not be in use. Only the
    /// admin queue has identifier 0.
    pub fn create_cq(
        &mut self,
        params: CreateParams,
        is_admin: bool,
        iv: u16,
        acc: &mut MemAccessor,
    ) -> (r: Result<(), NvmeError>)
        requires
            old(self)@.shape(),
            is_admin ==> params.id == ADMIN_QUEUE_ID,
        ensures
            ({
                let (v, a, e) = old(self)@.spec_create_cq(params, is_admin, iv, old(acc)@);
                &&& final(self)@ == v
                &&& final(acc)@ == a
                &&& match e {
                    Some(e) => r == Err::<(), NvmeError>(e),
                    None => r is Ok,
                }
            }),
            final(self)@.shape(),
            old(self)@.queues_ok() && iv < NVME_MSIX_COUNT ==> final(self)@.queues_ok(),
    {
        let cqid: QueueId = params.id;
        if cqid as usize >= MAX_NUM_QUEUES {
            return Err(NvmeError::InvalidCompQueue(cqid));
        }
        if !is_admin && cqid == 0 {
            // The identifier of the admin queue is not for the guest to use.
            return Err(NvmeError::InvalidCompQueue(cqid));
        }
        if self.cqs[cqid as usize].is_some() {
            return Err(NvmeError::CompQueueAlreadyExists(cqid));
        }
        if !self.msix_attached {
            return Err(NvmeError::MsixHdlUnavailable);
        }
        let ghost v0 = self@;
        match CompQueue::new(params, iv) {
            Err(e) => Err(NvmeError::QueueCreateErr(e)),
            Ok(q) => {
                let mut cq: CompQueue = q;
                cq.serial = self.next_serial;
                cq.set_db_buf(self.doorbell_buf, false, acc);
                let ghost qv = cq@;
                self.next_serial = self.next_serial.wrapping_add(1);
                self.cqs[cqid as usize] = Some(cq);
                proof {
                    lemma_add_cq(v0, cqid as int, qv);
                    let w = v0.with_cq(cqid as int, Some(qv));
                    assert(self@.cqs =~= w.cqs);
                    lemma_serial(w, self.next_serial);
                }
                Ok(())
            },
        }
    }

    /// Creates a submission queue, which the existing completion queue `cqid` is
    /// to serve. Its identifier must not be in use. Only the admin queues have
    /// identifier 0, and they belong to each other.
    pub fn create_sq(
        &mut self,
        params: CreateParams,
        is_admin: bool,
        cqid: QueueId,
        acc: &mut MemAccessor,
    ) -> (r: Result<(), NvmeError>)
        requires
            old(self)@.shape(),
            is_admin ==> params.id == ADMIN_QUEUE_ID && cqid == ADMIN_QUEUE_ID,
        ensures
            ({
                let (v, a, e) = old(self)@.spec_create_sq(params, is_admin, cqid, old(acc)@);
                &&& final(self)@ == v
                &&& final(acc)@ == a
                &&& match e {
                    Some(e) => r == Err::<(), NvmeError>(e),
                    None => r is Ok,
                }
            }),
            final(self)@.shape(),
            old(self)@.queues_ok() ==> final(self)@.queues_ok(),
    {
        let sqid: QueueId = params.id;
        if sqid as usize >= MAX_NUM_QUEUES {
            return Err(NvmeError::InvalidSubQueue(sqid));
        }
        if !is_admin {
            if sqid == 0 {
                return Err(NvmeError::InvalidSubQueue(cqid));
            }
            if cqid == 0 {
                return Err(NvmeError::InvalidCompQueue(cqid));
            }
        }
        if self.sqs[sqid as usize].is_some() {
            return Err(NvmeError::SubQueueAlreadyExists(sqid));
        }
        if cqid as usize >= MAX_NUM_QUEUES {
            return Err(NvmeError::InvalidCompQueue(cqid));
        }
        let ghost v0 = self@;
        proof {
            assert(v0.cq_linked(cqid as int));
            if v0.cqs[cqid as int] is Some {
                let q0 = v0.cqs[cqid as int]->0;
                assert(q0.sqs.contains(sqid) <==> (v0.sq(sqid) matches Some(y) && y.cq_id
                    == cqid));
            }
        }
        let made: Result<SubQueue, QueueCreateErr> = match &mut self.cqs[cqid as usize] {
            None => {
                return Err(NvmeError::InvalidCompQueue(cqid));
            },
            Some(cq) => SubQueue::new(params, cq),
        };
        match made {
            Err(e) => {
                assert(self@.cqs =~= v0.cqs);
                Err(NvmeError::QueueCreateErr(e))
            },
            Ok(s) => {
                let mut sq: SubQueue = s;
                sq.serial = self.next_serial;
                sq.set_db_buf(self.doorbell_buf, false, acc);
                self.next_serial = self.next_serial.wrapping_add(1);
                self.sqs[sqid as usize] = Some(sq);
                proof {
                    let q0 = v0.cqs[cqid as int]->0;
                    let q = CompQueueView { sqs: q0.sqs.push(sqid), ..q0 };
                    lemma_add_sq(v0, sqid as int, sq, q);
                    let w = v0.with_cq(cqid as int, Some(q)).with_sq(sqid as int, Some(sq));
                    assert(self@.cqs =~= w.cqs);
                    assert(self@.sqs =~= w.sqs);
                    lemma_serial(w, self.next_serial);
                }
                Ok(())
            },
        }
    }

    /// Creates the admin queues.
    pub fn create_admin_queues(&mut self, acc: &mut MemAccessor) -> (r: Result<(), NvmeError>)
        requires
            old(self)@.shape(),
        ensures
            ({
                let (v, a, e) = old(self)@.spec_create_admin_queues(old(acc)@);
                &&& final(self)@ == v
                &&& final(acc)@ == a
                &&& match e {
                    Some(e) => r == Err::<(), NvmeError>(e),
                    None => r is Ok,
                }
            }),
            final(self)@.shape(),
            old(self)@.queues_ok() ==> final(self)@.queues_ok(),
    {
        let device_id: DeviceId = self.device_id;
        let cq_params: CreateParams = CreateParams {
            id: ADMIN_QUEUE_ID,
            device_id,
            base: GuestAddr(self.ctrl.admin_cq_base),
            size: self.ctrl.aqa.acqs() as u32 + 1,
        };
        let sq_params: CreateParams = CreateParams {
            id: ADMIN_QUEUE_ID,
            device_id,
            base: GuestAddr(self.ctrl.admin_sq_base),
            size: self.ctrl.aqa.asqs() as u32 + 1,
        };
        // The admin completion queue uses interrupt vector 0.
        match self.create_cq(cq_params, true, 0, acc) {
            Err(e) => Err(e),
            Ok(()) => self.create_sq(sq_params, true, ADMIN_QUEUE_ID, acc),
        }
    }

    /// Deletes a completion queue that serves no submission queue.
    pub fn delete_cq(&mut self, cqid: QueueId) -> (r: Result<(), NvmeError>)
        requires
            old(self)@.shape(),
        ensures
            ({
                let (v, e) = old(self)@.spec_delete_cq(cqid);
                &&& final(self)@ == v
                &&& match e {
                    Some(e) => r == Err::<(), NvmeError>(e),
                    None => r is Ok,
                }
            }),
            final(self)@.shape(),
            old(self)@.queues_ok() ==> final(self)@.queues_ok(),
    {
        if cqid as usize >= MAX_NUM_QUEUES {
            return Err(NvmeError::InvalidCompQueue(cqid));
        }
        let ghost v0 = self@;
        let sqs: usize = match &self.cqs[cqid as usize] {
            None => {
                return Err(NvmeError::InvalidCompQueue(cqid));
            },
            Some(cq) => cq.associated_sqs(),
        };
        if sqs > 0 {
            return Err(NvmeError::AssociatedSubQueuesStillExist(cqid, sqs));
        }
        self.cqs[cqid as usize] = None;
        proof {
            lemma_del_cq(v0, cqid as int);
            assert(self@.cqs =~= v0.with_cq(cqid as int, None).cqs);
        }
        Ok(())
    }

    /// Deletes a submission queue. Commands of it may still be in progress; no
    /// new ones are taken.
    pub fn delete_sq(&mut self, sqid: QueueId) -> (r: Result<(), NvmeError>)
        requires
            old(self)@.shape(),
        ensures
            ({
                let (v, e) = old(self)@.spec_delete_sq(sqid);
                &&& final(self)@ == v
                &&& match e {
                    Some(e) => r == Err::<(), NvmeError>(e),
                    None => r is Ok,
                }
            }),
            final(self)@.shape(),
            old(self)@.queues_ok() ==> final(self)@.queues_ok(),
    {
        if sqid as usize >= MAX_NUM_QUEUES {
            return Err(NvmeError::InvalidSubQueue(sqid));
        }
        let ghost v0 = self@;
        match self.sqs[sqid as usize] {
            None => Err(NvmeError::InvalidSubQueue(sqid)),
            Some(sq) => {
                proof {
                    assert(v0.sq_linked(sqid as int));
                    assert(v0.cq_linked(sq.cq_id as int));
                    lemma_del_sq(v0, sqid as int);
                }
                if let Some(cq) = &mut self.cqs[sq.cq_id as usize] {
                    sq.unlink(cq);
                }
                self.sqs[sqid as usize] = None;
                assert(self@.cqs =~= v0.spec_delete_sq(sqid).0.cqs);
                assert(self@.sqs =~= v0.spec_delete_sq(sqid).0.sqs);
                Ok(())
            },
        }
    }

    /// The limits on the data transfers of submission queues, from the logical
    /// block format and the maximum data transfer size.
    pub fn transfer_params(&self) -> (r: TransferParams)
        requires
            self@.shape(),
        ensures
            r == self@.spec_transfer_params(),
    {
        let fmt: LbaFormat = self.ns_ident.lbaf[(self.ns_ident.flbas % 16) as usize];
        let lba_data_size: u64 = 1u64 << fmt.lbads;
        let max_data_tranfser_size: u64 = if self.ctrl_ident.mdts == 0 {
            u64::MAX
        } else {
            self.ctrl.cap.mpsmin_sz() << self.ctrl_ident.mdts
        };
        TransferParams { lba_data_size, max_data_tranfser_size }
    }

    /// Sets up an I/O submission queue that was just created.
    pub fn io_sq_post_create(&mut self, sqid: QueueId, events: &mut Vec<NvmeEvent>)
        requires
            old(self)@.shape(),
            sqid != ADMIN_QUEUE_ID,
            old(self)@.sq(sqid) is Some,
        ensures
            final(self)@ == old(self)@.sq_associated(sqid),
            final(events)@ == old(events)@.push(
                NvmeEvent::Block(QueueAction::Associate((sqid - 1) as u16)),
            ),
            final(self)@.shape(),
            old(self)@.queues_ok() ==> final(self)@.queues_ok(),
    {
        let ghost v0 = self@;
        let params: TransferParams = self.transfer_params();
        proof {
            let s0 = v0.sqs[sqid as int]->0;
            lemma_set_sq(v0, sqid as int, SubQueue { params, ..s0 });
            assert(v0.sq_ok(sqid as int) || !v0.queues_ok());
        }
        if let Some(sq) = &mut self.sqs[sqid as usize] {
            sq.update_params(params);
        }
        assert(self@.sqs =~= v0.sq_associated(sqid).sqs);
        assert(self@.cqs =~= v0.cqs);
        events.push(NvmeEvent::Block(QueueAction::Associate(sqid_to_block_qid(sqid))));
    }

    /// Changes the configuration, as far as what is asked for is supported. If
    /// not all of it is, that is a fatal error.
    pub fn configure(&mut self, cc: Configuration) -> (r: Result<(), NvmeError>)
        ensures
            ({
                let (v, e) = old(self)@.spec_configure(cc);
                &&& final(self)@ == v
                &&& match e {
                    Some(e) => r == Err::<(), NvmeError>(e),
                    None => r is Ok,
                }
            }),
    {
        let res: Result<(), NvmeError> = self.configure_inner(cc);
        match res {
            Err(e) => {
                self.ctrl.csts.set_cfs(true);
                Err(e)
            },
            Ok(()) => Ok(()),
        }
    }

    fn configure_inner(&mut self, cc: Configuration) -> (r: Result<(), NvmeError>)
        ensures
            ({
                let (c, e) = old(self)@.configured(cc);
                &&& final(self)@ == old(self)@.with_cc(c)
                &&& match e {
                    Some(e) => r == Err::<(), NvmeError>(e),
                    None => r is Ok,
                }
            }),
    {
        if cc.iocqes() > 0 {
            if cc.iocqes() != self.ctrl_ident.cqes.required() {
                return Err(NvmeError::UnsupportedCompQueueEntrySize);
            }
            self.ctrl.cc.set_iocqes(cc.iocqes());
        }
        if cc.iosqes() > 0 {
            if cc.iosqes() != self.ctrl_ident.sqes.required() {
                return Err(NvmeError::UnsupportedSubQueueEntrySize);
            }
            self.ctrl.cc.set_iosqes(cc.iosqes());
        }
        // The rest can only be changed while the controller is disabled.
        if !self.ctrl.cc.enabled() {
            if cc.ams() != ArbitrationMechanism::RoundRobin {
                return Err(NvmeError::UnsupportedArbitrationMechanism);
            }
            if cc.mps() < self.ctrl.cap.mpsmin() || cc.mps() > self.ctrl.cap.mpsmax() {
                return Err(NvmeError::UnsupportedMemPageSize);
            }
            if cc.css() != IOCommandSet::Nvm {
                return Err(NvmeError::UnsupportedCommandSet);
            }
            self.ctrl.cc.set_ams(cc.ams());
            self.ctrl.cc.set_mps(cc.mps());
            self.ctrl.cc.set_css(cc.css());
        }
        Ok(())
    }

    /// Resets the controller: deletes all queues, and clears the configuration
    /// and the status. The registers of the admin queues keep their values.
    pub fn reset(&mut self, events: &mut Vec<NvmeEvent>)
        requires
            old(self)@.shape(),
        ensures
            final(self)@ == old(self)@.spec_reset(),
            final(events)@ == old(events)@ + dissociate_events(old(self)@.sqs, 16),
            final(self)@.wf(),
    {
        let ghost v0 = self@;
        let ghost ev0 = events@;
        let mut i: usize = 0;
        assert(events@ + Seq::<NvmeEvent>::empty() =~= events@);
        while i < MAX_NUM_QUEUES
            invariant
                i <= MAX_NUM_QUEUES,
                self@ == v0,
                v0.shape(),
                events@ == ev0 + dissociate_events(v0.sqs, i as int),
            decreases MAX_NUM_QUEUES - i,
        {
            if self.sqs[i].is_some() && i != 0 {
                let sqid: QueueId = i as u16;
                events.push(NvmeEvent::Block(QueueAction::Dissociate(sqid_to_block_qid(sqid))));
            }
            i += 1;
            assert(events@ =~= ev0 + dissociate_events(v0.sqs, i as int));
        }
        self.cqs = empty_cqs();
        self.sqs = empty_sqs();
        self.ctrl.cc = Configuration(0);
        self.ctrl.csts = Status(0);
        self.doorbell_buf = None;
        proof {
            assert(self@.cqs =~= v0.spec_reset().cqs);
            assert(self@.sqs =~= v0.spec_reset().sqs);
            lemma_reset_wf(v0);
        }
    }

    /// The memory page size in bytes.
    pub fn get_mps(&self) -> (r: u64)
        ensures
            r == page_size_of(self@.ctrl.cc.spec_mps()),
            0x1000 <= r,
    {
        page_bytes(self.ctrl.cc.mps())
    }
}

/// The serial number does not matter to the invariants.
proof fn lemma_serial(v: CtrlView, next_serial: u64)
    requires
        v.shape(),
    ensures
        (CtrlView { next_serial, ..v }).shape(),
        v.queues_ok() ==> (CtrlView { next_serial, ..v }).queues_ok(),
{
    lemma_regs(v, CtrlView { next_serial, ..v });
}

/// The registers, and what does not belong to queues, do not matter to the
/// invariants.
pub proof fn lemma_regs(v: CtrlView, w: CtrlView)
    requires
        v.shape(),
        w.cqs == v.cqs,
        w.sqs == v.sqs,
        w.ctrl_ident == v.ctrl_ident,
        w.ns_ident == v.ns_ident,
    ensures
        w.shape(),
        v.queues_ok() ==> w.queues_ok(),
{
    assert(forall|s: QueueId| w.sq(s) == v.sq(s));
    assert forall|k: int| 0 <= k < MAX_NUM_QUEUES implies #[trigger] w.cq_linked(k) by {
        assert(v.cq_linked(k));
    }
    assert forall|k: int| 0 <= k < MAX_NUM_QUEUES implies #[trigger] w.sq_linked(k) by {
        assert(v.sq_linked(k));
    }
    if v.queues_ok() {
        assert forall|k: int| 0 <= k < MAX_NUM_QUEUES implies #[trigger] w.cq_ok(k) by {
            assert(v.cq_ok(k));
        }
        assert forall|k: int| 0 <= k < MAX_NUM_QUEUES implies #[trigger] w.sq_ok(k) by {
            assert(v.sq_ok(k));
        }
    }
}

/// Slots without completion queues.
pub fn empty_cqs() -> (r: Vec<Option<CompQueue>>)
    ensures
        cq_views(r@) == Seq::new(MAX_NUM_QUEUES as nat, |i: int| None::<CompQueueView>),
{
    let mut v: Vec<Option<CompQueue>> = Vec::new();
    let mut i: usize = 0;
    while i < MAX_NUM_QUEUES
        invariant
            i <= MAX_NUM_QUEUES,
            v@.len() == i,
            forall|k: int| 0 <= k < i ==> #[trigger] v@[k] is None,
        decreases MAX_NUM_QUEUES - i,
    {
        v.push(None);
        i += 1;
    }
    assert(cq_views(v@) =~= Seq::new(MAX_NUM_QUEUES as nat, |i: int| None::<CompQueueView>));
    v
}

/// Slots without submission queues.
pub fn empty_sqs() -> (r: Vec<Option<SubQueue>>)
    ensures
        r@ == Seq::new(MAX_NUM_QUEUES as nat, |i: int| None::<SubQueue>),
{
    let mut v: Vec<Option<SubQueue>> = Vec::new();
    let mut i: usize = 0;
    while i < MAX_NUM_QUEUES
        invariant
            i <= MAX_NUM_QUEUES,
            v@.len() == i,
            forall|k: int| 0 <= k < i ==> #[trigger] v@[k] is None,
        decreases MAX_NUM_QUEUES - i,
    {
        v.push(None);
        i += 1;
    }
    assert(v@ =~= Seq::new(MAX_NUM_QUEUES as nat, |i: int| None::<SubQueue>));
    v
}

} // verus!
