//! Moving an NVMe controller to another host, and telling it about its disk.
use crate::block::{DeviceInfo, QueueAction};
use crate::common::{GuestAddr, MemAccessView, MemAccessor};
use crate::hw::nvme::bits::{
    AdminQueueAttrs, Capabilities, Configuration, IdentifyNamespace, LbaFormat, Status,
};
use crate::hw::nvme::ctrl::{
    dissociate_events, lemma_regs, lemma_reset_wf, lemma_set_cq, lemma_set_sq, CtrlState, CtrlView,
    NvmeCtrl, NvmeCtrlV1, NvmeEvent, MAX_NUM_QUEUES, NVME_MSIX_COUNT,
};
use crate::hw::nvme::queue::{
    CompQueueView, CreateParams, DoorbellBuffer, NvmeCompQueueV1, NvmeSubQueueV1, QueueId, SubQueue,
    TransferParams, ADMIN_QUEUE_ID,
};
use crate::hw::nvme::NvmeError;
use crate::migrate::MigrateStateError;
use vstd::prelude::*;
use vstd::std_specs::bits::u32_trailing_zeros;

verus! {

/// What is saved of the first `n` completion queues.
pub open spec fn exported_cqs(cqs: Seq<Option<CompQueueView>>, n: int) -> Seq<NvmeCompQueueV1>
    decreases n,
{
    if n <= 0 {
        Seq::empty()
    } else {
        match cqs[n - 1] {
            Some(q) => exported_cqs(cqs, n - 1).push(q.spec_export()),
            None => exported_cqs(cqs, n - 1),
        }
    }
}

/// What is saved of the first `n` submission queues.
pub open spec fn exported_sqs(sqs: Seq<Option<SubQueue>>, n: int) -> Seq<NvmeSubQueueV1>
    decreases n,
{
    if n <= 0 {
        Seq::empty()
    } else {
        match sqs[n - 1] {
            Some(q) => exported_sqs(sqs, n - 1).push(q.spec_export()),
            None => exported_sqs(sqs, n - 1),
        }
    }
}

/// Memory after the doorbell buffers of the first `n` completion queues were
/// set.
pub open spec fn cqs_synced(
    cqs: Seq<Option<CompQueueView>>,
    db: Option<DoorbellBuffer>,
    is_import: bool,
    acc: MemAccessView,
    n: int,
) -> MemAccessView
    decreases n,
{
    if n <= 0 {
        acc
    } else {
        let before = cqs_synced(cqs, db, is_import, acc, n - 1);
        match cqs[n - 1] {
            Some(q) => q.db_buf_synced(db, is_import, before),
            None => before,
        }
    }
}

/// Memory after the doorbell buffers of the first `n` submission queues were
/// set.
pub open spec fn sqs_synced(
    sqs: Seq<Option<SubQueue>>,
    db: Option<DoorbellBuffer>,
    is_import: bool,
    acc: MemAccessView,
    n: int,
) -> MemAccessView
    decreases n,
{
    if n <= 0 {
        acc
    } else {
        let before = sqs_synced(sqs, db, is_import, acc, n - 1);
        match sqs[n - 1] {
            Some(q) => q.db_buf_synced(db, is_import, before),
            None => before,
        }
    }
}

impl CtrlView {
    /// The controller with the given doorbell buffers.
    pub open spec fn with_db_bufs(self, db: Option<DoorbellBuffer>) -> CtrlView {
        CtrlView {
            doorbell_buf: db,
            cqs: Seq::new(
                self.cqs.len(),
                |i: int|
                    match self.cqs[i] {
                        Some(q) => Some(q.with_db_buf(db)),
                        None => None,
                    },
            ),
            sqs: Seq::new(
                self.sqs.len(),
                |i: int|
                    match self.sqs[i] {
                        Some(q) => Some(q.with_db_buf(db)),
                        None => None,
                    },
            ),
            ..self
        }
    }

    /// Memory after the doorbell buffers of the controller were set.
    pub open spec fn db_bufs_synced(
        self,
        db: Option<DoorbellBuffer>,
        is_import: bool,
        acc: MemAccessView,
    ) -> MemAccessView {
        sqs_synced(self.sqs, db, is_import, cqs_synced(self.cqs, db, is_import, acc, 16), 16)
    }

    /// The controller with other limits on data transfers.
    pub open spec fn with_params(self, params: TransferParams) -> CtrlView {
        CtrlView {
            sqs: Seq::new(
                self.sqs.len(),
                |i: int|
                    match self.sqs[i] {
                        Some(q) => Some(SubQueue { params, ..q }),
                        None => None,
                    },
            ),
            ..self
        }
    }

    /// The doorbell buffers as they are saved: two zeros if there are none.
    pub open spec fn saved_db(self) -> (u64, u64) {
        match self.doorbell_buf {
            Some(b) => (b.shadow.0, b.eventidx.0),
            None => (0, 0),
        }
    }

    /// Whether `s` is what is saved of the controller.
    pub open spec fn saved_as(self, s: NvmeCtrlV1) -> bool {
        &&& s.cap == self.ctrl.cap.0
        &&& s.cc == self.ctrl.cc.0
        &&& s.csts == self.ctrl.csts.0
        &&& s.aqa == self.ctrl.aqa.0
        &&& s.acq_base == self.ctrl.admin_cq_base
        &&& s.asq_base == self.ctrl.admin_sq_base
        &&& (s.dbbuf_shadow, s.dbbuf_evtidx) == self.saved_db()
        &&& s.cqs@ == exported_cqs(self.cqs, 16)
        &&& s.sqs@ == exported_sqs(self.sqs, 16)
    }

    /// The controller, after a reset, with the saved registers.
    pub open spec fn with_saved_regs(self, s: NvmeCtrlV1) -> CtrlView {
        CtrlView {
            ctrl: CtrlState {
                cap: Capabilities(s.cap),
                cc: Configuration(s.cc),
                csts: Status(s.csts),
                aqa: AdminQueueAttrs(s.aqa),
                admin_cq_base: s.acq_base,
                admin_sq_base: s.asq_base,
            },
            ..self.spec_reset()
        }
    }

    /// What a completion queue that was saved is created from.
    pub open spec fn saved_cq_params(self, q: NvmeCompQueueV1) -> CreateParams {
        CreateParams { id: q.id, device_id: self.device_id, base: GuestAddr(q.base), size: q.size }
    }

    /// What a submission queue that was saved is created from.
    pub open spec fn saved_sq_params(self, q: NvmeSubQueueV1) -> CreateParams {
        CreateParams { id: q.id, device_id: self.device_id, base: GuestAddr(q.base), size: q.size }
    }

    /// The controller after one saved completion queue was taken over, or why
    /// it could not be.
    pub open spec fn cq_imported(self, q: NvmeCompQueueV1) -> (CtrlView, Option<NvmeError>) {
        let blank = MemAccessView { accessible: false, mem: arbitrary() };
        let (v, a, e) = self.spec_create_cq(self.saved_cq_params(q), q.id == 0, q.iv, blank);
        if e is Some {
            (v, e)
        } else {
            (v.with_cq(q.id as int, Some(v.cqs[q.id as int]->0.imported(q))), None)
        }
    }

    /// The controller after one saved submission queue was taken over, or why
    /// it could not be. An admin queue can only have been saved with the admin
    /// completion queue.
    pub open spec fn sq_imported(self, q: NvmeSubQueueV1) -> (CtrlView, Option<NvmeError>) {
        let blank = MemAccessView { accessible: false, mem: arbitrary() };
        let (v, a, e) = self.spec_create_sq(self.saved_sq_params(q), q.id == 0, q.cq_id, blank);
        if q.id == 0 && q.cq_id != 0 {
            (self, Some(NvmeError::InvalidCompQueue(q.cq_id)))
        } else if e is Some {
            (v, e)
        } else {
            let w = if q.id == 0 {
                v
            } else {
                v.sq_associated(q.id)
            };
            (w.with_sq(q.id as int, Some(w.sqs[q.id as int]->0.imported(q))), None)
        }
    }

    /// The controller after the first `n` saved completion queues were taken
    /// over, up to the first that could not be.
    pub open spec fn cqs_imported(self, s: Seq<NvmeCompQueueV1>, n: int) -> (
        CtrlView,
        Option<NvmeError>,
    )
        decreases n,
    {
        if n <= 0 {
            (self, None)
        } else {
            let (v, e) = self.cqs_imported(s, n - 1);
            if e is Some {
                (v, e)
            } else {
                v.cq_imported(s[n - 1])
            }
        }
    }

    /// The controller after the first `n` saved submission queues were taken
    /// over, up to the first that could not be.
    pub open spec fn sqs_imported(self, s: Seq<NvmeSubQueueV1>, n: int) -> (
        CtrlView,
        Option<NvmeError>,
    )
        decreases n,
    {
        if n <= 0 {
            (self, None)
        } else {
            let (v, e) = self.sqs_imported(s, n - 1);
            if e is Some {
                (v, e)
            } else {
                v.sq_imported(s[n - 1])
            }
        }
    }

    /// The controller after a saved state was taken over, or why it could not
    /// be.
    pub open spec fn spec_import(self, s: NvmeCtrlV1) -> (CtrlView, Option<MigrateStateError>) {
        let (v1, e1) = self.with_saved_regs(s).cqs_imported(s.cqs@, s.cqs@.len() as int);
        let (v2, e2) = v1.sqs_imported(s.sqs@, s.sqs@.len() as int);
        if e1 is Some {
            (v1, Some(MigrateStateError::NvmeCompQueue(e1->0)))
        } else if e2 is Some {
            (v2, Some(MigrateStateError::NvmeSubQueue(e2->0)))
        } else if s.dbbuf_shadow != 0 && s.dbbuf_evtidx != 0 {
            (
                v2.with_db_bufs(
                    Some(
                        DoorbellBuffer {
                            shadow: GuestAddr(s.dbbuf_shadow),
                            eventidx: GuestAddr(s.dbbuf_evtidx),
                        },
                    ),
                ),
                None,
            )
        } else {
            (v2, None)
        }
    }
}

/// What the block layer is told about the first `n` saved submission queues
/// when they are taken over.
pub open spec fn associate_events(v: CtrlView, s: Seq<NvmeSubQueueV1>, n: int) -> Seq<NvmeEvent>
    decreases n,
{
    if n <= 0 {
        Seq::empty()
    } else {
        let before = associate_events(v, s, n - 1);
        if v.sqs_imported(s, n).1 is None && s[n - 1].id != 0 {
            before.push(NvmeEvent::Block(QueueAction::Associate((s[n - 1].id - 1) as u16)))
        } else {
            before
        }
    }
}

/// What the block layer is told when a saved state is taken over: the old
/// queues go away, and the saved ones come, up to the first that cannot be
/// created.
pub open spec fn import_events(v: CtrlView, s: NvmeCtrlV1) -> Seq<NvmeEvent> {
    let (v1, e) = v.with_saved_regs(s).cqs_imported(s.cqs@, s.cqs@.len() as int);
    dissociate_events(v.sqs, 16) + if e is Some {
        Seq::empty()
    } else {
        associate_events(v1, s.sqs@, s.sqs@.len() as int)
    }
}

/// Whether saved queues are in states that queues can be in.
pub open spec fn saved_consistent(s: NvmeCtrlV1) -> bool {
    &&& forall|i: int|
        0 <= i < s.cqs@.len() ==> (#[trigger] s.cqs@[i]).consistent() && s.cqs@[i].iv
            < NVME_MSIX_COUNT
    &&& forall|i: int| 0 <= i < s.sqs@.len() ==> (#[trigger] s.sqs@[i]).consistent()
}

impl NvmeCtrlV1 {
    /// Whether the saved queues are in states that queues can be in.
    pub fn is_consistent(&self) -> (r: bool)
        ensures
            r == saved_consistent(*self),
    {
        let mut i: usize = 0;
        while i < self.cqs.len()
            invariant
                i <= self.cqs@.len(),
                forall|k: int|
                    0 <= k < i ==> (#[trigger] self.cqs@[k]).consistent() && self.cqs@[k].iv
                        < NVME_MSIX_COUNT,
            decreases self.cqs@.len() - i,
        {
            let q: NvmeCompQueueV1 = self.cqs[i];
            if !q.is_consistent() || q.iv >= NVME_MSIX_COUNT {
                assert(!(self.cqs@[i as int].consistent() && self.cqs@[i as int].iv
                    < NVME_MSIX_COUNT));
                return false;
            }
            i += 1;
        }
        let mut j: usize = 0;
        while j < self.sqs.len()
            invariant
                j <= self.sqs@.len(),
                forall|k: int|
                    0 <= k < self.cqs@.len() ==> (#[trigger] self.cqs@[k]).consistent()
                        && self.cqs@[k].iv < NVME_MSIX_COUNT,
                forall|k: int| 0 <= k < j ==> (#[trigger] self.sqs@[k]).consistent(),
            decreases self.sqs@.len() - j,
        {
            let q: NvmeSubQueueV1 = self.sqs[j];
            if !q.is_consistent() {
                assert(!self.sqs@[j as int].consistent());
                return false;
            }
            j += 1;
        }
        true
    }
}

/// Setting doorbell buffers keeps the invariants.
pub proof fn lemma_db_bufs(v: CtrlView, db: Option<DoorbellBuffer>)
    requires
        v.shape(),
    ensures
        v.with_db_bufs(db).shape(),
        v.queues_ok() ==> v.with_db_bufs(db).queues_ok(),
{
    let w = v.with_db_bufs(db);
    assert forall|k: int| 0 <= k < MAX_NUM_QUEUES implies #[trigger] w.cq_linked(k) by {
        assert(v.cq_linked(k));
        if v.cqs[k] is Some {
            let q = v.cqs[k]->0;
            assert forall|x: QueueId| #[trigger] q.sqs.contains(x) <==> (w.sq(x) matches Some(y)
                && y.cq_id == k) by {
                assert(q.sqs.contains(x) <==> (v.sq(x) matches Some(y) && y.cq_id == k));
            }
        }
    }
    assert forall|k: int| 0 <= k < MAX_NUM_QUEUES implies #[trigger] w.sq_linked(k) by {
        assert(v.sq_linked(k));
    }
    if v.queues_ok() {
        assert forall|k: int| 0 <= k < MAX_NUM_QUEUES implies #[trigger] w.cq_ok(k) by {
            assert(v.cq_ok(k));
        }
        assert forall|k: int| 0 <= k < MAX_NUM_QUEUES implies #[trigger] w.sq_ok(k) by {
            assert(v.sq_ok(k));
        }
    }
}

/// Setting the limits on data transfers keeps the invariants.
pub proof fn lemma_params(v: CtrlView, params: TransferParams)
    requires
        v.shape(),
    ensures
        v.with_params(params).shape(),
        v.queues_ok() ==> v.with_params(params).queues_ok(),
{
    let w = v.with_params(params);
    assert forall|k: int| 0 <= k < MAX_NUM_QUEUES implies #[trigger] w.cq_linked(k) by {
        assert(v.cq_linked(k));
        if v.cqs[k] is Some {
            let q = v.cqs[k]->0;
            assert forall|x: QueueId| #[trigger] q.sqs.contains(x) <==> (w.sq(x) matches Some(y)
                && y.cq_id == k) by {
                assert(q.sqs.contains(x) <==> (v.sq(x) matches Some(y) && y.cq_id == k));
            }
        }
    }
    assert forall|k: int| 0 <= k < MAX_NUM_QUEUES implies #[trigger] w.sq_linked(k) by {
        assert(v.sq_linked(k));
    }
    if v.queues_ok() {
        assert forall|k: int| 0 <= k < MAX_NUM_QUEUES implies #[trigger] w.cq_ok(k) by {
            assert(v.cq_ok(k));
        }
        assert forall|k: int| 0 <= k < MAX_NUM_QUEUES implies #[trigger] w.sq_ok(k) by {
            assert(v.sq_ok(k));
        }
    }
}

/// Whether a controller has taken note of the size of the disk and of its
/// blocks: the namespace has that many blocks, its first format is that of the
/// disk, and all submission queues go by the new limits.
pub open spec fn disk_noted(v: CtrlView, w: CtrlView, info: DeviceInfo) -> bool {
    let ns0 = v.ns_ident;
    let ns = w.ns_ident;
    let lbads = u32_trailing_zeros(info.block_size) as u8;
    &&& ns == (IdentifyNamespace {
        nsze: info.total_size,
        ncap: info.total_size,
        nuse: info.total_size,
        lbaf: ns.lbaf,
        ..ns0
    })
    &&& ns.lbaf@ == ns0.lbaf@.update(0, LbaFormat { lbads, ..ns0.lbaf@[0] })
    &&& w == (CtrlView { ns_ident: ns, ..v }).with_params(w.spec_transfer_params())
}

impl NvmeCtrl {
    /// Sets the doorbell buffers of all queues. Unless the controller is being
    /// brought over from another host, the shadow doorbells are set.
    pub fn set_db_bufs(&mut self, db: Option<DoorbellBuffer>, is_import: bool, acc: &mut MemAccessor)
        requires
            old(self)@.shape(),
        ensures
            final(self)@ == old(self)@.with_db_bufs(db),
            final(acc)@ == old(self)@.db_bufs_synced(db, is_import, old(acc)@),
            final(self)@.shape(),
            old(self)@.queues_ok() ==> final(self)@.queues_ok(),
    {
        let ghost v0 = self@;
        let ghost a0 = acc@;
        let ghost goal = v0.with_db_bufs(db);
        self.doorbell_buf = db;
        let mut i: usize = 0;
        while i < MAX_NUM_QUEUES
            invariant
                i <= MAX_NUM_QUEUES,
                v0.shape(),
                goal == v0.with_db_bufs(db),
                self@ == (CtrlView { doorbell_buf: db, cqs: self@.cqs, ..v0 }),
                self.cqs@.len() == MAX_NUM_QUEUES,
                forall|k: int| 0 <= k < i ==> #[trigger] self@.cqs[k] == goal.cqs[k],
                forall|k: int|
                    i <= k < MAX_NUM_QUEUES ==> #[trigger] self@.cqs[k] == v0.cqs[k],
                acc@ == cqs_synced(v0.cqs, db, is_import, a0, i as int),
            decreases MAX_NUM_QUEUES - i,
        {
            let ghost before = self@;
            assert(before.cqs[i as int] == v0.cqs[i as int]);
            if let Some(cq) = &mut self.cqs[i] {
                cq.set_db_buf(db, is_import, acc);
            }
            assert(self@.cqs[i as int] == goal.cqs[i as int]);
            assert forall|k: int| 0 <= k < MAX_NUM_QUEUES && k != i implies #[trigger] self@.cqs[k]
                == before.cqs[k] by {}
            i += 1;
        }
        assert(self@.cqs =~= goal.cqs);
        let ghost a1 = acc@;
        let mut j: usize = 0;
        while j < MAX_NUM_QUEUES
            invariant
                j <= MAX_NUM_QUEUES,
                v0.shape(),
                goal == v0.with_db_bufs(db),
                self@ == (CtrlView { sqs: self@.sqs, ..goal }),
                self.sqs@.len() == MAX_NUM_QUEUES,
                forall|k: int| 0 <= k < j ==> #[trigger] self@.sqs[k] == goal.sqs[k],
                forall|k: int|
                    j <= k < MAX_NUM_QUEUES ==> #[trigger] self@.sqs[k] == v0.sqs[k],
                acc@ == sqs_synced(v0.sqs, db, is_import, a1, j as int),
            decreases MAX_NUM_QUEUES - j,
        {
            let ghost before = self@;
            if let Some(sq) = &mut self.sqs[j] {
                assert(before.sqs[j as int] == v0.sqs[j as int]);
                sq.set_db_buf(db, is_import, acc);
            }
            assert(self@.sqs[j as int] == goal.sqs[j as int]);
            assert(self@.cqs =~= before.cqs);
            j += 1;
        }
        assert(self@.sqs =~= goal.sqs);
        proof {
            lemma_db_bufs(v0, db);
        }
    }

    /// Takes note of the size of the disk and of its blocks.
    pub fn update_block_info(&mut self, info: DeviceInfo)
        requires
            old(self)@.shape(),
        ensures
            disk_noted(old(self)@, final(self)@, info),
            final(self)@.shape(),
            old(self)@.queues_ok() ==> final(self)@.queues_ok(),
    {
        let ghost v0 = self@;
        self.ns_ident.nsze = info.total_size;
        self.ns_ident.ncap = info.total_size;
        self.ns_ident.nuse = info.total_size;
        let mut fmt: LbaFormat = self.ns_ident.lbaf[0];
        fmt.lbads = info.block_size.trailing_zeros() as u8;
        self.ns_ident.lbaf[0] = fmt;
        proof {
            vstd::std_specs::bits::axiom_u32_trailing_zeros(info.block_size);
        }
        let ghost v1 = CtrlView { ns_ident: self.ns_ident, ..v0 };
        proof {
            lemma_ns(v0, self.ns_ident);
            assert(self@ =~= v1);
        }
        let params: TransferParams = self.transfer_params();
        let ghost goal = v1.with_params(params);
        let mut i: usize = 0;
        while i < MAX_NUM_QUEUES
            invariant
                i <= MAX_NUM_QUEUES,
                v1.shape(),
                goal == v1.with_params(params),
                self@ == (CtrlView { sqs: self@.sqs, ..v1 }),
                self.sqs@.len() == MAX_NUM_QUEUES,
                forall|k: int| 0 <= k < i ==> #[trigger] self@.sqs[k] == goal.sqs[k],
                forall|k: int|
                    i <= k < MAX_NUM_QUEUES ==> #[trigger] self@.sqs[k] == v1.sqs[k],
            decreases MAX_NUM_QUEUES - i,
        {
            let ghost before = self@;
            if let Some(sq) = &mut self.sqs[i] {
                assert(before.sqs[i as int] == v1.sqs[i as int]);
                sq.update_params(params);
            }
            assert(self@.sqs[i as int] == goal.sqs[i as int]);
            assert(self@.cqs =~= before.cqs);
            i += 1;
        }
        proof {
            assert(self@.sqs =~= goal.sqs);
            lemma_params(v1, params);
        }
    }

    /// The state to be moved to another host.
    pub fn export(&self) -> (r: NvmeCtrlV1)
        requires
            self@.shape(),
        ensures
            self@.saved_as(r),
    {
        let mut cqs: Vec<NvmeCompQueueV1> = Vec::new();
        let mut sqs: Vec<NvmeSubQueueV1> = Vec::new();
        let mut i: usize = 0;
        while i < MAX_NUM_QUEUES
            invariant
                i <= MAX_NUM_QUEUES,
                self@.shape(),
                cqs@ == exported_cqs(self@.cqs, i as int),
                sqs@ == exported_sqs(self@.sqs, i as int),
            decreases MAX_NUM_QUEUES - i,
        {
            assert(self@.cqs[i as int] == match self.cqs@[i as int] {
                Some(q) => Some(q@),
                None => None,
            });
            if let Some(cq) = &self.cqs[i] {
                cqs.push(cq.export());
            }
            if let Some(sq) = &self.sqs[i] {
                sqs.push(sq.export());
            }
            i += 1;
        }
        let (dbbuf_shadow, dbbuf_evtidx): (u64, u64) = match self.doorbell_buf {
            Some(b) => (b.shadow.0, b.eventidx.0),
            None => (0, 0),
        };
        NvmeCtrlV1 {
            cap: self.ctrl.cap.0,
            cc: self.ctrl.cc.0,
            csts: self.ctrl.csts.0,
            aqa: self.ctrl.aqa.0,
            acq_base: self.ctrl.admin_cq_base,
            asq_base: self.ctrl.admin_sq_base,
            dbbuf_shadow,
            dbbuf_evtidx,
            cqs,
            sqs,
        }
    }

    /// Takes over the state brought from another host, after a reset.
    pub fn import(
        &mut self,
        state: &NvmeCtrlV1,
        acc: &mut MemAccessor,
        events: &mut Vec<NvmeEvent>,
    ) -> (r: Result<(), MigrateStateError>)
        requires
            old(self)@.shape(),
        ensures
            ({
                let (v, e) = old(self)@.spec_import(*state);
                &&& final(self)@ == v
                &&& match e {
                    Some(e) => r == Err::<(), MigrateStateError>(e),
                    None => r is Ok,
                }
            }),
            final(acc)@ == old(acc)@,
            final(events)@ == old(events)@ + import_events(old(self)@, *state),
            final(self)@.shape(),
            saved_consistent(*state) ==> final(self)@.queues_ok(),
    {
        let ghost v0 = self@;
        let ghost a0 = acc@;
        let ghost ev0 = events@;
        self.reset(events);
        let ghost ev1 = events@;
        self.ctrl.cap = Capabilities(state.cap);
        self.ctrl.cc = Configuration(state.cc);
        self.ctrl.csts = Status(state.csts);
        self.ctrl.aqa = AdminQueueAttrs(state.aqa);
        self.ctrl.admin_cq_base = state.acq_base;
        self.ctrl.admin_sq_base = state.asq_base;
        let ghost w0 = v0.with_saved_regs(*state);
        proof {
            assert(self@ =~= w0);
            lemma_reset_wf(v0);
            lemma_regs(v0.spec_reset(), w0);
        }
        let ncq: usize = state.cqs.len();
        let mut i: usize = 0;
        while i < ncq
            invariant
                i <= ncq,
                ncq == state.cqs@.len(),
                self@.shape(),
                saved_consistent(*state) ==> self@.queues_ok(),
                self@.doorbell_buf is None,
                (self@, None::<NvmeError>) == w0.cqs_imported(state.cqs@, i as int),
                w0 == v0.with_saved_regs(*state),
                acc@ == a0,
                events@ == ev1,
                a0 == old(acc)@,
                v0 == old(self)@,
                ev1 == old(events)@ + dissociate_events(v0.sqs, 16),
            decreases ncq - i,
        {
            let q: NvmeCompQueueV1 = state.cqs[i];
            let ghost before = self@;
            let params: CreateParams = CreateParams {
                id: q.id,
                device_id: self.device_id,
                base: GuestAddr(q.base),
                size: q.size,
            };
            proof {
                assert(w0.cqs_imported(state.cqs@, i + 1) == before.cq_imported(q));
            }
            match self.create_cq(params, q.id == 0, q.iv, acc) {
                Err(e) => {
                    proof {
                        lemma_cqs_err(w0, state.cqs@, i + 1, ncq as int);
                        assert(events@ + Seq::<NvmeEvent>::empty() =~= events@);
                    }
                    return Err(MigrateStateError::NvmeCompQueue(e));
                },
                Ok(()) => {},
            }
            let ghost made = self@;
            if let Some(cq) = &mut self.cqs[q.id as usize] {
                cq.import(q);
            }
            proof {
                assert(state.cqs@[i as int] == q);
                let q0 = made.cqs[q.id as int]->0;
                lemma_set_cq(made, q.id as int, q0.imported(q));
                assert(self@.cqs =~= made.with_cq(q.id as int, Some(q0.imported(q))).cqs);
                if saved_consistent(*state) {
                    assert(made.cq_ok(q.id as int));
                }
            }
            i += 1;
        }
        let ghost w1 = self@;
        let nsq: usize = state.sqs.len();
        let mut j: usize = 0;
        assert(events@ + Seq::<NvmeEvent>::empty() =~= events@);
        while j < nsq
            invariant
                j <= nsq,
                nsq == state.sqs@.len(),
                self@.shape(),
                saved_consistent(*state) ==> self@.queues_ok(),
                self@.doorbell_buf is None,
                (w1, None::<NvmeError>) == w0.cqs_imported(state.cqs@, state.cqs@.len() as int),
                (self@, None::<NvmeError>) == w1.sqs_imported(state.sqs@, j as int),
                w0 == v0.with_saved_regs(*state),
                acc@ == a0,
                events@ == ev1 + associate_events(w1, state.sqs@, j as int),
                a0 == old(acc)@,
                v0 == old(self)@,
                ev1 == old(events)@ + dissociate_events(v0.sqs, 16),
            decreases nsq - j,
        {
            let q: NvmeSubQueueV1 = state.sqs[j];
            let ghost before = self@;
            let params: CreateParams = CreateParams {
                id: q.id,
                device_id: self.device_id,
                base: GuestAddr(q.base),
                size: q.size,
            };
            proof {
                assert(state.sqs@[j as int] == q);
                assert(w1.sqs_imported(state.sqs@, j + 1) == before.sq_imported(q));
            }
            if q.id == ADMIN_QUEUE_ID && q.cq_id != ADMIN_QUEUE_ID {
                proof {
                    lemma_sqs_err(w1, state.sqs@, j + 1, nsq as int);
                }
                return Err(
                    MigrateStateError::NvmeSubQueue(NvmeError::InvalidCompQueue(q.cq_id)),
                );
            }
            match self.create_sq(params, q.id == 0, q.cq_id, acc) {
                Err(e) => {
                    proof {
                        lemma_sqs_err(w1, state.sqs@, j + 1, nsq as int);
                    }
                    return Err(MigrateStateError::NvmeSubQueue(e));
                },
                Ok(()) => {},
            }
            if q.id != ADMIN_QUEUE_ID {
                self.io_sq_post_create(q.id, events);
            }
            let ghost made = self@;
            if let Some(sq) = &mut self.sqs[q.id as usize] {
                sq.import(q);
            }
            proof {
                let s0 = made.sqs[q.id as int]->0;
                lemma_set_sq(made, q.id as int, s0.imported(q));
                assert(self@.sqs =~= made.with_sq(q.id as int, Some(s0.imported(q))).sqs);
                assert(self@.cqs =~= made.cqs);
                if saved_consistent(*state) {
                    assert(made.sq_ok(q.id as int));
                }
                assert(events@ =~= ev1 + associate_events(w1, state.sqs@, j + 1));
            }
            j += 1;
        }
        let ghost w2 = self@;
        if state.dbbuf_shadow != 0 && state.dbbuf_evtidx != 0 {
            let db: DoorbellBuffer = DoorbellBuffer {
                shadow: GuestAddr(state.dbbuf_shadow),
                eventidx: GuestAddr(state.dbbuf_evtidx),
            };
            self.set_db_bufs(Some(db), true, acc);
            proof {
                lemma_no_sync(w2, Some(db), a0);
            }
        }
        Ok(())
    }
}

/// The identify structure of the namespace does not matter to the invariants,
/// as long as the size of its blocks can be told.
proof fn lemma_ns(v: CtrlView, ns: IdentifyNamespace)
    requires
        v.shape(),
        ns.lbaf@[ns.flbas as int % 16].lbads < 64,
    ensures
        (CtrlView { ns_ident: ns, ..v }).shape(),
        v.queues_ok() ==> (CtrlView { ns_ident: ns, ..v }).queues_ok(),
{
    let w = CtrlView { ns_ident: ns, ..v };
    assert(forall|s: QueueId| w.sq(s) == v.sq(s));
    assert forall|k: int| 0 <= k < MAX_NUM_QUEUES implies #[trigger] w.cq_linked(k) by {
        assert(v.cq_linked(k));
    }
    assert forall|k: int| 0 <= k < MAX_NUM_QUEUES implies #[trigger] w.sq_linked(k) by {
        assert(v.sq_linked(k));
    }
    if v.queues_ok() {
        assert forall|k: int| 0 <= k < MAX_NUM_QUEUES implies #[trigger] w.cq_ok(k) by {
            assert(v.cq_ok(k));
        }
        assert forall|k: int| 0 <= k < MAX_NUM_QUEUES implies #[trigger] w.sq_ok(k) by {
            assert(v.sq_ok(k));
        }
    }
}

/// Nothing is taken over after the first completion queue that cannot be.
proof fn lemma_cqs_err(v: CtrlView, s: Seq<NvmeCompQueueV1>, i: int, n: int)
    requires
        0 <= i <= n,
        v.cqs_imported(s, i).1 is Some,
    ensures
        v.cqs_imported(s, n) == v.cqs_imported(s, i),
    decreases n - i,
{
    if i < n {
        lemma_cqs_err(v, s, i, n - 1);
    }
}

/// Nothing is taken over after the first submission queue that cannot be.
proof fn lemma_sqs_err(v: CtrlView, s: Seq<NvmeSubQueueV1>, i: int, n: int)
    requires
        0 <= i <= n,
        v.sqs_imported(s, i).1 is Some,
    ensures
        v.sqs_imported(s, n) == v.sqs_imported(s, i),
        associate_events(v, s, n) == associate_events(v, s, i),
    decreases n - i,
{
    if i < n {
        lemma_sqs_err(v, s, i, n - 1);
    }
}

/// Memory is left alone when queues are brought over from another host.
proof fn lemma_no_sync(v: CtrlView, db: Option<DoorbellBuffer>, acc: MemAccessView)
    ensures
        v.db_bufs_synced(db, true, acc) == acc,
{
    lemma_no_cq_sync(v.cqs, db, acc, 16);
    lemma_no_sq_sync(v.sqs, db, acc, 16);
}

proof fn lemma_no_cq_sync(
    cqs: Seq<Option<CompQueueView>>,
    db: Option<DoorbellBuffer>,
    acc: MemAccessView,
    n: int,
)
    ensures
        cqs_synced(cqs, db, true, acc, n) == acc,
    decreases n,
{
    if n > 0 {
        lemma_no_cq_sync(cqs, db, acc, n - 1);
    }
}

proof fn lemma_no_sq_sync(
    sqs: Seq<Option<SubQueue>>,
    db: Option<DoorbellBuffer>,
    acc: MemAccessView,
    n: int,
)
    ensures
        sqs_synced(sqs, db, true, acc, n) == acc,
    decreases n,
{
    if n > 0 {
        lemma_no_sq_sync(sqs, db, acc, n - 1);
    }
}

/// What is saved of the first queues comes first.
proof fn lemma_exported_cqs_prefix(cqs: Seq<Option<CompQueueView>>, m: int, n: int)
    requires
        0 <= m <= n,
    ensures
        exported_cqs(cqs, m).len() <= exported_cqs(cqs, n).len(),
        forall|k: int|
            0 <= k < exported_cqs(cqs, m).len() ==> #[trigger] exported_cqs(cqs, n)[k]
                == exported_cqs(cqs, m)[k],
    decreases n - m,
{
    if m < n {
        lemma_exported_cqs_prefix(cqs, m, n - 1);
        assert forall|k: int| 0 <= k < exported_cqs(cqs, m).len() implies #[trigger] exported_cqs(
            cqs,
            n,
        )[k] == exported_cqs(cqs, m)[k] by {
            assert(exported_cqs(cqs, n)[k] == exported_cqs(cqs, n - 1)[k]);
        }
    }
}

/// What is saved of the first queues comes first.
proof fn lemma_exported_sqs_prefix(sqs: Seq<Option<SubQueue>>, m: int, n: int)
    requires
        0 <= m <= n,
    ensures
        exported_sqs(sqs, m).len() <= exported_sqs(sqs, n).len(),
        forall|k: int|
            0 <= k < exported_sqs(sqs, m).len() ==> #[trigger] exported_sqs(sqs, n)[k]
                == exported_sqs(sqs, m)[k],
    decreases n - m,
{
    if m < n {
        lemma_exported_sqs_prefix(sqs, m, n - 1);
        assert forall|k: int| 0 <= k < exported_sqs(sqs, m).len() implies #[trigger] exported_sqs(
            sqs,
            n,
        )[k] == exported_sqs(sqs, m)[k] by {
            assert(exported_sqs(sqs, n)[k] == exported_sqs(sqs, n - 1)[k]);
        }
    }
}

/// Whether two slots hold completion queues of the same saved state, or both
/// hold none.
pub open spec fn same_cq(a: Option<CompQueueView>, b: Option<CompQueueView>) -> bool {
    match (a, b) {
        (Some(x), Some(y)) => x.spec_export() == y.spec_export(),
        (None, None) => true,
        _ => false,
    }
}

/// Whether two slots hold submission queues of the same saved state, or both
/// hold none.
pub open spec fn same_sq(a: Option<SubQueue>, b: Option<SubQueue>) -> bool {
    match (a, b) {
        (Some(x), Some(y)) => x.spec_export() == y.spec_export(),
        (None, None) => true,
        _ => false,
    }
}

/// Taking over what was saved of the first `m` completion queues gives these.
proof fn lemma_import_cqs(w: CtrlView, from: CtrlView, m: int)
    requires
        from.wf(),
        w.cqs == Seq::new(MAX_NUM_QUEUES as nat, |i: int| None::<CompQueueView>),
        w.msix_attached,
        0 <= m <= 16,
    ensures
        ({
            let (v, e) = w.cqs_imported(
                exported_cqs(from.cqs, 16),
                exported_cqs(from.cqs, m).len() as int,
            );
            &&& e is None
            &&& v == (CtrlView { cqs: v.cqs, next_serial: v.next_serial, ..w })
            &&& v.cqs.len() == MAX_NUM_QUEUES
            &&& forall|i: int| 0 <= i < m ==> same_cq(#[trigger] v.cqs[i], from.cqs[i])
            &&& forall|i: int| m <= i < MAX_NUM_QUEUES ==> #[trigger] v.cqs[i] is None
        }),
    decreases m,
{
    if m > 0 {
        lemma_import_cqs(w, from, m - 1);
        let s = exported_cqs(from.cqs, 16);
        let n = exported_cqs(from.cqs, m - 1).len() as int;
        let v = w.cqs_imported(s, n).0;
        match from.cqs[m - 1] {
            None => {},
            Some(q) => {
                lemma_exported_cqs_prefix(from.cqs, m, 16);
                assert(exported_cqs(from.cqs, m)[n] == q.spec_export());
                assert(s[n] == q.spec_export());
                assert(from.cq_linked(m - 1));
                assert(from.cq_ok(m - 1));
                let x = v.cq_imported(s[n]).0;
                assert(w.cqs_imported(s, n + 1) == v.cq_imported(s[n]));
                assert forall|i: int| 0 <= i < m implies same_cq(#[trigger] x.cqs[i], from.cqs[i]) by {
                    if i < m - 1 {
                        assert(x.cqs[i] == v.cqs[i]);
                    }
                }
            },
        }
    }
}

/// Taking over what was saved of the first `m` submission queues gives these,
/// and leaves the state of the completion queues.
proof fn lemma_import_sqs(w: CtrlView, from: CtrlView, m: int)
    requires
        from.wf(),
        w.sqs == Seq::new(MAX_NUM_QUEUES as nat, |i: int| None::<SubQueue>),
        w.cqs.len() == MAX_NUM_QUEUES,
        forall|i: int| 0 <= i < MAX_NUM_QUEUES ==> same_cq(#[trigger] w.cqs[i], from.cqs[i]),
        0 <= m <= 16,
    ensures
        ({
            let (v, e) = w.sqs_imported(
                exported_sqs(from.sqs, 16),
                exported_sqs(from.sqs, m).len() as int,
            );
            &&& e is None
            &&& v == (CtrlView { cqs: v.cqs, sqs: v.sqs, next_serial: v.next_serial, ..w })
            &&& v.cqs.len() == MAX_NUM_QUEUES
            &&& v.sqs.len() == MAX_NUM_QUEUES
            &&& forall|i: int|
                0 <= i < MAX_NUM_QUEUES ==> same_cq(#[trigger] v.cqs[i], from.cqs[i])
            &&& forall|i: int| 0 <= i < m ==> same_sq(#[trigger] v.sqs[i], from.sqs[i])
            &&& forall|i: int| m <= i < MAX_NUM_QUEUES ==> #[trigger] v.sqs[i] is None
        }),
    decreases m,
{
    if m > 0 {
        lemma_import_sqs(w, from, m - 1);
        let s = exported_sqs(from.sqs, 16);
        let n = exported_sqs(from.sqs, m - 1).len() as int;
        let v = w.sqs_imported(s, n).0;
        match from.sqs[m - 1] {
            None => {},
            Some(q) => {
                lemma_exported_sqs_prefix(from.sqs, m, 16);
                assert(exported_sqs(from.sqs, m)[n] == q.spec_export());
                assert(s[n] == q.spec_export());
                assert(from.sq_linked(m - 1));
                assert(from.sq_ok(m - 1));
                assert(same_cq(v.cqs[q.cq_id as int], from.cqs[q.cq_id as int]));
                assert(w.sqs_imported(s, n + 1) == v.sq_imported(s[n]));
                let x = v.sq_imported(s[n]).0;
                assert forall|i: int| 0 <= i < MAX_NUM_QUEUES implies same_cq(
                    #[trigger] x.cqs[i],
                    from.cqs[i],
                ) by {
                    assert(same_cq(v.cqs[i], from.cqs[i]));
                }
                assert forall|i: int| 0 <= i < m implies same_sq(#[trigger] x.sqs[i], from.sqs[i]) by {
                    if i < m - 1 {
                        assert(x.sqs[i] == v.sqs[i]);
                    }
                }
            },
        }
    }
}

/// A controller that takes over the state that another one exported has the
/// same registers and doorbell buffers, and queues in the same states.
pub proof fn law_ctrl_migrates(from: CtrlView, to: CtrlView, s: NvmeCtrlV1)
    requires
        from.wf(),
        to.msix_attached,
        from.saved_as(s),
        from.doorbell_buf matches Some(b) ==> b.shadow.0 != 0 && b.eventidx.0 != 0,
    ensures
        ({
            let (v, e) = to.spec_import(s);
            &&& e is None
            &&& v.ctrl == from.ctrl
            &&& v.doorbell_buf == from.doorbell_buf
            &&& forall|i: int|
                0 <= i < MAX_NUM_QUEUES ==> same_cq(#[trigger] v.cqs[i], from.cqs[i])
            &&& forall|i: int|
                0 <= i < MAX_NUM_QUEUES ==> same_sq(#[trigger] v.sqs[i], from.sqs[i])
        }),
{
    let w = to.with_saved_regs(s);
    lemma_import_cqs(w, from, 16);
    let w1 = w.cqs_imported(s.cqs@, s.cqs@.len() as int).0;
    lemma_import_sqs(w1, from, 16);
    let w2 = w1.sqs_imported(s.sqs@, s.sqs@.len() as int).0;
    let v = to.spec_import(s).0;
    assert forall|i: int| 0 <= i < MAX_NUM_QUEUES implies same_cq(#[trigger] v.cqs[i], from.cqs[i]) by {
        assert(same_cq(w2.cqs[i], from.cqs[i]));
    }
    assert forall|i: int| 0 <= i < MAX_NUM_QUEUES implies same_sq(#[trigger] v.sqs[i], from.sqs[i]) by {
        assert(same_sq(w2.sqs[i], from.sqs[i]));
    }
}

} // verus!
