//! The registers of an NVMe controller and its doorbells.
use crate::block::QueueAction;
use crate::common::{
    get_le32, get_le64, le32, le64, push_fill, push_le32, push_le64, sub_vec, val32,
    val64, zeros, MemAccessView, MemAccessor, RWOp, ReadOp,
};
use crate::hw::nvme::admin::{admin_processed, model_of, NvmeModel};
use crate::hw::nvme::bits::{
    AdminQueueAttrs, Configuration, ShutdownNotification, ShutdownStatus, NVME_VER_1_0,
};
use crate::hw::nvme::ctrl::{
    dissociate_events, lemma_regs, lemma_set_cq, lemma_set_sq, CtrlState, CtrlView, NvmeCtrl,
    NvmeEvent, MAX_NUM_QUEUES,
};
use crate::hw::nvme::queue::{
    sqid_to_block_qid, CompQueueView, QueueId, SubQueue, ADMIN_QUEUE_ID,
};
use crate::hw::nvme::NvmeError;
use crate::hw::pci::msix::MsixCfg;
use crate::regmap::{
    find_in_table, lemma_table_find, process_read, process_write, reg_start, space_read,
    space_write, table_find, RegDef, RegSpace, RegSpan,
};
use vstd::prelude::*;

verus! {

/// Size of the register space of the controller.
pub const CONTROLLER_REG_SZ: usize = 0x4000;

/// Where the doorbells start.
pub const DOORBELL_START: usize = 0x1000;

/// Where the doorbells of the I/O queues start.
pub const IO_DOORBELL_START: usize = 0x1008;

/// A register of the controller.
#[derive(Clone, Copy, Debug, PartialEq, Eq, Structural)]
pub enum CtrlrReg {
    Reserved,
    /// Controller capabilities (CAP)
    CtrlrCaps,
    /// Version (VS)
    Version,
    /// Interrupt mask set (INTMS)
    IntrMaskSet,
    /// Interrupt mask clear (INTMC)
    IntrMaskClear,
    /// Controller configuration (CC)
    CtrlrCfg,
    /// Controller status (CSTS)
    CtrlrStatus,
    /// Admin queue attributes (AQA)
    AdminQueueAttr,
    /// Base address of the admin submission queue (ASQ)
    AdminSubQAddr,
    /// Base address of the admin completion queue (ACQ)
    AdminCompQAddr,
    /// Tail doorbell of the admin submission queue
    DoorBellAdminSQ,
    /// Head doorbell of the admin completion queue
    DoorBellAdminCQ,
    /// Tail and head doorbells of the I/O queues
    IOQueueDoorBells,
}

/// What a controller works on.
pub struct NvmeEnv {
    /// Its interrupt vectors.
    pub msix: MsixCfg,
    /// Guest memory.
    pub acc: MemAccessor,
    /// What it has brought about outside.
    pub events: Vec<NvmeEvent>,
}

/// A controller with what it works on.
pub open spec fn in_env(ctrl: NvmeCtrl, env: NvmeEnv) -> NvmeModel {
    model_of(ctrl, env.msix, env.acc, env.events@)
}

// ---------------------------------------------------------------------------
// Configuration
// ---------------------------------------------------------------------------

/// The controller after it has noted whether the guest asks for a shutdown.
/// There is nothing to wait for, so that it is complete at once.
pub open spec fn shutdown_noted(v: CtrlView, new: Configuration) -> CtrlView {
    let asked = new.spec_shn() != ShutdownNotification::NotRequested;
    let normal = v.ctrl.csts.spec_shst() == ShutdownStatus::Normal;
    if asked && normal {
        v.with_csts(v.ctrl.csts.spec_with_shst(ShutdownStatus::Complete))
    } else if !asked && !normal {
        v.with_csts(v.ctrl.csts.spec_with_shst(ShutdownStatus::Normal))
    } else {
        v
    }
}

/// The controller as it starts to service requests.
pub open spec fn started(v: CtrlView) -> CtrlView {
    v.with_cc(v.ctrl.cc.spec_with_enabled(true)).with_csts(v.ctrl.csts.spec_with_ready(true))
}

/// What a write to the configuration leads to, and why it failed, if it did.
#[verifier::opaque]
pub open spec fn cfg_written(m: NvmeModel, new: Configuration) -> (NvmeModel, Option<NvmeError>) {
    let (v1, e1) = if m.ctrl.ctrl.cc != new {
        m.ctrl.spec_configure(new)
    } else {
        (m.ctrl, None)
    };
    if e1 is Some {
        (NvmeModel { ctrl: v1, ..m }, e1)
    } else if new.spec_enabled() && !v1.ctrl.cc.spec_enabled() {
        let (v2, acc, e2) = v1.spec_create_admin_queues(m.acc);
        if e2 is Some {
            (
                NvmeModel { ctrl: v2.with_csts(v2.ctrl.csts.spec_with_cfs(true)), acc, ..m },
                e2,
            )
        } else {
            (NvmeModel { ctrl: shutdown_noted(started(v2), new), acc, ..m }, None)
        }
    } else if !new.spec_enabled() && v1.ctrl.cc.spec_enabled() {
        (
            NvmeModel {
                ctrl: shutdown_noted(v1.spec_reset(), new),
                events: m.events + dissociate_events(v1.sqs, 16),
                ..m
            },
            None,
        )
    } else {
        (NvmeModel { ctrl: shutdown_noted(v1, new), ..m }, None)
    }
}

// ---------------------------------------------------------------------------
// Doorbells
// ---------------------------------------------------------------------------

/// What the block layer is told when the first `n` of the corked queues may go
/// on.
pub open spec fn notify_events(v: CtrlView, corked: Seq<QueueId>, n: int) -> Seq<NvmeEvent>
    decreases n,
{
    if n <= 0 {
        Seq::empty()
    } else {
        let rest = notify_events(v, corked, n - 1);
        match v.sq(corked[n - 1]) {
            Some(s) => rest.push(
                NvmeEvent::Block(
                    QueueAction::Notify((corked[n - 1] - 1) as u16, s.state.occupied()),
                ),
            ),
            None => rest,
        }
    }
}

/// What a ring of the doorbell of an I/O queue leads to, and why it failed, if
/// it did.
#[verifier::opaque]
pub open spec fn rung(m: NvmeModel, qid: QueueId, is_cq: bool, val: u16) -> (
    NvmeModel,
    Option<NvmeError>,
) {
    let v = m.ctrl;
    if is_cq {
        match v.cq(qid) {
            Some(q) => if !v.ctrl.cc.spec_enabled() {
                (m, Some(NvmeError::InvalidCompQueue(qid)))
            } else {
                match q.state.popped_to(val) {
                    Err(e) => (m, Some(NvmeError::QueueUpdateError(e))),
                    Ok(state) => (
                        NvmeModel {
                            ctrl: v.with_cq(
                                qid as int,
                                Some(CompQueueView { state, corked: Seq::empty(), ..q }),
                            ),
                            events: m.events + notify_events(v, q.corked, q.corked.len() as int),
                            ..m
                        },
                        None,
                    ),
                }
            },
            None => (m, Some(NvmeError::InvalidCompQueue(qid))),
        }
    } else {
        match v.sq(qid) {
            Some(s) => if !v.ctrl.cc.spec_enabled() {
                (m, Some(NvmeError::InvalidSubQueue(qid)))
            } else {
                match s.state.pushed_to(val) {
                    Err(e) => (m, Some(NvmeError::QueueUpdateError(e))),
                    Ok(state) => (
                        NvmeModel {
                            ctrl: v.with_sq(qid as int, Some(SubQueue { state, ..s })),
                            events: m.events.push(
                                NvmeEvent::Block(
                                    QueueAction::Notify((qid - 1) as u16, state.occupied()),
                                ),
                            ),
                            ..m
                        },
                        None,
                    ),
                }
            },
            None => (m, Some(NvmeError::InvalidSubQueue(qid))),
        }
    }
}

/// What a ring of the doorbell of the admin submission queue leads to.
#[verifier::opaque]
pub open spec fn admin_sq_rung(m: NvmeModel, val: u16) -> (NvmeModel, Option<NvmeError>) {
    if !m.ctrl.ctrl.cc.spec_enabled() || m.ctrl.sqs[0] is None {
        (m, Some(NvmeError::InvalidSubQueue(ADMIN_QUEUE_ID)))
    } else {
        let s = m.ctrl.sqs[0]->0;
        match s.state.pushed_to(val) {
            Err(e) => (m, Some(NvmeError::QueueUpdateError(e))),
            Ok(state) => {
                let acc = if m.acc.accessible {
                    MemAccessView { mem: state.sq_db_write_shadow(m.acc.mem), ..m.acc }
                } else {
                    m.acc
                };
                (
                    admin_processed(
                        NvmeModel {
                            ctrl: m.ctrl.with_sq(0, Some(SubQueue { state, ..s })),
                            acc,
                            ..m
                        },
                    ),
                    None,
                )
            },
        }
    }
}

/// What a ring of the doorbell of the admin completion queue leads to.
#[verifier::opaque]
pub open spec fn admin_cq_rung(m: NvmeModel, val: u16) -> (NvmeModel, Option<NvmeError>) {
    if !m.ctrl.ctrl.cc.spec_enabled() || m.ctrl.cqs[0] is None {
        (m, Some(NvmeError::InvalidCompQueue(ADMIN_QUEUE_ID)))
    } else {
        let q = m.ctrl.cqs[0]->0;
        match q.state.popped_to(val) {
            Err(e) => (m, Some(NvmeError::QueueUpdateError(e))),
            Ok(state) => {
                let acc = if m.acc.accessible {
                    MemAccessView { mem: state.db_write_shadow(m.acc.mem), ..m.acc }
                } else {
                    m.acc
                };
                let m1 = NvmeModel {
                    ctrl: m.ctrl.with_cq(
                        0,
                        Some(CompQueueView { state, corked: Seq::empty(), ..q }),
                    ),
                    acc,
                    ..m
                };
                if q.corked.len() == 0 {
                    (m1, None)
                } else if m.ctrl.sqs[0] is None {
                    (m1, Some(NvmeError::InvalidSubQueue(ADMIN_QUEUE_ID)))
                } else {
                    (admin_processed(m1), None)
                }
            },
        }
    }
}

/// The queue whose doorbell is at an offset, and whether it is a completion
/// queue.
pub open spec fn doorbell_at(offset: int) -> (QueueId, bool) {
    let off = offset - DOORBELL_START;
    if (off / 4) % 2 == 1 {
        (((off - 4) / 8) as u16, true)
    } else {
        ((off / 8) as u16, false)
    }
}

/// The doorbells lie next to each other, first those of the admin queues, then
/// those of the I/O queues in the order of their identifiers, the submission
/// queue's before the completion queue's.
pub proof fn law_doorbell_layout(qid: QueueId, is_cq: bool)
    requires
        qid < 0x600,
    ensures
        doorbell_at(DOORBELL_START + 8 * qid + if is_cq {
            4int
        } else {
            0
        }) == (qid, is_cq),
{
}

/// No offset among the doorbells of the I/O queues addresses an admin queue.
pub proof fn law_io_doorbells_spare_admin(offset: int)
    requires
        IO_DOORBELL_START <= offset < CONTROLLER_REG_SZ,
    ensures
        doorbell_at(offset).0 != ADMIN_QUEUE_ID,
{
}

// ---------------------------------------------------------------------------
// Registers
// ---------------------------------------------------------------------------

/// What a read of a register leaves in a buffer.
pub open spec fn ctrl_reg_rd(v: CtrlView, id: CtrlrReg, buf: Seq<u8>) -> Seq<u8> {
    let enabled = v.ctrl.cc.spec_enabled();
    match id {
        CtrlrReg::CtrlrCaps => le64(v.ctrl.cap.0),
        CtrlrReg::Version => le32(NVME_VER_1_0),
        CtrlrReg::CtrlrCfg => le32(v.ctrl.cc.0),
        CtrlrReg::CtrlrStatus => le32(v.ctrl.csts.0),
        CtrlrReg::AdminQueueAttr => if enabled {
            buf
        } else {
            le32(v.ctrl.aqa.0)
        },
        CtrlrReg::AdminSubQAddr => if enabled {
            buf
        } else {
            le64(v.ctrl.admin_sq_base)
        },
        CtrlrReg::AdminCompQAddr => if enabled {
            buf
        } else {
            le64(v.ctrl.admin_cq_base)
        },
        _ => zeros(buf.len()),
    }
}

/// The start of the page of an address.
pub open spec fn page_of(addr: u64) -> u64 {
    (addr - addr % 4096) as u64
}

/// What a write to a register leads to, and why it failed, if it did.
pub open spec fn ctrl_reg_wr(m: NvmeModel, id: CtrlrReg, offset: int, data: Seq<u8>) -> (
    NvmeModel,
    Option<NvmeError>,
) {
    let v = m.ctrl;
    let enabled = v.ctrl.cc.spec_enabled();
    match id {
        CtrlrReg::CtrlrCfg => cfg_written(m, Configuration(val32(data))),
        CtrlrReg::AdminQueueAttr => if enabled {
            (m, None)
        } else {
            (
                NvmeModel {
                    ctrl: CtrlView {
                        ctrl: CtrlState { aqa: AdminQueueAttrs(val32(data)), ..v.ctrl },
                        ..v
                    },
                    ..m
                },
                None,
            )
        },
        CtrlrReg::AdminSubQAddr => if enabled {
            (m, None)
        } else {
            (
                NvmeModel {
                    ctrl: CtrlView {
                        ctrl: CtrlState { admin_sq_base: page_of(val64(data)), ..v.ctrl },
                        ..v
                    },
                    ..m
                },
                None,
            )
        },
        CtrlrReg::AdminCompQAddr => if enabled {
            (m, None)
        } else {
            (
                NvmeModel {
                    ctrl: CtrlView {
                        ctrl: CtrlState { admin_cq_base: page_of(val64(data)), ..v.ctrl },
                        ..v
                    },
                    ..m
                },
                None,
            )
        },
        CtrlrReg::DoorBellAdminSQ => admin_sq_rung(m, (val32(data) % 0x1_0000) as u16),
        CtrlrReg::DoorBellAdminCQ => admin_cq_rung(m, (val32(data) % 0x1_0000) as u16),
        CtrlrReg::IOQueueDoorBells => {
            let (qid, is_cq) = doorbell_at(offset);
            rung(m, qid, is_cq, (val32(data.take(4)) % 0x1_0000) as u16)
        },
        _ => (m, None),
    }
}

/// Whether a register takes accesses of `len` bytes. For doorbells of I/O
/// queues, `offset` is that of the access in the register space.
pub open spec fn ctrl_access_ok(id: CtrlrReg, offset: int, len: int) -> bool {
    match id {
        CtrlrReg::Reserved => true,
        CtrlrReg::CtrlrCaps => len == 8,
        CtrlrReg::AdminSubQAddr => len == 8,
        CtrlrReg::AdminCompQAddr => len == 8,
        CtrlrReg::IOQueueDoorBells => IO_DOORBELL_START <= offset < CONTROLLER_REG_SZ && len >= 4,
        _ => len == 4,
    }
}

/// The result of an operation that failed for the given reason, if there is
/// one.
pub open spec fn result_of(e: Option<NvmeError>) -> Result<(), NvmeError> {
    match e {
        Some(e) => Err(e),
        None => Ok(()),
    }
}

impl NvmeCtrl {
    /// Services a write to the configuration.
    pub fn ctrlr_cfg_write(
        &mut self,
        new: Configuration,
        env: &mut NvmeEnv,
    ) -> (r: Result<(), NvmeError>)
        requires
            in_env(*old(self), *old(env)).wf(),
        ensures
            ({
                let (m, e) = cfg_written(in_env(*old(self), *old(env)), new);
                &&& in_env(*final(self), *final(env)) == m
                &&& r == result_of(e)
            }),
            in_env(*final(self), *final(env)).wf(),
    {
        proof {
            reveal(cfg_written);
        }
        let ghost v0 = self@;
        if self.ctrl.cc != new {
            let res: Result<(), NvmeError> = self.configure(new);
            proof {
                lemma_regs(v0, self@);
            }
            if let Err(e) = res {
                return Err(e);
            }
        }
        let cur: Configuration = self.ctrl.cc;
        if new.enabled() && !cur.enabled() {
            match self.create_admin_queues(&mut env.acc) {
                Err(e) => {
                    // The controller has failed.
                    let ghost v2 = self@;
                    self.ctrl.csts.set_cfs(true);
                    proof {
                        lemma_regs(v2, self@);
                    }
                    return Err(e);
                },
                Ok(()) => {
                    let ghost v2 = self@;
                    self.ctrl.cc.set_enabled(true);
                    self.ctrl.csts.set_ready(true);
                    proof {
                        lemma_regs(v2, self@);
                    }
                },
            }
        } else if !new.enabled() && cur.enabled() {
            self.reset(&mut env.events);
        }
        let ghost v3 = self@;
        let asked: bool = new.shn() != ShutdownNotification::NotRequested;
        let normal: bool = self.ctrl.csts.shst() == ShutdownStatus::Normal;
        if asked && normal {
            self.ctrl.csts.set_shst(ShutdownStatus::Complete);
        } else if !asked && !normal {
            self.ctrl.csts.set_shst(ShutdownStatus::Normal);
        }
        proof {
            lemma_regs(v3, self@);
        }
        Ok(())
    }

    /// Tells the block layer that queues that found no room for completions may
    /// go on.
    fn notify_corked(&self, corked: &Vec<QueueId>, events: &mut Vec<NvmeEvent>)
        requires
            self@.wf(),
            !corked@.contains(ADMIN_QUEUE_ID),
        ensures
            final(events)@ == old(events)@ + notify_events(
                self@,
                corked@,
                corked@.len() as int,
            ),
    {
        let ghost ev0 = events@;
        let mut i: usize = 0;
        assert(ev0 + Seq::<NvmeEvent>::empty() =~= ev0);
        while i < corked.len()
            invariant
                i <= corked@.len(),
                self@.wf(),
                !corked@.contains(ADMIN_QUEUE_ID),
                events@ == ev0 + notify_events(self@, corked@, i as int),
            decreases corked@.len() - i,
        {
            let sqid: QueueId = corked[i];
            assert(corked@[i as int] != ADMIN_QUEUE_ID);
            if (sqid as usize) < MAX_NUM_QUEUES {
                assert(self@.sq_ok(sqid as int));
                if let Some(sq) = &self.sqs[sqid as usize] {
                    let num: u16 = sq.num_occupied();
                    events.push(
                        NvmeEvent::Block(QueueAction::Notify(sqid_to_block_qid(sqid), num)),
                    );
                }
            }
            i += 1;
            assert(events@ =~= ev0 + notify_events(self@, corked@, i as int));
        }
    }

    /// Moves the head of a completion queue, and gives the submission queues
    /// that may go on.
    fn ring_cq(&mut self, qid: QueueId, val: u16, acc: &mut MemAccessor) -> (r: Result<
        Option<Vec<QueueId>>,
        NvmeError,
    >)
        requires
            old(self)@.wf(),
            qid < MAX_NUM_QUEUES,
            old(self)@.cqs[qid as int] is Some,
        ensures
            final(self)@.wf(),
            ({
                let q = old(self)@.cqs[qid as int]->0;
                match q.state.popped_to(val) {
                    Err(e) => {
                        &&& r == Err::<Option<Vec<QueueId>>, NvmeError>(
                            NvmeError::QueueUpdateError(e),
                        )
                        &&& final(self)@ == old(self)@
                        &&& final(acc)@ == old(acc)@
                    },
                    Ok(state) => {
                        &&& r is Ok
                        &&& r->Ok_0 is None <==> q.corked.len() == 0
                        &&& r->Ok_0 matches Some(c) ==> c@ == q.corked
                        &&& final(self)@ == old(self)@.with_cq(
                            qid as int,
                            Some(CompQueueView { state, corked: Seq::empty(), ..q }),
                        )
                        &&& final(acc)@ == if qid == ADMIN_QUEUE_ID && old(acc)@.accessible {
                            MemAccessView {
                                mem: state.db_write_shadow(old(acc)@.mem),
                                ..old(acc)@
                            }
                        } else {
                            old(acc)@
                        }
                    },
                }
            }),
    {
        let ghost v0 = self@;
        proof {
            assert(v0.cq_ok(qid as int));
            assert(v0.cq_linked(qid as int));
        }
        let out: Result<Option<Vec<QueueId>>, NvmeError> = match &mut self.cqs[qid as usize] {
            Some(cq) => match cq.notify_head(val, acc) {
                Err(e) => Err(NvmeError::QueueUpdateError(e)),
                Ok(()) => Ok(cq.kick()),
            },
            None => Ok(None),
        };
        proof {
            let q = self@.cqs[qid as int]->0;
            lemma_set_cq(v0, qid as int, q);
            assert(self@.cqs =~= v0.with_cq(qid as int, Some(q)).cqs);
            if out is Err {
                assert(self@.cqs =~= v0.cqs);
            }
        }
        out
    }

    /// Moves the tail of a submission queue, and tells how many of its entries
    /// are then occupied.
    fn ring_sq(&mut self, qid: QueueId, val: u16, acc: &mut MemAccessor) -> (r: Result<
        u16,
        NvmeError,
    >)
        requires
            old(self)@.wf(),
            qid < MAX_NUM_QUEUES,
            old(self)@.sqs[qid as int] is Some,
        ensures
            final(self)@.wf(),
            ({
                let s = old(self)@.sqs[qid as int]->0;
                match s.state.pushed_to(val) {
                    Err(e) => {
                        &&& r == Err::<u16, NvmeError>(NvmeError::QueueUpdateError(e))
                        &&& final(self)@ == old(self)@
                        &&& final(acc)@ == old(acc)@
                    },
                    Ok(state) => {
                        &&& r == Ok::<u16, NvmeError>(state.occupied())
                        &&& final(self)@ == old(self)@.with_sq(
                            qid as int,
                            Some(SubQueue { state, ..s }),
                        )
                        &&& final(acc)@ == if qid == ADMIN_QUEUE_ID && old(acc)@.accessible {
                            MemAccessView {
                                mem: state.sq_db_write_shadow(old(acc)@.mem),
                                ..old(acc)@
                            }
                        } else {
                            old(acc)@
                        }
                    },
                }
            }),
    {
        let ghost v0 = self@;
        proof {
            assert(v0.sq_ok(qid as int));
            assert(v0.sq_linked(qid as int));
        }
        let out: Result<u16, NvmeError> = match &mut self.sqs[qid as usize] {
            Some(sq) => match sq.notify_tail(val, acc) {
                Err(e) => Err(NvmeError::QueueUpdateError(e)),
                Ok(num) => Ok(num),
            },
            None => Ok(0),
        };
        proof {
            let s = self@.sqs[qid as int]->0;
            lemma_set_sq(v0, qid as int, s);
            assert(self@.sqs =~= v0.with_sq(qid as int, Some(s)).sqs);
            if out is Err {
                assert(self@.sqs =~= v0.sqs);
            }
        }
        out
    }

    /// Performs a ring of the doorbell of an I/O queue.
    pub fn ring_doorbell(
        &mut self,
        qid: QueueId,
        is_cq: bool,
        val: u16,
        env: &mut NvmeEnv,
    ) -> (r: Result<(), NvmeError>)
        requires
            in_env(*old(self), *old(env)).wf(),
            qid != ADMIN_QUEUE_ID,
        ensures
            ({
                let (m, e) = rung(in_env(*old(self), *old(env)), qid, is_cq, val);
                &&& in_env(*final(self), *final(env)) == m
                &&& r == result_of(e)
            }),
            in_env(*final(self), *final(env)).wf(),
    {
        proof {
            reveal(rung);
        }
        if is_cq {
            if !self.ctrl.cc.enabled() || qid as usize >= MAX_NUM_QUEUES
                || self.cqs[qid as usize].is_none() {
                return Err(NvmeError::InvalidCompQueue(qid));
            }
            let ghost v0 = self@;
            proof {
                assert(v0.cq_ok(qid as int));
            }
            match self.ring_cq(qid, val, &mut env.acc) {
                Err(e) => Err(e),
                Ok(None) => {
                    assert(env.events@ + Seq::<NvmeEvent>::empty() =~= env.events@);
                    Ok(())
                },
                Ok(Some(corked)) => {
                    proof {
                        lemma_notify_same(v0, self@, corked@, corked@.len() as int);
                    }
                    self.notify_corked(&corked, &mut env.events);
                    Ok(())
                },
            }
        } else {
            if !self.ctrl.cc.enabled() || qid as usize >= MAX_NUM_QUEUES
                || self.sqs[qid as usize].is_none() {
                return Err(NvmeError::InvalidSubQueue(qid));
            }
            match self.ring_sq(qid, val, &mut env.acc) {
                Err(e) => Err(e),
                Ok(num) => {
                    env.events.push(
                        NvmeEvent::Block(QueueAction::Notify(sqid_to_block_qid(qid), num)),
                    );
                    Ok(())
                },
            }
        }
    }

    /// Performs a ring of the doorbell of the admin submission queue.
    pub fn ring_admin_sq(&mut self, val: u16, env: &mut NvmeEnv) -> (r: Result<(), NvmeError>)
        requires
            in_env(*old(self), *old(env)).wf(),
        ensures
            ({
                let (m, e) = admin_sq_rung(in_env(*old(self), *old(env)), val);
                &&& in_env(*final(self), *final(env)) == m
                &&& r == result_of(e)
            }),
            in_env(*final(self), *final(env)).wf(),
    {
        proof {
            reveal(admin_sq_rung);
        }
        if !self.ctrl.cc.enabled() || self.sqs[0].is_none() {
            return Err(NvmeError::InvalidSubQueue(ADMIN_QUEUE_ID));
        }
        proof {
            assert(self@.sq_linked(0));
        }
        match self.ring_sq(ADMIN_QUEUE_ID, val, &mut env.acc) {
            Err(e) => Err(e),
            Ok(_) => {
                self.process_admin_queue(&mut env.msix, &mut env.acc, &mut env.events);
                Ok(())
            },
        }
    }

    /// Performs a ring of the doorbell of the admin completion queue. Commands
    /// that found no room for their completions may have been left.
    pub fn ring_admin_cq(&mut self, val: u16, env: &mut NvmeEnv) -> (r: Result<(), NvmeError>)
        requires
            in_env(*old(self), *old(env)).wf(),
        ensures
            ({
                let (m, e) = admin_cq_rung(in_env(*old(self), *old(env)), val);
                &&& in_env(*final(self), *final(env)) == m
                &&& r == result_of(e)
            }),
            in_env(*final(self), *final(env)).wf(),
    {
        proof {
            reveal(admin_cq_rung);
        }
        if !self.ctrl.cc.enabled() || self.cqs[0].is_none() {
            return Err(NvmeError::InvalidCompQueue(ADMIN_QUEUE_ID));
        }
        match self.ring_cq(ADMIN_QUEUE_ID, val, &mut env.acc) {
            Err(e) => Err(e),
            Ok(None) => Ok(()),
            Ok(Some(_)) => {
                if self.sqs[0].is_none() {
                    return Err(NvmeError::InvalidSubQueue(ADMIN_QUEUE_ID));
                }
                self.process_admin_queue(&mut env.msix, &mut env.acc, &mut env.events);
                Ok(())
            },
        }
    }

    /// Services a read of a register.
    pub fn reg_ctrl_read(&self, id: CtrlrReg, buf: Vec<u8>) -> (r: Vec<u8>)
        requires
            id is IOQueueDoorBells || ctrl_access_ok(id, 0, buf@.len() as int),
        ensures
            r@ == ctrl_reg_rd(self@, id, buf@),
            r@.len() == buf@.len(),
    {
        let enabled: bool = self.ctrl.cc.enabled();
        let mut out: Vec<u8> = Vec::new();
        match id {
            CtrlrReg::CtrlrCaps => {
                push_le64(&mut out, self.ctrl.cap.0);
                assert(out@ =~= le64(self.ctrl.cap.0));
            },
            CtrlrReg::Version => {
                push_le32(&mut out, NVME_VER_1_0);
                assert(out@ =~= le32(NVME_VER_1_0));
            },
            CtrlrReg::CtrlrCfg => {
                push_le32(&mut out, self.ctrl.cc.0);
                assert(out@ =~= le32(self.ctrl.cc.0));
            },
            CtrlrReg::CtrlrStatus => {
                push_le32(&mut out, self.ctrl.csts.0);
                assert(out@ =~= le32(self.ctrl.csts.0));
            },
            CtrlrReg::AdminQueueAttr => {
                if enabled {
                    return buf;
                }
                push_le32(&mut out, self.ctrl.aqa.0);
                assert(out@ =~= le32(self.ctrl.aqa.0));
            },
            CtrlrReg::AdminSubQAddr => {
                if enabled {
                    return buf;
                }
                push_le64(&mut out, self.ctrl.admin_sq_base);
                assert(out@ =~= le64(self.ctrl.admin_sq_base));
            },
            CtrlrReg::AdminCompQAddr => {
                if enabled {
                    return buf;
                }
                push_le64(&mut out, self.ctrl.admin_cq_base);
                assert(out@ =~= le64(self.ctrl.admin_cq_base));
            },
            // Interrupts are masked through MSI-X only, and doorbells are not
            // meant to be read.
            _ => {
                push_fill(&mut out, 0, buf.len());
                assert(out@ =~= zeros(buf@.len()));
            },
        }
        out
    }

    /// Services a write to a register.
    pub fn reg_ctrl_write(
        &mut self,
        id: CtrlrReg,
        offset: usize,
        data: &Vec<u8>,
        env: &mut NvmeEnv,
    ) -> (r: Result<(), NvmeError>)
        requires
            in_env(*old(self), *old(env)).wf(),
            ctrl_access_ok(id, offset as int, data@.len() as int),
        ensures
            ({
                let (m, e) = ctrl_reg_wr(
                    in_env(*old(self), *old(env)),
                    id,
                    offset as int,
                    data@,
                );
                &&& in_env(*final(self), *final(env)) == m
                &&& r == result_of(e)
            }),
            in_env(*final(self), *final(env)).wf(),
    {
        let ghost v0 = self@;
        match id {
            CtrlrReg::CtrlrCfg => {
                let val: u32 = get_le32(data, 0);
                assert(data@.subrange(0, 4) =~= data@);
                self.ctrlr_cfg_write(Configuration(val), env)
            },
            CtrlrReg::AdminQueueAttr => {
                if !self.ctrl.cc.enabled() {
                    let val: u32 = get_le32(data, 0);
                    assert(data@.subrange(0, 4) =~= data@);
                    self.ctrl.aqa = AdminQueueAttrs(val);
                    proof {
                        lemma_regs(v0, self@);
                    }
                }
                Ok(())
            },
            CtrlrReg::AdminSubQAddr => {
                if !self.ctrl.cc.enabled() {
                    let val: u64 = get_le64(data, 0);
                    assert(data@.subrange(0, 8) =~= data@);
                    self.ctrl.admin_sq_base = val - val % 4096;
                    proof {
                        lemma_regs(v0, self@);
                    }
                }
                Ok(())
            },
            CtrlrReg::AdminCompQAddr => {
                if !self.ctrl.cc.enabled() {
                    let val: u64 = get_le64(data, 0);
                    assert(data@.subrange(0, 8) =~= data@);
                    self.ctrl.admin_cq_base = val - val % 4096;
                    proof {
                        lemma_regs(v0, self@);
                    }
                }
                Ok(())
            },
            CtrlrReg::DoorBellAdminSQ => {
                // The upper half of the register is reserved.
                let val: u32 = get_le32(data, 0);
                assert(data@.subrange(0, 4) =~= data@);
                self.ring_admin_sq((val % 0x1_0000) as u16, env)
            },
            CtrlrReg::DoorBellAdminCQ => {
                let val: u32 = get_le32(data, 0);
                assert(data@.subrange(0, 4) =~= data@);
                self.ring_admin_cq((val % 0x1_0000) as u16, env)
            },
            CtrlrReg::IOQueueDoorBells => {
                let off: usize = offset - DOORBELL_START;
                let is_cq: bool = (off / 4) % 2 == 1;
                let qid: QueueId = if is_cq {
                    ((off - 4) / 8) as u16
                } else {
                    (off / 8) as u16
                };
                let val: u32 = get_le32(data, 0);
                assert(data@.subrange(0, 4) =~= data@.take(4));
                self.ring_doorbell(qid, is_cq, (val % 0x1_0000) as u16, env)
            },
            // Read-only, or to be done through MSI-X
            _ => Ok(()),
        }
    }
}

/// What the block layer is told depends on the submission queues alone.
proof fn lemma_notify_same(v: CtrlView, w: CtrlView, corked: Seq<QueueId>, n: int)
    requires
        v.sqs == w.sqs,
    ensures
        notify_events(v, corked, n) == notify_events(w, corked, n),
    decreases n,
{
    if n > 0 {
        lemma_notify_same(v, w, corked, n - 1);
    }
}


// ---------------------------------------------------------------------------
// The register space
// ---------------------------------------------------------------------------

/// The layout of the register space, up to the doorbells of the I/O queues.
pub struct CtrlrRegs;

/// The registers up to the doorbells of the I/O queues, in their order.
pub open spec fn ctrl_table() -> Seq<RegDef<CtrlrReg>> {
    seq![
        RegDef { id: CtrlrReg::CtrlrCaps, len: 8, passthru: false },
        RegDef { id: CtrlrReg::Version, len: 4, passthru: false },
        RegDef { id: CtrlrReg::IntrMaskSet, len: 4, passthru: false },
        RegDef { id: CtrlrReg::IntrMaskClear, len: 4, passthru: false },
        RegDef { id: CtrlrReg::CtrlrCfg, len: 4, passthru: false },
        RegDef { id: CtrlrReg::Reserved, len: 4, passthru: false },
        RegDef { id: CtrlrReg::CtrlrStatus, len: 4, passthru: false },
        RegDef { id: CtrlrReg::Reserved, len: 4, passthru: false },
        RegDef { id: CtrlrReg::AdminQueueAttr, len: 4, passthru: false },
        RegDef { id: CtrlrReg::AdminSubQAddr, len: 8, passthru: false },
        RegDef { id: CtrlrReg::AdminCompQAddr, len: 8, passthru: false },
        RegDef { id: CtrlrReg::Reserved, len: 0xec8, passthru: false },
        RegDef { id: CtrlrReg::Reserved, len: 0x100, passthru: false },
        RegDef { id: CtrlrReg::DoorBellAdminSQ, len: 4, passthru: false },
        RegDef { id: CtrlrReg::DoorBellAdminCQ, len: 4, passthru: false },
    ]
}

/// Where the registers are: the registers of the controller proper start the
/// space, the doorbells of the admin queues follow at 0x1000, and those of the
/// I/O queues right after them.
pub proof fn law_ctrl_layout()
    ensures
        reg_start(ctrl_table(), 4) == 0x14,
        reg_start(ctrl_table(), 6) == 0x1c,
        reg_start(ctrl_table(), 8) == 0x24,
        reg_start(ctrl_table(), 9) == 0x28,
        reg_start(ctrl_table(), 10) == 0x30,
        reg_start(ctrl_table(), 13) == DOORBELL_START,
        reg_start(ctrl_table(), 14) == DOORBELL_START + 4,
        reg_start(ctrl_table(), 15) == IO_DOORBELL_START,
        ctrl_table().len() == 15,
{
    reveal_with_fuel(reg_start, 16);
}

/// The registers up to the doorbells of the I/O queues, in their order.
pub fn ctrl_layout() -> (r: Vec<RegDef<CtrlrReg>>)
    ensures
        r@ == ctrl_table(),
{
    let v: Vec<RegDef<CtrlrReg>> = vec![
        RegDef { id: CtrlrReg::CtrlrCaps, len: 8, passthru: false },
        RegDef { id: CtrlrReg::Version, len: 4, passthru: false },
        RegDef { id: CtrlrReg::IntrMaskSet, len: 4, passthru: false },
        RegDef { id: CtrlrReg::IntrMaskClear, len: 4, passthru: false },
        RegDef { id: CtrlrReg::CtrlrCfg, len: 4, passthru: false },
        RegDef { id: CtrlrReg::Reserved, len: 4, passthru: false },
        RegDef { id: CtrlrReg::CtrlrStatus, len: 4, passthru: false },
        RegDef { id: CtrlrReg::Reserved, len: 4, passthru: false },
        RegDef { id: CtrlrReg::AdminQueueAttr, len: 4, passthru: false },
        RegDef { id: CtrlrReg::AdminSubQAddr, len: 8, passthru: false },
        RegDef { id: CtrlrReg::AdminCompQAddr, len: 8, passthru: false },
        RegDef { id: CtrlrReg::Reserved, len: 0xec8, passthru: false },
        RegDef { id: CtrlrReg::Reserved, len: 0x100, passthru: false },
        RegDef { id: CtrlrReg::DoorBellAdminSQ, len: 4, passthru: false },
        RegDef { id: CtrlrReg::DoorBellAdminCQ, len: 4, passthru: false },
    ];
    assert(v@ =~= ctrl_table());
    v
}

impl RegSpace<CtrlrRegs> for NvmeCtrl {
    type Id = CtrlrReg;

    type Ctx = NvmeEnv;

    type V = NvmeModel;

    open spec fn model(&self, ctx: &NvmeEnv) -> NvmeModel {
        in_env(*self, *ctx)
    }

    open spec fn inv(&self, ctx: &NvmeEnv) -> bool {
        in_env(*self, *ctx).wf()
    }

    open spec fn span_at(m: NvmeModel, off: int) -> Option<RegSpan<CtrlrReg>> {
        table_find(ctrl_table(), 0, 0, off)
    }

    open spec fn access_ok(m: NvmeModel, id: CtrlrReg, off: int, len: int) -> bool {
        id !is IOQueueDoorBells && ctrl_access_ok(id, off, len)
    }

    open spec fn reg_rd(m: NvmeModel, id: CtrlrReg, off: int, buf: Seq<u8>) -> Seq<u8> {
        ctrl_reg_rd(m.ctrl, id, buf)
    }

    open spec fn reg_wr(m: NvmeModel, id: CtrlrReg, off: int, data: Seq<u8>) -> NvmeModel {
        ctrl_reg_wr(m, id, off, data).0
    }

    proof fn span_laws(&self, ctx: &NvmeEnv, off: int) {
        law_ctrl_layout();
        lemma_table_find(ctrl_table(), 0, 0, off);
    }

    fn find(&self, ctx: &NvmeEnv, off: usize) -> (r: Option<RegSpan<CtrlrReg>>) {
        proof {
            law_ctrl_layout();
        }
        find_in_table(&ctrl_layout(), off)
    }

    fn read_reg(&self, ctx: &NvmeEnv, id: CtrlrReg, off: usize, buf: Vec<u8>) -> (r: Vec<u8>) {
        self.reg_ctrl_read(id, buf)
    }

    fn write_reg(&mut self, ctx: &mut NvmeEnv, id: CtrlrReg, off: usize, data: Vec<u8>) {
        let _res: Result<(), NvmeError> = self.reg_ctrl_write(id, off, &data, ctx);
    }
}

/// What an access to the register space leads to.
pub open spec fn ctrl_space_write(m: NvmeModel, offset: int, data: Seq<u8>) -> NvmeModel {
    if offset >= IO_DOORBELL_START {
        ctrl_reg_wr(m, CtrlrReg::IOQueueDoorBells, offset, data).0
    } else {
        space_write::<CtrlrRegs, NvmeCtrl>(m, offset, data)
    }
}

/// What a read of the register space gives.
pub open spec fn ctrl_space_read(m: NvmeModel, offset: int, buf: Seq<u8>) -> Seq<u8> {
    if offset >= IO_DOORBELL_START {
        zeros(buf.len())
    } else {
        space_read::<CtrlrRegs, NvmeCtrl>(m, offset, buf)
    }
}

impl NvmeCtrl {
    /// Services an access to the register space. Doorbells of I/O queues are
    /// written as a whole, and by accesses that start there.
    pub fn space_rw(&mut self, rwo: RWOp, env: &mut NvmeEnv) -> (r: RWOp)
        requires
            in_env(*old(self), *old(env)).wf(),
            rwo.spec_offset() + rwo.bytes().len() <= CONTROLLER_REG_SZ,
            rwo is Write ==> if rwo.spec_offset() >= IO_DOORBELL_START {
                rwo.bytes().len() >= 4
            } else {
                rwo.spec_offset() + rwo.bytes().len() <= IO_DOORBELL_START
            },
        ensures
            in_env(*final(self), *final(env)).wf(),
            r.spec_offset() == rwo.spec_offset(),
            r is Read <==> rwo is Read,
            rwo is Read ==> {
                &&& *final(self) == *old(self)
                &&& *final(env) == *old(env)
                &&& r.bytes() == ctrl_space_read(
                    in_env(*old(self), *old(env)),
                    rwo.spec_offset() as int,
                    rwo.bytes(),
                )
                &&& r.bytes().len() == rwo.bytes().len()
            },
            rwo is Write ==> {
                &&& r.bytes() == rwo.bytes()
                &&& in_env(*final(self), *final(env)) == ctrl_space_write(
                    in_env(*old(self), *old(env)),
                    rwo.spec_offset() as int,
                    rwo.bytes(),
                )
            },
    {
        match rwo {
            RWOp::Read(ro) => {
                let offset: usize = ro.offset;
                let buf: Vec<u8> = if offset >= IO_DOORBELL_START {
                    self.reg_ctrl_read(CtrlrReg::IOQueueDoorBells, ro.buf)
                } else {
                    process_read::<CtrlrRegs, NvmeCtrl>(self, env, offset, ro.buf)
                };
                RWOp::Read(ReadOp { offset, buf })
            },
            RWOp::Write(wo) => {
                let offset: usize = wo.offset;
                let len: usize = wo.buf.len();
                let copy: Vec<u8> = sub_vec(&wo.buf, 0, len);
                assert(copy@ =~= wo.buf@);
                if offset >= IO_DOORBELL_START {
                    let _res: Result<(), NvmeError> = self.reg_ctrl_write(
                        CtrlrReg::IOQueueDoorBells,
                        offset,
                        &copy,
                        env,
                    );
                } else {
                    process_write::<CtrlrRegs, NvmeCtrl>(self, env, offset, copy);
                }
                RWOp::Write(wo)
            },
        }
    }
}

} // verus!
