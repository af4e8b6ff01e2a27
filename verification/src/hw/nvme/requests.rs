//! Requests of the guest that are handed on to a block backend.
use crate::block::{IoResult, Operation, Request};
use crate::common::{GuestRegion, MemCtx, MemView};
use crate::hw::nvme::admin::{fire_vector, NvmeModel};
use crate::hw::nvme::bits::{SubmissionQueueEntry, STS_INTERNAL_ERR, STS_INVAL_FIELD};
use crate::hw::nvme::cmds::{gen_err, io_completion, Completion, NvmCmd, ParseErr, PrpView};
use crate::hw::nvme::ctrl::{lemma_set_cq, lemma_set_sq, CtrlView, NvmeCtrl, MAX_NUM_QUEUES};
use crate::hw::nvme::queue::{
    with_id, CompQueueView, Permit, PopOutcome, QueueId, SubQueue, TransferParams, ADMIN_QUEUE_ID,
};
use crate::hw::nvme::regs::{in_env, NvmeEnv};
use vstd::prelude::*;

verus! {

/// What a command asks of the backend.
#[verifier::ext_equal]
pub struct RequestView {
    pub op: Operation,
    pub regions: Seq<GuestRegion>,
}

/// The offset and size of a data transfer in bytes, or the completion that
/// refuses it: it must not be larger than the limit, and its numbers must not
/// be out of range, nor its PRP entries be misaligned.
pub open spec fn transfer(params: TransferParams, slba: u64, nlb: u32, prp1: u64, prp2: u64) -> Result<
    (u64, u64),
    Completion,
> {
    let off = params.lba_data_size * slba;
    let size = params.lba_data_size * nlb;
    if size > params.max_data_tranfser_size || size > u64::MAX || off > u64::MAX || prp1 % 4 != 0
        || prp2 % 4 != 0 {
        Err(gen_err(STS_INVAL_FIELD).spec_dnr())
    } else {
        Ok((off as u64, size as u64))
    }
}

/// What a command of an I/O queue asks of the backend, or the completion that
/// it gets at once.
pub open spec fn request_of(
    params: TransferParams,
    cmd: Result<NvmCmd, ParseErr>,
    mem: MemView,
) -> Result<RequestView, Completion> {
    match cmd {
        Ok(NvmCmd::Write(c)) => match transfer(params, c.slba, c.nlb, c.prp1, c.prp2) {
            Err(comp) => Err(comp),
            Ok((off, size)) => Ok(
                RequestView {
                    op: Operation::Write(off, size),
                    regions: PrpView::spec_new(size, c.prp1, c.prp2).regions(mem),
                },
            ),
        },
        Ok(NvmCmd::Read(c)) => match transfer(params, c.slba, c.nlb, c.prp1, c.prp2) {
            Err(comp) => Err(comp),
            Ok((off, size)) => Ok(
                RequestView {
                    op: Operation::Read(off, size),
                    regions: PrpView::spec_new(size, c.prp1, c.prp2).regions(mem),
                },
            ),
        },
        Ok(NvmCmd::Flush) => Ok(RequestView { op: Operation::Flush, regions: Seq::empty() }),
        _ => Err(gen_err(STS_INTERNAL_ERR)),
    }
}

/// A backend is never asked to discard anything, nor to move more data than the
/// limit allows.
pub proof fn law_request_limits(
    params: TransferParams,
    cmd: Result<NvmCmd, ParseErr>,
    mem: MemView,
)
    ensures
        request_of(params, cmd, mem) matches Ok(r) ==> match r.op {
            Operation::Read(off, size) => size <= params.max_data_tranfser_size,
            Operation::Write(off, size) => size <= params.max_data_tranfser_size,
            Operation::Flush => true,
            Operation::Discard(off, size) => false,
        },
{
}

/// What an attempt to take an entry off the submission queue `qid` gives.
pub open spec fn req_pop(m: NvmeModel, qid: int) -> PopOutcome {
    let sq = m.ctrl.sqs[qid]->0;
    sq.spec_pop(m.ctrl.cqs[sq.cq_id as int]->0, m.acc)
}

/// What such an attempt leaves behind.
pub open spec fn req_popped(m: NvmeModel, qid: int) -> NvmeModel {
    let out = req_pop(m, qid);
    let cqid = (m.ctrl.sqs[qid]->0).cq_id as int;
    NvmeModel {
        ctrl: m.ctrl.with_cq(cqid, Some(out.cq)).with_sq(qid, Some(out.sq)),
        acc: out.acc,
        ..m
    }
}

/// The completion queue that a permit is for, if it still exists.
pub open spec fn permit_cq(v: CtrlView, permit: Permit) -> Option<CompQueueView> {
    match v.cq(permit.cq_id) {
        Some(q) => if q.serial == permit.cq_serial {
            Some(q)
        } else {
            None
        },
        None => None,
    }
}

/// The submission queue that the command of a permit came from, if it still
/// exists.
pub open spec fn permit_sq(v: CtrlView, permit: Permit) -> Option<SubQueue> {
    match v.sq(permit.sq_id) {
        Some(s) => if s.serial == permit.sq_serial {
            Some(s)
        } else {
            None
        },
        None => None,
    }
}

/// Whether there is room for the completion that a permit promises, unless the
/// queue is gone.
pub open spec fn permit_live(v: CtrlView, permit: Permit) -> bool {
    permit_cq(v, permit) matches Some(q) ==> q.state.outstanding() > 0
}

/// What the completion of a command leads to. Nothing is done if the completion
/// queue is gone.
pub open spec fn req_completed(m: NvmeModel, permit: Permit, comp: Completion) -> NvmeModel {
    match permit_cq(m.ctrl, permit) {
        None => m,
        Some(q) => {
            let (q2, acc, iv) = permit.spec_complete(comp, q, permit_sq(m.ctrl, permit), m.acc);
            (NvmeModel { ctrl: m.ctrl.with_cq(permit.cq_id as int, Some(q2)), acc, ..m }).fired(iv)
        },
    }
}

/// What a search for the next request, among up to `fuel` commands, leads to.
pub open spec fn req_run(m: NvmeModel, qid: int, fuel: nat) -> (
    NvmeModel,
    Option<(RequestView, Permit)>,
)
    decreases fuel,
{
    if fuel == 0 {
        (m, None)
    } else {
        let params = (m.ctrl.sqs[qid]->0).params;
        let after = req_popped(m, qid);
        match req_pop(m, qid).got {
            None => (after, None),
            Some((sub, permit, _)) => match request_of(
                params,
                NvmCmd::spec_parse(sub),
                after.acc.mem,
            ) {
                Ok(req) => (after, Some((req, permit))),
                Err(comp) => req_run(req_completed(after, permit, comp), qid, (fuel - 1) as nat),
            },
        }
    }
}

/// What a search for the next request of the queue `qid` leads to.
#[verifier::opaque]
pub open spec fn req_found(m: NvmeModel, qid: QueueId) -> (
    NvmeModel,
    Option<(RequestView, Permit)>,
) {
    if qid == ADMIN_QUEUE_ID || m.ctrl.sq(qid) is None {
        (m, None)
    } else {
        req_run(m, qid as int, u64::MAX as nat)
    }
}

/// The offset and size of a data transfer.
fn check_transfer(params: &TransferParams, slba: u64, nlb: u32, prp1: u64, prp2: u64) -> (r: Result<
    (u64, u64),
    Completion,
>)
    ensures
        r == transfer(*params, slba, nlb, prp1, prp2),
{
    let size: Option<u64> = params.lba_data_size.checked_mul(nlb as u64);
    let off: Option<u64> = params.lba_data_size.checked_mul(slba);
    match (off, size) {
        (Some(off), Some(size)) => {
            if size > params.max_data_tranfser_size || prp1 % 4 != 0 || prp2 % 4 != 0 {
                Err(Completion::generic_err(STS_INVAL_FIELD).dnr())
            } else {
                Ok((off, size))
            }
        },
        _ => Err(Completion::generic_err(STS_INVAL_FIELD).dnr()),
    }
}

/// The request that a command of an I/O queue makes, or its completion.
pub fn make_request(
    params: &TransferParams,
    cmd: &Result<NvmCmd, ParseErr>,
    mem: &MemCtx,
) -> (r: Result<Request, Completion>)
    ensures
        match r {
            Ok(req) => request_of(*params, *cmd, mem@) == Ok::<RequestView, Completion>(
                (RequestView { op: req.op, regions: req.regions@ }),
            ),
            Err(comp) => request_of(*params, *cmd, mem@) == Err::<RequestView, Completion>(comp),
        },
{
    match cmd {
        Ok(NvmCmd::Write(c)) => match check_transfer(params, c.slba, c.nlb, c.prp1, c.prp2) {
            Err(comp) => Err(comp),
            Ok((off, size)) => {
                let regions: Vec<GuestRegion> = c.data(size, mem).collect();
                Ok(Request { op: Operation::Write(off, size), regions })
            },
        },
        Ok(NvmCmd::Read(c)) => match check_transfer(params, c.slba, c.nlb, c.prp1, c.prp2) {
            Err(comp) => Err(comp),
            Ok((off, size)) => {
                let regions: Vec<GuestRegion> = c.data(size, mem).collect();
                Ok(Request { op: Operation::Read(off, size), regions })
            },
        },
        Ok(NvmCmd::Flush) => {
            let regions: Vec<GuestRegion> = Vec::new();
            assert(regions@ =~= Seq::<GuestRegion>::empty());
            Ok(Request { op: Operation::Flush, regions })
        },
        _ => Err(Completion::generic_err(STS_INTERNAL_ERR)),
    }
}

impl NvmeCtrl {
    /// Takes an entry off the submission queue of an I/O queue.
    fn pop_req(&mut self, qid: QueueId, env: &mut NvmeEnv) -> (r: Option<
        (SubmissionQueueEntry, Permit, u16),
    >)
        requires
            in_env(*old(self), *old(env)).wf(),
            0 < qid < MAX_NUM_QUEUES,
            old(self)@.sqs[qid as int] is Some,
        ensures
            in_env(*final(self), *final(env)) == req_popped(
                in_env(*old(self), *old(env)),
                qid as int,
            ),
            r == req_pop(in_env(*old(self), *old(env)), qid as int).got,
            in_env(*final(self), *final(env)).wf(),
            final(self)@.sqs[qid as int] matches Some(s) && s.params == (old(
                self,
            )@.sqs[qid as int]->0).params,
            r matches Some((_, permit, _)) ==> permit_live(final(self)@, permit),
    {
        let ghost v0 = self@;
        let ghost m0 = in_env(*self, *env);
        let cqid: QueueId = match &self.sqs[qid as usize] {
            Some(sq) => sq.cq_id,
            None => 0,
        };
        proof {
            assert(v0.sq_linked(qid as int));
            assert(v0.sq_ok(qid as int));
            assert(v0.cq_ok(cqid as int));
            assert(v0.cq_linked(cqid as int));
        }
        let popped: Option<(SubmissionQueueEntry, Permit, u16)> = match (
            &mut self.cqs[cqid as usize],
            &mut self.sqs[qid as usize],
        ) {
            (Some(cq), Some(sq)) => sq.pop(cq, &mut env.acc),
            _ => None,
        };
        proof {
            let out = req_pop(m0, qid as int);
            let q0 = v0.cqs[cqid as int]->0;
            lemma_no_admin_corked(q0, v0.sqs[qid as int]->0, m0.acc.mem);
            lemma_set_cq(v0, cqid as int, out.cq);
            let w = v0.with_cq(cqid as int, Some(out.cq));
            lemma_set_sq(w, qid as int, out.sq);
            assert(self@.cqs =~= w.with_sq(qid as int, Some(out.sq)).cqs);
            assert(self@.sqs =~= w.with_sq(qid as int, Some(out.sq)).sqs);
        }
        popped
    }

    /// Completes a command, unless its completion queue is gone. Gives back
    /// the room if its submission queue is gone.
    pub fn complete_req(&mut self, permit: Permit, comp: Completion, env: &mut NvmeEnv)
        requires
            in_env(*old(self), *old(env)).wf(),
            permit_live(old(self)@, permit),
        ensures
            in_env(*final(self), *final(env)) == req_completed(
                in_env(*old(self), *old(env)),
                permit,
                comp,
            ),
            in_env(*final(self), *final(env)).wf(),
            final(self)@.sqs == old(self)@.sqs,
    {
        let ghost v0 = self@;
        let cqid: QueueId = permit.cq_id;
        let sqid: QueueId = permit.sq_id;
        if cqid as usize >= MAX_NUM_QUEUES {
            return ;
        }
        proof {
            assert(v0.cq_ok(cqid as int));
            assert(v0.cq_linked(cqid as int));
        }
        let same_sq: bool = (sqid as usize) < MAX_NUM_QUEUES && match &self.sqs[sqid as usize] {
            Some(sq) => sq.serial == permit.sq_serial,
            None => false,
        };
        let same_cq: bool = match &self.cqs[cqid as usize] {
            Some(cq) => cq.serial == permit.cq_serial,
            None => false,
        };
        if !same_cq {
            return ;
        }
        let sq: Option<&SubQueue> = if same_sq {
            self.sqs[sqid as usize].as_ref()
        } else {
            None
        };
        let iv: Option<u16> = match &mut self.cqs[cqid as usize] {
            Some(cq) => permit.complete(comp, cq, sq, &mut env.acc),
            None => None,
        };
        proof {
            let q = self@.cqs[cqid as int]->0;
            lemma_set_cq(v0, cqid as int, q);
            assert(self@.cqs =~= v0.with_cq(cqid as int, Some(q)).cqs);
        }
        fire_vector(iv, &mut env.msix, &mut env.events);
    }

    /// Takes the next request to the backend off an I/O queue, together with
    /// the permit for its completion. Commands that make no request are
    /// completed.
    pub fn next_req(&mut self, qid: QueueId, env: &mut NvmeEnv) -> (r: Option<(Request, Permit)>)
        requires
            in_env(*old(self), *old(env)).wf(),
        ensures
            ({
                let (m, found) = req_found(in_env(*old(self), *old(env)), qid);
                &&& in_env(*final(self), *final(env)) == m
                &&& match r {
                    None => found is None,
                    Some((req, permit)) => found == Some(
                        ((RequestView { op: req.op, regions: req.regions@ }), permit),
                    ),
                }
            }),
            in_env(*final(self), *final(env)).wf(),
            r matches Some((_, permit)) ==> permit_live(final(self)@, permit),
    {
        proof {
            reveal(req_found);
        }
        if qid == ADMIN_QUEUE_ID || qid as usize >= MAX_NUM_QUEUES
            || self.sqs[qid as usize].is_none() {
            return None;
        }
        let params: TransferParams = match &self.sqs[qid as usize] {
            Some(sq) => sq.params(),
            None => TransferParams { lba_data_size: 0, max_data_tranfser_size: 0 },
        };
        let ghost goal = req_run(in_env(*self, *env), qid as int, u64::MAX as nat);
        let mut fuel: u64 = u64::MAX;
        while fuel > 0
            invariant
                in_env(*self, *env).wf(),
                0 < qid < MAX_NUM_QUEUES,
                self@.sqs[qid as int] matches Some(s) && s.params == params,
                req_run(in_env(*self, *env), qid as int, fuel as nat) == goal,
                goal == req_found(in_env(*old(self), *old(env)), qid),
            decreases fuel,
        {
            let ghost m0 = in_env(*self, *env);
            match self.pop_req(qid, env) {
                None => {
                    return None;
                },
                Some((sub, permit, _idx)) => {
                    let cmd: Result<NvmCmd, ParseErr> = NvmCmd::parse(sub);
                    match make_request(&params, &cmd, &env.acc.mem) {
                        Ok(req) => {
                            return Some((req, permit));
                        },
                        Err(comp) => {
                            self.complete_req(permit, comp, env);
                        },
                    }
                },
            }
            fuel -= 1;
        }
        None
    }

    /// Completes a request with the result that the backend reports. The
    /// backend was not asked to discard anything.
    pub fn complete(&mut self, op: Operation, result: IoResult, permit: Permit, env: &mut NvmeEnv)
        requires
            op !is Discard,
            in_env(*old(self), *old(env)).wf(),
            permit_live(old(self)@, permit),
        ensures
            in_env(*final(self), *final(env)) == req_completed(
                in_env(*old(self), *old(env)),
                permit,
                io_completion(result),
            ),
            in_env(*final(self), *final(env)).wf(),
    {
        self.complete_req(permit, Completion::from(result), env);
    }
}

/// An I/O queue that finds no room does not make the admin queue wait.
proof fn lemma_no_admin_corked(q: CompQueueView, sq: SubQueue, mem: MemView)
    requires
        !q.corked.contains(ADMIN_QUEUE_ID),
        sq.id != ADMIN_QUEUE_ID,
    ensures
        !with_id(q.corked, sq.id).contains(ADMIN_QUEUE_ID),
{
    if with_id(q.corked, sq.id).contains(ADMIN_QUEUE_ID) {
        let s = q.corked.push(sq.id);
        let i = choose|i: int| 0 <= i < s.len() && s[i] == ADMIN_QUEUE_ID;
        assert(q.corked[i] == ADMIN_QUEUE_ID);
    }
}

} // verus!
