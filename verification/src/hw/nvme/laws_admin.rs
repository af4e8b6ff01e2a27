//! What the admin commands of an NVMe controller do.
use crate::block::QueueAction;
use crate::common::{
    law_le16_round_trip, law_le32_round_trip, law_le64_round_trip, law_read_after_write, le16, le32,
    le64, val16, val32, val64, zeros, GuestAddr, GuestRegion, MemAccessView, MemView,
};
use crate::hw::nvme::admin::{admin_exec, all_covered, scattered, zeroed, NvmeModel};
use crate::hw::nvme::bits::{
    lbaf_bytes, psd_bytes, IdentifyController, IdentifyNamespace, LbaFormat, PowerStateDescriptor,
    SubmissionQueueEntry,
};
use crate::hw::nvme::cmds::{
    total_len, AbortCmd, AdminCmd, Completion, CreateIOCQCmd, CreateIOSQCmd, DoorbellBufCfgCmd,
    FeatureIdent, GetFeaturesCmd, GetLogPageCmd, IdentifyCmd, SetFeaturesCmd,
};
use crate::hw::nvme::ctrl::{CtrlView, NvmeEvent};
use crate::hw::nvme::laws::law_prp_pages;
use crate::hw::nvme::queue::{lemma_without_id, CompQueueView, DoorbellBuffer, QueueId, SubQueue};
use vstd::prelude::*;

verus! {

/// Whether nothing changed but for one submission queue and one completion
/// queue.
pub open spec fn queues_kept(v: CtrlView, w: CtrlView, sqid: int, cqid: int) -> bool {
    &&& w.sqs.len() == v.sqs.len()
    &&& w.cqs.len() == v.cqs.len()
    &&& forall|i: int| 0 <= i < v.sqs.len() && i != sqid ==> #[trigger] w.sqs[i] == v.sqs[i]
    &&& forall|i: int| 0 <= i < v.cqs.len() && i != cqid ==> #[trigger] w.cqs[i] == v.cqs[i]
    &&& w.ctrl == v.ctrl
    &&& w.doorbell_buf == v.doorbell_buf
    &&& w.ns_ident == v.ns_ident
    &&& w.ctrl_ident == v.ctrl_ident
}

/// A Create I/O Submission Queue command succeeds if the entry size is set, the
/// queue is contiguous and starts at a page, has 2 to 65536 entries, an
/// identifier from 1 to 15 that is free, and a completion queue that exists and
/// is not the admin queue. The new queue is empty, at the place and of the size
/// that the command names, and the completion queue that the command names
/// serves it. Other queues are not touched.
pub proof fn law_create_sub_queue(m: NvmeModel, c: CreateIOSQCmd)
    requires
        m.ctrl.wf(),
    ensures
        ({
            let v = m.ctrl;
            let (n, comp) = admin_exec(m, AdminCmd::CreateIOSubQ(c));
            let good = {
                &&& (v.ctrl.cc.0 / 0x1_0000) % 16 != 0
                &&& c.phys_contig
                &&& 1 <= c.qid <= 15
                &&& v.sqs[c.qid as int] is None
                &&& 1 <= c.cqid <= 15
                &&& v.cqs[c.cqid as int] is Some
                &&& c.prp % 4096 == 0
                &&& 2 <= c.qsize <= 0x1_0000
            };
            &&& comp.dw0 == 0
            &&& comp.status == 0 <==> good
            &&& !good ==> n == m
            &&& good ==> {
                &&& queues_kept(v, n.ctrl, c.qid as int, c.cqid as int)
                &&& n.ctrl.sqs[c.qid as int] matches Some(s) && {
                    &&& s.id == c.qid
                    &&& s.cq_id == c.cqid
                    &&& s.base.0 == c.prp
                    &&& s.state.size == c.qsize
                    &&& s.state.head == 0
                    &&& s.state.tail == 0
                    &&& s.device_id == v.device_id
                    &&& s.params == v.spec_transfer_params()
                }
                &&& n.ctrl.cqs[c.cqid as int] matches Some(q) && q.sqs.contains(c.qid) && q == (
                CompQueueView {
                    sqs: v.cqs[c.cqid as int]->0.sqs.push(c.qid),
                    ..v.cqs[c.cqid as int]->0
                })
                &&& n.events == m.events.push(
                    NvmeEvent::Block(QueueAction::Associate((c.qid - 1) as u16)),
                )
                &&& n.msix == m.msix
            }
        }),
{
    let v = m.ctrl;
    let w = admin_exec(m, AdminCmd::CreateIOSubQ(c)).0.ctrl;
    if 1 <= c.cqid <= 15 && v.cqs[c.cqid as int] is Some {
        let old_sqs = v.cqs[c.cqid as int]->0.sqs;
        assert(old_sqs.push(c.qid)[old_sqs.len() as int] == c.qid);
    }
}

/// Why a Create I/O Submission Queue command fails, if one thing is wrong.
pub proof fn law_create_sub_queue_errors(m: NvmeModel, c: CreateIOSQCmd)
    requires
        m.ctrl.wf(),
        (m.ctrl.ctrl.cc.0 / 0x1_0000) % 16 != 0,
    ensures
        ({
            let v = m.ctrl;
            let status = admin_exec(m, AdminCmd::CreateIOSubQ(c)).1.status;
            let id_good = 1 <= c.qid <= 15 && v.sqs[c.qid as int] is None;
            let cq_good = 1 <= c.cqid <= 15 && v.cqs[c.cqid as int] is Some;
            // Invalid field
            &&& !c.phys_contig ==> status == 0x0004
            // Invalid queue identifier
            &&& c.phys_contig && !id_good && cq_good ==> status == 0x0202
            // Completion queue invalid
            &&& c.phys_contig && id_good && !cq_good ==> status == 0x0200
            // Invalid queue size
            &&& c.phys_contig && id_good && cq_good && c.prp % 4096 == 0 && !(2 <= c.qsize
                <= 0x1_0000) ==> status == 0x0204
            &&& c.phys_contig && id_good && cq_good && c.prp % 4096 != 0 ==> status == 0x0004
        }),
{
}

/// A Create I/O Completion Queue command succeeds if the entry size is set, the
/// queue is contiguous and starts at a page, has 2 to 65536 entries, an
/// identifier from 1 to 15 that is free, and an interrupt vector that exists.
/// The new queue is empty, its entries are all free, and its first ones will
/// have the phase tag set. Other queues are not touched.
pub proof fn law_create_comp_queue(m: NvmeModel, c: CreateIOCQCmd)
    requires
        m.ctrl.wf(),
        m.ctrl.msix_attached,
    ensures
        ({
            let v = m.ctrl;
            let (n, comp) = admin_exec(m, AdminCmd::CreateIOCompQ(c));
            let good = {
                &&& (v.ctrl.cc.0 / 0x10_0000) % 16 != 0
                &&& c.intr_vector < 1024
                &&& c.phys_contig
                &&& 1 <= c.qid <= 15
                &&& v.cqs[c.qid as int] is None
                &&& c.prp % 4096 == 0
                &&& 2 <= c.qsize <= 0x1_0000
            };
            &&& comp.dw0 == 0
            &&& comp.status == 0 <==> good
            &&& !good ==> n == m
            &&& good ==> {
                &&& queues_kept(v, n.ctrl, -1, c.qid as int)
                &&& n.ctrl.cqs[c.qid as int] matches Some(q) && {
                    &&& q.id == c.qid
                    &&& q.iv == c.intr_vector
                    &&& q.base.0 == c.prp
                    &&& q.state.queue.size == c.qsize
                    &&& q.state.queue.head == 0
                    &&& q.state.queue.tail == 0
                    &&& q.state.avail == c.qsize - 1
                    &&& q.state.phase
                    &&& q.sqs.len() == 0
                    &&& q.corked.len() == 0
                    &&& q.device_id == v.device_id
                }
                &&& n.events == m.events
                &&& n.msix == m.msix
            }
        }),
{
}

/// Why a Create I/O Completion Queue command fails, if one thing is wrong.
pub proof fn law_create_comp_queue_errors(m: NvmeModel, c: CreateIOCQCmd)
    requires
        m.ctrl.wf(),
        m.ctrl.msix_attached,
        (m.ctrl.ctrl.cc.0 / 0x10_0000) % 16 != 0,
    ensures
        ({
            let v = m.ctrl;
            let status = admin_exec(m, AdminCmd::CreateIOCompQ(c)).1.status;
            let id_good = 1 <= c.qid <= 15 && v.cqs[c.qid as int] is None;
            // Invalid interrupt vector
            &&& c.intr_vector >= 1024 ==> status == 0x0210
            // Invalid field
            &&& c.intr_vector < 1024 && !c.phys_contig ==> status == 0x0004
            // Invalid queue identifier
            &&& c.intr_vector < 1024 && c.phys_contig && !id_good ==> status == 0x0202
            &&& c.intr_vector < 1024 && c.phys_contig && id_good && c.prp % 4096 != 0 ==> status
                == 0x0004
            // Invalid queue size
            &&& c.intr_vector < 1024 && c.phys_contig && id_good && c.prp % 4096 == 0 && !(2
                <= c.qsize <= 0x1_0000) ==> status == 0x0204
        }),
{
}

/// A Delete I/O Submission Queue command takes away the queue that it names, if
/// it exists and is not the admin queue: its completion queue no longer serves
/// it, and the block layer is told. Other queues are not touched.
pub proof fn law_delete_sub_queue(m: NvmeModel, id: QueueId)
    requires
        m.ctrl.wf(),
    ensures
        ({
            let v = m.ctrl;
            let (n, comp) = admin_exec(m, AdminCmd::DeleteIOSubQ(id));
            if 1 <= id <= 15 && v.sqs[id as int] is Some {
                let cqid = (v.sqs[id as int]->0).cq_id as int;
                &&& comp.status == 0 && comp.dw0 == 0
                &&& n.ctrl.sqs[id as int] is None
                &&& queues_kept(v, n.ctrl, id as int, cqid)
                &&& n.ctrl.cqs[cqid] matches Some(q) && forall|x: QueueId| #[trigger]
                    q.sqs.contains(x) <==> (v.cqs[cqid]->0).sqs.contains(x) && x != id
                &&& n.events == m.events.push(
                    NvmeEvent::Block(QueueAction::Dissociate((id - 1) as u16)),
                )
            } else {
                // Invalid queue identifier
                comp.status == 0x0202 && n == m
            }
        }),
{
    let v = m.ctrl;
    if 1 <= id <= 15 && v.sqs[id as int] is Some {
        let cqid = (v.sqs[id as int]->0).cq_id as int;
        assert(v.sq_linked(id as int));
        assert(v.cq_linked(cqid));
        lemma_without_id((v.cqs[cqid]->0).sqs, id);
    }
}

/// A Delete I/O Completion Queue command takes away the queue that it names, if
/// it exists, is not the admin queue, and serves no submission queue.
pub proof fn law_delete_comp_queue(m: NvmeModel, id: QueueId)
    requires
        m.ctrl.wf(),
    ensures
        ({
            let v = m.ctrl;
            let (n, comp) = admin_exec(m, AdminCmd::DeleteIOCompQ(id));
            if 1 <= id <= 15 && v.cqs[id as int] is Some {
                let used = exists|j: int|
                    0 <= j < 16 && (#[trigger] v.sqs[j] matches Some(s) && s.cq_id == id);
                if used {
                    // Invalid queue deletion
                    comp.status == 0x0218 && n == m
                } else {
                    &&& comp.status == 0 && comp.dw0 == 0
                    &&& n.ctrl.cqs[id as int] is None
                    &&& queues_kept(v, n.ctrl, -1, id as int)
                    &&& n.events == m.events
                }
            } else {
                // Invalid queue identifier
                comp.status == 0x0202 && n == m
            }
        }),
{
    let v = m.ctrl;
    if 1 <= id <= 15 && v.cqs[id as int] is Some {
        let q = v.cqs[id as int]->0;
        assert(v.cq_linked(id as int));
        if q.sqs.len() > 0 {
            let x = q.sqs[0];
            assert(q.sqs.contains(x));
            assert(v.sqs[x as int] matches Some(s) && s.cq_id == id);
        }
        if exists|j: int| 0 <= j < 16 && (#[trigger] v.sqs[j] matches Some(s) && s.cq_id == id) {
            let j = choose|j: int|
                0 <= j < 16 && (#[trigger] v.sqs[j] matches Some(s) && s.cq_id == id);
            assert(v.sq(j as u16) is Some);
            assert(q.sqs.contains(j as u16));
        }
    }
}

/// Whatever is asked to be aborted is not; only queues that exist can be named.
pub proof fn law_abort(m: NvmeModel, c: AbortCmd)
    requires
        m.ctrl.wf(),
    ensures
        ({
            let (n, comp) = admin_exec(m, AdminCmd::Abort(c));
            &&& n == m
            &&& if c.sqid < 16 && m.ctrl.sqs[c.sqid as int] is Some {
                comp.status == 0 && comp.dw0 == 1
            } else {
                comp.status == 0x8004
            }
        }),
{
}

/// Asynchronous events are refused for good as an invalid opcode, and unknown
/// commands as an internal error. Neither changes anything.
pub proof fn law_other_commands(m: NvmeModel, raw: SubmissionQueueEntry)
    ensures
        admin_exec(m, AdminCmd::AsyncEventReq).0 == m,
        admin_exec(m, AdminCmd::AsyncEventReq).1.status == 0x8002,
        admin_exec(m, AdminCmd::Unknown(raw)).0 == m,
        admin_exec(m, AdminCmd::Unknown(raw)).1.status == 0x000c,
{
}

/// What the guest is told of each feature.
pub proof fn law_get_features(m: NvmeModel, c: GetFeaturesCmd)
    ensures
        ({
            let (n, comp) = admin_exec(m, AdminCmd::GetFeatures(c));
            &&& n == m
            &&& match c.fid {
                // No limit on bursts
                FeatureIdent::Arbitration => comp.status == 0 && comp.dw0 == 7,
                // The numbers of queues, less one
                FeatureIdent::NumberOfQueues => comp.status == 0 && comp.dw0 == 14 + 0x1_0000 * 14,
                FeatureIdent::VolatileWriteCache => comp.status == 0 && comp.dw0 == 1,
                // The vector that was asked about, with coalescing disabled
                FeatureIdent::InterruptVectorConfiguration => comp.status == 0 && comp.dw0
                    == c.cdw11 % 0x1_0000 + 0x1_0000,
                FeatureIdent::PowerManagement
                | FeatureIdent::ErrorRecovery
                | FeatureIdent::InterruptCoalescing
                | FeatureIdent::WriteAtomicity
                | FeatureIdent::AsynchronousEventConfiguration => comp.status == 0 && comp.dw0 == 0,
                FeatureIdent::TemperatureThreshold => {
                    let sel = (c.cdw11 / 0x1_0000) % 16;
                    let typ = (c.cdw11 / 0x10_0000) % 4;
                    if 9 <= sel <= 14 || typ >= 2 {
                        comp.status == 0x0004
                    } else {
                        &&& comp.status == 0
                        &&& comp.dw0 == sel * 0x1_0000 + typ * 0x10_0000 + if typ == 1 {
                            0int
                        } else if sel == 0 {
                            373
                        } else {
                            0xffff
                        }
                    }
                },
                _ => comp.status == 0x8004,
            }
        }),
{
}

/// As many queues are granted as are asked for, but no more than 15 of each
/// kind. Numbers are told less one.
pub proof fn law_queues_granted(m: NvmeModel, cdw11: u32)
    ensures
        ({
            let c = SetFeaturesCmd { fid: FeatureIdent::NumberOfQueues, cdw11 };
            let (n, comp) = admin_exec(m, AdminCmd::SetFeatures(c));
            let (nsq, ncq) = (cdw11 % 0x1_0000, cdw11 / 0x1_0000);
            &&& n == m
            &&& if nsq == 0xffff || ncq == 0xffff {
                comp.status == 0x0004
            } else {
                &&& comp.status == 0
                &&& comp.dw0 % 0x1_0000 == if nsq < 14 {
                    nsq
                } else {
                    14
                }
                &&& comp.dw0 / 0x1_0000 == if ncq < 14 {
                    ncq
                } else {
                    14
                }
            }
        }),
{
}

/// Apart from the numbers of queues, only the write cache can be set.
pub proof fn law_set_features(m: NvmeModel, c: SetFeaturesCmd)
    requires
        c.fid !is NumberOfQueues,
    ensures
        admin_exec(m, AdminCmd::SetFeatures(c)).0 == m,
        admin_exec(m, AdminCmd::SetFeatures(c)).1.status == if c.fid is VolatileWriteCache {
            0
        } else {
            0x8004u16
        },
{
}

/// The doorbell buffers are used by all queues from then on, if both are pages:
/// the words of submission queue `n` stand at `8 * n` in them, and those of
/// completion queue `n` after them.
#[verifier::rlimit(40)]
pub proof fn law_doorbell_buffers(m: NvmeModel, c: DoorbellBufCfgCmd, i: int)
    requires
        m.ctrl.wf(),
        (m.ctrl.ctrl.cc.0 / 0x80) % 16 == 0,
        0 <= i < 16,
        c.shadow_doorbell_buffer <= 0xffff_ffff_ffff_0000,
        c.eventidx_buffer <= 0xffff_ffff_ffff_0000,
    ensures
        ({
            let (n, comp) = admin_exec(m, AdminCmd::DoorbellBufCfg(c));
            if c.shadow_doorbell_buffer % 4096 != 0 || c.eventidx_buffer % 4096 != 0 {
                comp.status == 0x0004 && n == m
            } else {
                &&& comp.status == 0
                &&& n.ctrl.doorbell_buf == Some(
                    DoorbellBuffer {
                        shadow: GuestAddr(c.shadow_doorbell_buffer),
                        eventidx: GuestAddr(c.eventidx_buffer),
                    },
                )
                &&& match (m.ctrl.sqs[i], n.ctrl.sqs[i]) {
                    (Some(s), Some(t)) => {
                        &&& t.state.db_buf == Some(
                            DoorbellBuffer {
                                shadow: GuestAddr((c.shadow_doorbell_buffer + 8 * i) as u64),
                                eventidx: GuestAddr((c.eventidx_buffer + 8 * i) as u64),
                            },
                        )
                        &&& t.state.head == s.state.head && t.state.tail == s.state.tail
                    },
                    (None, None) => true,
                    _ => false,
                }
                &&& match (m.ctrl.cqs[i], n.ctrl.cqs[i]) {
                    (Some(q), Some(t)) => {
                        &&& t.state.queue.db_buf == Some(
                            DoorbellBuffer {
                                shadow: GuestAddr((c.shadow_doorbell_buffer + 8 * i + 4) as u64),
                                eventidx: GuestAddr((c.eventidx_buffer + 8 * i + 4) as u64),
                            },
                        )
                        &&& t.state.queue.head == q.state.queue.head && t.state.queue.tail
                            == q.state.queue.tail
                    },
                    (None, None) => true,
                    _ => false,
                }
            }
        }),
{
    vstd::arithmetic::power2::lemma2_to64();
    assert(m.ctrl.ctrl.cc.spec_mps() == 0);
    assert(crate::hw::nvme::bits::page_size_of(0) == 4096);
    assert(m.ctrl.sq_linked(i));
    assert(m.ctrl.cq_linked(i));
}

/// The buffers that a queue is given tell the guest where the queue stands: the
/// tail of a submission queue, the head of a completion queue. A queue that is
/// brought over from another host leaves them alone.
pub proof fn law_shadow_synced(s: SubQueue, q: CompQueueView, b: DoorbellBuffer, acc: MemAccessView)
    requires
        acc.accessible,
    ensures
        ({
            let at = b.for_queue(false, s.id).shadow;
            acc.mem.covers(at, 4) ==> val32(
                s.db_buf_synced(Some(b), false, acc).mem.at(at, 4),
            ) == s.state.tail
        }),
        ({
            let at = b.for_queue(true, q.id).shadow;
            acc.mem.covers(at, 4) ==> val32(
                q.db_buf_synced(Some(b), false, acc).mem.at(at, 4),
            ) == q.state.queue.head
        }),
        s.db_buf_synced(Some(b), true, acc) == acc,
        q.db_buf_synced(Some(b), true, acc) == acc,
{
    let tail = s.state.tail as u32;
    let head = q.state.queue.head as u32;
    law_le32_round_trip(tail, le32(tail));
    law_le32_round_trip(head, le32(head));
    let a1 = b.for_queue(false, s.id).shadow;
    let a2 = b.for_queue(true, q.id).shadow;
    if acc.mem.covers(a1, 4) {
        law_read_after_write(acc.mem, a1, le32(tail));
    }
    if acc.mem.covers(a2, 4) {
        law_read_after_write(acc.mem, a2, le32(head));
    }
}

// ---------------------------------------------------------------------------
// Identify and logs
// ---------------------------------------------------------------------------

proof fn lemma_psd_len(s: Seq<PowerStateDescriptor>)
    ensures
        psd_bytes(s).len() == 32 * s.len(),
    decreases s.len(),
{
    if s.len() > 0 {
        lemma_psd_len(s.drop_last());
        assert(s.last().encode().len() == 32);
    }
}

proof fn lemma_lbaf_bytes(s: Seq<LbaFormat>, i: int)
    requires
        0 <= i < s.len(),
    ensures
        lbaf_bytes(s).len() == 4 * s.len(),
        lbaf_bytes(s)[4 * i + 2] == s[i].lbads,
    decreases s.len(),
{
    let init = s.drop_last();
    if i < init.len() {
        lemma_lbaf_bytes(init, i);
        assert(init[i] == s[i]);
    } else {
        if init.len() > 0 {
            lemma_lbaf_bytes(init, 0);
        } else {
            assert(lbaf_bytes(init).len() == 0);
        }
    }
}

/// Where a guest finds what the controller says of itself.
pub proof fn law_identify_controller_bytes(id: IdentifyController)
    ensures
        ({
            let b = id.encode();
            &&& b.len() == 4096
            &&& val16(b.subrange(0, 2)) == id.vid
            &&& val16(b.subrange(2, 4)) == id.ssvid
            &&& b.subrange(4, 24) == id.sn@
            &&& b.subrange(24, 64) == id.mn@
            &&& b.subrange(64, 72) == id.fr@
            &&& b.subrange(73, 76) == id.ieee@
            &&& b[77] == id.mdts
            &&& val16(b.subrange(256, 258)) == id.oacs
            &&& b[512] == id.sqes.0
            &&& b[513] == id.cqes.0
            &&& val32(b.subrange(516, 520)) == id.nn
            &&& b[525] == id.vwc
        }),
{
    let b = id.encode();
    lemma_psd_len(id.psd@);
    law_le16_round_trip(id.vid, le16(id.vid));
    law_le16_round_trip(id.ssvid, le16(id.ssvid));
    law_le16_round_trip(id.oacs, le16(id.oacs));
    law_le32_round_trip(id.nn, le32(id.nn));
    assert(id.encode_capabilities().len() == 256);
    assert(id.encode_admin().len() == 256);
    assert(id.encode_nvm().len() == 1536);
    assert(b.subrange(0, 2) =~= le16(id.vid));
    assert(b.subrange(2, 4) =~= le16(id.ssvid));
    assert(b.subrange(4, 24) =~= id.sn@);
    assert(b.subrange(24, 64) =~= id.mn@);
    assert(b.subrange(64, 72) =~= id.fr@);
    assert(b.subrange(73, 76) =~= id.ieee@);
    assert(b.subrange(256, 258) =~= le16(id.oacs));
    assert(b.subrange(516, 520) =~= le32(id.nn));
}

/// Where a guest finds the size of a namespace, and that of its blocks.
pub proof fn law_identify_namespace_bytes(id: IdentifyNamespace, i: int)
    requires
        0 <= i < 16,
    ensures
        ({
            let b = id.encode();
            &&& b.len() == 4096
            &&& val64(b.subrange(0, 8)) == id.nsze
            &&& val64(b.subrange(8, 16)) == id.ncap
            &&& val64(b.subrange(16, 24)) == id.nuse
            &&& b[25] == id.nlbaf
            &&& b[26] == id.flbas
            &&& b[128 + 4 * i + 2] == id.lbaf@[i].lbads
        }),
{
    let b = id.encode();
    lemma_lbaf_bytes(id.lbaf@, i);
    law_le64_round_trip(id.nsze, le64(id.nsze));
    law_le64_round_trip(id.ncap, le64(id.ncap));
    law_le64_round_trip(id.nuse, le64(id.nuse));
    assert(b.subrange(0, 8) =~= le64(id.nsze));
    assert(b.subrange(8, 16) =~= le64(id.ncap));
    assert(b.subrange(16, 24) =~= le64(id.nuse));
}

proof fn lemma_one_region(mem: MemView, addr: u64, data: Seq<u8>)
    requires
        data.len() == 4096,
        mem.covers(GuestAddr(addr), 4096),
    ensures
        ({
            let r = seq![GuestRegion(GuestAddr(addr), 4096)];
            &&& all_covered(mem, r)
            &&& total_len(r) == 4096
            &&& scattered(mem, r, data) == mem.put(GuestAddr(addr), data)
        }),
{
    let r = seq![GuestRegion(GuestAddr(addr), 4096)];
    reveal_with_fuel(total_len, 2);
    reveal_with_fuel(scattered, 2);
    assert(r.drop_last() =~= Seq::empty());
    assert(data.take(4096) =~= data);
    assert(r.skip(1) =~= Seq::empty());
}

/// An Identify command that names a page gives the guest, in that page, the
/// description of what it names: the controller, or the one namespace.
pub proof fn law_identify(m: NvmeModel, c: IdentifyCmd)
    requires
        c.cns <= 1,
        c.prp1 % 4096 == 0,
        c.prp2 % 4 == 0,
        m.acc.mem.covers(GuestAddr(c.prp1), 4096),
    ensures
        ({
            let (n, comp) = admin_exec(m, AdminCmd::Identify(c));
            &&& n.ctrl == m.ctrl && n.msix == m.msix && n.events == m.events
            &&& if c.cns == 1 {
                &&& comp.status == 0
                &&& n.acc.mem.at(GuestAddr(c.prp1), 4096) == m.ctrl.ctrl_ident.encode()
            } else if c.nsid == 1 {
                &&& comp.status == 0
                &&& n.acc.mem.at(GuestAddr(c.prp1), 4096) == m.ctrl.ns_ident.encode()
            } else {
                // Invalid namespace
                comp.status == 0x0016 && n == m
            }
        }),
{
    law_prp_pages(4096, c.prp1, c.prp2, m.acc.mem);
    let data = if c.cns == 1 {
        m.ctrl.ctrl_ident.encode()
    } else {
        m.ctrl.ns_ident.encode()
    };
    law_identify_controller_bytes(m.ctrl.ctrl_ident);
    law_identify_namespace_bytes(m.ctrl.ns_ident, 0);
    lemma_one_region(m.acc.mem, c.prp1, data);
    law_read_after_write(m.acc.mem, GuestAddr(c.prp1), data);
}

/// A log page that is to be written within one page of memory is written as
/// zeros, as many as the command asks for.
pub proof fn law_log_page(m: NvmeModel, c: GetLogPageCmd)
    requires
        c.len > 0,
        c.prp1 % 4096 + c.len <= 4096,
        c.prp1 % 4 == 0,
        c.prp2 % 4 == 0,
    ensures
        ({
            let (n, comp) = admin_exec(m, AdminCmd::GetLogPage(c));
            &&& n.ctrl == m.ctrl && n.msix == m.msix && n.events == m.events
            &&& if m.acc.mem.covers(GuestAddr(c.prp1), c.len as int) {
                &&& comp.status == 0
                &&& n.acc.mem.at(GuestAddr(c.prp1), c.len as int) == zeros(c.len as nat)
            } else {
                // Data transfer error
                comp.status == 0x0008 && n == m
            }
        }),
{
    law_prp_pages(c.len as u64, c.prp1, c.prp2, m.acc.mem);
    let r = seq![GuestRegion(GuestAddr(c.prp1), c.len as u64)];
    reveal_with_fuel(zeroed, 2);
    assert(r[0] == GuestRegion(GuestAddr(c.prp1), c.len as u64));
    if m.acc.mem.covers(GuestAddr(c.prp1), c.len as int) {
        law_read_after_write(m.acc.mem, GuestAddr(c.prp1), zeros(c.len as nat));
        assert(all_covered(m.acc.mem, r));
    } else {
        assert(!all_covered(m.acc.mem, r));
    }
}

} // verus!
