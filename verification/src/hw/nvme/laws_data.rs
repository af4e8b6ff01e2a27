//! What a guest can rely on of how an NVMe controller moves data: lists of
//! pages, results in memory, doorbells in memory, and interrupts.
use crate::common::{
    law_le16_round_trip, law_read_after_write, law_write_elsewhere, le16, val16, val32, val64,
    GuestAddr, GuestRegion, MemView,
};
use crate::hw::nvme::admin::{admin_result, all_covered, lemma_put_covers, scattered, NvmeModel};
use crate::hw::nvme::bits::IdentifyController;
use crate::hw::nvme::cmds::{total_len, NvmCmd, PrpNext, PrpView};
use crate::hw::nvme::ctrl::NvmeEvent;
use crate::hw::nvme::device::identified;
use crate::hw::nvme::queue::{
    CompQueueState, CompQueueView, DoorbellBuffer, Permit, QueueId, QueueState, SubQueue,
};
use crate::hw::nvme::requests::{req_found, req_pop, req_popped, req_run, request_of, RequestView};
use crate::hw::pci::msix::{MsiMsg, MsixEntry};
use vstd::prelude::*;

verus! {

// ---------------------------------------------------------------------------
// Lists of pages
// ---------------------------------------------------------------------------

/// Entry `k` of a list of pages.
pub open spec fn listed(mem: MemView, list: int, k: int) -> u64 {
    val64(mem.at(GuestAddr((list + 8 * k) as u64), 8))
}

/// Whether entry `k` of a list can be read and is a page.
pub open spec fn entry_readable(mem: MemView, list: int, k: int) -> bool {
    &&& mem.covers(GuestAddr((list + 8 * k) as u64), 8)
    &&& listed(mem, list, k) % 4096 == 0
}

/// Whether the first `n` entries of a list can be read and are pages.
pub open spec fn list_readable(mem: MemView, list: int, n: int) -> bool {
    forall|k: int| 0 <= k < n ==> #[trigger] entry_readable(mem, list, k)
}

/// What is left of data after `k` pages of it.
pub open spec fn page_part(size: int, k: int) -> int {
    if size - 4096 * k < 4096 {
        size - 4096 * k
    } else {
        4096
    }
}

/// A list without its first entry.
proof fn lemma_list_tail(mem: MemView, list: int, tail: int, n: int)
    requires
        list_readable(mem, list, n),
        tail == list + 8,
    ensures
        list_readable(mem, tail, n - 1),
        forall|k: int| 0 <= k < n - 1 ==> #[trigger] listed(mem, tail, k) == listed(mem, list, k + 1),
{
    assert forall|k: int| 0 <= k < n - 1 implies #[trigger] entry_readable(mem, tail, k) by {
        assert(entry_readable(mem, list, k + 1));
        assert(tail + 8 * k == list + 8 * (k + 1));
    }
    assert forall|k: int| 0 <= k < n - 1 implies #[trigger] listed(mem, tail, k) == listed(
        mem,
        list,
        k + 1,
    ) by {
        assert(tail + 8 * k == list + 8 * (k + 1));
    }
}

/// The walk from an entry of a list whose page holds all further entries.
proof fn lemma_list(p: PrpView, base: u64, idx: u16, list: int, n: int, mem: MemView)
    requires
        p.error is None,
        p.next == PrpNext::List(base, idx),
        base % 4096 == 0,
        list == base + 8 * idx,
        0 < n,
        idx + n <= 512,
        4096 * (n - 1) < p.remain <= 4096 * n,
        list_readable(mem, list, n),
    ensures
        p.regions(mem).len() == n,
        forall|k: int|
            #![trigger p.regions(mem)[k]]
            0 <= k < n ==> p.regions(mem)[k] == GuestRegion(
                GuestAddr(listed(mem, list, k)),
                page_part(p.remain as int, k) as u64,
            ),
    decreases n,
{
    assert(entry_readable(mem, list, 0));
    let (rest, got) = p.after_step(mem);
    assert(got == Some(
        GuestRegion(GuestAddr(listed(mem, list, 0)), page_part(p.remain as int, 0) as u64),
    ));
    if n == 1 {
        assert(rest.regions(mem) =~= Seq::empty());
    } else {
        let after = (idx + 1) as u16;
        let tail = list + 8;
        assert(rest.next == PrpNext::List(base, after));
        lemma_list_tail(mem, list, tail, n);
        lemma_list(rest, base, after, tail, n - 1, mem);
        assert forall|k: int|
            #![trigger p.regions(mem)[k]]
            0 <= k < n implies p.regions(mem)[k] == GuestRegion(
            GuestAddr(listed(mem, list, k)),
            page_part(p.remain as int, k) as u64,
        ) by {
            if k > 0 {
                assert(p.regions(mem)[k] == rest.regions(mem)[k - 1]);
                assert(listed(mem, tail, k - 1) == listed(mem, list, k));
            }
        }
    }
}

/// Data of more than two pages: it starts at the first PRP entry, up to the end
/// of that page, and goes on in the pages that are listed at the second one,
/// eight bytes each, in their order. (The list is one that ends in its page.)
#[verifier::rlimit(40)]
pub proof fn law_prp_list(size: u64, prp1: u64, prp2: u64, n: int, mem: MemView)
    requires
        size > 4096 - prp1 % 4096 + 4096,
        prp2 % 8 == 0,
        0 < n,
        prp2 % 4096 + 8 * n <= 4096,
        4096 * (n - 1) < size - (4096 - prp1 % 4096) <= 4096 * n,
        list_readable(mem, prp2 as int, n),
    ensures
        ({
            let rest = 4096 - prp1 % 4096;
            let regions = PrpView::spec_new(size, prp1, prp2).regions(mem);
            &&& regions.len() == n + 1
            &&& regions[0] == GuestRegion(GuestAddr(prp1), rest as u64)
            &&& forall|k: int|
                #![trigger regions[k + 1]]
                0 <= k < n ==> regions[k + 1] == GuestRegion(
                    GuestAddr(val64(mem.at(GuestAddr((prp2 + 8 * k) as u64), 8))),
                    if k < n - 1 {
                        4096u64
                    } else {
                        (size - rest - 4096 * (n - 1)) as u64
                    },
                )
        }),
{
    let rest = 4096 - prp1 % 4096;
    let p = PrpView::spec_new(size, prp1, prp2);
    let (q, got) = p.after_step(mem);
    let base = (prp2 - prp2 % 4096) as u64;
    let idx = ((prp2 % 4096) / 8) as u16;
    assert(base + 8 * idx == prp2);
    assert(got == Some(GuestRegion(GuestAddr(prp1), rest as u64)));
    assert(q.next == PrpNext::List(base, idx));
    lemma_list(q, base, idx, prp2 as int, n, mem);
    let regions = p.regions(mem);
    assert(regions =~= seq![GuestRegion(GuestAddr(prp1), rest as u64)] + q.regions(mem));
    assert forall|k: int| #![trigger regions[k + 1]] 0 <= k < n implies regions[k + 1]
        == GuestRegion(
        GuestAddr(val64(mem.at(GuestAddr((prp2 + 8 * k) as u64), 8))),
        if k < n - 1 {
            4096u64
        } else {
            (size - rest - 4096 * (n - 1)) as u64
        },
    ) by {
        assert(regions[k + 1] == q.regions(mem)[k]);
    }
}

/// Where more data than a page remains at the last entry of a page of a list,
/// that entry leads to the page of the list that holds the further entries.
pub proof fn law_prp_list_goes_on(p: PrpView, base: u64, next: u64, mem: MemView)
    requires
        p.error is None,
        base % 4096 == 0,
        p.next == PrpNext::List(base, 511),
        p.remain > 4096,
        mem.covers(GuestAddr((base + 8 * 511) as u64), 8),
        val64(mem.at(GuestAddr((base + 8 * 511) as u64), 8)) == next,
        next % 4096 == 0,
        mem.covers(GuestAddr(next), 8),
        val64(mem.at(GuestAddr(next), 8)) % 4096 == 0,
    ensures
        p.regions(mem) == (PrpView { next: PrpNext::List(next, 0), ..p }).regions(mem),
{
    let q = PrpView { next: PrpNext::List(next, 0), ..p };
    assert(p.after_step(mem).1 == q.after_step(mem).1);
    assert(p.after_step(mem).0 == q.after_step(mem).0);
}

/// Entries that cannot be used end the walk: a second one that is no page where
/// it is to be one, and one that is not a multiple of 8 where it is a list.
pub proof fn law_prp_refused(size: u64, prp1: u64, prp2: u64, mem: MemView)
    ensures
        ({
            let rest = 4096 - prp1 % 4096;
            let p = PrpView::spec_new(size, prp1, prp2);
            &&& rest < size <= rest + 4096 && prp2 % 4096 != 0 ==> !p.clean(mem) && p.regions(mem)
                == seq![GuestRegion(GuestAddr(prp1), rest as u64)]
            &&& size > rest + 4096 && prp2 % 8 != 0 ==> !p.clean(mem) && p.regions(mem)
                == Seq::<GuestRegion>::empty()
        }),
{
    let rest = 4096 - prp1 % 4096;
    let p = PrpView::spec_new(size, prp1, prp2);
    reveal_with_fuel(PrpView::regions, 3);
    reveal_with_fuel(PrpView::clean, 3);
    if rest < size <= rest + 4096 && prp2 % 4096 != 0 {
        assert(p.regions(mem) =~= seq![GuestRegion(GuestAddr(prp1), rest as u64)]);
    }
}

// ---------------------------------------------------------------------------
// Results in memory
// ---------------------------------------------------------------------------

/// A result goes to its regions in their order: the guest finds its first part
/// in the first region, and what does not fit there in the second one.
pub proof fn law_result_in_order(mem: MemView, a: GuestRegion, b: GuestRegion, data: Seq<u8>)
    requires
        mem.covers(a.0, a.1 as int),
        mem.covers(b.0, b.1 as int),
        a.1 < data.len(),
        data.len() == a.1 + b.1,
        a.0.0 + a.1 <= b.0.0 || b.0.0 + b.1 <= a.0.0,
    ensures
        ({
            let (out, ok) = admin_result(mem, seq![a, b], data);
            &&& ok
            &&& out.at(a.0, a.1 as int) == data.subrange(0, a.1 as int)
            &&& out.at(b.0, b.1 as int) == data.subrange(a.1 as int, data.len() as int)
        }),
{
    let regions = seq![a, b];
    let (x, y) = (data.take(a.1 as int), data.skip(a.1 as int));
    assert(regions.skip(1) =~= seq![b]);
    reveal_with_fuel(total_len, 3);
    assert(regions.drop_last() =~= seq![a]);
    assert(seq![a].drop_last() =~= Seq::<GuestRegion>::empty());
    assert(all_covered(mem, regions));
    let m1 = mem.put(a.0, x);
    reveal_with_fuel(scattered, 3);
    assert(y.take(y.len() as int) =~= y);
    assert(seq![b].skip(1) =~= Seq::<GuestRegion>::empty());
    assert(scattered(mem, regions, data) == m1.put(b.0, y));
    law_read_after_write(mem, a.0, x);
    lemma_put_covers(mem, a.0, x);
    assert(m1.covers(b.0, b.1 as int) == mem.covers(b.0, b.1 as int));
    assert(m1.covers(a.0, a.1 as int) == mem.covers(a.0, a.1 as int));
    law_read_after_write(m1, b.0, y);
    law_write_elsewhere(m1, b.0, y, a.0, a.1 as nat);
    assert(x =~= data.subrange(0, a.1 as int));
    assert(y =~= data.subrange(a.1 as int, data.len() as int));
}

/// A result for which there is no room, or no memory, is not written at all.
pub proof fn law_result_refused(mem: MemView, regions: Seq<GuestRegion>, data: Seq<u8>, k: int)
    requires
        total_len(regions) < data.len() || (0 <= k < regions.len() && !mem.covers(
            regions[k].0,
            regions[k].1 as int,
        )),
    ensures
        admin_result(mem, regions, data) == (mem, false),
{
}

// ---------------------------------------------------------------------------
// Doorbells in memory
// ---------------------------------------------------------------------------

/// The tail of a submission queue with doorbells in memory is the word that the
/// guest has put there, if the queue has room for what that adds; else it stays.
pub proof fn law_tail_from_memory(s: QueueState, b: DoorbellBuffer, mem: MemView)
    requires
        s.wf(),
        s.db_buf == Some(b),
    ensures
        ({
            let val = val32(mem.at(b.shadow, 4)) % 0x1_0000;
            let added = if val < s.tail {
                val + s.size - s.tail
            } else {
                val - s.tail
            };
            let held = if s.tail < s.head {
                s.tail + s.size - s.head
            } else {
                s.tail - s.head
            };
            let n = s.sq_db_read(mem);
            if mem.covers(b.shadow, 4) && val < s.size && held + added < s.size {
                n.tail == val && n.head == s.head && n.size == s.size && n.db_buf == s.db_buf
            } else {
                n == s
            }
        }),
{
}

/// The head of a completion queue with doorbells in memory is the word that the
/// guest has put there, if it is one of an entry that is occupied or the next
/// one; else it stays.
pub proof fn law_head_from_memory(s: CompQueueState, b: DoorbellBuffer, mem: MemView)
    requires
        s.wf(),
        s.queue.db_buf == Some(b),
    ensures
        ({
            let q = s.queue;
            let val = val32(mem.at(b.shadow, 4)) % 0x1_0000;
            let freed = if val < q.head {
                val + q.size - q.head
            } else {
                val - q.head
            };
            let held = if q.tail < q.head {
                q.tail + q.size - q.head
            } else {
                q.tail - q.head
            };
            let n = s.db_read(mem);
            if mem.covers(b.shadow, 4) && val < q.size && freed <= held {
                &&& n.queue.head == val
                &&& n.queue.tail == q.tail
                &&& n.queue.size == q.size
                &&& n.avail == s.avail + freed
                &&& n.phase == s.phase
            } else {
                n == s
            }
        }),
{
}

/// After an entry was taken, the other word tells the guest how far the
/// controller is: the head after that entry.
#[verifier::rlimit(40)]
pub proof fn law_progress_told(s: SubQueue, b: DoorbellBuffer, mem: MemView)
    requires
        s.wf(),
        s.state.db_buf == Some(b),
        s.head_taken(mem).2 is Some,
        mem.covers(b.eventidx, 2),
    ensures
        ({
            let out = s.head_taken(mem);
            let head = if s.state.head + 1 == s.state.size {
                0
            } else {
                s.state.head + 1
            };
            &&& val16(out.1.at(b.eventidx, 2)) == head
            &&& out.0.state.head == head
        }),
{
    let fresh = s.state.sq_db_read(mem);
    let head = fresh.popped().head;
    law_le16_round_trip(head, le16(head));
    law_read_after_write(mem, b.eventidx, le16(head));
}

/// Room for a completion: where there is none, not even after a look at the
/// doorbell in memory, the submission queue has to wait, and is noted once.
/// Else one place less is free.
pub proof fn law_room_reserved(q: CompQueueView, sq: QueueId, mem: MemView)
    requires
        q.wf(),
    ensures
        ({
            let (n, got) = q.reserved(sq, mem);
            &&& q.state.avail > 0 ==> got && n.state.avail == q.state.avail - 1 && n.corked
                == q.corked && n.state.queue == q.state.queue
            &&& q.state.avail == 0 && q.state.queue.db_buf is None ==> {
                &&& !got
                &&& n.state == q.state
                &&& n.corked.contains(sq)
                &&& forall|x: QueueId| x != sq ==> (#[trigger] n.corked.contains(x)
                    <==> q.corked.contains(x))
                &&& n.corked.no_duplicates()
            }
            &&& n.sqs == q.sqs
            &&& n.id == q.id
        }),
{
    let (n, got) = q.reserved(sq, mem);
    if q.state.avail == 0 && q.state.queue.db_buf is None && !q.corked.contains(sq) {
        assert(n.corked == q.corked.push(sq));
        assert(n.corked[q.corked.len() as int] == sq);
        assert forall|x: QueueId| x != sq implies (#[trigger] n.corked.contains(x)
            <==> q.corked.contains(x)) by {
            if q.corked.contains(x) {
                let k = choose|k: int| 0 <= k < q.corked.len() && q.corked[k] == x;
                assert(n.corked[k] == x);
            }
        }
    }
}

// ---------------------------------------------------------------------------
// Requests and interrupts
// ---------------------------------------------------------------------------

/// The next request of a queue is the command at its head, if that can be done,
/// and nothing is told of it yet. A queue without commands has none, and
/// neither has the admin queue, nor one that does not exist.
pub proof fn law_request_found(m: NvmeModel, qid: QueueId)
    ensures
        qid == 0 || qid >= 16 ==> req_found(m, qid) == (m, None::<(RequestView, Permit)>),
        0 < qid < 16 && m.ctrl.sqs[qid as int] is None ==> req_found(m, qid) == (m, None::<(RequestView, Permit)>),
        0 < qid < 16 && m.ctrl.sqs[qid as int] is Some ==> {
            let params = (m.ctrl.sqs[qid as int]->0).params;
            let after = req_popped(m, qid as int);
            match req_pop(m, qid as int).got {
                None => req_found(m, qid) == (after, None::<(RequestView, Permit)>),
                Some((sub, permit, _)) => request_of(
                    params,
                    NvmCmd::spec_parse(sub),
                    after.acc.mem,
                ) matches Ok(req) ==> req_found(m, qid) == (after, Some((req, permit))),
            }
        },
{
    reveal(req_found);
    reveal_with_fuel(req_run, 1);
}

/// An interrupt of a vector sends its message where messages are enabled and
/// neither the vector nor the function is masked. Where one of them is, the
/// interrupt waits. Other vectors are as they were.
pub proof fn law_vector_signalled(m: NvmeModel, iv: u16, other: int)
    requires
        m.msix.wf(),
        iv < m.msix.count,
        0 <= other < m.msix.count,
        other != iv,
    ensures
        ({
            let n = m.fired(Some(iv));
            let e = m.msix.entries[iv as int];
            &&& n.events == if e.enabled && !e.mask_vec && !e.mask_func {
                m.events.push(NvmeEvent::Msi(MsiMsg { addr: e.addr, data: e.data }))
            } else {
                m.events
            }
            &&& n.msix.entries[iv as int] == (MsixEntry {
                pending: e.pending || (e.enabled && (e.mask_vec || e.mask_func)),
                ..e
            })
            &&& n.msix.entries[other] == m.msix.entries[other]
            &&& n.ctrl == m.ctrl
            &&& n.acc == m.acc
            &&& m.fired(None) == m
        }),
{
}

// ---------------------------------------------------------------------------
// Identity
// ---------------------------------------------------------------------------

/// What a controller tells of itself: the vendor, its serial number and its
/// limit on data transfers, entries of 64 and 16 bytes, one namespace, a
/// volatile write cache, and doorbells in memory.
pub proof fn law_controller_identity(id: IdentifyController, sn: [u8; 20], mdts: u8)
    requires
        identified(id, sn, mdts),
    ensures
        id.vid == 0x1de,
        id.ssvid == 0x1de,
        id.sn == sn,
        id.ieee@ == seq![0xa8u8, 0x40, 0x25],
        id.mdts == mdts,
        id.sqes.0 == 0x66,
        id.cqes.0 == 0x44,
        id.nn == 1,
        id.vwc == 1,
        id.oacs == 0x100,
        id.acl == 0,
        id.aerl == 0,
        id.oncs == 0,
        id.npss == 0,
        id.lpa == 0,
        id.cmic == 0,
{
    assert(crate::hw::ids::OXIDE_OUI@ =~= seq![0xa8u8, 0x40, 0x25]);
}

} // verus!
