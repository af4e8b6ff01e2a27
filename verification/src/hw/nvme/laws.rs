//! What a guest can rely on of an NVMe controller: where the parts of commands
//! and completions stand, what each command does, and which data it moves.
use crate::block::{DeviceInfo, IoResult, Operation};
use crate::common::{
    law_le16_round_trip, law_le32_round_trip, law_le64_round_trip, le16, le32, le64, val16, val32,
    zeros, GuestAddr, GuestRegion, MemView,
};
use crate::hw::nvme::bits::{sqe_decode, CompletionQueueEntry, SubmissionQueueEntry};
use crate::hw::nvme::cmds::{
    io_completion, AdminCmd, FeatureIdent, GetFeaturesCmd, LogPageIdent, NvmCmd, PrpView,
    QueuePriority, SetFeaturesCmd,
};
use crate::hw::nvme::ctrl::CtrlView;
use crate::hw::nvme::queue::TransferParams;
use crate::hw::nvme::requests::{request_of, transfer};
use crate::hw::nvme::migrate::disk_noted;
use vstd::prelude::*;
use vstd::std_specs::bits::u32_trailing_zeros;

verus! {

// ---------------------------------------------------------------------------
// Entries of queues
// ---------------------------------------------------------------------------

/// The 64 bytes of a submission queue entry, as a guest lays them out.
#[verifier::opaque]
pub open spec fn sqe_bytes(e: SubmissionQueueEntry) -> Seq<u8> {
    le32(e.cdw0) + le32(e.nsid) + le64(e.rsvd) + le64(e.mptr) + le64(e.prp1) + le64(e.prp2) + le32(
        e.cdw10,
    ) + le32(e.cdw11) + le32(e.cdw12) + le32(e.cdw13) + le32(e.cdw14) + le32(e.cdw15)
}

/// The controller reads an entry as the guest laid it out.
pub proof fn law_entry_read(e: SubmissionQueueEntry)
    ensures
        sqe_bytes(e).len() == 64,
        sqe_decode(sqe_bytes(e)) == e,
{
    reveal(sqe_bytes);
    let b = sqe_bytes(e);
    law_le32_round_trip(e.cdw0, le32(e.cdw0));
    law_le32_round_trip(e.nsid, le32(e.nsid));
    law_le64_round_trip(e.rsvd, le64(e.rsvd));
    law_le64_round_trip(e.mptr, le64(e.mptr));
    law_le64_round_trip(e.prp1, le64(e.prp1));
    law_le64_round_trip(e.prp2, le64(e.prp2));
    law_le32_round_trip(e.cdw10, le32(e.cdw10));
    law_le32_round_trip(e.cdw11, le32(e.cdw11));
    law_le32_round_trip(e.cdw12, le32(e.cdw12));
    law_le32_round_trip(e.cdw13, le32(e.cdw13));
    law_le32_round_trip(e.cdw14, le32(e.cdw14));
    law_le32_round_trip(e.cdw15, le32(e.cdw15));
    assert(b.subrange(0, 4) =~= le32(e.cdw0));
    assert(b.subrange(4, 8) =~= le32(e.nsid));
    assert(b.subrange(8, 16) =~= le64(e.rsvd));
    assert(b.subrange(16, 24) =~= le64(e.mptr));
    assert(b.subrange(24, 32) =~= le64(e.prp1));
    assert(b.subrange(32, 40) =~= le64(e.prp2));
    assert(b.subrange(40, 44) =~= le32(e.cdw10));
    assert(b.subrange(44, 48) =~= le32(e.cdw11));
    assert(b.subrange(48, 52) =~= le32(e.cdw12));
    assert(b.subrange(52, 56) =~= le32(e.cdw13));
    assert(b.subrange(56, 60) =~= le32(e.cdw14));
    assert(b.subrange(60, 64) =~= le32(e.cdw15));
}

/// The pieces of 64 bytes, put together again.
proof fn lemma_pieces(b: Seq<u8>)
    requires
        b.len() == 64,
    ensures
        b.subrange(0, 4) + b.subrange(4, 8) + b.subrange(8, 16) + b.subrange(16, 24) + b.subrange(
            24,
            32,
        ) + b.subrange(32, 40) + b.subrange(40, 44) + b.subrange(44, 48) + b.subrange(48, 52)
            + b.subrange(52, 56) + b.subrange(56, 60) + b.subrange(60, 64) == b,
{
    assert(b.subrange(0, 4) + b.subrange(4, 8) =~= b.subrange(0, 8));
    assert(b.subrange(0, 8) + b.subrange(8, 16) =~= b.subrange(0, 16));
    assert(b.subrange(0, 16) + b.subrange(16, 24) =~= b.subrange(0, 24));
    assert(b.subrange(0, 24) + b.subrange(24, 32) =~= b.subrange(0, 32));
    assert(b.subrange(0, 32) + b.subrange(32, 40) =~= b.subrange(0, 40));
    assert(b.subrange(0, 40) + b.subrange(40, 44) =~= b.subrange(0, 44));
    assert(b.subrange(0, 44) + b.subrange(44, 48) =~= b.subrange(0, 48));
    assert(b.subrange(0, 48) + b.subrange(48, 52) =~= b.subrange(0, 52));
    assert(b.subrange(0, 52) + b.subrange(52, 56) =~= b.subrange(0, 56));
    assert(b.subrange(0, 56) + b.subrange(56, 60) =~= b.subrange(0, 60));
    assert(b.subrange(0, 60) + b.subrange(60, 64) =~= b);
}

/// The controller reads all of an entry: its parts give the bytes again.
pub proof fn law_entry_bytes(b: Seq<u8>)
    requires
        b.len() == 64,
    ensures
        sqe_bytes(sqe_decode(b)) == b,
{
    reveal(sqe_bytes);
    law_le32_round_trip(0, b.subrange(0, 4));
    law_le32_round_trip(0, b.subrange(4, 8));
    law_le64_round_trip(0, b.subrange(8, 16));
    law_le64_round_trip(0, b.subrange(16, 24));
    law_le64_round_trip(0, b.subrange(24, 32));
    law_le64_round_trip(0, b.subrange(32, 40));
    law_le32_round_trip(0, b.subrange(40, 44));
    law_le32_round_trip(0, b.subrange(44, 48));
    law_le32_round_trip(0, b.subrange(48, 52));
    law_le32_round_trip(0, b.subrange(52, 56));
    law_le32_round_trip(0, b.subrange(56, 60));
    law_le32_round_trip(0, b.subrange(60, 64));
    lemma_pieces(b);
}

/// A guest finds in the 16 bytes of a completion the result, the head and the
/// identifier of the submission queue, the identifier of the command, and the
/// status with the phase tag.
pub proof fn law_completion_bytes(c: CompletionQueueEntry)
    ensures
        c.encode().len() == 16,
        val32(c.encode().subrange(0, 4)) == c.dw0,
        val16(c.encode().subrange(8, 10)) == c.sqhd,
        val16(c.encode().subrange(10, 12)) == c.sqid,
        val16(c.encode().subrange(12, 14)) == c.cid,
        val16(c.encode().subrange(14, 16)) == c.status_phase,
{
    let b = c.encode();
    law_le32_round_trip(c.dw0, le32(c.dw0));
    law_le16_round_trip(c.sqhd, le16(c.sqhd));
    law_le16_round_trip(c.sqid, le16(c.sqid));
    law_le16_round_trip(c.cid, le16(c.cid));
    law_le16_round_trip(c.status_phase, le16(c.status_phase));
    assert(b.subrange(0, 4) =~= le32(c.dw0));
    assert(b.subrange(8, 10) =~= le16(c.sqhd));
    assert(b.subrange(10, 12) =~= le16(c.sqid));
    assert(b.subrange(12, 14) =~= le16(c.cid));
    assert(b.subrange(14, 16) =~= le16(c.status_phase));
}

// ---------------------------------------------------------------------------
// Commands
// ---------------------------------------------------------------------------

/// A command is what its opcode says, unless it is fused with another one.
pub proof fn law_admin_opcodes(raw: SubmissionQueueEntry)
    ensures
        match AdminCmd::spec_parse(raw) {
            Ok(cmd) => {
                let opc = raw.cdw0 % 0x100;
                &&& (raw.cdw0 / 0x100) % 4 == 0
                &&& cmd is DeleteIOSubQ <==> opc == 0x00
                &&& cmd is CreateIOSubQ <==> opc == 0x01
                &&& cmd is GetLogPage <==> opc == 0x02
                &&& cmd is DeleteIOCompQ <==> opc == 0x04
                &&& cmd is CreateIOCompQ <==> opc == 0x05
                &&& cmd is Identify <==> opc == 0x06
                &&& cmd is Abort <==> opc == 0x08
                &&& cmd is SetFeatures <==> opc == 0x09
                &&& cmd is GetFeatures <==> opc == 0x0a
                &&& cmd is AsyncEventReq <==> opc == 0x0c
                &&& cmd is DoorbellBufCfg <==> opc == 0x7c
            },
            Err(e) => {
                &&& (raw.cdw0 / 0x100) % 4 != 0
                &&& e is ReservedFuse <==> (raw.cdw0 / 0x100) % 4 == 3
            },
        },
{
}

/// The parts of a command are found where they stand in its entry: put together
/// again, they give the dwords of the entry.
pub proof fn law_admin_fields(raw: SubmissionQueueEntry)
    ensures
        match AdminCmd::spec_parse(raw) {
            Ok(AdminCmd::DeleteIOSubQ(id)) => raw.cdw10 % 0x1_0000 == id,
            Ok(AdminCmd::DeleteIOCompQ(id)) => raw.cdw10 % 0x1_0000 == id,
            Ok(AdminCmd::CreateIOSubQ(c)) => {
                &&& raw.cdw10 == c.qid + 0x1_0000 * (c.qsize - 1)
                &&& raw.cdw11 / 0x1_0000 == c.cqid
                &&& raw.cdw11 % 8 == (if c.phys_contig {
                    1int
                } else {
                    0
                }) + 2 * (match c.queue_prio {
                    QueuePriority::Urgent => 0int,
                    QueuePriority::High => 1,
                    QueuePriority::Medium => 2,
                    QueuePriority::Low => 3,
                })
                &&& c.prp == raw.prp1
            },
            Ok(AdminCmd::CreateIOCompQ(c)) => {
                &&& raw.cdw10 == c.qid + 0x1_0000 * (c.qsize - 1)
                &&& raw.cdw11 / 0x1_0000 == c.intr_vector
                &&& raw.cdw11 % 4 == (if c.phys_contig {
                    1int
                } else {
                    0
                }) + (if c.intr_enable {
                    2int
                } else {
                    0
                })
                &&& c.prp == raw.prp1
            },
            Ok(AdminCmd::GetLogPage(c)) => {
                &&& c.nsid == raw.nsid
                // A number of dwords, less one, in 12 bits
                &&& c.len == 4 * ((raw.cdw10 / 0x1_0000) % 0x1000 + 1)
                &&& c.prp1 == raw.prp1
                &&& c.prp2 == raw.prp2
            },
            Ok(AdminCmd::Identify(c)) => {
                &&& c.cns == raw.cdw10 % 2
                &&& c.nsid == raw.nsid
                &&& c.prp1 == raw.prp1
                &&& c.prp2 == raw.prp2
            },
            Ok(AdminCmd::Abort(c)) => raw.cdw10 == c.sqid + 0x1_0000 * c.cid,
            Ok(AdminCmd::SetFeatures(c)) => c.cdw11 == raw.cdw11,
            Ok(AdminCmd::GetFeatures(c)) => c.cdw11 == raw.cdw11,
            Ok(AdminCmd::DoorbellBufCfg(c)) => c.shadow_doorbell_buffer == raw.prp1
                && c.eventidx_buffer == raw.prp2,
            _ => true,
        },
{
}

/// The features and log pages that numbers stand for.
pub proof fn law_identifiers(raw: SubmissionQueueEntry)
    ensures
        ({
            let n = raw.cdw10 % 0x100;
            match AdminCmd::spec_parse(raw) {
                Ok(AdminCmd::GetFeatures(GetFeaturesCmd { fid, .. })) | Ok(
                    AdminCmd::SetFeatures(SetFeaturesCmd { fid, .. }),
                ) => {
                    &&& fid is Arbitration <==> n == 1
                    &&& fid is PowerManagement <==> n == 2
                    &&& fid is LbaRangeType <==> n == 3
                    &&& fid is TemperatureThreshold <==> n == 4
                    &&& fid is ErrorRecovery <==> n == 5
                    &&& fid is VolatileWriteCache <==> n == 6
                    &&& fid is NumberOfQueues <==> n == 7
                    &&& fid is InterruptCoalescing <==> n == 8
                    &&& fid is InterruptVectorConfiguration <==> n == 9
                    &&& fid is WriteAtomicity <==> n == 10
                    &&& fid is AsynchronousEventConfiguration <==> n == 11
                    &&& fid is SoftwareProgressMarker <==> n == 0x80
                    &&& fid is Vendor <==> n >= 0xc0
                    &&& fid matches FeatureIdent::Vendor(v) ==> v == n
                },
                Ok(AdminCmd::GetLogPage(c)) => {
                    &&& c.log_page_ident is Error <==> n == 1
                    &&& c.log_page_ident is Smart <==> n == 2
                    &&& c.log_page_ident is Firmware <==> n == 3
                    &&& c.log_page_ident is IOSpecifc <==> 0x80 <= n < 0xc0
                    &&& c.log_page_ident is Vendor <==> n >= 0xc0
                    &&& c.log_page_ident matches LogPageIdent::Vendor(v) ==> v == n
                    &&& c.log_page_ident matches LogPageIdent::IOSpecifc(v) ==> v == n
                },
                _ => true,
            }
        }),
{
}

// ---------------------------------------------------------------------------
// I/O commands
// ---------------------------------------------------------------------------

/// A read or write is handed on for the bytes of the blocks that it names, and
/// for no others: its first block starts at as many block sizes as there are
/// blocks before it, and each of its blocks counts for one block size. Whatever
/// is handed on, in whole or in part, is what the opcode asks for.
pub proof fn law_request_blocks(params: TransferParams, raw: SubmissionQueueEntry, mem: MemView)
    ensures
        ({
            let first = raw.cdw10 + 0x1_0000_0000 * raw.cdw11;
            let count = raw.cdw12 % 0x1_0000 + 1;
            let opc = raw.cdw0 % 0x100;
            match request_of(params, NvmCmd::spec_parse(raw), mem) {
                Ok(r) => {
                    &&& (raw.cdw0 / 0x100) % 4 == 0
                    &&& match r.op {
                        Operation::Flush => opc == 0 && r.regions.len() == 0,
                        Operation::Write(off, size) => {
                            &&& opc == 1
                            &&& off == params.lba_data_size * first
                            &&& size == params.lba_data_size * count
                        },
                        Operation::Read(off, size) => {
                            &&& opc == 2
                            &&& off == params.lba_data_size * first
                            &&& size == params.lba_data_size * count
                        },
                        Operation::Discard(_, _) => false,
                    }
                },
                Err(comp) => comp.status != 0,
            }
        }),
{
}

/// Every read, write or flush is handed on, unless it is fused, too large, or
/// names blocks or memory that cannot be. What is refused is refused for good,
/// as an invalid field.
pub proof fn law_request_granted(params: TransferParams, raw: SubmissionQueueEntry, mem: MemView)
    requires
        (raw.cdw0 / 0x100) % 4 == 0,
        raw.cdw0 % 0x100 <= 2,
    ensures
        ({
            let first = raw.cdw10 + 0x1_0000_0000 * raw.cdw11;
            let size = params.lba_data_size * (raw.cdw12 % 0x1_0000 + 1);
            match request_of(params, NvmCmd::spec_parse(raw), mem) {
                Ok(_) => true,
                Err(comp) => {
                    &&& raw.cdw0 % 0x100 != 0
                    &&& comp.status == 0x8004
                    &&& size > params.max_data_tranfser_size || size > u64::MAX
                        || params.lba_data_size * first > u64::MAX || raw.prp1 % 4 != 0 || raw.prp2
                        % 4 != 0
                },
            }
        }),
{
}

/// A transfer of some blocks ends where a transfer of the blocks after them
/// starts.
pub proof fn law_transfers_adjacent(
    params: TransferParams,
    slba: u64,
    n: u32,
    m: u32,
    prp1: u64,
    prp2: u64,
)
    requires
        slba + n <= u64::MAX,
    ensures
        match (
            transfer(params, slba, n, prp1, prp2),
            transfer(params, (slba + n) as u64, m, prp1, prp2),
        ) {
            (Ok((off, size)), Ok((next, _))) => off + size == next,
            _ => true,
        },
{
    vstd::arithmetic::mul::lemma_mul_is_distributive_add(
        params.lba_data_size as int,
        slba as int,
        n as int,
    );
}

/// What the guest is told of a request that has ended.
pub proof fn law_io_results(res: IoResult)
    ensures
        io_completion(res).dw0 == 0,
        res is Success <==> io_completion(res).status == 0,
        // Data transfer error
        res is Failure <==> io_completion(res).status == 0x0008,
        // Write to a range that can only be read
        res is ReadOnly <==> io_completion(res).status == 0x0304,
        // Conflicting attributes
        res is Unsupported <==> io_completion(res).status == 0x0300,
{
}

/// Data that ends in the page of the first PRP entry is all at that entry.
/// Data that ends in the page after it is there up to the end of the page, and
/// at the second entry from there on.
#[verifier::rlimit(40)]
pub proof fn law_prp_pages(size: u64, prp1: u64, prp2: u64, mem: MemView)
    requires
        size > 0,
    ensures
        ({
            let rest = 4096 - prp1 % 4096;
            let regions = PrpView::spec_new(size, prp1, prp2).regions(mem);
            &&& size <= rest ==> regions == seq![GuestRegion(GuestAddr(prp1), size)]
            &&& rest < size <= rest + 4096 && prp2 % 4096 == 0 ==> regions == seq![
                GuestRegion(GuestAddr(prp1), rest as u64),
                GuestRegion(GuestAddr(prp2), (size - rest) as u64),
            ]
        }),
{
    let rest = 4096 - prp1 % 4096;
    let p = PrpView::spec_new(size, prp1, prp2);
    reveal_with_fuel(PrpView::regions, 4);
    let regions = p.regions(mem);
    if size <= rest {
        assert(regions =~= seq![GuestRegion(GuestAddr(prp1), size)]);
    } else if size <= rest + 4096 && prp2 % 4096 == 0 {
        assert(regions =~= seq![
            GuestRegion(GuestAddr(prp1), rest as u64),
            GuestRegion(GuestAddr(prp2), (size - rest) as u64),
        ]);
    }
}

// ---------------------------------------------------------------------------
// The disk
// ---------------------------------------------------------------------------

/// The number of zeros below the only bit of a number is the number of that bit.
proof fn lemma_one_bit(n: u32, k: u32)
    requires
        k < 32,
        n == 1u32 << k,
    ensures
        u32_trailing_zeros(n) == k,
        1u64 << (k as u8) == n,
{
    vstd::std_specs::bits::axiom_u32_trailing_zeros(n);
    let t = u32_trailing_zeros(n);
    assert(n != 0 && (n >> k) & 1 == 1 && 1u64 << (k as u8) == n as u64) by (bit_vector)
        requires
            k < 32,
            n == 1u32 << k,
    ;
    if t < k {
        assert((n >> t) & 1 == 0) by (bit_vector)
            requires
                t < k < 32,
                n == 1u32 << k,
        ;
    }
}

/// A controller whose first format is in use, and that was told of a disk, says
/// that its namespace has as many blocks as the disk. Transfers of all of its
/// submission queues, of those to come too, go by the size of the blocks of the
/// disk.
pub proof fn law_disk_noted(v: CtrlView, w: CtrlView, info: DeviceInfo, k: u32, j: int)
    requires
        disk_noted(v, w, info),
        v.shape(),
        v.ns_ident.flbas % 16 == 0,
        k < 32,
        info.block_size == 1u32 << k,
        0 <= j < 16,
    ensures
        w.ns_ident.nsze == info.total_size,
        w.ns_ident.ncap == info.total_size,
        w.ns_ident.nuse == info.total_size,
        w.spec_transfer_params().lba_data_size == info.block_size,
        w.sqs[j] is Some <==> v.sqs[j] is Some,
        w.sqs[j] matches Some(s) ==> s.params.lba_data_size == info.block_size,
        w.cqs == v.cqs,
        w.ctrl == v.ctrl,
{
    lemma_one_bit(info.block_size, k);
}

/// The limit on a transfer is the smallest page, doubled as often as the
/// controller says; it says 0 for no limit.
pub proof fn law_transfer_limit(v: CtrlView)
    requires
        v.shape(),
        v.ctrl.cap.spec_mpsmin() == 0,
        v.ctrl_ident.mdts <= 51,
    ensures
        v.spec_transfer_params().max_data_tranfser_size == if v.ctrl_ident.mdts == 0 {
            u64::MAX as nat
        } else {
            4096 * vstd::arithmetic::power2::pow2(v.ctrl_ident.mdts as nat)
        },
{
    vstd::arithmetic::power2::lemma2_to64();
    vstd::arithmetic::power2::lemma2_to64_rest();
    let n = v.ctrl_ident.mdts;
    if n < 51 {
        vstd::arithmetic::power2::lemma_pow2_strictly_increases(n as nat, 51);
    }
    vstd::bits::lemma_u64_shl_is_mul(4096, n as u64);
    assert(4096u64 << n == 4096u64 << (n as u64)) by (bit_vector)
        requires
            n < 64,
    ;
}

} // verus!
