//! The layouts that NVMe defines: queue entries, controller
//! registers, identify structures and the values of their fields.
use crate::bitfield::{field, get_field, set_field, with_field};
use crate::common::{
    get_le32, get_le64, le16, le32, le64, push_le16, push_le32, push_le64, val32, val64, zeros,
};
use crate::hw::nvme::cmds::Completion;
use vstd::prelude::*;

verus! {

/// Size in bytes of a submission queue entry.
pub const SQE_SIZE: usize = 64;

/// Size in bytes of a completion queue entry.
pub const CQE_SIZE: usize = 16;

/// A submission queue entry.
#[derive(Clone, Copy, Debug, Default, PartialEq, Eq, Structural)]
pub struct SubmissionQueueEntry {
    /// Command identifier (bits 31:16), fused operation (9:8) and opcode (7:0).
    pub cdw0: u32,
    /// The namespace that the command applies to.
    pub nsid: u32,
    /// Reserved.
    pub rsvd: u64,
    /// Metadata pointer.
    pub mptr: u64,
    /// First physical region page (PRP) entry.
    pub prp1: u64,
    /// Second PRP entry, PRP list pointer, or reserved.
    pub prp2: u64,
    /// Command specific.
    pub cdw10: u32,
    /// Command specific.
    pub cdw11: u32,
    /// Command specific.
    pub cdw12: u32,
    /// Command specific.
    pub cdw13: u32,
    /// Command specific.
    pub cdw14: u32,
    /// Command specific.
    pub cdw15: u32,
}

/// The entry whose bytes in memory are `b`.
pub open spec fn sqe_decode(b: Seq<u8>) -> SubmissionQueueEntry {
    SubmissionQueueEntry {
        cdw0: val32(b.subrange(0, 4)),
        nsid: val32(b.subrange(4, 8)),
        rsvd: val64(b.subrange(8, 16)),
        mptr: val64(b.subrange(16, 24)),
        prp1: val64(b.subrange(24, 32)),
        prp2: val64(b.subrange(32, 40)),
        cdw10: val32(b.subrange(40, 44)),
        cdw11: val32(b.subrange(44, 48)),
        cdw12: val32(b.subrange(48, 52)),
        cdw13: val32(b.subrange(52, 56)),
        cdw14: val32(b.subrange(56, 60)),
        cdw15: val32(b.subrange(60, 64)),
    }
}

impl SubmissionQueueEntry {
    /// The command identifier.
    pub open spec fn spec_cid(self) -> u16 {
        (self.cdw0 / 0x1_0000) as u16
    }

    /// The opcode.
    pub open spec fn spec_opcode(self) -> u8 {
        (self.cdw0 % 0x100) as u8
    }

    /// The fused operation.
    pub open spec fn spec_fuse(self) -> u8 {
        ((self.cdw0 / 0x100) % 4) as u8
    }

    /// The identifier of the command, which is unique together with that of
    /// the submission queue.
    pub fn cid(&self) -> (r: u16)
        ensures
            r == self.spec_cid(),
    {
        (self.cdw0 / 0x1_0000) as u16
    }

    /// The opcode of the command.
    pub fn opcode(&self) -> (r: u8)
        ensures
            r == self.spec_opcode(),
    {
        (self.cdw0 % 0x100) as u8
    }

    /// The fused operation field of the command.
    pub fn fuse(&self) -> (r: u8)
        ensures
            r == self.spec_fuse(),
            r < 4,
    {
        ((self.cdw0 / 0x100) % 4) as u8
    }

    /// Reads an entry from its bytes in memory.
    pub fn from_bytes(b: &Vec<u8>) -> (r: SubmissionQueueEntry)
        requires
            b@.len() == SQE_SIZE,
        ensures
            r == sqe_decode(b@),
    {
        SubmissionQueueEntry {
            cdw0: get_le32(b, 0),
            nsid: get_le32(b, 4),
            rsvd: get_le64(b, 8),
            mptr: get_le64(b, 16),
            prp1: get_le64(b, 24),
            prp2: get_le64(b, 32),
            cdw10: get_le32(b, 40),
            cdw11: get_le32(b, 44),
            cdw12: get_le32(b, 48),
            cdw13: get_le32(b, 52),
            cdw14: get_le32(b, 56),
            cdw15: get_le32(b, 60),
        }
    }
}

/// A completion queue entry.
#[derive(Clone, Copy, Debug, Default, PartialEq, Eq, Structural)]
pub struct CompletionQueueEntry {
    /// Command specific.
    pub dw0: u32,
    /// Reserved.
    pub rsvd: u32,
    /// Head of the submission queue that the command came from.
    pub sqhd: u16,
    /// Identifier of the submission queue that the command came from.
    pub sqid: u16,
    /// Identifier of the command.
    pub cid: u16,
    /// Status (bits 15:1) and phase tag (bit 0).
    pub status_phase: u16,
}

impl CompletionQueueEntry {
    /// The bytes of the entry in memory.
    pub open spec fn encode(self) -> Seq<u8> {
        le32(self.dw0) + le32(self.rsvd) + le16(self.sqhd) + le16(self.sqid) + le16(self.cid)
            + le16(self.status_phase)
    }

    /// The entry that reports `comp` for the command `cid`.
    pub open spec fn spec_new(comp: Completion, cid: u16) -> CompletionQueueEntry {
        CompletionQueueEntry {
            dw0: comp.dw0,
            rsvd: 0,
            sqhd: 0,
            sqid: 0,
            cid,
            status_phase: comp.status,
        }
    }

    /// The entry with the given phase tag.
    pub open spec fn with_phase(self, phase: bool) -> CompletionQueueEntry {
        CompletionQueueEntry {
            status_phase: (self.status_phase - self.status_phase % 2 + if phase {
                1int
            } else {
                0
            }) as u16,
            ..self
        }
    }

    /// The entry that reports `comp` for the command `cid`.
    pub fn new(comp: Completion, cid: u16) -> (r: CompletionQueueEntry)
        ensures
            r == Self::spec_new(comp, cid),
    {
        CompletionQueueEntry {
            dw0: comp.dw0,
            rsvd: 0,
            sqhd: 0,
            sqid: 0,
            cid,
            status_phase: comp.status,
        }
    }

    /// Sets the phase tag and keeps the status.
    pub fn set_phase(&mut self, phase: bool)
        ensures
            *final(self) == old(self).with_phase(phase),
    {
        let status: u16 = self.status_phase - self.status_phase % 2;
        self.status_phase = if phase {
            status + 1
        } else {
            status
        };
    }

    /// The bytes of the entry in memory.
    pub fn to_bytes(&self) -> (r: Vec<u8>)
        ensures
            r@ == self.encode(),
            r@.len() == CQE_SIZE,
    {
        let mut out: Vec<u8> = Vec::new();
        push_le32(&mut out, self.dw0);
        assert(out@ =~= le32(self.dw0));
        push_le32(&mut out, self.rsvd);
        push_le16(&mut out, self.sqhd);
        push_le16(&mut out, self.sqid);
        push_le16(&mut out, self.cid);
        push_le16(&mut out, self.status_phase);
        out
    }
}

/// Setting the phase tag leaves the status, and setting it again forgets what
/// it was set to before.
pub proof fn law_phase_keeps_status(cqe: CompletionQueueEntry, a: bool, b: bool)
    ensures
        cqe.with_phase(a).status_phase / 2 == cqe.status_phase / 2,
        (cqe.with_phase(a).status_phase % 2 == 1) == a,
        cqe.with_phase(a).with_phase(b) == cqe.with_phase(b),
{
}

impl Capabilities {
    /// The smallest supported memory page size, in bytes.
    pub fn mpsmin_sz(&self) -> (r: u64)
        ensures
            r == page_size_of(self.spec_mpsmin()),
    {
        page_bytes(self.mpsmin())
    }
}

/// The page size that a 4-bit page size field stands for: `2^(12 + mps)`.
pub open spec fn page_size_of(mps: u8) -> nat {
    0x1000 * vstd::arithmetic::power2::pow2(mps as nat)
}

/// Computes `2^(12 + mps)`.
pub fn page_bytes(mps: u8) -> (r: u64)
    requires
        mps < 16,
    ensures
        r == page_size_of(mps),
        0x1000 <= r <= 0x800_0000,
{
    let mut r: u64 = 0x1000;
    let mut i: u8 = 0;
    proof {
        vstd::arithmetic::power2::lemma2_to64();
    }
    while i < mps
        invariant
            i <= mps < 16,
            r == page_size_of(i),
            0x1000 <= r <= 0x800_0000,
        decreases mps - i,
    {
        proof {
            vstd::arithmetic::power2::lemma_pow2_unfold((i + 1) as nat);
            vstd::arithmetic::power2::lemma2_to64();
            assert(i < 15);
            vstd::arithmetic::power2::lemma_pow2_strictly_increases(i as nat, 15);
        }
        r = r * 2;
        i += 1;
    }
    r
}

/// I/O command sets.
#[derive(Clone, Copy, Debug, PartialEq, Eq, Structural)]
pub enum IOCommandSet {
    Nvm,
    Reserved(u8),
}

impl IOCommandSet {
    /// The value that a field holding `raw` stands for.
    pub open spec fn spec_from_raw(raw: u8) -> IOCommandSet {
        if raw == 0 {
            IOCommandSet::Nvm
        } else {
            IOCommandSet::Reserved(raw)
        }
    }

    /// The value that a field holding `raw` stands for.
    pub fn from_raw(raw: u8) -> (r: IOCommandSet)
        requires
            raw < 8,
        ensures
            r == Self::spec_from_raw(raw),
    {
        if raw == 0 {
            IOCommandSet::Nvm
        } else {
            IOCommandSet::Reserved(raw)
        }
    }

    /// The value of the field for this choice.
    pub open spec fn spec_into_raw(self) -> u8 {
        match self {
            IOCommandSet::Nvm => 0,
            IOCommandSet::Reserved(raw) => raw,
        }
    }

    /// The value of the field for this choice.
    pub fn into_raw(self) -> (r: u8)
        ensures
            r == self.spec_into_raw(),
    {
        match self {
            IOCommandSet::Nvm => 0,
            IOCommandSet::Reserved(raw) => raw,
        }
    }
}

/// Every value of the field stands for a choice whose value it is.
pub proof fn law_io_command_set_round_trip(raw: u8)
    requires
        raw < 8,
    ensures
        IOCommandSet::spec_from_raw(raw).spec_into_raw() == raw,
{
}

/// Controller Capabilities (CAP).
#[derive(Clone, Copy, Debug, Default, PartialEq, Eq, Structural)]
pub struct Capabilities(pub u64);

impl Capabilities {
    /// Maximum queue entries supported, less one.
    pub open spec fn spec_mqes(self) -> u16 {
        field(self.0 as int, 1, 0x10000) as u16
    }

    /// Maximum queue entries supported, less one.
    pub fn mqes(&self) -> (r: u16)
        ensures
            r == self.spec_mqes(),
            r < 0x10000,
    {
        get_field(self.0 as u64, 1, 0x10000) as u16
    }

    /// This register with `v` in place of that field.
    pub open spec fn spec_with_mqes(self, v: u16) -> Capabilities {
        Capabilities(with_field(self.0 as int, 1, 0x10000, (v as int % 0x10000)) as u64)
    }

    /// Sets that field to `v`.
    pub fn set_mqes(&mut self, v: u16)
        ensures
            *final(self) == old(self).spec_with_mqes(v),
            final(self).0 == with_field(old(self).0 as int, 1, 0x10000, (v as int % 0x10000)),
    {
        self.0 = set_field(self.0 as u64, 1, 0x10000, v as u64, Ghost(0x1_0000_0000_0000_0000)) as u64;
    }

    /// This register with `v` in place of that field.
    pub fn with_mqes(self, v: u16) -> (r: Capabilities)
        ensures
            r == self.spec_with_mqes(v),
    {
        let mut r: Capabilities = self;
        r.set_mqes(v);
        r
    }

    /// Whether I/O queues must be physically contiguous.
    pub open spec fn spec_cqr(self) -> bool {
        field(self.0 as int, 0x10000, 2) == 1
    }

    /// Whether I/O queues must be physically contiguous.
    pub fn cqr(&self) -> (r: bool)
        ensures
            r == self.spec_cqr(),
    {
        get_field(self.0 as u64, 0x10000, 2) == 1
    }

    /// This register with `v` in place of that field.
    pub open spec fn spec_with_cqr(self, v: bool) -> Capabilities {
        Capabilities(with_field(self.0 as int, 0x10000, 2, (if v { 1int } else { 0int })) as u64)
    }

    /// Sets that field to `v`.
    pub fn set_cqr(&mut self, v: bool)
        ensures
            *final(self) == old(self).spec_with_cqr(v),
            final(self).0 == with_field(old(self).0 as int, 0x10000, 2, (if v { 1int } else { 0int })),
    {
        self.0 = set_field(self.0 as u64, 0x10000, 2, (if v { 1 } else { 0 }), Ghost(0x1_0000_0000_0000_0000)) as u64;
    }

    /// This register with `v` in place of that field.
    pub fn with_cqr(self, v: bool) -> (r: Capabilities)
        ensures
            r == self.spec_with_cqr(v),
    {
        let mut r: Capabilities = self;
        r.set_cqr(v);
        r
    }

    /// Whether weighted round robin arbitration is supported.
    pub open spec fn spec_ams_roundrobin(self) -> bool {
        field(self.0 as int, 0x20000, 2) == 1
    }

    /// Whether weighted round robin arbitration is supported.
    pub fn ams_roundrobin(&self) -> (r: bool)
        ensures
            r == self.spec_ams_roundrobin(),
    {
        get_field(self.0 as u64, 0x20000, 2) == 1
    }

    /// Whether a vendor specific arbitration is supported.
    pub open spec fn spec_ams_vendor(self) -> bool {
        field(self.0 as int, 0x40000, 2) == 1
    }

    /// Whether a vendor specific arbitration is supported.
    pub fn ams_vendor(&self) -> (r: bool)
        ensures
            r == self.spec_ams_vendor(),
    {
        get_field(self.0 as u64, 0x40000, 2) == 1
    }

    /// Time to wait for the controller to become ready, in units of 500 ms.
    pub open spec fn spec_to(self) -> u8 {
        field(self.0 as int, 0x1000000, 0x100) as u8
    }

    /// Time to wait for the controller to become ready, in units of 500 ms.
    pub fn to(&self) -> (r: u8)
        ensures
            r == self.spec_to(),
            r < 0x100,
    {
        get_field(self.0 as u64, 0x1000000, 0x100) as u8
    }

    /// Doorbell stride: doorbells are `2^(2 + dstrd)` bytes apart.
    pub open spec fn spec_dstrd(self) -> u8 {
        field(self.0 as int, 0x100000000, 0x10) as u8
    }

    /// Doorbell stride: doorbells are `2^(2 + dstrd)` bytes apart.
    pub fn dstrd(&self) -> (r: u8)
        ensures
            r == self.spec_dstrd(),
            r < 0x10,
    {
        get_field(self.0 as u64, 0x100000000, 0x10) as u8
    }

    /// Whether the NVM command set is supported.
    pub open spec fn spec_css_nvm(self) -> bool {
        field(self.0 as int, 0x2000000000, 2) == 1
    }

    /// Whether the NVM command set is supported.
    pub fn css_nvm(&self) -> (r: bool)
        ensures
            r == self.spec_css_nvm(),
    {
        get_field(self.0 as u64, 0x2000000000, 2) == 1
    }

    /// This register with `v` in place of that field.
    pub open spec fn spec_with_css_nvm(self, v: bool) -> Capabilities {
        Capabilities(with_field(self.0 as int, 0x2000000000, 2, (if v { 1int } else { 0int })) as u64)
    }

    /// Sets that field to `v`.
    pub fn set_css_nvm(&mut self, v: bool)
        ensures
            *final(self) == old(self).spec_with_css_nvm(v),
            final(self).0 == with_field(old(self).0 as int, 0x2000000000, 2, (if v { 1int } else { 0int })),
    {
        self.0 = set_field(self.0 as u64, 0x2000000000, 2, (if v { 1 } else { 0 }), Ghost(0x1_0000_0000_0000_0000)) as u64;
    }

    /// This register with `v` in place of that field.
    pub fn with_css_nvm(self, v: bool) -> (r: Capabilities)
        ensures
            r == self.spec_with_css_nvm(v),
    {
        let mut r: Capabilities = self;
        r.set_css_nvm(v);
        r
    }

    /// Smallest supported memory page size: `2^(12 + mpsmin)` bytes.
    pub open spec fn spec_mpsmin(self) -> u8 {
        field(self.0 as int, 0x1000000000000, 0x10) as u8
    }

    /// Smallest supported memory page size: `2^(12 + mpsmin)` bytes.
    pub fn mpsmin(&self) -> (r: u8)
        ensures
            r == self.spec_mpsmin(),
            r < 0x10,
    {
        get_field(self.0 as u64, 0x1000000000000, 0x10) as u8
    }

    /// Largest supported memory page size: `2^(12 + mpsmax)` bytes.
    pub open spec fn spec_mpsmax(self) -> u8 {
        field(self.0 as int, 0x10000000000000, 0x10) as u8
    }

    /// Largest supported memory page size: `2^(12 + mpsmax)` bytes.
    pub fn mpsmax(&self) -> (r: u8)
        ensures
            r == self.spec_mpsmax(),
            r < 0x10,
    {
        get_field(self.0 as u64, 0x10000000000000, 0x10) as u8
    }

}

/// Controller Configuration (CC).
#[derive(Clone, Copy, Debug, Default, PartialEq, Eq, Structural)]
pub struct Configuration(pub u32);

impl Configuration {
    /// Whether the controller is enabled.
    pub open spec fn spec_enabled(self) -> bool {
        field(self.0 as int, 1, 2) == 1
    }

    /// Whether the controller is enabled.
    pub fn enabled(&self) -> (r: bool)
        ensures
            r == self.spec_enabled(),
    {
        get_field(self.0 as u64, 1, 2) == 1
    }

    /// This register with `v` in place of that field.
    pub open spec fn spec_with_enabled(self, v: bool) -> Configuration {
        Configuration(with_field(self.0 as int, 1, 2, (if v { 1int } else { 0int })) as u32)
    }

    /// Sets that field to `v`.
    pub fn set_enabled(&mut self, v: bool)
        ensures
            *final(self) == old(self).spec_with_enabled(v),
            final(self).0 == with_field(old(self).0 as int, 1, 2, (if v { 1int } else { 0int })),
    {
        self.0 = set_field(self.0 as u64, 1, 2, (if v { 1 } else { 0 }), Ghost(0x1_0000_0000)) as u32;
    }

    /// This register with `v` in place of that field.
    pub fn with_enabled(self, v: bool) -> (r: Configuration)
        ensures
            r == self.spec_with_enabled(v),
    {
        let mut r: Configuration = self;
        r.set_enabled(v);
        r
    }

    /// The I/O command set that the host selected.
    pub open spec fn spec_css(self) -> IOCommandSet {
        IOCommandSet::spec_from_raw(field(self.0 as int, 0x10, 0x8) as u8)
    }

    /// The I/O command set that the host selected.
    pub fn css(&self) -> (r: IOCommandSet)
        ensures
            r == self.spec_css(),
    {
        IOCommandSet::from_raw(get_field(self.0 as u64, 0x10, 0x8) as u8)
    }

    /// This register with `v` in place of that field.
    pub open spec fn spec_with_css(self, v: IOCommandSet) -> Configuration {
        Configuration(with_field(self.0 as int, 0x10, 0x8, (v.spec_into_raw() as int % 0x8)) as u32)
    }

    /// Sets that field to `v`.
    pub fn set_css(&mut self, v: IOCommandSet)
        ensures
            *final(self) == old(self).spec_with_css(v),
            final(self).0 == with_field(old(self).0 as int, 0x10, 0x8, (v.spec_into_raw() as int % 0x8)),
    {
        self.0 = set_field(self.0 as u64, 0x10, 0x8, v.into_raw() as u64, Ghost(0x1_0000_0000)) as u32;
    }

    /// This register with `v` in place of that field.
    pub fn with_css(self, v: IOCommandSet) -> (r: Configuration)
        ensures
            r == self.spec_with_css(v),
    {
        let mut r: Configuration = self;
        r.set_css(v);
        r
    }

    /// The memory page size that the host selected: `2^(12 + mps)` bytes.
    pub open spec fn spec_mps(self) -> u8 {
        field(self.0 as int, 0x80, 0x10) as u8
    }

    /// The memory page size that the host selected: `2^(12 + mps)` bytes.
    pub fn mps(&self) -> (r: u8)
        ensures
            r == self.spec_mps(),
            r < 0x10,
    {
        get_field(self.0 as u64, 0x80, 0x10) as u8
    }

    /// This register with `v` in place of that field.
    pub open spec fn spec_with_mps(self, v: u8) -> Configuration {
        Configuration(with_field(self.0 as int, 0x80, 0x10, (v as int % 0x10)) as u32)
    }

    /// Sets that field to `v`.
    pub fn set_mps(&mut self, v: u8)
        ensures
            *final(self) == old(self).spec_with_mps(v),
            final(self).0 == with_field(old(self).0 as int, 0x80, 0x10, (v as int % 0x10)),
    {
        self.0 = set_field(self.0 as u64, 0x80, 0x10, v as u64, Ghost(0x1_0000_0000)) as u32;
    }

    /// This register with `v` in place of that field.
    pub fn with_mps(self, v: u8) -> (r: Configuration)
        ensures
            r == self.spec_with_mps(v),
    {
        let mut r: Configuration = self;
        r.set_mps(v);
        r
    }

    /// The arbitration mechanism that the host selected.
    pub open spec fn spec_ams(self) -> ArbitrationMechanism {
        ArbitrationMechanism::spec_from_raw(field(self.0 as int, 0x800, 0x8) as u8)
    }

    /// The arbitration mechanism that the host selected.
    pub fn ams(&self) -> (r: ArbitrationMechanism)
        ensures
            r == self.spec_ams(),
    {
        ArbitrationMechanism::from_raw(get_field(self.0 as u64, 0x800, 0x8) as u8)
    }

    /// This register with `v` in place of that field.
    pub open spec fn spec_with_ams(self, v: ArbitrationMechanism) -> Configuration {
        Configuration(with_field(self.0 as int, 0x800, 0x8, (v.spec_into_raw() as int % 0x8)) as u32)
    }

    /// Sets that field to `v`.
    pub fn set_ams(&mut self, v: ArbitrationMechanism)
        ensures
            *final(self) == old(self).spec_with_ams(v),
            final(self).0 == with_field(old(self).0 as int, 0x800, 0x8, (v.spec_into_raw() as int % 0x8)),
    {
        self.0 = set_field(self.0 as u64, 0x800, 0x8, v.into_raw() as u64, Ghost(0x1_0000_0000)) as u32;
    }

    /// This register with `v` in place of that field.
    pub fn with_ams(self, v: ArbitrationMechanism) -> (r: Configuration)
        ensures
            r == self.spec_with_ams(v),
    {
        let mut r: Configuration = self;
        r.set_ams(v);
        r
    }

    /// The shutdown notification of the host.
    pub open spec fn spec_shn(self) -> ShutdownNotification {
        ShutdownNotification::spec_from_raw(field(self.0 as int, 0x4000, 0x4) as u8)
    }

    /// The shutdown notification of the host.
    pub fn shn(&self) -> (r: ShutdownNotification)
        ensures
            r == self.spec_shn(),
    {
        ShutdownNotification::from_raw(get_field(self.0 as u64, 0x4000, 0x4) as u8)
    }

    /// Size of the entries of I/O submission queues: `2^iosqes` bytes.
    pub open spec fn spec_iosqes(self) -> u8 {
        field(self.0 as int, 0x10000, 0x10) as u8
    }

    /// Size of the entries of I/O submission queues: `2^iosqes` bytes.
    pub fn iosqes(&self) -> (r: u8)
        ensures
            r == self.spec_iosqes(),
            r < 0x10,
    {
        get_field(self.0 as u64, 0x10000, 0x10) as u8
    }

    /// This register with `v` in place of that field.
    pub open spec fn spec_with_iosqes(self, v: u8) -> Configuration {
        Configuration(with_field(self.0 as int, 0x10000, 0x10, (v as int % 0x10)) as u32)
    }

    /// Sets that field to `v`.
    pub fn set_iosqes(&mut self, v: u8)
        ensures
            *final(self) == old(self).spec_with_iosqes(v),
            final(self).0 == with_field(old(self).0 as int, 0x10000, 0x10, (v as int % 0x10)),
    {
        self.0 = set_field(self.0 as u64, 0x10000, 0x10, v as u64, Ghost(0x1_0000_0000)) as u32;
    }

    /// This register with `v` in place of that field.
    pub fn with_iosqes(self, v: u8) -> (r: Configuration)
        ensures
            r == self.spec_with_iosqes(v),
    {
        let mut r: Configuration = self;
        r.set_iosqes(v);
        r
    }

    /// Size of the entries of I/O completion queues: `2^iocqes` bytes.
    pub open spec fn spec_iocqes(self) -> u8 {
        field(self.0 as int, 0x100000, 0x10) as u8
    }

    /// Size of the entries of I/O completion queues: `2^iocqes` bytes.
    pub fn iocqes(&self) -> (r: u8)
        ensures
            r == self.spec_iocqes(),
            r < 0x10,
    {
        get_field(self.0 as u64, 0x100000, 0x10) as u8
    }

    /// This register with `v` in place of that field.
    pub open spec fn spec_with_iocqes(self, v: u8) -> Configuration {
        Configuration(with_field(self.0 as int, 0x100000, 0x10, (v as int % 0x10)) as u32)
    }

    /// Sets that field to `v`.
    pub fn set_iocqes(&mut self, v: u8)
        ensures
            *final(self) == old(self).spec_with_iocqes(v),
            final(self).0 == with_field(old(self).0 as int, 0x100000, 0x10, (v as int % 0x10)),
    {
        self.0 = set_field(self.0 as u64, 0x100000, 0x10, v as u64, Ghost(0x1_0000_0000)) as u32;
    }

    /// This register with `v` in place of that field.
    pub fn with_iocqes(self, v: u8) -> (r: Configuration)
        ensures
            r == self.spec_with_iocqes(v),
    {
        let mut r: Configuration = self;
        r.set_iocqes(v);
        r
    }

}

/// Arbitration mechanisms.
#[derive(Clone, Copy, Debug, PartialEq, Eq, Structural)]
pub enum ArbitrationMechanism {
    RoundRobin,
    WeightedRoundRobinWithUrgent,
    Reserved(u8),
    Vendor,
}

impl ArbitrationMechanism {
    /// The value that a field holding `raw` stands for.
    pub open spec fn spec_from_raw(raw: u8) -> ArbitrationMechanism {
        if raw == 0 {
            ArbitrationMechanism::RoundRobin
        } else if raw == 1 {
            ArbitrationMechanism::WeightedRoundRobinWithUrgent
        } else if raw == 7 {
            ArbitrationMechanism::Vendor
        } else {
            ArbitrationMechanism::Reserved(raw)
        }
    }

    /// The value that a field holding `raw` stands for.
    pub fn from_raw(raw: u8) -> (r: ArbitrationMechanism)
        requires
            raw < 8,
        ensures
            r == Self::spec_from_raw(raw),
    {
        if raw == 0 {
            ArbitrationMechanism::RoundRobin
        } else if raw == 1 {
            ArbitrationMechanism::WeightedRoundRobinWithUrgent
        } else if raw == 7 {
            ArbitrationMechanism::Vendor
        } else {
            ArbitrationMechanism::Reserved(raw)
        }
    }

    /// The value of the field for this choice.
    pub open spec fn spec_into_raw(self) -> u8 {
        match self {
            ArbitrationMechanism::RoundRobin => 0,
            ArbitrationMechanism::WeightedRoundRobinWithUrgent => 1,
            ArbitrationMechanism::Reserved(raw) => raw,
            ArbitrationMechanism::Vendor => 7,
        }
    }

    /// The value of the field for this choice.
    pub fn into_raw(self) -> (r: u8)
        ensures
            r == self.spec_into_raw(),
    {
        match self {
            ArbitrationMechanism::RoundRobin => 0,
            ArbitrationMechanism::WeightedRoundRobinWithUrgent => 1,
            ArbitrationMechanism::Reserved(raw) => raw,
            ArbitrationMechanism::Vendor => 7,
        }
    }
}

/// Every value of the field stands for a choice whose value it is.
pub proof fn law_arbitration_mechanism_round_trip(raw: u8)
    requires
        raw < 8,
    ensures
        ArbitrationMechanism::spec_from_raw(raw).spec_into_raw() == raw,
{
}

/// Shutdown notifications of the host.
#[derive(Clone, Copy, Debug, PartialEq, Eq, Structural)]
pub enum ShutdownNotification {
    NotRequested,
    Normal,
    Abrupt,
    Reserved,
}

impl ShutdownNotification {
    /// The value that a field holding `raw` stands for.
    pub open spec fn spec_from_raw(raw: u8) -> ShutdownNotification {
        if raw == 0 {
            ShutdownNotification::NotRequested
        } else if raw == 1 {
            ShutdownNotification::Normal
        } else if raw == 2 {
            ShutdownNotification::Abrupt
        } else {
            ShutdownNotification::Reserved
        }
    }

    /// The value that a field holding `raw` stands for.
    pub fn from_raw(raw: u8) -> (r: ShutdownNotification)
        requires
            raw < 4,
        ensures
            r == Self::spec_from_raw(raw),
    {
        if raw == 0 {
            ShutdownNotification::NotRequested
        } else if raw == 1 {
            ShutdownNotification::Normal
        } else if raw == 2 {
            ShutdownNotification::Abrupt
        } else {
            ShutdownNotification::Reserved
        }
    }

    /// The value of the field for this choice.
    pub open spec fn spec_into_raw(self) -> u8 {
        match self {
            ShutdownNotification::NotRequested => 0,
            ShutdownNotification::Normal => 1,
            ShutdownNotification::Abrupt => 2,
            ShutdownNotification::Reserved => 3,
        }
    }

    /// The value of the field for this choice.
    pub fn into_raw(self) -> (r: u8)
        ensures
            r == self.spec_into_raw(),
    {
        match self {
            ShutdownNotification::NotRequested => 0,
            ShutdownNotification::Normal => 1,
            ShutdownNotification::Abrupt => 2,
            ShutdownNotification::Reserved => 3,
        }
    }
}

/// Every value of the field stands for a choice whose value it is.
pub proof fn law_shutdown_notification_round_trip(raw: u8)
    requires
        raw < 4,
    ensures
        ShutdownNotification::spec_from_raw(raw).spec_into_raw() == raw,
{
}

/// Controller Status (CSTS).
#[derive(Clone, Copy, Debug, Default, PartialEq, Eq, Structural)]
pub struct Status(pub u32);

impl Status {
    /// Whether the controller accepts doorbell writes.
    pub open spec fn spec_ready(self) -> bool {
        field(self.0 as int, 1, 2) == 1
    }

    /// Whether the controller accepts doorbell writes.
    pub fn ready(&self) -> (r: bool)
        ensures
            r == self.spec_ready(),
    {
        get_field(self.0 as u64, 1, 2) == 1
    }

    /// This register with `v` in place of that field.
    pub open spec fn spec_with_ready(self, v: bool) -> Status {
        Status(with_field(self.0 as int, 1, 2, (if v { 1int } else { 0int })) as u32)
    }

    /// Sets that field to `v`.
    pub fn set_ready(&mut self, v: bool)
        ensures
            *final(self) == old(self).spec_with_ready(v),
            final(self).0 == with_field(old(self).0 as int, 1, 2, (if v { 1int } else { 0int })),
    {
        self.0 = set_field(self.0 as u64, 1, 2, (if v { 1 } else { 0 }), Ghost(0x1_0000_0000)) as u32;
    }

    /// This register with `v` in place of that field.
    pub fn with_ready(self, v: bool) -> (r: Status)
        ensures
            r == self.spec_with_ready(v),
    {
        let mut r: Status = self;
        r.set_ready(v);
        r
    }

    /// Whether a fatal error has occurred.
    pub open spec fn spec_cfs(self) -> bool {
        field(self.0 as int, 0x2, 2) == 1
    }

    /// Whether a fatal error has occurred.
    pub fn cfs(&self) -> (r: bool)
        ensures
            r == self.spec_cfs(),
    {
        get_field(self.0 as u64, 0x2, 2) == 1
    }

    /// This register with `v` in place of that field.
    pub open spec fn spec_with_cfs(self, v: bool) -> Status {
        Status(with_field(self.0 as int, 0x2, 2, (if v { 1int } else { 0int })) as u32)
    }

    /// Sets that field to `v`.
    pub fn set_cfs(&mut self, v: bool)
        ensures
            *final(self) == old(self).spec_with_cfs(v),
            final(self).0 == with_field(old(self).0 as int, 0x2, 2, (if v { 1int } else { 0int })),
    {
        self.0 = set_field(self.0 as u64, 0x2, 2, (if v { 1 } else { 0 }), Ghost(0x1_0000_0000)) as u32;
    }

    /// This register with `v` in place of that field.
    pub fn with_cfs(self, v: bool) -> (r: Status)
        ensures
            r == self.spec_with_cfs(v),
    {
        let mut r: Status = self;
        r.set_cfs(v);
        r
    }

    /// The state of shutdown processing.
    pub open spec fn spec_shst(self) -> ShutdownStatus {
        ShutdownStatus::spec_from_raw(field(self.0 as int, 0x4, 0x4) as u8)
    }

    /// The state of shutdown processing.
    pub fn shst(&self) -> (r: ShutdownStatus)
        ensures
            r == self.spec_shst(),
    {
        ShutdownStatus::from_raw(get_field(self.0 as u64, 0x4, 0x4) as u8)
    }

    /// This register with `v` in place of that field.
    pub open spec fn spec_with_shst(self, v: ShutdownStatus) -> Status {
        Status(with_field(self.0 as int, 0x4, 0x4, (v.spec_into_raw() as int % 0x4)) as u32)
    }

    /// Sets that field to `v`.
    pub fn set_shst(&mut self, v: ShutdownStatus)
        ensures
            *final(self) == old(self).spec_with_shst(v),
            final(self).0 == with_field(old(self).0 as int, 0x4, 0x4, (v.spec_into_raw() as int % 0x4)),
    {
        self.0 = set_field(self.0 as u64, 0x4, 0x4, v.into_raw() as u64, Ghost(0x1_0000_0000)) as u32;
    }

    /// This register with `v` in place of that field.
    pub fn with_shst(self, v: ShutdownStatus) -> (r: Status)
        ensures
            r == self.spec_with_shst(v),
    {
        let mut r: Status = self;
        r.set_shst(v);
        r
    }

}

/// States of shutdown processing.
#[derive(Clone, Copy, Debug, PartialEq, Eq, Structural)]
pub enum ShutdownStatus {
    Normal,
    Processing,
    Complete,
    Reserved,
}

impl ShutdownStatus {
    /// The value that a field holding `raw` stands for.
    pub open spec fn spec_from_raw(raw: u8) -> ShutdownStatus {
        if raw == 0 {
            ShutdownStatus::Normal
        } else if raw == 1 {
            ShutdownStatus::Processing
        } else if raw == 2 {
            ShutdownStatus::Complete
        } else {
            ShutdownStatus::Reserved
        }
    }

    /// The value that a field holding `raw` stands for.
    pub fn from_raw(raw: u8) -> (r: ShutdownStatus)
        requires
            raw < 4,
        ensures
            r == Self::spec_from_raw(raw),
    {
        if raw == 0 {
            ShutdownStatus::Normal
        } else if raw == 1 {
            ShutdownStatus::Processing
        } else if raw == 2 {
            ShutdownStatus::Complete
        } else {
            ShutdownStatus::Reserved
        }
    }

    /// The value of the field for this choice.
    pub open spec fn spec_into_raw(self) -> u8 {
        match self {
            ShutdownStatus::Normal => 0,
            ShutdownStatus::Processing => 1,
            ShutdownStatus::Complete => 2,
            ShutdownStatus::Reserved => 3,
        }
    }

    /// The value of the field for this choice.
    pub fn into_raw(self) -> (r: u8)
        ensures
            r == self.spec_into_raw(),
    {
        match self {
            ShutdownStatus::Normal => 0,
            ShutdownStatus::Processing => 1,
            ShutdownStatus::Complete => 2,
            ShutdownStatus::Reserved => 3,
        }
    }
}

/// Every value of the field stands for a choice whose value it is.
pub proof fn law_shutdown_status_round_trip(raw: u8)
    requires
        raw < 4,
    ensures
        ShutdownStatus::spec_from_raw(raw).spec_into_raw() == raw,
{
}

/// Admin Queue Attributes (AQA).
#[derive(Clone, Copy, Debug, Default, PartialEq, Eq, Structural)]
pub struct AdminQueueAttrs(pub u32);

impl AdminQueueAttrs {
    /// Size of the admin submission queue, less one.
    pub open spec fn spec_asqs(self) -> u16 {
        field(self.0 as int, 1, 0x1000) as u16
    }

    /// Size of the admin submission queue, less one.
    pub fn asqs(&self) -> (r: u16)
        ensures
            r == self.spec_asqs(),
            r < 0x1000,
    {
        get_field(self.0 as u64, 1, 0x1000) as u16
    }

    /// Size of the admin completion queue, less one.
    pub open spec fn spec_acqs(self) -> u16 {
        field(self.0 as int, 0x10000, 0x1000) as u16
    }

    /// Size of the admin completion queue, less one.
    pub fn acqs(&self) -> (r: u16)
        ensures
            r == self.spec_acqs(),
            r < 0x1000,
    {
        get_field(self.0 as u64, 0x10000, 0x1000) as u16
    }

}

/// Required and maximum size of queue entries.
#[derive(Clone, Copy, Debug, PartialEq, Eq, Structural)]
pub struct NvmQueueEntrySize(pub u8);

impl NvmQueueEntrySize {
    /// The required entry size: `2^required` bytes.
    pub open spec fn spec_required(self) -> u8 {
        field(self.0 as int, 1, 0x10) as u8
    }

    /// The required entry size: `2^required` bytes.
    pub fn required(&self) -> (r: u8)
        ensures
            r == self.spec_required(),
            r < 0x10,
    {
        get_field(self.0 as u64, 1, 0x10) as u8
    }

    /// This register with `v` in place of that field.
    pub open spec fn spec_with_required(self, v: u8) -> NvmQueueEntrySize {
        NvmQueueEntrySize(with_field(self.0 as int, 1, 0x10, (v as int % 0x10)) as u8)
    }

    /// Sets that field to `v`.
    pub fn set_required(&mut self, v: u8)
        ensures
            *final(self) == old(self).spec_with_required(v),
            final(self).0 == with_field(old(self).0 as int, 1, 0x10, (v as int % 0x10)),
    {
        self.0 = set_field(self.0 as u64, 1, 0x10, v as u64, Ghost(0x100)) as u8;
    }

    /// This register with `v` in place of that field.
    pub fn with_required(self, v: u8) -> (r: NvmQueueEntrySize)
        ensures
            r == self.spec_with_required(v),
    {
        let mut r: NvmQueueEntrySize = self;
        r.set_required(v);
        r
    }

    /// The maximum entry size: `2^maximum` bytes.
    pub open spec fn spec_maximum(self) -> u8 {
        field(self.0 as int, 0x10, 0x10) as u8
    }

    /// The maximum entry size: `2^maximum` bytes.
    pub fn maximum(&self) -> (r: u8)
        ensures
            r == self.spec_maximum(),
            r < 0x10,
    {
        get_field(self.0 as u64, 0x10, 0x10) as u8
    }

    /// This register with `v` in place of that field.
    pub open spec fn spec_with_maximum(self, v: u8) -> NvmQueueEntrySize {
        NvmQueueEntrySize(with_field(self.0 as int, 0x10, 0x10, (v as int % 0x10)) as u8)
    }

    /// Sets that field to `v`.
    pub fn set_maximum(&mut self, v: u8)
        ensures
            *final(self) == old(self).spec_with_maximum(v),
            final(self).0 == with_field(old(self).0 as int, 0x10, 0x10, (v as int % 0x10)),
    {
        self.0 = set_field(self.0 as u64, 0x10, 0x10, v as u64, Ghost(0x100)) as u8;
    }

    /// This register with `v` in place of that field.
    pub fn with_maximum(self, v: u8) -> (r: NvmQueueEntrySize)
        ensures
            r == self.spec_with_maximum(v),
    {
        let mut r: NvmQueueEntrySize = self;
        r.set_maximum(v);
        r
    }

}

/// Controller Version NVM Express 1.0.
pub const NVME_VER_1_0: u32 = 0x00010000;

/// Delete I/O Submission Queue Command Opcode.
pub const ADMIN_OPC_DELETE_IO_SQ: u8 = 0x00;

/// Create I/O Submission Queue Command Opcode.
pub const ADMIN_OPC_CREATE_IO_SQ: u8 = 0x01;

/// Get Log Page Command Opcode.
pub const ADMIN_OPC_GET_LOG_PAGE: u8 = 0x02;

/// Delete I/O Completion Queue Command Opcode.
pub const ADMIN_OPC_DELETE_IO_CQ: u8 = 0x04;

/// Create I/O Completion Queue Command Opcode.
pub const ADMIN_OPC_CREATE_IO_CQ: u8 = 0x05;

/// Identify Command Opcode.
pub const ADMIN_OPC_IDENTIFY: u8 = 0x06;

/// Abort Command Opcode.
pub const ADMIN_OPC_ABORT: u8 = 0x08;

/// Set Feature Command Opcode.
pub const ADMIN_OPC_SET_FEATURES: u8 = 0x09;

/// Get Feature Command Opcode.
pub const ADMIN_OPC_GET_FEATURES: u8 = 0x0A;

/// Asynchronous Event Request Command Opcode.
pub const ADMIN_OPC_ASYNC_EVENT_REQ: u8 = 0x0c;

/// Doorbell Buffer Config.
pub const ADMIN_OPC_DOORBELL_BUF_CFG: u8 = 0x7c;

/// Flush Command Opcode.
pub const NVM_OPC_FLUSH: u8 = 0x00;

/// Write Command Opcode.
pub const NVM_OPC_WRITE: u8 = 0x01;

/// Read Command Opcode.
pub const NVM_OPC_READ: u8 = 0x02;

/// Successful Completion.
pub const STS_SUCCESS: u8 = 0x0;

/// Invalid Command Opcode.
pub const STS_INVAL_OPC: u8 = 0x1;

/// Invalid Field in Command.
pub const STS_INVAL_FIELD: u8 = 0x2;

/// Command ID Conflict.
pub const STS_CID_CONFLICT: u8 = 0x3;

/// Data Transfer Error.
pub const STS_DATA_XFER_ERR: u8 = 0x4;

/// Commands Aborted due to Power Loss Notification.
pub const STS_PWR_LOSS_ABRT: u8 = 0x5;

/// Internal Device Error.
pub const STS_INTERNAL_ERR: u8 = 0x6;

/// Command Abort Requested.
pub const STS_ABORT_REQ: u8 = 0x7;

/// Command Aborted due to SQ Deletion.
pub const STS_ABORT_SQ_DEL: u8 = 0x8;

/// Command Aborted due to Failed Fused Command.
pub const STS_FAILED_FUSED: u8 = 0x9;

/// Command Aborted due to Missing Fused Command.
pub const STS_MISSING_FUSED: u8 = 0xA;

/// Invalid Namespace or Format.
pub const STS_INVALID_NS: u8 = 0xB;

/// Command Sequence Error.
pub const STS_COMMAND_SEQ_ERR: u8 = 0xC;

/// Completion Queue Invalid.
pub const STS_CREATE_IO_Q_INVAL_CQ: u8 = 0x0;

/// Invalid Queue Identifier (Queue Creation).
pub const STS_CREATE_IO_Q_INVAL_QID: u8 = 0x1;

/// Invalid Queue Size (Queue Creation).
pub const STS_CREATE_IO_Q_INVAL_QSIZE: u8 = 0x2;

/// Invalid Interrupt Vector (Queue Creation).
pub const STS_CREATE_IO_Q_INVAL_INT_VEC: u8 = 0x8;

/// Invalid Queue Identifier (Queue Deletion).
pub const STS_DELETE_IO_Q_INVAL_QID: u8 = 0x1;

/// Invalid Queue Deletion.
pub const STS_DELETE_IO_Q_INVAL_Q_DELETION: u8 = 0xC;

/// Conflicting Attributes.
pub const STS_READ_CONFLICTING_ATTRS: u8 = 0x80;

/// Invalid Protection Information.
pub const STS_READ_INVALID_PROT_INFO: u8 = 0x81;

/// Attempted to Write Read Only Range.
pub const STS_WRITE_READ_ONLY_RANGE: u8 = 0x82;

/// Arbitration.
pub const FEAT_ID_ARBITRATION: u8 = 0x01;

/// Power Management.
pub const FEAT_ID_POWER_MGMT: u8 = 0x02;

/// LBA Range Type.
pub const FEAT_ID_LBA_RANGE_TYPE: u8 = 0x03;

/// Temperature Threshold.
pub const FEAT_ID_TEMP_THRESH: u8 = 0x04;

/// Error Recovery.
pub const FEAT_ID_ERROR_RECOVERY: u8 = 0x05;

/// Volatile Write Cache.
pub const FEAT_ID_VOLATILE_WRITE_CACHE: u8 = 0x06;

/// Number of Queues.
pub const FEAT_ID_NUM_QUEUES: u8 = 0x07;

/// Interrupt Coalescing.
pub const FEAT_ID_INTR_COALESCE: u8 = 0x08;

/// Interrupt Vector Configuration.
pub const FEAT_ID_INTR_VEC_CFG: u8 = 0x09;

/// Write Atomicity.
pub const FEAT_ID_WRITE_ATOMIC: u8 = 0x0A;

/// Asynchronous Event Configuration.
pub const FEAT_ID_ASYNC_EVENT_CFG: u8 = 0x0B;

/// Identify - Namespace Structure.
pub const IDENT_CNS_NAMESPACE: u8 = 0x0;

/// Identify - Controller Structure.
pub const IDENT_CNS_CONTROLLER: u8 = 0x1;

/// The type of value that the status field of a completion holds.
#[derive(Clone, Copy, Debug, PartialEq, Eq, Structural)]
pub enum StatusCodeType {
    Generic,
    CmdSpecific,
    MediaDataIntegrity,
    VendorSpecific,
}

impl StatusCodeType {
    /// The number that the status field holds for this type.
    pub open spec fn spec_raw(self) -> u8 {
        match self {
            StatusCodeType::Generic => 0,
            StatusCodeType::CmdSpecific => 1,
            StatusCodeType::MediaDataIntegrity => 2,
            StatusCodeType::VendorSpecific => 7,
        }
    }

    /// The number that the status field holds for this type.
    pub fn raw(self) -> (r: u8)
        ensures
            r == self.spec_raw(),
            r < 8,
    {
        match self {
            StatusCodeType::Generic => 0,
            StatusCodeType::CmdSpecific => 1,
            StatusCodeType::MediaDataIntegrity => 2,
            StatusCodeType::VendorSpecific => 7,
        }
    }
}

/// Appends the bytes of an array to `out`.
fn push_array<const N: usize>(out: &mut Vec<u8>, src: &[u8; N])
    ensures
        final(out)@ == old(out)@ + src@,
{
    let ghost start = out@;
    let mut at: usize = 0;
    while at < N
        invariant
            at <= N,
            src@.len() == N,
            out@ == start + src@.subrange(0, at as int),
        decreases N - at,
    {
        out.push(src[at]);
        at += 1;
        assert(out@ =~= start + src@.subrange(0, at as int));
    }
    assert(src@.subrange(0, N as int) =~= src@);
}

/// A power state descriptor.
#[derive(Clone, Copy)]
pub struct PowerStateDescriptor {
    /// Maximum power, in units of 0.01 W.
    pub mp: u16,
    pub _resv1: u16,
    /// Maximum entry latency, in microseconds.
    pub enlat: u32,
    /// Maximum exit latency, in microseconds.
    pub exlat: u32,
    /// Relative read throughput.
    pub rrt: u8,
    /// Relative read latency.
    pub rrl: u8,
    /// Relative write throughput.
    pub rwt: u8,
    /// Relative write latency.
    pub rwl: u8,
    pub _resv: [u8; 16],
}

impl PowerStateDescriptor {
    /// Whether every field of the descriptor is zero.
    pub open spec fn is_zeroed(self) -> bool {
        &&& self.mp == 0
        &&& self._resv1 == 0
        &&& self.enlat == 0
        &&& self.exlat == 0
        &&& self.rrt == 0
        &&& self.rrl == 0
        &&& self.rwt == 0
        &&& self.rwl == 0
        &&& self._resv@ == zeros(16)
    }

    /// The 32 bytes of the descriptor in memory.
    pub open spec fn encode(self) -> Seq<u8> {
        le16(self.mp) + le16(self._resv1) + le32(self.enlat) + le32(self.exlat) + seq![
            self.rrt,
            self.rrl,
            self.rwt,
            self.rwl,
        ] + self._resv@
    }

    /// Appends the bytes of the descriptor to `out`.
    pub fn push_bytes(&self, out: &mut Vec<u8>)
        ensures
            final(out)@ == old(out)@ + self.encode(),
            self.encode().len() == 32,
    {
        push_le16(out, self.mp);
        push_le16(out, self._resv1);
        push_le32(out, self.enlat);
        push_le32(out, self.exlat);
        out.push(self.rrt);
        out.push(self.rrl);
        out.push(self.rwt);
        out.push(self.rwl);
        push_array(out, &self._resv);
        assert(out@ =~= old(out)@ + self.encode());
    }
}

impl Default for PowerStateDescriptor {
    fn default() -> (r: PowerStateDescriptor)
        ensures
            r.is_zeroed(),
    {
        let r: PowerStateDescriptor = PowerStateDescriptor {
            mp: 0,
            _resv1: 0,
            enlat: 0,
            exlat: 0,
            rrt: 0,
            rrl: 0,
            rwt: 0,
            rwl: 0,
            _resv: [0u8;16],
        };
        assert(r._resv@ =~= zeros(16));
        r
    }
}

/// The bytes of a run of power state descriptors.
pub open spec fn psd_bytes(s: Seq<PowerStateDescriptor>) -> Seq<u8>
    decreases s.len(),
{
    if s.len() == 0 {
        Seq::empty()
    } else {
        psd_bytes(s.drop_last()) + s.last().encode()
    }
}

/// The structure that an Identify Controller command returns.
#[derive(Clone, Copy)]
pub struct IdentifyController {
    /// PCI vendor ID.
    pub vid: u16,
    /// PCI subsystem vendor ID.
    pub ssvid: u16,
    /// Serial number.
    pub sn: [u8; 20],
    /// Model number.
    pub mn: [u8; 40],
    /// Firmware revision.
    pub fr: [u8; 8],
    /// Recommended arbitration burst.
    pub rab: u8,
    /// IEEE OUI.
    pub ieee: [u8; 3],
    /// Multi-interface capabilities.
    pub cmic: u8,
    /// Maximum data transfer size: `2^mdts` minimum pages, or no limit if 0.
    pub mdts: u8,
    pub _resv1: [u8; 178],
    /// Optional admin command support.
    pub oacs: u16,
    /// Abort command limit.
    pub acl: u8,
    /// Asynchronous event request limit.
    pub aerl: u8,
    /// Firmware updates.
    pub frmw: u8,
    /// Log page attributes.
    pub lpa: u8,
    /// Error log page entries.
    pub elpe: u8,
    /// Number of power states.
    pub npss: u8,
    /// Admin vendor specific command configuration.
    pub avscc: u8,
    pub _resv2: [u8; 247],
    /// Submission queue entry size.
    pub sqes: NvmQueueEntrySize,
    /// Completion queue entry size.
    pub cqes: NvmQueueEntrySize,
    pub _resv3: [u8; 2],
    /// Number of namespaces.
    pub nn: u32,
    /// Optional NVM command support.
    pub oncs: u16,
    /// Fused operation support.
    pub fuses: u16,
    /// Format NVM attributes.
    pub fna: u8,
    /// Volatile write cache.
    pub vwc: u8,
    /// Atomic write unit in normal operation.
    pub awun: u16,
    /// Atomic write unit on power failure.
    pub awupf: u16,
    /// NVM vendor specific command configuration.
    pub nvscc: u8,
    pub _resv4: [u8; 173],
    pub _resv5: [u8; 1344],
    /// Power state descriptors.
    pub psd: [PowerStateDescriptor; 32],
    /// Vendor specific.
    pub vs: [u8; 1024],
}

impl IdentifyController {
    /// Whether every field of the structure is zero.
    pub open spec fn is_zeroed(self) -> bool {
        &&& self.vid == 0
        &&& self.ssvid == 0
        &&& self.sn@ == zeros(20)
        &&& self.mn@ == zeros(40)
        &&& self.fr@ == zeros(8)
        &&& self.rab == 0
        &&& self.ieee@ == zeros(3)
        &&& self.cmic == 0
        &&& self.mdts == 0
        &&& self._resv1@ == zeros(178)
        &&& self.oacs == 0
        &&& self.acl == 0
        &&& self.aerl == 0
        &&& self.frmw == 0
        &&& self.lpa == 0
        &&& self.elpe == 0
        &&& self.npss == 0
        &&& self.avscc == 0
        &&& self._resv2@ == zeros(247)
        &&& self.sqes.0 == 0
        &&& self.cqes.0 == 0
        &&& self._resv3@ == zeros(2)
        &&& self.nn == 0
        &&& self.oncs == 0
        &&& self.fuses == 0
        &&& self.fna == 0
        &&& self.vwc == 0
        &&& self.awun == 0
        &&& self.awupf == 0
        &&& self.nvscc == 0
        &&& self._resv4@ == zeros(173)
        &&& self._resv5@ == zeros(1344)
        &&& forall|i: int| 0 <= i < 32 ==> (#[trigger] self.psd@[i]).is_zeroed()
        &&& self.vs@ == zeros(1024)
    }

    /// Bytes 0 to 255 of the structure in memory.
    pub open spec fn encode_capabilities(self) -> Seq<u8> {
        le16(self.vid) + le16(self.ssvid) + self.sn@ + self.mn@ + self.fr@ + seq![self.rab]
            + self.ieee@ + seq![self.cmic, self.mdts] + self._resv1@
    }

    /// Bytes 256 to 511 of the structure in memory.
    pub open spec fn encode_admin(self) -> Seq<u8> {
        le16(self.oacs) + seq![
            self.acl,
            self.aerl,
            self.frmw,
            self.lpa,
            self.elpe,
            self.npss,
            self.avscc,
        ] + self._resv2@
    }

    /// Bytes 512 to 2047 of the structure in memory.
    pub open spec fn encode_nvm(self) -> Seq<u8> {
        seq![self.sqes.0, self.cqes.0] + self._resv3@ + le32(self.nn) + le16(self.oncs) + le16(
            self.fuses,
        ) + seq![self.fna, self.vwc] + le16(self.awun) + le16(self.awupf) + seq![self.nvscc]
            + self._resv4@ + self._resv5@
    }

    /// The 4096 bytes of the structure in memory.
    pub open spec fn encode(self) -> Seq<u8> {
        self.encode_capabilities() + self.encode_admin() + self.encode_nvm() + psd_bytes(self.psd@)
            + self.vs@
    }

    /// The 4096 bytes of the structure in memory.
    pub fn to_bytes(&self) -> (r: Vec<u8>)
        ensures
            r@ == self.encode(),
            r@.len() == 4096,
    {
        let mut out: Vec<u8> = Vec::new();
        push_le16(&mut out, self.vid);
        push_le16(&mut out, self.ssvid);
        push_array(&mut out, &self.sn);
        push_array(&mut out, &self.mn);
        push_array(&mut out, &self.fr);
        out.push(self.rab);
        push_array(&mut out, &self.ieee);
        out.push(self.cmic);
        out.push(self.mdts);
        push_array(&mut out, &self._resv1);
        assert(out@ =~= self.encode_capabilities());
        assert(out@.len() == 256);
        let ghost part1 = out@;
        push_le16(&mut out, self.oacs);
        out.push(self.acl);
        out.push(self.aerl);
        out.push(self.frmw);
        out.push(self.lpa);
        out.push(self.elpe);
        out.push(self.npss);
        out.push(self.avscc);
        push_array(&mut out, &self._resv2);
        assert(out@ =~= part1 + self.encode_admin());
        assert(out@.len() == 512);
        let ghost part2 = out@;
        out.push(self.sqes.0);
        out.push(self.cqes.0);
        push_array(&mut out, &self._resv3);
        push_le32(&mut out, self.nn);
        push_le16(&mut out, self.oncs);
        push_le16(&mut out, self.fuses);
        out.push(self.fna);
        out.push(self.vwc);
        push_le16(&mut out, self.awun);
        push_le16(&mut out, self.awupf);
        out.push(self.nvscc);
        push_array(&mut out, &self._resv4);
        push_array(&mut out, &self._resv5);
        assert(out@ =~= part2 + self.encode_nvm());
        assert(out@.len() == 2048);
        let ghost part3 = out@;
        let mut i: usize = 0;
        while i < 32
            invariant
                i <= 32,
                self.psd@.len() == 32,
                out@ == part3 + psd_bytes(self.psd@.take(i as int)),
                psd_bytes(self.psd@.take(i as int)).len() == 32 * i,
                part3.len() == 2048,
            decreases 32 - i,
        {
            self.psd[i].push_bytes(&mut out);
            i += 1;
            assert(self.psd@.take(i as int).drop_last() =~= self.psd@.take(i - 1));
            assert(out@ =~= part3 + psd_bytes(self.psd@.take(i as int)));
        }
        assert(self.psd@.take(32) =~= self.psd@);
        push_array(&mut out, &self.vs);
        out
    }
}

impl Default for IdentifyController {
    fn default() -> (r: IdentifyController)
        ensures
            r.is_zeroed(),
    {
        let psd: PowerStateDescriptor = PowerStateDescriptor::default();
        let r: IdentifyController = IdentifyController {
            vid: 0,
            ssvid: 0,
            sn: [0u8;20],
            mn: [0u8;40],
            fr: [0u8;8],
            rab: 0,
            ieee: [0u8;3],
            cmic: 0,
            mdts: 0,
            _resv1: [0u8;178],
            oacs: 0,
            acl: 0,
            aerl: 0,
            frmw: 0,
            lpa: 0,
            elpe: 0,
            npss: 0,
            avscc: 0,
            _resv2: [0u8;247],
            sqes: NvmQueueEntrySize(0),
            cqes: NvmQueueEntrySize(0),
            _resv3: [0u8;2],
            nn: 0,
            oncs: 0,
            fuses: 0,
            fna: 0,
            vwc: 0,
            awun: 0,
            awupf: 0,
            nvscc: 0,
            _resv4: [0u8;173],
            _resv5: [0u8;1344],
            psd: [psd;32],
            vs: [0u8;1024],
        };
        assert(r.sn@ =~= zeros(20));
        assert(r.mn@ =~= zeros(40));
        assert(r.fr@ =~= zeros(8));
        assert(r.ieee@ =~= zeros(3));
        assert(r._resv1@ =~= zeros(178));
        assert(r._resv2@ =~= zeros(247));
        assert(r._resv3@ =~= zeros(2));
        assert(r._resv4@ =~= zeros(173));
        assert(r._resv5@ =~= zeros(1344));
        assert(r.vs@ =~= zeros(1024));
        r
    }
}

/// A logical block format.
#[derive(Clone, Copy, Debug, PartialEq, Eq, Structural)]
pub struct LbaFormat {
    /// Metadata bytes per logical block.
    pub ms: u16,
    /// Size of a logical block: `2^lbads` bytes.
    pub lbads: u8,
    /// Relative performance.
    pub rp: u8,
}

impl LbaFormat {
    /// The format with every field zero.
    pub open spec fn zeroed() -> LbaFormat {
        LbaFormat { ms: 0, lbads: 0, rp: 0 }
    }

    /// The four bytes of the format in memory.
    pub open spec fn encode(self) -> Seq<u8> {
        le16(self.ms) + seq![self.lbads, self.rp]
    }
}

impl Default for LbaFormat {
    fn default() -> (r: LbaFormat)
        ensures
            r == LbaFormat::zeroed(),
    {
        LbaFormat { ms: 0, lbads: 0, rp: 0 }
    }
}

/// The bytes of a run of logical block formats.
pub open spec fn lbaf_bytes(s: Seq<LbaFormat>) -> Seq<u8>
    decreases s.len(),
{
    if s.len() == 0 {
        Seq::empty()
    } else {
        lbaf_bytes(s.drop_last()) + s.last().encode()
    }
}

/// The structure that an Identify Namespace command returns.
#[derive(Clone, Copy)]
pub struct IdentifyNamespace {
    /// Size in logical blocks.
    pub nsze: u64,
    /// Capacity in logical blocks.
    pub ncap: u64,
    /// Utilization in logical blocks.
    pub nuse: u64,
    /// Features.
    pub nsfeat: u8,
    /// Number of logical block formats, less one.
    pub nlbaf: u8,
    /// Format in use (bits 3:0).
    pub flbas: u8,
    /// Metadata capabilities.
    pub mc: u8,
    /// Data protection capabilities.
    pub dpc: u8,
    /// Data protection settings.
    pub dps: u8,
    pub _resv1: [u8; 98],
    /// The supported formats.
    pub lbaf: [LbaFormat; 16],
    pub _resv2: [u8; 192],
    /// Vendor specific.
    pub vs: [u8; 3712],
}

impl IdentifyNamespace {
    /// Whether every field of the structure is zero.
    pub open spec fn is_zeroed(self) -> bool {
        &&& self.nsze == 0
        &&& self.ncap == 0
        &&& self.nuse == 0
        &&& self.nsfeat == 0
        &&& self.nlbaf == 0
        &&& self.flbas == 0
        &&& self.mc == 0
        &&& self.dpc == 0
        &&& self.dps == 0
        &&& self._resv1@ == zeros(98)
        &&& forall|i: int| 0 <= i < 16 ==> #[trigger] self.lbaf@[i] == LbaFormat::zeroed()
        &&& self._resv2@ == zeros(192)
        &&& self.vs@ == zeros(3712)
    }

    /// The 4096 bytes of the structure in memory.
    pub open spec fn encode(self) -> Seq<u8> {
        le64(self.nsze) + le64(self.ncap) + le64(self.nuse) + seq![
            self.nsfeat,
            self.nlbaf,
            self.flbas,
            self.mc,
            self.dpc,
            self.dps,
        ] + self._resv1@ + lbaf_bytes(self.lbaf@) + self._resv2@ + self.vs@
    }

    /// The 4096 bytes of the structure in memory.
    pub fn to_bytes(&self) -> (r: Vec<u8>)
        ensures
            r@ == self.encode(),
            r@.len() == 4096,
    {
        let mut out: Vec<u8> = Vec::new();
        push_le64(&mut out, self.nsze);
        push_le64(&mut out, self.ncap);
        push_le64(&mut out, self.nuse);
        out.push(self.nsfeat);
        out.push(self.nlbaf);
        out.push(self.flbas);
        out.push(self.mc);
        out.push(self.dpc);
        out.push(self.dps);
        push_array(&mut out, &self._resv1);
        let ghost part1 = out@;
        assert(part1 =~= le64(self.nsze) + le64(self.ncap) + le64(self.nuse) + seq![
            self.nsfeat,
            self.nlbaf,
            self.flbas,
            self.mc,
            self.dpc,
            self.dps,
        ] + self._resv1@);
        assert(part1.len() == 128);
        let mut i: usize = 0;
        while i < 16
            invariant
                i <= 16,
                self.lbaf@.len() == 16,
                out@ == part1 + lbaf_bytes(self.lbaf@.take(i as int)),
                lbaf_bytes(self.lbaf@.take(i as int)).len() == 4 * i,
                part1.len() == 128,
            decreases 16 - i,
        {
            let f: LbaFormat = self.lbaf[i];
            push_le16(&mut out, f.ms);
            out.push(f.lbads);
            out.push(f.rp);
            i += 1;
            assert(self.lbaf@.take(i as int).drop_last() =~= self.lbaf@.take(i - 1));
            assert(out@ =~= part1 + lbaf_bytes(self.lbaf@.take(i as int)));
        }
        assert(self.lbaf@.take(16) =~= self.lbaf@);
        push_array(&mut out, &self._resv2);
        push_array(&mut out, &self.vs);
        out
    }
}

impl Default for IdentifyNamespace {
    fn default() -> (r: IdentifyNamespace)
        ensures
            r.is_zeroed(),
    {
        let lbaf: LbaFormat = LbaFormat::default();
        let r: IdentifyNamespace = IdentifyNamespace {
            nsze: 0,
            ncap: 0,
            nuse: 0,
            nsfeat: 0,
            nlbaf: 0,
            flbas: 0,
            mc: 0,
            dpc: 0,
            dps: 0,
            _resv1: [0u8;98],
            lbaf: [lbaf;16],
            _resv2: [0u8;192],
            vs: [0u8;3712],
        };
        assert(r._resv1@ =~= zeros(98));
        assert(r._resv2@ =~= zeros(192));
        assert(r.vs@ =~= zeros(3712));
        r
    }
}

} // verus!
