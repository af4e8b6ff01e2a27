//! The real-time clock (Motorola MC146818 or similar).
use crate::hw::bhyve::data::{DataClass, DataOp};
use vstd::prelude::*;

verus! {

/// The state of the clock, as the hypervisor tells it.
#[derive(Clone, Copy, Debug)]
pub struct VdiRtcV2 {
    pub vr_base_clock: i64,
    pub vr_last_period: i64,
    pub vr_content: [u8; 128],
    pub vr_addr: u8,
}

/// The state of the clock, as it is moved to another host.
#[derive(Clone, Copy, Debug)]
pub struct BhyveRtcV2 {
    pub base_clock: i64,
    pub last_period: i64,
    pub cmos: [u8; 128],
    pub addr: u8,
}

impl BhyveRtcV2 {
    /// Whether this is what the hypervisor tells by `v`.
    pub open spec fn tells(self, v: VdiRtcV2) -> bool {
        &&& self.base_clock == v.vr_base_clock
        &&& self.last_period == v.vr_last_period
        &&& self.cmos@ == v.vr_content@
        &&& self.addr == v.vr_addr
    }

    /// What the hypervisor tells.
    pub fn from_vdi(v: VdiRtcV2) -> (r: Self)
        ensures
            r.tells(v),
    {
        BhyveRtcV2 {
            base_clock: v.vr_base_clock,
            last_period: v.vr_last_period,
            cmos: v.vr_content,
            addr: v.vr_addr,
        }
    }

    /// What the hypervisor is told.
    pub fn into_vdi(self) -> (r: VdiRtcV2)
        ensures
            self.tells(r),
    {
        VdiRtcV2 {
            vr_base_clock: self.base_clock,
            vr_last_period: self.last_period,
            vr_content: self.cmos,
            vr_addr: self.addr,
        }
    }
}

/// Where the memory of the clock holds the base memory, in KiB: that of the first
/// megabyte, less 384 KiB
pub const CMOS_OFF_MEM_BASE: u8 = 0x15;

/// Where it holds the extended memory, in KiB: that from 1 MiB to 64 MiB
pub const CMOS_OFF_MEM_EXT: u8 = 0x17;

/// Where it holds the extended memory a second time
pub const CMOS_OFF_MEM_EXT_DUP: u8 = 0x30;

/// Where it holds the memory below the 32-bit boundary, less 16 MiB, in units of
/// 64 KiB
pub const CMOS_OFF_MEM_LOW: u8 = 0x34;

/// Where it holds the memory above the 32-bit boundary, in units of 64 KiB
pub const CMOS_OFF_MEM_HIGH: u8 = 0x5b;

/// A kilobyte
pub const KIB: u32 = 1024;

/// A megabyte
pub const MIB: u32 = 0x10_0000;

/// The unit of large sizes
pub const CHUNK: u32 = 0x1_0000;

/// The most base memory, in KiB
pub const BASE_MEM_KIB: u32 = 640;

/// What the hypervisor is told of the clock.
#[derive(Clone, Copy, Debug, PartialEq, Eq, Structural)]
pub enum RtcOp {
    /// The time, in seconds and nanoseconds since the epoch.
    SetTime(u64, u32),
    /// A byte of the memory of the clock, by its offset.
    Write(u8, u8),
}

/// A word in the memory of the clock, the lower byte first.
pub open spec fn word_ops(offset: u8, v: int) -> Seq<RtcOp> {
    seq![
        RtcOp::Write(offset, (v % 0x100) as u8),
        RtcOp::Write((offset + 1) as u8, (v / 0x100) as u8),
    ]
}

/// The base memory, in KiB.
pub open spec fn base_kib(low: int) -> int {
    if low / 0x400 < 640 {
        low / 0x400
    } else {
        640
    }
}

/// The extended memory, in KiB.
pub open spec fn ext_kib(low: int) -> int {
    ((if low < 0x400_0000 {
        low
    } else {
        0x400_0000
    }) - 0x10_0000) / 0x400
}

/// What tells the sizes of the guest's memory, below the 32-bit boundary and
/// above it.
pub open spec fn memsize_ops(low: int, high: int) -> Seq<RtcOp> {
    let ext = if low > 0x10_0000 {
        word_ops(CMOS_OFF_MEM_EXT, ext_kib(low)) + word_ops(CMOS_OFF_MEM_EXT_DUP, ext_kib(low))
    } else {
        Seq::empty()
    };
    let lows = if low > 0x100_0000 {
        word_ops(CMOS_OFF_MEM_LOW, (low - 0x100_0000) / 0x1_0000)
    } else {
        Seq::empty()
    };
    let highs = if high > 0 {
        let n = high / 0x1_0000;
        seq![
            RtcOp::Write(CMOS_OFF_MEM_HIGH, (n % 0x100) as u8),
            RtcOp::Write((CMOS_OFF_MEM_HIGH + 1) as u8, ((n / 0x100) % 0x100) as u8),
            RtcOp::Write((CMOS_OFF_MEM_HIGH + 2) as u8, ((n / 0x1_0000) % 0x100) as u8),
        ]
    } else {
        Seq::empty()
    };
    word_ops(CMOS_OFF_MEM_BASE, base_kib(low)) + ext + lows + highs
}

/// Adds what tells a word.
fn push_word(ops: &mut Vec<RtcOp>, offset: u8, v: u16)
    requires
        offset < 255,
    ensures
        final(ops)@ == old(ops)@ + word_ops(offset, v as int),
{
    ops.push(RtcOp::Write(offset, (v % 0x100) as u8));
    ops.push(RtcOp::Write(offset + 1, (v / 0x100) as u8));
    assert(ops@ =~= old(ops)@ + word_ops(offset, v as int));
}

/// The memory of the clock after the hypervisor was told some of it.
pub open spec fn told(cmos: Seq<u8>, ops: Seq<RtcOp>) -> Seq<u8>
    decreases ops.len(),
{
    if ops.len() == 0 {
        cmos
    } else {
        let before = told(cmos, ops.drop_last());
        match ops.last() {
            RtcOp::Write(offset, v) => before.update(offset as int, v),
            _ => before,
        }
    }
}

/// A word in the memory of the clock.
pub open spec fn cmos_word(cmos: Seq<u8>, offset: u8) -> int {
    cmos[offset as int] + 0x100 * cmos[offset + 1]
}

/// What is told one after the other adds up.
proof fn lemma_told(cmos: Seq<u8>, a: Seq<RtcOp>, b: Seq<RtcOp>)
    ensures
        told(cmos, a + b) == told(told(cmos, a), b),
    decreases b.len(),
{
    if b.len() == 0 {
        assert(a + b =~= a);
    } else {
        assert((a + b).drop_last() =~= a + b.drop_last());
        lemma_told(cmos, a, b.drop_last());
    }
}

/// What telling a word does.
proof fn lemma_told_word(cmos: Seq<u8>, offset: u8, v: int)
    requires
        cmos.len() == 128,
        offset < 127,
        0 <= v < 0x1_0000,
    ensures
        told(cmos, word_ops(offset, v)) == cmos.update(offset as int, (v % 0x100) as u8).update(
            offset + 1,
            (v / 0x100) as u8,
        ),
        cmos_word(told(cmos, word_ops(offset, v)), offset) == v,
{
    let ops = word_ops(offset, v);
    assert(ops.drop_last() =~= seq![ops[0]]);
    assert(seq![ops[0]].drop_last() =~= Seq::<RtcOp>::empty());
    reveal_with_fuel(told, 3);
}

/// What telling the memory above the boundary does.
proof fn lemma_told_high(cmos: Seq<u8>, n: int)
    requires
        cmos.len() == 128,
        0 <= n < 0x100_0000,
    ensures
        ({
            let ops = seq![
                RtcOp::Write(CMOS_OFF_MEM_HIGH, (n % 0x100) as u8),
                RtcOp::Write((CMOS_OFF_MEM_HIGH + 1) as u8, ((n / 0x100) % 0x100) as u8),
                RtcOp::Write((CMOS_OFF_MEM_HIGH + 2) as u8, ((n / 0x1_0000) % 0x100) as u8),
            ];
            let c = told(cmos, ops);
            &&& c == cmos.update(0x5b, (n % 0x100) as u8).update(
                0x5c,
                ((n / 0x100) % 0x100) as u8,
            ).update(0x5d, ((n / 0x1_0000) % 0x100) as u8)
            &&& c[0x5b] + 0x100 * c[0x5c] + 0x1_0000 * c[0x5d] == n
        }),
{
    let ops = seq![
        RtcOp::Write(CMOS_OFF_MEM_HIGH, (n % 0x100) as u8),
        RtcOp::Write((CMOS_OFF_MEM_HIGH + 1) as u8, ((n / 0x100) % 0x100) as u8),
        RtcOp::Write((CMOS_OFF_MEM_HIGH + 2) as u8, ((n / 0x1_0000) % 0x100) as u8),
    ];
    assert(ops.drop_last() =~= seq![ops[0], ops[1]]);
    assert(seq![ops[0], ops[1]].drop_last() =~= seq![ops[0]]);
    assert(seq![ops[0]].drop_last() =~= Seq::<RtcOp>::empty());
    reveal_with_fuel(told, 4);
}

/// Firmware that reads the memory of the clock finds the sizes of the guest's
/// memory, in the units that it counts them in. Sizes that are not told leave
/// their places as they are.
pub proof fn law_nvram_tells_memory(cmos: Seq<u8>, low: int, high: int)
    requires
        cmos.len() == 128,
        0 < low < 0x1_0000_0000,
        0 <= high < 0x100_0000_0000,
    ensures
        ({
            let c = told(cmos, memsize_ops(low, high));
            &&& c.len() == 128
            &&& cmos_word(c, CMOS_OFF_MEM_BASE) == base_kib(low)
            &&& low > 0x10_0000 ==> cmos_word(c, CMOS_OFF_MEM_EXT) == ext_kib(low) && cmos_word(
                c,
                CMOS_OFF_MEM_EXT_DUP,
            ) == ext_kib(low)
            &&& low > 0x100_0000 ==> cmos_word(c, CMOS_OFF_MEM_LOW) == (low - 0x100_0000)
                / 0x1_0000
            &&& high > 0 ==> c[0x5b] + 0x100 * c[0x5c] + 0x1_0000 * c[0x5d] == high / 0x1_0000
            &&& low <= 0x10_0000 ==> c[0x17] == cmos[0x17] && c[0x18] == cmos[0x18] && c[0x30]
                == cmos[0x30] && c[0x31] == cmos[0x31]
            &&& low <= 0x100_0000 ==> c[0x34] == cmos[0x34] && c[0x35] == cmos[0x35]
            &&& high == 0 ==> c[0x5b] == cmos[0x5b] && c[0x5c] == cmos[0x5c] && c[0x5d]
                == cmos[0x5d]
        }),
{
    let e = Seq::<RtcOp>::empty();
    let base = word_ops(CMOS_OFF_MEM_BASE, base_kib(low));
    let ext1 = word_ops(CMOS_OFF_MEM_EXT, ext_kib(low));
    let ext2 = word_ops(CMOS_OFF_MEM_EXT_DUP, ext_kib(low));
    let ext = if low > 0x10_0000 {
        ext1 + ext2
    } else {
        e
    };
    let lows = if low > 0x100_0000 {
        word_ops(CMOS_OFF_MEM_LOW, (low - 0x100_0000) / 0x1_0000)
    } else {
        e
    };
    let n = high / 0x1_0000;
    let highs = if high > 0 {
        seq![
            RtcOp::Write(CMOS_OFF_MEM_HIGH, (n % 0x100) as u8),
            RtcOp::Write((CMOS_OFF_MEM_HIGH + 1) as u8, ((n / 0x100) % 0x100) as u8),
            RtcOp::Write((CMOS_OFF_MEM_HIGH + 2) as u8, ((n / 0x1_0000) % 0x100) as u8),
        ]
    } else {
        e
    };
    assert(memsize_ops(low, high) == base + ext + lows + highs);
    let c1 = told(cmos, base);
    let c2 = told(c1, ext);
    let c3 = told(c2, lows);
    let c4 = told(c3, highs);
    lemma_told(cmos, base + ext + lows, highs);
    lemma_told(cmos, base + ext, lows);
    lemma_told(cmos, base, ext);
    lemma_told_word(cmos, CMOS_OFF_MEM_BASE, base_kib(low));
    if low > 0x10_0000 {
        lemma_told(c1, ext1, ext2);
        lemma_told_word(c1, CMOS_OFF_MEM_EXT, ext_kib(low));
        lemma_told_word(told(c1, ext1), CMOS_OFF_MEM_EXT_DUP, ext_kib(low));
    }
    if low > 0x100_0000 {
        lemma_told_word(c2, CMOS_OFF_MEM_LOW, (low - 0x100_0000) / 0x1_0000);
    }
    if high > 0 {
        lemma_told_high(c3, n);
    }
}

/// The real-time clock (Motorola MC146818 or similar).
#[derive(Clone, Copy, Debug)]
pub struct BhyveRtc {}

impl BhyveRtc {
    /// The device.
    pub fn create() -> (r: Self)
        ensures
            r == (BhyveRtc {  }),
    {
        BhyveRtc {  }
    }

    /// The state that is moved.
    pub fn data_op(&self) -> (r: DataOp)
        ensures
            r == (DataOp { class: DataClass::Rtc, version: 2 }),
    {
        DataOp { class: DataClass::Rtc, version: 2 }
    }

    /// The state to be moved to another host, from what the hypervisor told.
    pub fn export(&self, vdi: VdiRtcV2) -> (r: BhyveRtcV2)
        ensures
            r.tells(vdi),
    {
        BhyveRtcV2::from_vdi(vdi)
    }

    /// What is to be told the hypervisor, from the state brought from another
    /// host.
    pub fn import(&self, data: BhyveRtcV2) -> (r: VdiRtcV2)
        ensures
            data.tells(r),
    {
        data.into_vdi()
    }

    /// What is to be told the hypervisor for the clock to show a time, given
    /// since the epoch.
    pub fn set_time(&self, secs: u64, nanos: u32) -> (r: RtcOp)
        ensures
            r == RtcOp::SetTime(secs, nanos),
    {
        RtcOp::SetTime(secs, nanos)
    }

    /// What is to be told the hypervisor for the memory of the clock to hold
    /// the sizes of the guest's memory. Firmware looks for them there.
    ///
    /// - `low_mem_bytes`: the memory below the 32-bit boundary
    /// - `high_mem_bytes`: the memory above it
    pub fn memsize_to_nvram(&self, low_mem_bytes: u32, high_mem_bytes: u64) -> (r: Vec<RtcOp>)
        requires
            low_mem_bytes != 0,
            low_mem_bytes % 0x1000 == 0,
            high_mem_bytes % 0x1000 == 0,
        ensures
            r@ == memsize_ops(low_mem_bytes as int, high_mem_bytes as int),
    {
        let mut ops: Vec<RtcOp> = Vec::new();

        // The first megabyte, less what is not memory
        let kib: u32 = low_mem_bytes / KIB;
        let base: u16 = if kib < BASE_MEM_KIB {
            kib as u16
        } else {
            BASE_MEM_KIB as u16
        };
        push_word(&mut ops, CMOS_OFF_MEM_BASE, base);

        // What comes next, up to 64 megabytes, in two places
        if low_mem_bytes > MIB {
            let top: u32 = if low_mem_bytes < 64 * MIB {
                low_mem_bytes
            } else {
                64 * MIB
            };
            let ext: u16 = ((top - MIB) / KIB) as u16;
            push_word(&mut ops, CMOS_OFF_MEM_EXT, ext);
            push_word(&mut ops, CMOS_OFF_MEM_EXT_DUP, ext);
        }

        // Memory below the 32-bit boundary, less 16 megabytes
        if low_mem_bytes > 16 * MIB {
            let low: u16 = ((low_mem_bytes - 16 * MIB) / CHUNK) as u16;
            push_word(&mut ops, CMOS_OFF_MEM_LOW, low);
        }

        // Memory above the boundary
        if high_mem_bytes > 0 {
            let high: u64 = high_mem_bytes / CHUNK as u64;
            ops.push(RtcOp::Write(CMOS_OFF_MEM_HIGH, (high % 0x100) as u8));
            ops.push(RtcOp::Write(CMOS_OFF_MEM_HIGH + 1, ((high / 0x100) % 0x100) as u8));
            ops.push(RtcOp::Write(CMOS_OFF_MEM_HIGH + 2, ((high / 0x1_0000) % 0x100) as u8));
        }
        assert(ops@ =~= memsize_ops(low_mem_bytes as int, high_mem_bytes as int));
        ops
    }
}

/// The hypervisor of the other host is told what that of the first one told.
pub proof fn law_rtc_migrates(s: BhyveRtcV2, a: VdiRtcV2, b: VdiRtcV2)
    requires
        s.tells(a),
        s.tells(b),
    ensures
        a.vr_base_clock == b.vr_base_clock,
        a.vr_last_period == b.vr_last_period,
        a.vr_content@ == b.vr_content@,
        a.vr_addr == b.vr_addr,
{
}

} // verus!
