//! Types shared by every device: guest addresses, guest memory, the read and
//! write operations of register accesses, and little-endian encodings.
use vstd::prelude::*;

verus! {

/// Size of a guest page, in bytes.
pub const PAGE_SIZE: u64 = 0x1000;

// ---------------------------------------------------------------------------
// Little-endian encodings
// ---------------------------------------------------------------------------

/// The two bytes of `v`, least significant first.
pub open spec fn le16(v: u16) -> Seq<u8> {
    seq![(v % 256) as u8, (v / 256) as u8]
}

/// The four bytes of `v`, least significant first.
pub open spec fn le32(v: u32) -> Seq<u8> {
    le16((v % 0x1_0000) as u16) + le16((v / 0x1_0000) as u16)
}

/// The eight bytes of `v`, least significant first.
pub open spec fn le64(v: u64) -> Seq<u8> {
    le32((v % 0x1_0000_0000) as u32) + le32((v / 0x1_0000_0000) as u32)
}

/// The number whose little-endian bytes are the first two of `s`.
pub open spec fn val16(s: Seq<u8>) -> u16 {
    (s[0] + s[1] * 0x100) as u16
}

/// The number whose little-endian bytes are the first four of `s`.
pub open spec fn val32(s: Seq<u8>) -> u32 {
    (val16(s.subrange(0, 2)) + val16(s.subrange(2, 4)) * 0x1_0000) as u32
}

/// The number whose little-endian bytes are the first eight of `s`.
pub open spec fn val64(s: Seq<u8>) -> u64 {
    (val32(s.subrange(0, 4)) + val32(s.subrange(4, 8)) * 0x1_0000_0000) as u64
}

/// Decoding what was encoded gives the number back, and encoding what was
/// decoded gives the bytes back (16 bits).
pub proof fn law_le16_round_trip(v: u16, s: Seq<u8>)
    requires
        s.len() == 2,
    ensures
        val16(le16(v)) == v,
        le16(val16(s)) == s,
{
    assert(le16(val16(s)) =~= s);
}

/// Decoding what was encoded gives the number back, and encoding what was
/// decoded gives the bytes back (32 bits).
pub proof fn law_le32_round_trip(v: u32, s: Seq<u8>)
    requires
        s.len() == 4,
    ensures
        val32(le32(v)) == v,
        le32(val32(s)) == s,
{
    let lo = (v % 0x1_0000) as u16;
    let hi = (v / 0x1_0000) as u16;
    law_le16_round_trip(lo, s.subrange(0, 2));
    law_le16_round_trip(hi, s.subrange(2, 4));
    assert(le32(v).subrange(0, 2) =~= le16(lo));
    assert(le32(v).subrange(2, 4) =~= le16(hi));
    let w = val32(s);
    assert((w % 0x1_0000) as u16 == val16(s.subrange(0, 2)));
    assert((w / 0x1_0000) as u16 == val16(s.subrange(2, 4)));
    assert(s.subrange(0, 2) + s.subrange(2, 4) =~= s);
}

/// Decoding what was encoded gives the number back, and encoding what was
/// decoded gives the bytes back (64 bits).
pub proof fn law_le64_round_trip(v: u64, s: Seq<u8>)
    requires
        s.len() == 8,
    ensures
        val64(le64(v)) == v,
        le64(val64(s)) == s,
{
    let lo = (v % 0x1_0000_0000) as u32;
    let hi = (v / 0x1_0000_0000) as u32;
    let a = s.subrange(0, 4);
    let b = s.subrange(4, 8);
    law_le32_round_trip(lo, a);
    law_le32_round_trip(hi, b);
    lemma_halves64(v, lo, hi, le32(lo), le32(hi));
    lemma_join64(val32(a), val32(b));
    assert(a + b =~= s);
}

/// The halves of an encoding are the encodings of the halves.
proof fn lemma_halves64(v: u64, lo: u32, hi: u32, x: Seq<u8>, y: Seq<u8>)
    requires
        lo == v % 0x1_0000_0000,
        hi == v / 0x1_0000_0000,
        x.len() == 4,
        y.len() == 4,
        val32(x) == lo,
        val32(y) == hi,
    ensures
        val64(x + y) == v,
{
    assert((x + y).subrange(0, 4) =~= x);
    assert((x + y).subrange(4, 8) =~= y);
}

/// Two 32-bit halves can be told apart again in the number they make.
proof fn lemma_join64(a: u32, b: u32)
    ensures
        (((a + b * 0x1_0000_0000) as u64) % 0x1_0000_0000) as u32 == a,
        (((a + b * 0x1_0000_0000) as u64) / 0x1_0000_0000) as u32 == b,
{
}

/// The value of bytes is the sum of them, each with 256 times the weight of the
/// one before it.
pub proof fn law_byte_order(s: Seq<u8>)
    requires
        s.len() == 8,
    ensures
        val16(s.subrange(0, 2)) == s[0] + 0x100 * s[1],
        val32(s.subrange(0, 4)) == s[0] + 0x100 * s[1] + 0x1_0000 * s[2] + 0x100_0000 * s[3],
        val64(s) == s[0] + 0x100 * s[1] + 0x1_0000 * s[2] + 0x100_0000 * s[3] + 0x1_0000_0000 * s[4]
            + 0x100_0000_0000 * s[5] + 0x1_0000_0000_0000 * s[6] + 0x100_0000_0000_0000 * s[7],
{
    let a = s.subrange(0, 4);
    let b = s.subrange(4, 8);
    assert(a.subrange(0, 2) =~= s.subrange(0, 2));
    assert(val32(a) == s[0] + 0x100 * s[1] + 0x1_0000 * s[2] + 0x100_0000 * s[3]);
    assert(val32(b) == s[4] + 0x100 * s[5] + 0x1_0000 * s[6] + 0x100_0000 * s[7]);
}

/// Appends the encoding of `v` to `out`.
pub fn push_le16(out: &mut Vec<u8>, v: u16)
    ensures
        final(out)@ == old(out)@ + le16(v),
{
    out.push((v % 256) as u8);
    out.push((v / 256) as u8);
}

/// Appends the encoding of `v` to `out`.
pub fn push_le32(out: &mut Vec<u8>, v: u32)
    ensures
        final(out)@ == old(out)@ + le32(v),
{
    push_le16(out, (v % 0x1_0000) as u16);
    push_le16(out, (v / 0x1_0000) as u16);
}

/// Appends the encoding of `v` to `out`.
pub fn push_le64(out: &mut Vec<u8>, v: u64)
    ensures
        final(out)@ == old(out)@ + le64(v),
{
    push_le32(out, (v % 0x1_0000_0000) as u32);
    push_le32(out, (v / 0x1_0000_0000) as u32);
}

/// Appends `count` bytes of the value `byte` to `out`.
pub fn push_fill(out: &mut Vec<u8>, byte: u8, count: usize)
    ensures
        final(out)@ == old(out)@ + Seq::new(count as nat, |i: int| byte),
{
    let ghost start = out@;
    let mut done: usize = 0;
    while done < count
        invariant
            done <= count,
            out@ == start + Seq::new(done as nat, |i: int| byte),
        decreases count - done,
    {
        out.push(byte);
        done += 1;
    }
}

/// Appends the bytes `src[from..to]` to `out`.
pub fn push_range(out: &mut Vec<u8>, src: &Vec<u8>, from: usize, to: usize)
    requires
        from <= to <= src@.len(),
    ensures
        final(out)@ == old(out)@ + src@.subrange(from as int, to as int),
{
    let ghost start = out@;
    let mut at: usize = from;
    while at < to
        invariant
            from <= at <= to <= src@.len(),
            out@ == start + src@.subrange(from as int, at as int),
        decreases to - at,
    {
        out.push(src[at]);
        at += 1;
        assert(out@ =~= start + src@.subrange(from as int, at as int));
    }
}

/// A new vector that holds the bytes `src[from..to]`.
pub fn sub_vec(src: &Vec<u8>, from: usize, to: usize) -> (out: Vec<u8>)
    requires
        from <= to <= src@.len(),
    ensures
        out@ == src@.subrange(from as int, to as int),
{
    let mut out: Vec<u8> = Vec::new();
    push_range(&mut out, src, from, to);
    assert(out@ =~= src@.subrange(from as int, to as int));
    out
}

/// Decodes the two bytes of `src` at `at`.
pub fn get_le16(src: &Vec<u8>, at: usize) -> (v: u16)
    requires
        at + 2 <= src@.len(),
    ensures
        v == val16(src@.subrange(at as int, at + 2)),
{
    let len: usize = src.len();
    assert(at + 2 <= len);
    src[at] as u16 + src[at + 1] as u16 * 0x100
}

/// Decodes the four bytes of `src` at `at`.
pub fn get_le32(src: &Vec<u8>, at: usize) -> (v: u32)
    requires
        at + 4 <= src@.len(),
    ensures
        v == val32(src@.subrange(at as int, at + 4)),
{
    let len: usize = src.len();
    assert(at + 4 <= len);
    let lo: u16 = get_le16(src, at);
    let hi: u16 = get_le16(src, at + 2);
    let ghost s = src@.subrange(at as int, at + 4);
    assert(s.subrange(0, 2) =~= src@.subrange(at as int, at + 2));
    assert(s.subrange(2, 4) =~= src@.subrange(at + 2, at + 4));
    lo as u32 + hi as u32 * 0x1_0000
}

/// Decodes the eight bytes of `src` at `at`.
pub fn get_le64(src: &Vec<u8>, at: usize) -> (v: u64)
    requires
        at + 8 <= src@.len(),
    ensures
        v == val64(src@.subrange(at as int, at + 8)),
{
    let len: usize = src.len();
    assert(at + 8 <= len);
    let lo: u32 = get_le32(src, at);
    let hi: u32 = get_le32(src, at + 4);
    let ghost s = src@.subrange(at as int, at + 8);
    assert(s.subrange(0, 4) =~= src@.subrange(at as int, at + 4));
    assert(s.subrange(4, 8) =~= src@.subrange(at + 4, at + 8));
    lo as u64 + hi as u64 * 0x1_0000_0000
}

/// A run of `n` zero bytes.
pub open spec fn zeros(n: nat) -> Seq<u8> {
    Seq::new(n, |i: int| 0u8)
}

/// A new vector of `n` zero bytes.
pub fn zero_vec(n: usize) -> (r: Vec<u8>)
    ensures
        r@ == zeros(n as nat),
{
    let mut r: Vec<u8> = Vec::new();
    push_fill(&mut r, 0, n);
    assert(r@ =~= zeros(n as nat));
    r
}

/// One byte.
pub fn byte_vec(v: u8) -> (r: Vec<u8>)
    ensures
        r@ == seq![v],
{
    let mut out: Vec<u8> = Vec::new();
    out.push(v);
    assert(out@ =~= seq![v]);
    out
}

/// The bytes of a 16-bit number.
pub fn le16_vec(v: u16) -> (r: Vec<u8>)
    ensures
        r@ == le16(v),
{
    let mut out: Vec<u8> = Vec::new();
    push_le16(&mut out, v);
    assert(out@ =~= le16(v));
    out
}

/// The bytes of a 32-bit number.
pub fn le32_vec(v: u32) -> (r: Vec<u8>)
    ensures
        r@ == le32(v),
{
    let mut out: Vec<u8> = Vec::new();
    push_le32(&mut out, v);
    assert(out@ =~= le32(v));
    out
}

/// A copy of some bytes.
pub fn copy_vec(v: &Vec<u8>) -> (r: Vec<u8>)
    ensures
        r@ == v@,
{
    let len: usize = v.len();
    let out: Vec<u8> = sub_vec(v, 0, len);
    assert(out@ =~= v@);
    out
}

/// `s` with the bytes from `at` on replaced by those of `data`.
pub open spec fn overlay(s: Seq<u8>, at: int, data: Seq<u8>) -> Seq<u8> {
    s.subrange(0, at) + data + s.subrange(at + data.len(), s.len() as int)
}

// ---------------------------------------------------------------------------
// Guest addresses
// ---------------------------------------------------------------------------

/// A guest-physical address.
#[derive(Clone, Copy, Debug, PartialEq, Eq, Structural)]
pub struct GuestAddr(pub u64);

/// A run of guest-physical memory: its start and its length in bytes.
#[derive(Clone, Copy, Debug, PartialEq, Eq, Structural)]
pub struct GuestRegion(pub GuestAddr, pub u64);

impl GuestAddr {
    /// The address `bytes` further on, modulo the size of the address space.
    pub open spec fn spec_advance(self, bytes: int) -> GuestAddr {
        GuestAddr(((self.0 + bytes) % 0x1_0000_0000_0000_0000) as u64)
    }

    /// The address `bytes` further on, modulo the size of the address space.
    pub fn advance(self, bytes: u64) -> (r: GuestAddr)
        ensures
            r == self.spec_advance(bytes as int),
    {
        GuestAddr(self.0.wrapping_add(bytes))
    }
}

// ---------------------------------------------------------------------------
// Guest memory
// ---------------------------------------------------------------------------

/// A run of guest memory: contiguous bytes from `base` on.
#[verifier::ext_equal]
pub struct RunView {
    pub base: int,
    pub bytes: Seq<u8>,
}

impl RunView {
    /// Whether all of the `len` bytes at `addr` lie in the run.
    pub open spec fn covers(self, addr: GuestAddr, len: int) -> bool {
        self.base <= addr.0 && addr.0 + len <= self.base + self.bytes.len()
    }

    /// The `len` bytes at `addr`.
    pub open spec fn at(self, addr: GuestAddr, len: int) -> Seq<u8> {
        self.bytes.subrange(addr.0 - self.base, addr.0 - self.base + len)
    }

    /// The run after a write of `data` at `addr`.
    pub open spec fn put(self, addr: GuestAddr, data: Seq<u8>) -> RunView {
        RunView { bytes: overlay(self.bytes, addr.0 - self.base, data), ..self }
    }

    /// Whether the run has an address in common with `len` bytes at `base`.
    pub open spec fn overlaps(self, base: int, len: int) -> bool {
        self.base < base + len && base < self.base + self.bytes.len()
    }
}

/// The first of the runs from `k` on that all of the `len` bytes at `addr` lie
/// in.
pub open spec fn first_run(runs: Seq<RunView>, addr: GuestAddr, len: int, k: int) -> Option<int>
    decreases runs.len() - k,
{
    if k < 0 || k >= runs.len() {
        None
    } else if runs[k].covers(addr, len) {
        Some(k)
    } else {
        first_run(runs, addr, len, k + 1)
    }
}

/// What guest memory holds: runs of bytes, with holes between them.
#[verifier::ext_equal]
pub struct MemView {
    pub runs: Seq<RunView>,
}

impl MemView {
    /// The run that all of the `len` bytes at `addr` lie in.
    pub open spec fn run_of(self, addr: GuestAddr, len: int) -> Option<int> {
        first_run(self.runs, addr, len, 0)
    }

    /// Whether all of the `len` bytes at `addr` are backed by one run of
    /// memory.
    pub open spec fn covers(self, addr: GuestAddr, len: int) -> bool {
        self.run_of(addr, len) is Some
    }

    /// The `len` bytes at `addr`.
    pub open spec fn at(self, addr: GuestAddr, len: int) -> Seq<u8> {
        self.runs[self.run_of(addr, len)->0].at(addr, len)
    }

    /// Memory after a write of `data` at `addr`: nothing happens unless all of
    /// the destination is backed by one run of memory.
    pub open spec fn put(self, addr: GuestAddr, data: Seq<u8>) -> MemView {
        match self.run_of(addr, data.len() as int) {
            Some(k) => MemView { runs: self.runs.update(k, self.runs[k].put(addr, data)) },
            None => self,
        }
    }

    /// Whether no two runs have an address in common.
    pub open spec fn apart(self) -> bool {
        forall|i: int, j: int|
            0 <= i < j < self.runs.len() ==> !(#[trigger] self.runs[i]).overlaps(
                (#[trigger] self.runs[j]).base,
                self.runs[j].bytes.len() as int,
            )
    }

    /// Whether some run has an address in common with `len` bytes at `base`.
    pub open spec fn overlaps(self, base: int, len: int) -> bool {
        exists|i: int| 0 <= i < self.runs.len() && (#[trigger] self.runs[i]).overlaps(base, len)
    }
}

/// The first run that bytes lie in is one that they lie in.
pub proof fn lemma_first_run(runs: Seq<RunView>, addr: GuestAddr, len: int, k: int)
    requires
        0 <= k,
    ensures
        match first_run(runs, addr, len, k) {
            Some(j) => {
                &&& k <= j < runs.len()
                &&& runs[j].covers(addr, len)
                &&& forall|i: int| k <= i < j ==> !(#[trigger] runs[i]).covers(addr, len)
            },
            None => forall|i: int|
                k <= i < runs.len() ==> !(#[trigger] runs[i]).covers(addr, len),
        },
    decreases runs.len() - k,
{
    if k < runs.len() && !runs[k].covers(addr, len) {
        lemma_first_run(runs, addr, len, k + 1);
    }
}

/// Bytes lie in the same run whatever the runs hold.
proof fn lemma_same_runs(a: Seq<RunView>, b: Seq<RunView>, addr: GuestAddr, len: int, k: int)
    requires
        a.len() == b.len(),
        forall|i: int|
            0 <= i < a.len() ==> (#[trigger] a[i]).base == b[i].base && a[i].bytes.len()
                == b[i].bytes.len(),
    ensures
        first_run(a, addr, len, k) == first_run(b, addr, len, k),
    decreases a.len() - k,
{
    if 0 <= k < a.len() {
        assert(a[k].base == b[k].base);
        lemma_same_runs(a, b, addr, len, k + 1);
    }
}

/// A write leaves the runs where they are.
pub proof fn lemma_put_runs(mem: MemView, addr: GuestAddr, data: Seq<u8>)
    ensures
        mem.put(addr, data).runs.len() == mem.runs.len(),
        forall|i: int|
            0 <= i < mem.runs.len() ==> (#[trigger] mem.put(addr, data).runs[i]).base
                == mem.runs[i].base && mem.put(addr, data).runs[i].bytes.len()
                == mem.runs[i].bytes.len(),
        forall|a: GuestAddr, n: int|
            mem.put(addr, data).run_of(a, n) == #[trigger] mem.run_of(a, n),
{
    lemma_first_run(mem.runs, addr, data.len() as int, 0);
    assert forall|a: GuestAddr, n: int| mem.put(addr, data).run_of(a, n) == #[trigger] mem.run_of(
        a,
        n,
    ) by {
        lemma_same_runs(mem.put(addr, data).runs, mem.runs, a, n, 0);
    }
}

/// A read gives back what the last write to the same place stored there.
pub proof fn law_read_after_write(mem: MemView, addr: GuestAddr, data: Seq<u8>)
    requires
        mem.covers(addr, data.len() as int),
    ensures
        mem.put(addr, data).covers(addr, data.len() as int),
        mem.put(addr, data).at(addr, data.len() as int) == data,
{
    lemma_first_run(mem.runs, addr, data.len() as int, 0);
    lemma_put_runs(mem, addr, data);
    assert(mem.run_of(addr, data.len() as int) is Some);
    assert(mem.put(addr, data).at(addr, data.len() as int) =~= data);
}

/// A write leaves all memory that it does not touch as it was.
pub proof fn law_write_elsewhere(
    mem: MemView,
    addr: GuestAddr,
    data: Seq<u8>,
    other: GuestAddr,
    len: nat,
)
    requires
        mem.covers(other, len as int),
        other.0 + len <= addr.0 || addr.0 + data.len() <= other.0,
    ensures
        mem.put(addr, data).covers(other, len as int),
        mem.put(addr, data).at(other, len as int) == mem.at(other, len as int),
{
    lemma_first_run(mem.runs, addr, data.len() as int, 0);
    lemma_first_run(mem.runs, other, len as int, 0);
    lemma_put_runs(mem, addr, data);
    assert(mem.run_of(other, len as int) is Some);
    assert(mem.put(addr, data).at(other, len as int) =~= mem.at(other, len as int));
}

/// Where no two runs have an address in common, every address is backed by one
/// run at most, and writes keep it so.
pub proof fn law_runs_apart(mem: MemView, i: int, j: int, addr: GuestAddr, len: int, data: Seq<u8>)
    requires
        mem.apart(),
        0 < len,
        0 <= i < mem.runs.len(),
        0 <= j < mem.runs.len(),
        mem.runs[i].covers(addr, len),
        mem.runs[j].covers(addr, len),
    ensures
        i == j,
        mem.run_of(addr, len) == Some(i),
        mem.put(addr, data).apart(),
{
    lemma_first_run(mem.runs, addr, len, 0);
    lemma_put_runs(mem, addr, data);
    let after = mem.put(addr, data);
    assert forall|a: int, b: int| 0 <= a < b < after.runs.len() implies !(
    #[trigger] after.runs[a]).overlaps(
        (#[trigger] after.runs[b]).base,
        after.runs[b].bytes.len() as int,
    ) by {
        assert(!mem.runs[a].overlaps(mem.runs[b].base, mem.runs[b].bytes.len() as int));
    }
}

/// An access that reaches into a hole fails, even if it starts and ends in
/// memory.
pub proof fn law_hole_fails(mem: MemView, hole: u64, addr: GuestAddr, len: int)
    requires
        forall|i: int|
            0 <= i < mem.runs.len() ==> !(#[trigger] mem.runs[i]).covers(GuestAddr(hole), 1),
        addr.0 <= hole < addr.0 + len,
    ensures
        !mem.covers(addr, len),
{
    lemma_first_run(mem.runs, addr, len, 0);
}

/// A run of guest memory.
pub struct MemRun {
    pub base: u64,
    pub bytes: Vec<u8>,
}

impl View for MemRun {
    type V = RunView;

    open spec fn view(&self) -> RunView {
        RunView { base: self.base as int, bytes: self.bytes@ }
    }
}

impl MemRun {
    /// Zeroed memory of `len` bytes at `base`.
    pub fn new(base: u64, len: usize) -> (r: MemRun)
        ensures
            r@ == (RunView { base: base as int, bytes: zeros(len as nat) }),
    {
        MemRun { base, bytes: zero_vec(len) }
    }

    /// Where in the run the `len` bytes at `addr` start, if all of them lie in
    /// it.
    fn locate(&self, addr: GuestAddr, len: usize) -> (r: Option<usize>)
        ensures
            r is Some <==> self@.covers(addr, len as int),
            r matches Some(at) ==> at == addr.0 - self.base && at + len <= self.bytes@.len()
                && at + len <= usize::MAX,
    {
        if addr.0 < self.base {
            return None;
        }
        let off: u64 = addr.0 - self.base;
        if off > self.bytes.len() as u64 {
            return None;
        }
        let at: usize = off as usize;
        if len > self.bytes.len() - at {
            None
        } else {
            Some(at)
        }
    }

    /// Stores `data` at the offset `at`.
    fn store(&mut self, at: usize, data: &Vec<u8>)
        requires
            at + data@.len() <= old(self).bytes@.len(),
        ensures
            final(self).base == old(self).base,
            final(self).bytes@ == overlay(old(self).bytes@, at as int, data@),
    {
        let ghost before = self.bytes@;
        let len: usize = data.len();
        let mut done: usize = 0;
        while done < len
            invariant
                done <= len,
                len == data@.len(),
                at + len <= before.len(),
                self.bytes@.len() == before.len(),
                self.base == old(self).base,
                forall|i: int|
                    0 <= i < before.len() ==> #[trigger] self.bytes@[i] == if at <= i < at + done {
                        data@[i - at]
                    } else {
                        before[i]
                    },
            decreases len - done,
        {
            assert(at + done < self.bytes.len());
            self.bytes[at + done] = data[done];
            done += 1;
        }
        assert(self.bytes@ =~= overlay(before, at as int, data@));
    }
}

/// Guest memory.
pub struct MemCtx {
    pub runs: Vec<MemRun>,
}

impl View for MemCtx {
    type V = MemView;

    open spec fn view(&self) -> MemView {
        MemView { runs: Seq::new(self.runs@.len(), |i: int| self.runs@[i]@) }
    }
}

impl MemCtx {
    /// Zeroed memory of `len` bytes at `base`.
    pub fn new(base: u64, len: usize) -> (r: MemCtx)
        ensures
            r@.runs == seq![RunView { base: base as int, bytes: zeros(len as nat) }],
            r@.apart(),
    {
        let mut runs: Vec<MemRun> = Vec::new();
        runs.push(MemRun::new(base, len));
        let r: MemCtx = MemCtx { runs };
        assert(r@.runs =~= seq![RunView { base: base as int, bytes: zeros(len as nat) }]);
        r
    }

    /// Adds zeroed memory of `len` bytes at `base`, unless some of it is there
    /// already; tells whether it was added.
    pub fn add_run(&mut self, base: u64, len: usize) -> (r: bool)
        ensures
            r == !old(self)@.overlaps(base as int, len as int),
            final(self)@.runs == if r {
                old(self)@.runs.push(RunView { base: base as int, bytes: zeros(len as nat) })
            } else {
                old(self)@.runs
            },
            old(self)@.apart() ==> final(self)@.apart(),
    {
        let end: u128 = base as u128 + len as u128;
        let mut i: usize = 0;
        while i < self.runs.len()
            invariant
                i <= self.runs@.len(),
                *self == *old(self),
                end == base + len,
                forall|k: int|
                    0 <= k < i ==> !(#[trigger] self@.runs[k]).overlaps(base as int, len as int),
            decreases self.runs@.len() - i,
        {
            let run: &MemRun = &self.runs[i];
            if (run.base as u128) < end && (base as u128) < run.base as u128
                + run.bytes.len() as u128 {
                assert(self@.runs[i as int].overlaps(base as int, len as int));
                return false;
            }
            i += 1;
        }
        self.runs.push(MemRun::new(base, len));
        assert(self@.runs =~= old(self)@.runs.push(
            RunView { base: base as int, bytes: zeros(len as nat) },
        ));
        true
    }

    /// The run that all of the `len` bytes at `addr` lie in, and where they
    /// start in it.
    fn locate(&self, addr: GuestAddr, len: usize) -> (r: Option<(usize, usize)>)
        ensures
            match r {
                Some((k, at)) => {
                    &&& self@.run_of(addr, len as int) == Some(k as int)
                    &&& k < self.runs@.len()
                    &&& at == addr.0 - self.runs@[k as int].base
                    &&& at + len <= self.runs@[k as int].bytes@.len()
                    &&& at + len <= usize::MAX
                },
                None => self@.run_of(addr, len as int) is None,
            },
    {
        let mut i: usize = 0;
        while i < self.runs.len()
            invariant
                i <= self.runs@.len(),
                first_run(self@.runs, addr, len as int, i as int) == self@.run_of(
                    addr,
                    len as int,
                ),
            decreases self.runs@.len() - i,
        {
            assert(self@.runs[i as int] == self.runs@[i as int]@);
            match self.runs[i].locate(addr, len) {
                Some(at) => {
                    return Some((i, at));
                },
                None => {},
            }
            i += 1;
        }
        None
    }

    /// Whether all of the `len` bytes at `addr` are backed by memory.
    pub fn is_backed(&self, addr: GuestAddr, len: u64) -> (r: bool)
        ensures
            r == self@.covers(addr, len as int),
    {
        if len > usize::MAX as u64 {
            proof {
                // No run is longer than a vector can be.
                lemma_first_run(self@.runs, addr, len as int, 0);
                if let Some(k) = self@.run_of(addr, len as int) {
                    vstd::std_specs::vec::axiom_spec_len(&self.runs@[k].bytes);
                }
            }
            return false;
        }
        self.locate(addr, len as usize).is_some()
    }

    /// The `len` bytes at `addr`, if all of them are backed by memory.
    pub fn read_bytes(&self, addr: GuestAddr, len: usize) -> (r: Option<Vec<u8>>)
        ensures
            r is Some <==> self@.covers(addr, len as int),
            r matches Some(v) ==> v@ == self@.at(addr, len as int) && v@.len() == len,
    {
        match self.locate(addr, len) {
            None => None,
            Some((k, at)) => Some(sub_vec(&self.runs[k].bytes, at, at + len)),
        }
    }

    /// The 32-bit number at `addr`.
    pub fn read_u32(&self, addr: GuestAddr) -> (r: Option<u32>)
        ensures
            r == (if self@.covers(addr, 4) {
                Some(val32(self@.at(addr, 4)))
            } else {
                None
            }),
    {
        match self.locate(addr, 4) {
            None => None,
            Some((k, at)) => Some(get_le32(&self.runs[k].bytes, at)),
        }
    }

    /// The 64-bit number at `addr`.
    pub fn read_u64(&self, addr: GuestAddr) -> (r: Option<u64>)
        ensures
            r == (if self@.covers(addr, 8) {
                Some(val64(self@.at(addr, 8)))
            } else {
                None
            }),
    {
        match self.locate(addr, 8) {
            None => None,
            Some((k, at)) => Some(get_le64(&self.runs[k].bytes, at)),
        }
    }

    /// Stores `data` at `addr`, if all of the destination is backed by memory;
    /// tells whether it was.
    pub fn write_bytes(&mut self, addr: GuestAddr, data: &Vec<u8>) -> (r: bool)
        ensures
            r == old(self)@.covers(addr, data@.len() as int),
            final(self)@ == old(self)@.put(addr, data@),
    {
        match self.locate(addr, data.len()) {
            None => false,
            Some((k, at)) => {
                self.runs[k].store(at, data);
                assert(self@.runs =~= old(self)@.put(addr, data@).runs);
                true
            },
        }
    }

    /// Stores a 16-bit number at `addr`.
    pub fn write_u16(&mut self, addr: GuestAddr, v: u16) -> (r: bool)
        ensures
            r == old(self)@.covers(addr, 2),
            final(self)@ == old(self)@.put(addr, le16(v)),
    {
        let mut data: Vec<u8> = Vec::new();
        push_le16(&mut data, v);
        assert(data@ =~= le16(v));
        self.write_bytes(addr, &data)
    }

    /// Stores a 32-bit number at `addr`.
    pub fn write_u32(&mut self, addr: GuestAddr, v: u32) -> (r: bool)
        ensures
            r == old(self)@.covers(addr, 4),
            final(self)@ == old(self)@.put(addr, le32(v)),
    {
        let mut data: Vec<u8> = Vec::new();
        push_le32(&mut data, v);
        assert(data@ =~= le32(v));
        self.write_bytes(addr, &data)
    }

    /// Stores a 64-bit number at `addr`.
    pub fn write_u64(&mut self, addr: GuestAddr, v: u64) -> (r: bool)
        ensures
            r == old(self)@.covers(addr, 8),
            final(self)@ == old(self)@.put(addr, le64(v)),
    {
        let mut data: Vec<u8> = Vec::new();
        push_le64(&mut data, v);
        assert(data@ =~= le64(v));
        self.write_bytes(addr, &data)
    }
}

// ---------------------------------------------------------------------------
// Register accesses
// ---------------------------------------------------------------------------

/// A read of registers: where it starts, and the bytes that it is to fill.
#[derive(Debug)]
pub struct ReadOp {
    pub offset: usize,
    pub buf: Vec<u8>,
}

/// A write of registers: where it starts, and the bytes that it brings.
#[derive(Debug)]
pub struct WriteOp {
    pub offset: usize,
    pub buf: Vec<u8>,
}

/// An access to registers.
#[derive(Debug)]
pub enum RWOp {
    Read(ReadOp),
    Write(WriteOp),
}

impl ReadOp {
    /// A read at `offset` that is to fill `buf`.
    pub fn from_buf(offset: usize, buf: Vec<u8>) -> (r: ReadOp)
        ensures
            r.offset == offset,
            r.buf == buf,
    {
        ReadOp { offset, buf }
    }

    /// Fills the whole of the read with one value.
    pub fn fill(&mut self, byte: u8)
        ensures
            final(self).offset == old(self).offset,
            final(self).buf@ == Seq::new(old(self).buf@.len(), |i: int| byte),
    {
        let len: usize = self.buf.len();
        let mut out: Vec<u8> = Vec::new();
        push_fill(&mut out, byte, len);
        assert(out@ =~= Seq::new(len as nat, |i: int| byte));
        self.buf = out;
    }
}

impl WriteOp {
    /// A write of `buf` at `offset`.
    pub fn from_buf(offset: usize, buf: Vec<u8>) -> (r: WriteOp)
        ensures
            r.offset == offset,
            r.buf == buf,
    {
        WriteOp { offset, buf }
    }
}

impl RWOp {
    /// Where the access starts.
    pub open spec fn spec_offset(self) -> usize {
        match self {
            RWOp::Read(ro) => ro.offset,
            RWOp::Write(wo) => wo.offset,
        }
    }

    /// The bytes that the access fills or brings.
    pub open spec fn bytes(self) -> Seq<u8> {
        match self {
            RWOp::Read(ro) => ro.buf@,
            RWOp::Write(wo) => wo.buf@,
        }
    }

    /// Where the access starts.
    pub fn offset(&self) -> (r: usize)
        ensures
            r == self.spec_offset(),
    {
        match self {
            RWOp::Read(ro) => ro.offset,
            RWOp::Write(wo) => wo.offset,
        }
    }

    /// The number of bytes of the access.
    pub fn len(&self) -> (r: usize)
        ensures
            r == self.bytes().len(),
    {
        match self {
            RWOp::Read(ro) => ro.buf.len(),
            RWOp::Write(wo) => wo.buf.len(),
        }
    }
}

// ---------------------------------------------------------------------------
// Access to guest memory
// ---------------------------------------------------------------------------

/// What a device can currently reach of guest memory.
#[verifier::ext_equal]
pub struct MemAccessView {
    pub accessible: bool,
    pub mem: MemView,
}

/// A device's access to guest memory, which may be withdrawn for a while.
pub struct MemAccessor {
    pub accessible: bool,
    pub mem: MemCtx,
}

impl View for MemAccessor {
    type V = MemAccessView;

    open spec fn view(&self) -> MemAccessView {
        MemAccessView { accessible: self.accessible, mem: self.mem@ }
    }
}

impl MemAccessor {
    /// Access to `mem`.
    pub fn new(mem: MemCtx) -> (r: MemAccessor)
        ensures
            r@ == (MemAccessView { accessible: true, mem: mem@ }),
    {
        MemAccessor { accessible: true, mem }
    }
}

} // verus!
