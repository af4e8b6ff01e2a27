//! Register spaces: how an access of any offset and length is broken up into
//! accesses of whole registers.
use crate::common::{overlay, push_range, sub_vec, zero_vec, zeros};
use vstd::prelude::*;

verus! {

/// The register that an offset lies in.
#[derive(Clone, Copy, Debug)]
pub struct RegSpan<Id> {
    pub id: Id,
    /// Offset of its first byte.
    pub start: usize,
    /// Its number of bytes.
    pub len: usize,
    /// Whether it takes accesses of parts of it as they are. Any other register
    /// is always read and written as a whole.
    pub passthru: bool,
}

/// A space of registers of the layout `L`. An access may touch a context
/// besides the registers.
pub trait RegSpace<L>: Sized {
    type Id: Copy;

    type Ctx;

    /// What the registers and the context hold.
    type V;

    /// What the registers and the context hold.
    spec fn model(&self, ctx: &Self::Ctx) -> Self::V;

    /// The invariant of the registers and the context.
    spec fn inv(&self, ctx: &Self::Ctx) -> bool;

    /// The register that an offset lies in, if it lies in one.
    spec fn span_at(m: Self::V, off: int) -> Option<RegSpan<Self::Id>>;

    /// Whether a register takes accesses of `len` bytes at `off` within it.
    spec fn access_ok(m: Self::V, id: Self::Id, off: int, len: int) -> bool;

    /// What a read at `off` within a register leaves in a buffer.
    spec fn reg_rd(m: Self::V, id: Self::Id, off: int, buf: Seq<u8>) -> Seq<u8>;

    /// What a write at `off` within a register leads to.
    spec fn reg_wr(m: Self::V, id: Self::Id, off: int, data: Seq<u8>) -> Self::V;

    /// The registers found by `span_at` contain the offset and take the
    /// accesses that they are given, which fill all of a buffer.
    proof fn span_laws(&self, ctx: &Self::Ctx, off: int)
        requires
            self.inv(ctx),
        ensures
            Self::span_at(self.model(ctx), off) matches Some(s) ==> {
                &&& s.start <= off < s.start + s.len
                &&& !s.passthru ==> Self::access_ok(self.model(ctx), s.id, 0, s.len as int)
                &&& s.passthru ==> forall|o: int, n: int|
                    0 <= o && 0 < n && o + n <= s.len ==> #[trigger] Self::access_ok(
                        self.model(ctx),
                        s.id,
                        o,
                        n,
                    )
            },
    ;

    /// Finds the register that an offset lies in.
    fn find(&self, ctx: &Self::Ctx, off: usize) -> (r: Option<RegSpan<Self::Id>>)
        requires
            self.inv(ctx),
        ensures
            r == Self::span_at(self.model(ctx), off as int),
            r matches Some(s) ==> s.start + s.len <= usize::MAX,
    ;

    /// Reads a register, or a part of it.
    fn read_reg(&self, ctx: &Self::Ctx, id: Self::Id, off: usize, buf: Vec<u8>) -> (r: Vec<u8>)
        requires
            self.inv(ctx),
            Self::access_ok(self.model(ctx), id, off as int, buf@.len() as int),
        ensures
            r@ == Self::reg_rd(self.model(ctx), id, off as int, buf@),
            r@.len() == buf@.len(),
    ;

    /// Writes a register, or a part of it.
    fn write_reg(&mut self, ctx: &mut Self::Ctx, id: Self::Id, off: usize, data: Vec<u8>)
        requires
            old(self).inv(&*old(ctx)),
            Self::access_ok(old(self).model(&*old(ctx)), id, off as int, data@.len() as int),
        ensures
            final(self).inv(&*final(ctx)),
            final(self).model(&*final(ctx)) == Self::reg_wr(
                old(self).model(&*old(ctx)),
                id,
                off as int,
                data@,
            ),
    ;
}

/// How many of `len` bytes from `off` on lie in the register `s`.
pub open spec fn span_part<Id>(s: RegSpan<Id>, off: int, len: int) -> int {
    if s.start + s.len - off < len {
        s.start + s.len - off
    } else {
        len
    }
}

/// Whether an access to the `n` bytes at `off` is handed on as it is.
pub open spec fn span_direct<Id>(s: RegSpan<Id>, off: int, n: int) -> bool {
    s.passthru || (off == s.start && n == s.len)
}

/// What the first part of a read of the bytes from `off` on gives: the part
/// that lies in the register `s`.
pub open spec fn part_read<L, R: RegSpace<L>>(
    m: R::V,
    s: RegSpan<R::Id>,
    off: int,
    buf: Seq<u8>,
) -> Seq<u8> {
    let n = span_part(s, off, buf.len() as int);
    let o = off - s.start;
    if span_direct(s, off, n) {
        R::reg_rd(m, s.id, o, buf.take(n))
    } else {
        R::reg_rd(m, s.id, 0, zeros(s.len as nat)).subrange(o, o + n)
    }
}

/// What a read of the bytes from `off` on gives. Bytes that lie in no register
/// read as 0.
pub open spec fn space_read<L, R: RegSpace<L>>(m: R::V, off: int, buf: Seq<u8>) -> Seq<u8>
    decreases buf.len(),
{
    if buf.len() == 0 {
        buf
    } else {
        match R::span_at(m, off) {
            None => seq![0u8] + space_read::<L, R>(m, off + 1, buf.skip(1)),
            Some(s) => {
                let n = span_part(s, off, buf.len() as int);
                if 0 < n {
                    part_read::<L, R>(m, s, off, buf) + space_read::<L, R>(m, off + n, buf.skip(n))
                } else {
                    buf
                }
            },
        }
    }
}

/// What the first part of a write of `data` from `off` on leads to: the part
/// that lies in the register `s`. A part of a register that is only taken as a
/// whole is completed by what the register reads as.
pub open spec fn part_write<L, R: RegSpace<L>>(
    m: R::V,
    s: RegSpan<R::Id>,
    off: int,
    data: Seq<u8>,
) -> R::V {
    let n = span_part(s, off, data.len() as int);
    let o = off - s.start;
    if span_direct(s, off, n) {
        R::reg_wr(m, s.id, o, data.take(n))
    } else {
        R::reg_wr(
            m,
            s.id,
            0,
            overlay(R::reg_rd(m, s.id, 0, zeros(s.len as nat)), o, data.take(n)),
        )
    }
}

/// What a write of `data` from `off` on leads to. Bytes that lie in no register
/// are ignored.
pub open spec fn space_write<L, R: RegSpace<L>>(m: R::V, off: int, data: Seq<u8>) -> R::V
    decreases data.len(),
{
    if data.len() == 0 {
        m
    } else {
        match R::span_at(m, off) {
            None => space_write::<L, R>(m, off + 1, data.skip(1)),
            Some(s) => {
                let n = span_part(s, off, data.len() as int);
                if 0 < n {
                    space_write::<L, R>(part_write::<L, R>(m, s, off, data), off + n, data.skip(n))
                } else {
                    m
                }
            },
        }
    }
}

/// An access of exactly one register, from its first byte to its last one, is
/// handed to that register as it is, and to no other.
pub proof fn law_whole_register<L, R: RegSpace<L>>(m: R::V, s: RegSpan<R::Id>, buf: Seq<u8>, data: Seq<u8>)
    requires
        R::span_at(m, s.start as int) == Some(s),
        0 < s.len,
        buf.len() == s.len,
        data.len() == s.len,
    ensures
        space_read::<L, R>(m, s.start as int, buf) == R::reg_rd(m, s.id, 0, buf),
        space_write::<L, R>(m, s.start as int, data) == R::reg_wr(m, s.id, 0, data),
{
    reveal_with_fuel(space_read, 2);
    reveal_with_fuel(space_write, 2);
    assert(buf.take(s.len as int) =~= buf);
    assert(data.take(s.len as int) =~= data);
    let got = R::reg_rd(m, s.id, 0, buf);
    assert(buf.skip(s.len as int).len() == 0);
    assert(got + buf.skip(s.len as int) =~= got);
}

/// An access inside of one register, but not of all of it: a register that
/// takes parts is handed the access with its offset in the register; another
/// one is read as a whole, and written as a whole with the bytes put into what
/// it reads as.
pub proof fn law_register_part<L, R: RegSpace<L>>(
    m: R::V,
    s: RegSpan<R::Id>,
    off: int,
    buf: Seq<u8>,
    data: Seq<u8>,
)
    requires
        R::span_at(m, off) == Some(s),
        s.start <= off,
        off + buf.len() <= s.start + s.len,
        data.len() == buf.len(),
        0 < buf.len() < s.len,
    ensures
        s.passthru ==> {
            &&& space_read::<L, R>(m, off, buf) == R::reg_rd(m, s.id, off - s.start, buf)
            &&& space_write::<L, R>(m, off, data) == R::reg_wr(m, s.id, off - s.start, data)
        },
        !s.passthru ==> {
            let held = R::reg_rd(m, s.id, 0, zeros(s.len as nat));
            let at = off - s.start;
            &&& held.len() == s.len ==> space_read::<L, R>(m, off, buf) == Seq::new(
                buf.len(),
                |i: int| held[at + i],
            )
            &&& held.len() == s.len ==> space_write::<L, R>(m, off, data) == R::reg_wr(
                m,
                s.id,
                0,
                Seq::new(
                    s.len as nat,
                    |i: int|
                        if at <= i < at + data.len() {
                            data[i - at]
                        } else {
                            held[i]
                        },
                ),
            )
        },
{
    reveal_with_fuel(space_read, 2);
    reveal_with_fuel(space_write, 2);
    let n = buf.len() as int;
    assert(buf.take(n) =~= buf);
    assert(data.take(n) =~= data);
    assert(buf.skip(n) =~= Seq::<u8>::empty());
    assert(data.skip(n) =~= Seq::<u8>::empty());
    let got = part_read::<L, R>(m, s, off, buf);
    assert(got + buf.skip(n) =~= got);
    if !s.passthru {
        let held = R::reg_rd(m, s.id, 0, zeros(s.len as nat));
        let at = off - s.start;
        if held.len() == s.len {
            assert(got =~= Seq::new(buf.len(), |i: int| held[at + i]));
            assert(overlay(held, at, data) =~= Seq::new(
                s.len as nat,
                |i: int|
                    if at <= i < at + data.len() {
                        data[i - at]
                    } else {
                        held[i]
                    },
            ));
        }
    }
}

/// An access that goes past the end of a register is one of what lies in the
/// register, and then one of what comes after it.
pub proof fn law_access_goes_on<L, R: RegSpace<L>>(
    m: R::V,
    s: RegSpan<R::Id>,
    off: int,
    buf: Seq<u8>,
    data: Seq<u8>,
)
    requires
        R::span_at(m, off) == Some(s),
        s.start <= off < s.start + s.len < off + buf.len(),
        data.len() == buf.len(),
    ensures
        ({
            let k = s.start + s.len - off;
            &&& space_read::<L, R>(m, off, buf) == space_read::<L, R>(m, off, buf.take(k))
                + space_read::<L, R>(m, s.start + s.len, buf.skip(k))
            &&& space_write::<L, R>(m, off, data) == space_write::<L, R>(
                space_write::<L, R>(m, off, data.take(k)),
                s.start + s.len,
                data.skip(k),
            )
        }),
{
    let k = s.start + s.len - off;
    reveal_with_fuel(space_read, 2);
    reveal_with_fuel(space_write, 2);
    assert(buf.take(k).take(k) =~= buf.take(k));
    assert(data.take(k).take(k) =~= data.take(k));
    assert(buf.take(k).skip(k) =~= Seq::<u8>::empty());
    assert(data.take(k).skip(k) =~= Seq::<u8>::empty());
    let got = part_read::<L, R>(m, s, off, buf);
    assert(part_read::<L, R>(m, s, off, buf.take(k)) == got);
    assert(got + Seq::<u8>::empty() =~= got);
}

/// A byte that lies in no register reads as 0, and is ignored where it is
/// written.
pub proof fn law_between_registers<L, R: RegSpace<L>>(m: R::V, off: int, buf: Seq<u8>, data: Seq<u8>)
    requires
        R::span_at(m, off) is None,
        buf.len() == 1,
        data.len() == 1,
    ensures
        space_read::<L, R>(m, off, buf) == seq![0u8],
        space_write::<L, R>(m, off, data) == m,
{
    reveal_with_fuel(space_read, 2);
    reveal_with_fuel(space_write, 2);
    assert(seq![0u8] + buf.skip(1) =~= seq![0u8]);
}

/// Concatenation is associative.
proof fn lemma_concat(a: Seq<u8>, b: Seq<u8>, c: Seq<u8>)
    ensures
        a + (b + c) == (a + b) + c,
{
    assert(a + (b + c) =~= (a + b) + c);
}

/// Reads what the register `s` holds of the bytes of `buf` from `done` on.
fn read_part<L, R: RegSpace<L>>(
    regs: &R,
    ctx: &R::Ctx,
    s: RegSpan<R::Id>,
    off: usize,
    buf: &Vec<u8>,
    done: usize,
) -> (r: Vec<u8>)
    requires
        regs.inv(ctx),
        done < buf@.len(),
        R::span_at(regs.model(ctx), off as int) == Some(s),
        s.start + s.len <= usize::MAX,
    ensures
        r@ == part_read::<L, R>(regs.model(ctx), s, off as int, buf@.skip(done as int)),
        r@.len() == span_part(s, off as int, buf@.len() - done),
        0 < r@.len(),
{
    proof {
        regs.span_laws(ctx, off as int);
    }
    let ghost rest = buf@.skip(done as int);
    let end: usize = s.start + s.len;
    let left: usize = buf.len() - done;
    let n: usize = if end - off < left {
        end - off
    } else {
        left
    };
    let o: usize = off - s.start;
    if s.passthru || (o == 0 && n == s.len) {
        let part: Vec<u8> = sub_vec(buf, done, done + n);
        assert(part@ =~= rest.take(n as int));
        regs.read_reg(ctx, s.id, o, part)
    } else {
        let whole: Vec<u8> = regs.read_reg(ctx, s.id, 0, zero_vec(s.len));
        sub_vec(&whole, o, o + n)
    }
}

/// Reads the bytes of a register space from `offset` on into `buf`.
pub fn process_read<L, R: RegSpace<L>>(
    regs: &R,
    ctx: &R::Ctx,
    offset: usize,
    buf: Vec<u8>,
) -> (r: Vec<u8>)
    requires
        regs.inv(ctx),
        offset + buf@.len() <= usize::MAX,
    ensures
        r@ == space_read::<L, R>(regs.model(ctx), offset as int, buf@),
        r@.len() == buf@.len(),
{
    let total: usize = buf.len();
    let ghost m = regs.model(ctx);
    let ghost goal = space_read::<L, R>(m, offset as int, buf@);
    let mut out: Vec<u8> = Vec::new();
    let mut done: usize = 0;
    assert(buf@.skip(0) =~= buf@);
    assert(out@ + goal =~= goal);
    while done < total
        invariant
            regs.inv(ctx),
            m == regs.model(ctx),
            total == buf@.len(),
            done <= total,
            offset + total <= usize::MAX,
            out@.len() == done,
            out@ + space_read::<L, R>(m, offset + done, buf@.skip(done as int)) == goal,
        decreases total - done,
    {
        let off: usize = offset + done;
        let ghost rest = buf@.skip(done as int);
        let ghost before = out@;
        match regs.find(ctx, off) {
            None => {
                out.push(0);
                done += 1;
                proof {
                    lemma_skip_skip(buf@, done - 1, 1);
                    lemma_concat(before, seq![0u8], space_read::<L, R>(m, off + 1, rest.skip(1)));
                    assert(out@ =~= before + seq![0u8]);
                }
            },
            Some(s) => {
                let piece: Vec<u8> = read_part::<L, R>(regs, ctx, s, off, &buf, done);
                let plen: usize = piece.len();
                push_range(&mut out, &piece, 0, plen);
                proof {
                    assert(piece@.subrange(0, plen as int) =~= piece@);
                    lemma_skip_skip(buf@, done as int, plen as int);
                    lemma_concat(
                        before,
                        piece@,
                        space_read::<L, R>(m, off + plen, rest.skip(plen as int)),
                    );
                }
                done = done + plen;
            },
        }
    }
    assert(out@ + space_read::<L, R>(m, offset + done, buf@.skip(done as int)) =~= out@);
    out
}

/// Skipping twice is skipping once.
proof fn lemma_skip_skip(s: Seq<u8>, a: int, b: int)
    requires
        0 <= a,
        0 <= b,
        a + b <= s.len(),
    ensures
        s.skip(a).skip(b) == s.skip(a + b),
{
    assert(s.skip(a).skip(b) =~= s.skip(a + b));
}

/// Writes to the register `s` what belongs to it of the bytes of `data` from
/// `done` on, and tells how many these are.
fn write_part<L, R: RegSpace<L>>(
    regs: &mut R,
    ctx: &mut R::Ctx,
    s: RegSpan<R::Id>,
    off: usize,
    data: &Vec<u8>,
    done: usize,
) -> (n: usize)
    requires
        old(regs).inv(&*old(ctx)),
        done < data@.len(),
        R::span_at(old(regs).model(&*old(ctx)), off as int) == Some(s),
        s.start + s.len <= usize::MAX,
    ensures
        final(regs).inv(&*final(ctx)),
        final(regs).model(&*final(ctx)) == part_write::<L, R>(
            old(regs).model(&*old(ctx)),
            s,
            off as int,
            data@.skip(done as int),
        ),
        n == span_part(s, off as int, data@.len() - done),
        0 < n <= data@.len() - done,
{
    proof {
        regs.span_laws(&*ctx, off as int);
    }
    let ghost rest = data@.skip(done as int);
    let end: usize = s.start + s.len;
    let left: usize = data.len() - done;
    let n: usize = if end - off < left {
        end - off
    } else {
        left
    };
    let o: usize = off - s.start;
    if s.passthru || (o == 0 && n == s.len) {
        let part: Vec<u8> = sub_vec(data, done, done + n);
        assert(part@ =~= rest.take(n as int));
        regs.write_reg(ctx, s.id, o, part);
    } else {
        let whole: Vec<u8> = regs.read_reg(&*ctx, s.id, 0, zero_vec(s.len));
        let wlen: usize = whole.len();
        let mut merged: Vec<u8> = Vec::new();
        push_range(&mut merged, &whole, 0, o);
        push_range(&mut merged, data, done, done + n);
        push_range(&mut merged, &whole, o + n, wlen);
        assert(data@.subrange(done as int, done + n) =~= rest.take(n as int));
        assert(merged@ =~= overlay(whole@, o as int, rest.take(n as int)));
        regs.write_reg(ctx, s.id, 0, merged);
    }
    n
}

/// Writes `data` to a register space from `offset` on.
pub fn process_write<L, R: RegSpace<L>>(
    regs: &mut R,
    ctx: &mut R::Ctx,
    offset: usize,
    data: Vec<u8>,
)
    requires
        old(regs).inv(&*old(ctx)),
        offset + data@.len() <= usize::MAX,
    ensures
        final(regs).inv(&*final(ctx)),
        final(regs).model(&*final(ctx)) == space_write::<L, R>(
            old(regs).model(&*old(ctx)),
            offset as int,
            data@,
        ),
{
    let total: usize = data.len();
    let ghost goal = space_write::<L, R>(regs.model(&*ctx), offset as int, data@);
    let mut done: usize = 0;
    assert(data@.skip(0) =~= data@);
    while done < total
        invariant
            regs.inv(&*ctx),
            total == data@.len(),
            done <= total,
            offset + total <= usize::MAX,
            space_write::<L, R>(regs.model(&*ctx), offset + done, data@.skip(done as int)) == goal,
        decreases total - done,
    {
        let off: usize = offset + done;
        match regs.find(&*ctx, off) {
            None => {
                done += 1;
                proof {
                    lemma_skip_skip(data@, done - 1, 1);
                }
            },
            Some(s) => {
                let n: usize = write_part::<L, R>(regs, ctx, s, off, &data, done);
                proof {
                    lemma_skip_skip(data@, done as int, n as int);
                }
                done = done + n;
            },
        }
    }
}

// ---------------------------------------------------------------------------
// Tables of registers
// ---------------------------------------------------------------------------

/// A register of a table.
#[derive(Clone, Copy, Debug)]
pub struct RegDef<Id> {
    pub id: Id,
    pub len: usize,
    pub passthru: bool,
}

/// Offset of the first byte of register `i` of a table whose registers follow
/// each other without gaps.
pub open spec fn reg_start<Id>(defs: Seq<RegDef<Id>>, i: int) -> int
    decreases i,
{
    if i <= 0 {
        0
    } else {
        reg_start(defs, i - 1) + defs[i - 1].len
    }
}

/// The register of the table, from the one with index `i` at `start` on, that
/// the offset `off` lies in.
pub open spec fn table_find<Id>(
    defs: Seq<RegDef<Id>>,
    i: int,
    start: int,
    off: int,
) -> Option<RegSpan<Id>>
    decreases defs.len() - i,
{
    if i < 0 || i >= defs.len() {
        None
    } else if start <= off < start + defs[i].len {
        Some(
            RegSpan {
                id: defs[i].id,
                start: start as usize,
                len: defs[i].len,
                passthru: defs[i].passthru,
            },
        )
    } else {
        table_find(defs, i + 1, start + defs[i].len, off)
    }
}

/// The registers of a table cover all offsets below their total length, each
/// offset exactly once, and none beyond.
pub proof fn law_table_covers<Id>(defs: Seq<RegDef<Id>>, i: int, off: int)
    requires
        0 <= i <= defs.len(),
        reg_start(defs, i) <= off,
    ensures
        table_find(defs, i, reg_start(defs, i), off) is Some <==> off < reg_start(
            defs,
            defs.len() as int,
        ),
        reg_start(defs, i) <= reg_start(defs, defs.len() as int),
    decreases defs.len() - i,
{
    if i < defs.len() {
        assert(reg_start(defs, i + 1) == reg_start(defs, i) + defs[i].len);
        lemma_reg_start_mono(defs, i + 1, defs.len() as int);
        if off >= reg_start(defs, i + 1) {
            law_table_covers(defs, i + 1, off);
        }
    }
}

/// Later registers of a table start later.
pub proof fn lemma_reg_start_mono<Id>(defs: Seq<RegDef<Id>>, i: int, j: int)
    requires
        0 <= i <= j <= defs.len(),
    ensures
        reg_start(defs, i) <= reg_start(defs, j),
    decreases j,
{
    if i < j {
        lemma_reg_start_mono(defs, i, j - 1);
    }
}

/// What is found in a table is one of its registers, and it contains the
/// offset.
pub proof fn lemma_table_find<Id>(defs: Seq<RegDef<Id>>, i: int, start: int, off: int)
    requires
        0 <= i <= defs.len(),
        start == reg_start(defs, i),
        reg_start(defs, defs.len() as int) <= usize::MAX,
    ensures
        table_find(defs, i, start, off) matches Some(s) ==> {
            &&& s.start <= off < s.start + s.len
            &&& s.start + s.len <= usize::MAX
            &&& exists|k: int|
                i <= k < defs.len() && s.id == #[trigger] defs[k].id && s.len == defs[k].len
                    && s.passthru == defs[k].passthru
        },
    decreases defs.len() - i,
{
    if i < defs.len() {
        assert(reg_start(defs, i + 1) == start + defs[i].len);
        lemma_reg_start_mono(defs, i + 1, defs.len() as int);
        lemma_reg_start_mono(defs, 0, i);
        if !(start <= off < start + defs[i].len) {
            lemma_table_find(defs, i + 1, start + defs[i].len, off);
        }
    }
}

/// Finds the register of a table that an offset lies in.
pub fn find_in_table<Id: Copy>(defs: &Vec<RegDef<Id>>, off: usize) -> (r: Option<RegSpan<Id>>)
    requires
        reg_start(defs@, defs@.len() as int) <= usize::MAX,
    ensures
        r == table_find(defs@, 0, 0, off as int),
        r matches Some(s) ==> s.start <= off < s.start + s.len <= usize::MAX,
{
    let mut i: usize = 0;
    let mut start: usize = 0;
    while i < defs.len()
        invariant
            i <= defs@.len(),
            start == reg_start(defs@, i as int),
            reg_start(defs@, defs@.len() as int) <= usize::MAX,
            table_find(defs@, i as int, start as int, off as int) == table_find(
                defs@,
                0,
                0,
                off as int,
            ),
        decreases defs@.len() - i,
    {
        proof {
            assert(reg_start(defs@, i + 1) == start + defs@[i as int].len);
            lemma_reg_start_mono(defs@, i + 1, defs@.len() as int);
        }
        let d: RegDef<Id> = defs[i];
        if start <= off && off < start + d.len {
            return Some(RegSpan { id: d.id, start, len: d.len, passthru: d.passthru });
        }
        start = start + d.len;
        i += 1;
    }
    None
}

} // verus!
