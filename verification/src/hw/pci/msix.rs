//! MSI-X interrupts of a PCI function.
use crate::bitfield::field;
use crate::common::{
    get_le16, get_le32, get_le64, le16, le32, le64, push_fill, push_le16, push_le32, push_le64,
    val16, val32, val64, zeros,
};
use crate::hw::pci::{BarN, DevEvent};
use crate::migrate::MigrateStateError;
use crate::regmap::{
    part_write, process_read, process_write, space_read, space_write, span_part, RegSpace, RegSpan,
};
use vstd::arithmetic::power2::pow2;
use vstd::prelude::*;

verus! {

/// A message that signals an interrupt.
#[derive(Clone, Copy, Debug, PartialEq, Eq, Structural)]
pub struct MsiMsg {
    pub addr: u64,
    pub data: u32,
}

/// What a device is told about its interrupt vectors.
#[derive(Clone, Copy, Debug, PartialEq, Eq, Structural)]
pub enum MsiUpdate {
    MaskAll,
    UnmaskAll,
    Modify(u16),
}

/// What can be asked about an interrupt vector.
#[derive(Clone, Copy, Debug, PartialEq, Eq, Structural)]
pub struct MsiEnt {
    pub addr: u64,
    pub data: u32,
    pub masked: bool,
    pub pending: bool,
}

/// An interrupt vector.
#[derive(Clone, Copy, Debug, PartialEq, Eq, Structural)]
pub struct MsixEntry {
    pub addr: u64,
    pub data: u32,
    /// Whether this vector is masked.
    pub mask_vec: bool,
    /// Whether all vectors are masked.
    pub mask_func: bool,
    /// Whether MSI-X is enabled.
    pub enabled: bool,
    /// Whether an interrupt waits for the end of masking.
    pub pending: bool,
}

impl MsixEntry {
    /// A vector after a reset.
    pub open spec fn blank() -> MsixEntry {
        MsixEntry {
            addr: 0,
            data: 0,
            mask_vec: false,
            mask_func: false,
            enabled: false,
            pending: false,
        }
    }

    /// Whether interrupts have to wait.
    pub open spec fn masked(self) -> bool {
        self.mask_vec || self.mask_func
    }

    /// The message of the vector.
    pub open spec fn spec_msg(self) -> MsiMsg {
        MsiMsg { addr: self.addr, data: self.data }
    }

    /// The vector after an interrupt.
    pub open spec fn fired(self) -> MsixEntry {
        if self.enabled && self.masked() {
            MsixEntry { pending: true, ..self }
        } else {
            self
        }
    }

    /// The message that an interrupt leads to at once.
    pub open spec fn fire_msg(self) -> Option<MsiMsg> {
        if self.enabled && !self.masked() {
            Some(self.spec_msg())
        } else {
            None
        }
    }

    /// The vector after a look whether a waiting interrupt can be delivered.
    pub open spec fn checked(self) -> MsixEntry {
        if !self.masked() {
            MsixEntry { pending: false, ..self }
        } else {
            self
        }
    }

    /// The message that such a look leads to.
    pub open spec fn check_msg(self) -> Option<MsiMsg> {
        if !self.masked() && self.pending {
            Some(self.spec_msg())
        } else {
            None
        }
    }

    /// A vector after a reset.
    pub fn new() -> (r: MsixEntry)
        ensures
            r == Self::blank(),
    {
        MsixEntry {
            addr: 0,
            data: 0,
            mask_vec: false,
            mask_func: false,
            enabled: false,
            pending: false,
        }
    }

    /// Signals an interrupt. If the vector is masked, it waits.
    pub fn fire(&mut self) -> (r: Option<MsiMsg>)
        ensures
            *final(self) == old(self).fired(),
            r == old(self).fire_msg(),
    {
        if !self.enabled {
            return None;
        }
        if self.mask_func || self.mask_vec {
            self.pending = true;
            return None;
        }
        Some(MsiMsg { addr: self.addr, data: self.data })
    }

    /// Delivers a waiting interrupt, unless the vector is masked.
    pub fn check_mask(&mut self) -> (r: Option<MsiMsg>)
        ensures
            *final(self) == old(self).checked(),
            r == old(self).check_msg(),
    {
        if !self.mask_vec && !self.mask_func && self.pending {
            self.pending = false;
            Some(MsiMsg { addr: self.addr, data: self.data })
        } else {
            None
        }
    }

    /// Resets the vector.
    pub fn reset(&mut self)
        ensures
            *final(self) == Self::blank(),
    {
        *self = MsixEntry::new();
    }
}

/// An interrupt of a masked vector is not lost: it waits, and is delivered once
/// when masking ends. One of a disabled vector is.
pub proof fn law_masked_interrupt_waits(e: MsixEntry)
    ensures
        e.enabled && e.masked() ==> e.fire_msg() is None && e.fired().pending,
        ({
            let open = MsixEntry { mask_vec: false, mask_func: false, ..e.fired() };
            &&& e.enabled && e.masked() ==> open.check_msg() == Some(e.spec_msg())
            &&& open.checked().check_msg() is None
        }),
        !e.enabled ==> e.fired() == e && e.fire_msg() is None,
        e.enabled && !e.masked() ==> e.fired() == e && e.fire_msg() == Some(e.spec_msg()),
{
}

/// What a function's MSI-X state holds.
#[verifier::ext_equal]
pub struct MsixView {
    pub count: u16,
    pub bar: BarN,
    pub pba_off: u32,
    pub entries: Seq<MsixEntry>,
    pub enabled: bool,
    pub func_mask: bool,
}

/// MSI-X state of a function: a table of vectors, which starts its BAR, and a
/// bitmap of waiting interrupts, the pending bit array (PBA), on a page of its
/// own.
#[derive(Debug)]
pub struct MsixCfg {
    /// Number of vectors.
    pub count: u16,
    /// The BAR that holds the table and the PBA.
    pub bar: BarN,
    /// Where in the BAR the PBA starts.
    pub pba_off: u32,
    pub entries: Vec<MsixEntry>,
    pub enabled: bool,
    pub func_mask: bool,
}

impl View for MsixCfg {
    type V = MsixView;

    open spec fn view(&self) -> MsixView {
        MsixView {
            count: self.count,
            bar: self.bar,
            pba_off: self.pba_off,
            entries: self.entries@,
            enabled: self.enabled,
            func_mask: self.func_mask,
        }
    }
}

/// The vector's state as it is moved to another host.
#[derive(Clone, Copy, Debug, PartialEq, Eq, Structural)]
pub struct MsixEntryV1 {
    pub addr: u64,
    pub data: u32,
    pub is_vec_masked: bool,
    pub is_pending: bool,
}

/// MSI-X state as it is moved to another host.
#[derive(Debug)]
pub struct MsixStateV1 {
    pub count: u16,
    pub is_enabled: bool,
    pub is_func_masked: bool,
    pub entries: Vec<MsixEntryV1>,
}

/// A register of the BAR with the table and the PBA.
#[derive(Clone, Copy, Debug, PartialEq, Eq, Structural)]
pub enum MsixBarReg {
    Addr(u16),
    Data(u16),
    VecCtrl(u16),
    Reserved,
    Pba,
}

/// A register of the capability.
#[derive(Clone, Copy, Debug, PartialEq, Eq, Structural)]
pub enum MsixCapReg {
    MsgCtrl,
    TableOff,
    PbaOff,
}

/// Length of the MSI-X capability, without its header.
pub const MSIX_CAP_LEN: usize = 10;

/// The layout of the BAR.
pub struct MsixBarLayout;

/// The layout of the capability.
pub struct MsixCapLayout;

/// What accesses to MSI-X state deal with.
#[verifier::ext_equal]
pub struct MsixModel {
    pub cfg: MsixView,
    pub events: Seq<DevEvent>,
}

/// Where the PBA of a function with `count` vectors starts: on the first page
/// after the table.
pub open spec fn pba_off_of(count: u16) -> int {
    let size = count * 16;
    if size % 4096 == 0 {
        size
    } else {
        size + 4096 - size % 4096
    }
}

/// The least power of two that is at least `n`, found from the power `p` up.
pub open spec fn pow2_from(n: int, p: int) -> int
    decreases 2 * n - p,
{
    if p >= n || p <= 0 {
        p
    } else {
        pow2_from(n, 2 * p)
    }
}

/// The size of the BAR of a function with `count` vectors.
pub open spec fn msix_bar_size(count: u16) -> int {
    pow2_from(pba_off_of(count) + 4096, 1)
}

/// The size found is a power of two that holds `n` bytes, and no smaller one
/// does.
pub proof fn lemma_pow2_from(n: int, k: nat)
    requires
        1 <= n,
        pow2(k) < 2 * n,
    ensures
        exists|j: nat| k <= j && pow2_from(n, pow2(k) as int) == #[trigger] pow2(j),
        n <= pow2_from(n, pow2(k) as int) < 2 * n,
    decreases 2 * n - pow2(k),
{
    vstd::arithmetic::power2::lemma_pow2_pos(k);
    vstd::arithmetic::power2::lemma_pow2_unfold(k + 1);
    if pow2(k) < n {
        lemma_pow2_from(n, k + 1);
        let j = choose|j: nat|
            k + 1 <= j && pow2_from(n, pow2(k + 1) as int) == #[trigger] pow2(j);
        assert(k <= j && pow2_from(n, pow2(k) as int) == pow2(j));
    } else {
        assert(k <= k && pow2_from(n, pow2(k) as int) == pow2(k));
    }
}

/// The BAR of a function is a power of two in size, holds the table and the
/// PBA, which share no page, and is less than twice as long as they are.
pub proof fn law_msix_bar_layout(count: u16)
    requires
        0 < count <= 2048,
    ensures
        exists|j: nat| msix_bar_size(count) == #[trigger] pow2(j),
        count * 16 <= pba_off_of(count) < count * 16 + 4096,
        pba_off_of(count) % 4096 == 0,
        pba_off_of(count) + 4096 <= msix_bar_size(count) < 2 * (pba_off_of(count) + 4096),
        msix_bar_size(count) <= 0x1_0000,
        (count + 7) / 8 <= 4096,
{
    vstd::arithmetic::power2::lemma2_to64();
    let n = pba_off_of(count) + 4096;
    lemma_pow2_from(n, 0);
    let j = choose|j: nat| pow2_from(n, pow2(0) as int) == #[trigger] pow2(j);
    assert(msix_bar_size(count) == pow2(j));
    if msix_bar_size(count) > 0x1_0000 {
        if j <= 16 {
            if j < 16 {
                vstd::arithmetic::power2::lemma_pow2_strictly_increases(j, 16);
            }
        } else {
            if j > 17 {
                vstd::arithmetic::power2::lemma_pow2_strictly_increases(17, j);
            }
        }
    }
}

/// Computes the least power of two that is at least `n`.
fn next_pow2(n: u32) -> (r: u32)
    requires
        1 <= n <= 0x1_0000,
    ensures
        r == pow2_from(n as int, 1),
        n <= r,
{
    let mut p: u32 = 1;
    while p < n
        invariant
            1 <= p <= 0x2_0000,
            n <= 0x1_0000,
            pow2_from(n as int, p as int) == pow2_from(n as int, 1),
        decreases 2 * n - p,
    {
        p = p * 2;
    }
    p
}

/// The low `n` bits of byte `k` of the PBA.
pub open spec fn pba_bits(entries: Seq<MsixEntry>, k: int, n: nat) -> int
    decreases n,
{
    if n == 0 {
        0
    } else {
        let idx = 8 * k + n - 1;
        pba_bits(entries, k, (n - 1) as nat) + if idx < entries.len() && entries[idx].pending {
            pow2((n - 1) as nat) as int
        } else {
            0
        }
    }
}

/// Byte `k` of the PBA.
pub open spec fn pba_byte(entries: Seq<MsixEntry>, k: int) -> u8 {
    pba_bits(entries, k, 8) as u8
}

/// The low bits of a byte of the PBA are less than the weight of the next bit.
pub proof fn lemma_pba_bits_range(entries: Seq<MsixEntry>, k: int, n: nat)
    ensures
        0 <= pba_bits(entries, k, n) < pow2(n),
    decreases n,
{
    vstd::arithmetic::power2::lemma2_to64();
    if n > 0 {
        lemma_pba_bits_range(entries, k, (n - 1) as nat);
        vstd::arithmetic::power2::lemma_pow2_unfold(n);
    }
}

/// Bit `b` of byte `k` of the PBA tells whether an interrupt of vector
/// `8 * k + b` waits.
pub proof fn law_pba_bit(entries: Seq<MsixEntry>, k: int, b: nat, n: nat)
    requires
        0 <= k,
        b < n,
    ensures
        field(pba_bits(entries, k, n), pow2(b) as int, 2) == if 8 * k + b < entries.len()
            && entries[8 * k + b].pending {
            1int
        } else {
            0
        },
    decreases n,
{
    vstd::arithmetic::power2::lemma_pow2_pos(b);
    lemma_pba_bits_range(entries, k, (n - 1) as nat);
    let low = pba_bits(entries, k, (n - 1) as nat);
    let p = pow2(b) as int;
    let top = pow2((n - 1) as nat) as int;
    if n == b + 1 {
        if 8 * k + b < entries.len() && entries[8 * k + b].pending {
            vstd::arithmetic::div_mod::lemma_fundamental_div_mod_converse(low + p, p, 1, low);
        } else {
            vstd::arithmetic::div_mod::lemma_fundamental_div_mod_converse(low, p, 0, low);
        }
    } else {
        law_pba_bit(entries, k, b, (n - 1) as nat);
        // The weight of the top bit is a multiple of twice that of bit `b`.
        let d = (n - 2 - b) as nat;
        vstd::arithmetic::power2::lemma_pow2_adds((b + 1) as nat, d);
        vstd::arithmetic::power2::lemma_pow2_unfold((b + 1) as nat);
        let t = pow2(d) as int;
        assert(top == (2 * p) * t);
        let x = low + top;
        assert(x == low + p * (2 * t)) by (nonlinear_arith)
            requires
                x == low + top,
                top == (2 * p) * t,
        ;
        vstd::arithmetic::div_mod::lemma_hoist_over_denominator(low, 2 * t, p as nat);
        assert(x / p == low / p + 2 * t) by {
            assert(low / p + 2 * t == (low + (2 * t) * p) / p);
            assert((2 * t) * p == p * (2 * t)) by (nonlinear_arith);
        }
        assert((low / p + 2 * t) % 2 == (low / p) % 2);
    }
}

impl MsixView {
    /// The invariant of MSI-X state: every vector knows the state of the
    /// function.
    pub open spec fn wf(self) -> bool {
        &&& 0 < self.count <= 2048
        &&& self.entries.len() == self.count
        &&& self.pba_off == pba_off_of(self.count)
        &&& forall|i: int|
            0 <= i < self.count ==> (#[trigger] self.entries[i]).mask_func == self.func_mask
                && self.entries[i].enabled == self.enabled
    }

    /// The state of a function with `count` vectors after a reset.
    pub open spec fn spec_new(count: u16, bar: BarN) -> MsixView {
        MsixView {
            count,
            bar,
            pba_off: pba_off_of(count) as u32,
            entries: Seq::new(count as nat, |i: int| MsixEntry::blank()),
            enabled: false,
            func_mask: false,
        }
    }

    /// The state with another vector `i`.
    pub open spec fn with_entry(self, i: int, e: MsixEntry) -> MsixView {
        MsixView { entries: self.entries.update(i, e), ..self }
    }

    /// The state after an interrupt of vector `i`.
    pub open spec fn spec_fire(self, i: u16) -> MsixView {
        self.with_entry(i as int, self.entries[i as int].fired())
    }

    /// What the message control register reads as.
    pub open spec fn msg_ctrl(self) -> u16 {
        (self.count - 1 + if self.enabled {
            0x8000int
        } else {
            0
        } + if self.func_mask {
            0x4000int
        } else {
            0
        }) as u16
    }

    /// The register of the BAR that an offset lies in.
    pub open spec fn bar_span(self, off: int) -> Option<RegSpan<MsixBarReg>> {
        let table = self.count * 16;
        let i = (off / 16) as u16;
        let o = off % 16;
        if off < 0 || off >= msix_bar_size(self.count) {
            None
        } else if off < table {
            if o < 8 {
                Some(
                    RegSpan {
                        id: MsixBarReg::Addr(i),
                        start: (off - o) as usize,
                        len: 8,
                        passthru: false,
                    },
                )
            } else if o < 12 {
                Some(
                    RegSpan {
                        id: MsixBarReg::Data(i),
                        start: (off - o + 8) as usize,
                        len: 4,
                        passthru: false,
                    },
                )
            } else {
                Some(
                    RegSpan {
                        id: MsixBarReg::VecCtrl(i),
                        start: (off - o + 12) as usize,
                        len: 4,
                        passthru: false,
                    },
                )
            }
        } else if off < self.pba_off {
            Some(
                RegSpan {
                    id: MsixBarReg::Reserved,
                    start: table as usize,
                    len: (self.pba_off - table) as usize,
                    passthru: true,
                },
            )
        } else if off < self.pba_off + 4096 {
            Some(
                RegSpan {
                    id: MsixBarReg::Pba,
                    start: self.pba_off as usize,
                    len: 4096,
                    passthru: true,
                },
            )
        } else {
            Some(
                RegSpan {
                    id: MsixBarReg::Reserved,
                    start: (self.pba_off + 4096) as usize,
                    len: (msix_bar_size(self.count) - self.pba_off - 4096) as usize,
                    passthru: true,
                },
            )
        }
    }

    /// What a read of a register of the BAR gives.
    pub open spec fn bar_rd(self, id: MsixBarReg, off: int, len: nat) -> Seq<u8> {
        match id {
            MsixBarReg::Addr(i) => le64(self.entries[i as int].addr),
            MsixBarReg::Data(i) => le32(self.entries[i as int].data),
            MsixBarReg::VecCtrl(i) => le32(
                if self.entries[i as int].mask_vec {
                    1u32
                } else {
                    0
                },
            ),
            MsixBarReg::Reserved => zeros(len),
            MsixBarReg::Pba => Seq::new(len, |k: int| pba_byte(self.entries, off + k)),
        }
    }

    /// What is saved of the state.
    pub open spec fn saved_as(self, s: MsixStateV1) -> bool {
        &&& s.count == self.count
        &&& s.is_enabled == self.enabled
        &&& s.is_func_masked == self.func_mask
        &&& s.entries@.len() == self.entries.len()
        &&& forall|i: int|
            0 <= i < self.entries.len() ==> #[trigger] s.entries@[i] == (MsixEntryV1 {
                addr: self.entries[i].addr,
                data: self.entries[i].data,
                is_vec_masked: self.entries[i].mask_vec,
                is_pending: self.entries[i].pending,
            })
    }

    /// The state after a saved one was taken over.
    pub open spec fn imported(self, s: MsixStateV1) -> MsixView {
        MsixView {
            enabled: s.is_enabled,
            func_mask: s.is_func_masked,
            entries: Seq::new(
                self.entries.len(),
                |i: int|
                    MsixEntry {
                        addr: s.entries@[i].addr,
                        data: s.entries@[i].data,
                        mask_vec: s.entries@[i].is_vec_masked,
                        mask_func: s.is_func_masked,
                        enabled: s.is_enabled,
                        pending: s.entries@[i].is_pending,
                    },
            ),
            ..self
        }
    }
}

/// The event of sending a message, if there is one.
pub open spec fn send_events(m: Option<MsiMsg>) -> Seq<DevEvent> {
    match m {
        Some(msg) => seq![DevEvent::SendMsi(msg)],
        None => Seq::empty(),
    }
}

/// A vector after the state of the function was set.
pub open spec fn with_func(e: MsixEntry, mask: bool, ena: bool) -> MsixEntry {
    MsixEntry { mask_func: mask, enabled: ena, ..e }
}

/// What the first `n` vectors send when the state of the function is set.
pub open spec fn func_events(entries: Seq<MsixEntry>, mask: bool, ena: bool, n: int) -> Seq<DevEvent>
    decreases n,
{
    if n <= 0 {
        Seq::empty()
    } else {
        func_events(entries, mask, ena, n - 1) + send_events(
            with_func(entries[n - 1], mask, ena).check_msg(),
        )
    }
}

/// What a write to the message control register leads to.
pub open spec fn msg_ctrl_write(m: MsixModel, val: u16) -> MsixModel {
    let c = m.cfg;
    let ena = val / 0x8000 == 1;
    let mask = (val / 0x4000) % 2 == 1;
    let changed = c.enabled != ena || c.func_mask != mask;
    let entries = if changed {
        Seq::new(
            c.entries.len(),
            |i: int| with_func(c.entries[i], mask, ena).checked(),
        )
    } else {
        c.entries
    };
    let sent = if changed {
        func_events(c.entries, mask, ena, c.entries.len() as int)
    } else {
        Seq::empty()
    };
    let told = if c.func_mask != mask && c.enabled == ena && ena {
        seq![
            DevEvent::MsiUpdate(
                if mask {
                    MsiUpdate::MaskAll
                } else {
                    MsiUpdate::UnmaskAll
                },
            ),
        ]
    } else {
        Seq::empty()
    };
    MsixModel {
        cfg: MsixView { entries, enabled: ena, func_mask: mask, ..c },
        events: m.events + sent + told,
    }
}

/// What a write to a register of the BAR leads to.
pub open spec fn msix_bar_wr(m: MsixModel, id: MsixBarReg, data: Seq<u8>) -> MsixModel {
    match id {
        MsixBarReg::Addr(i) => MsixModel {
            cfg: m.cfg.with_entry(
                i as int,
                MsixEntry { addr: val64(data), ..m.cfg.entries[i as int] },
            ),
            events: m.events.push(DevEvent::MsiUpdate(MsiUpdate::Modify(i))),
        },
        MsixBarReg::Data(i) => MsixModel {
            cfg: m.cfg.with_entry(
                i as int,
                MsixEntry { data: val32(data), ..m.cfg.entries[i as int] },
            ),
            events: m.events.push(DevEvent::MsiUpdate(MsiUpdate::Modify(i))),
        },
        MsixBarReg::VecCtrl(i) => {
            let e = MsixEntry { mask_vec: val32(data) % 2 == 1, ..m.cfg.entries[i as int] };
            MsixModel {
                cfg: m.cfg.with_entry(i as int, e.checked()),
                events: (m.events + send_events(e.check_msg())).push(
                    DevEvent::MsiUpdate(MsiUpdate::Modify(i)),
                ),
            }
        },
        MsixBarReg::Reserved => m,
        MsixBarReg::Pba => m,
    }
}

impl RegSpace<MsixBarLayout> for MsixCfg {
    type Id = MsixBarReg;

    type Ctx = Vec<DevEvent>;

    type V = MsixModel;

    open spec fn model(&self, ctx: &Vec<DevEvent>) -> MsixModel {
        MsixModel { cfg: self@, events: ctx@ }
    }

    open spec fn inv(&self, ctx: &Vec<DevEvent>) -> bool {
        self@.wf()
    }

    open spec fn span_at(m: MsixModel, off: int) -> Option<RegSpan<MsixBarReg>> {
        m.cfg.bar_span(off)
    }

    open spec fn access_ok(m: MsixModel, id: MsixBarReg, off: int, len: int) -> bool {
        match id {
            MsixBarReg::Addr(i) => i < m.cfg.count && off == 0 && len == 8,
            MsixBarReg::Data(i) => i < m.cfg.count && off == 0 && len == 4,
            MsixBarReg::VecCtrl(i) => i < m.cfg.count && off == 0 && len == 4,
            MsixBarReg::Reserved => true,
            MsixBarReg::Pba => off + len <= 4096,
        }
    }

    open spec fn reg_rd(m: MsixModel, id: MsixBarReg, off: int, buf: Seq<u8>) -> Seq<u8> {
        m.cfg.bar_rd(id, off, buf.len())
    }

    open spec fn reg_wr(m: MsixModel, id: MsixBarReg, off: int, data: Seq<u8>) -> MsixModel {
        msix_bar_wr(m, id, data)
    }

    proof fn span_laws(&self, ctx: &Vec<DevEvent>, off: int) {
        law_msix_bar_layout(self.count);
    }

    fn find(&self, ctx: &Vec<DevEvent>, off: usize) -> (r: Option<RegSpan<MsixBarReg>>) {
        proof {
            law_msix_bar_layout(self.count);
        }
        let table: usize = self.count as usize * 16;
        let pba: usize = self.pba_off as usize;
        let size: usize = next_pow2(self.pba_off + 4096) as usize;
        let o: usize = off % 16;
        if off >= size {
            None
        } else if off < table {
            let i: u16 = (off / 16) as u16;
            if o < 8 {
                Some(RegSpan { id: MsixBarReg::Addr(i), start: off - o, len: 8, passthru: false })
            } else if o < 12 {
                Some(
                    RegSpan { id: MsixBarReg::Data(i), start: off - o + 8, len: 4, passthru: false },
                )
            } else {
                Some(
                    RegSpan {
                        id: MsixBarReg::VecCtrl(i),
                        start: off - o + 12,
                        len: 4,
                        passthru: false,
                    },
                )
            }
        } else if off < pba {
            Some(
                RegSpan {
                    id: MsixBarReg::Reserved,
                    start: table,
                    len: pba - table,
                    passthru: true,
                },
            )
        } else if off < pba + 4096 {
            Some(RegSpan { id: MsixBarReg::Pba, start: pba, len: 4096, passthru: true })
        } else {
            Some(
                RegSpan {
                    id: MsixBarReg::Reserved,
                    start: pba + 4096,
                    len: size - pba - 4096,
                    passthru: true,
                },
            )
        }
    }

    fn read_reg(&self, ctx: &Vec<DevEvent>, id: MsixBarReg, off: usize, buf: Vec<u8>) -> (r: Vec<
        u8,
    >) {
        let mut out: Vec<u8> = Vec::new();
        match id {
            MsixBarReg::Addr(i) => {
                let e: MsixEntry = self.entries[i as usize];
                push_le64(&mut out, e.addr);
                assert(out@ =~= le64(e.addr));
            },
            MsixBarReg::Data(i) => {
                let e: MsixEntry = self.entries[i as usize];
                push_le32(&mut out, e.data);
                assert(out@ =~= le32(e.data));
            },
            MsixBarReg::VecCtrl(i) => {
                let e: MsixEntry = self.entries[i as usize];
                let val: u32 = if e.mask_vec {
                    1
                } else {
                    0
                };
                push_le32(&mut out, val);
                assert(out@ =~= le32(val));
            },
            MsixBarReg::Reserved => {
                push_fill(&mut out, 0, buf.len());
                assert(out@ =~= zeros(buf@.len()));
            },
            MsixBarReg::Pba => {
                out = self.read_pba(off, buf.len());
            },
        }
        out
    }

    fn write_reg(&mut self, ctx: &mut Vec<DevEvent>, id: MsixBarReg, off: usize, data: Vec<u8>) {
        match id {
            MsixBarReg::Addr(i) => {
                let mut e: MsixEntry = self.entries[i as usize];
                e.addr = get_le64(&data, 0);
                assert(data@.subrange(0, 8) =~= data@);
                self.entries[i as usize] = e;
                ctx.push(DevEvent::MsiUpdate(MsiUpdate::Modify(i)));
            },
            MsixBarReg::Data(i) => {
                let mut e: MsixEntry = self.entries[i as usize];
                e.data = get_le32(&data, 0);
                assert(data@.subrange(0, 4) =~= data@);
                self.entries[i as usize] = e;
                ctx.push(DevEvent::MsiUpdate(MsiUpdate::Modify(i)));
            },
            MsixBarReg::VecCtrl(i) => {
                let mut e: MsixEntry = self.entries[i as usize];
                let val: u32 = get_le32(&data, 0);
                assert(data@.subrange(0, 4) =~= data@);
                e.mask_vec = val % 2 == 1;
                let msg: Option<MsiMsg> = e.check_mask();
                self.entries[i as usize] = e;
                push_send(ctx, msg);
                ctx.push(DevEvent::MsiUpdate(MsiUpdate::Modify(i)));
            },
            MsixBarReg::Reserved => {},
            MsixBarReg::Pba => {},
        }
    }
}

/// Appends the event of sending a message, if there is one.
fn push_send(events: &mut Vec<DevEvent>, msg: Option<MsiMsg>)
    ensures
        final(events)@ == old(events)@ + send_events(msg),
{
    match msg {
        Some(m) => {
            events.push(DevEvent::SendMsi(m));
        },
        None => {
            assert(events@ + Seq::<DevEvent>::empty() =~= events@);
        },
    }
}

impl RegSpace<MsixCapLayout> for MsixCfg {
    type Id = MsixCapReg;

    type Ctx = Vec<DevEvent>;

    type V = MsixModel;

    open spec fn model(&self, ctx: &Vec<DevEvent>) -> MsixModel {
        MsixModel { cfg: self@, events: ctx@ }
    }

    open spec fn inv(&self, ctx: &Vec<DevEvent>) -> bool {
        self@.wf()
    }

    open spec fn span_at(m: MsixModel, off: int) -> Option<RegSpan<MsixCapReg>> {
        if 0 <= off < 2 {
            Some(RegSpan { id: MsixCapReg::MsgCtrl, start: 0, len: 2, passthru: false })
        } else if 2 <= off < 6 {
            Some(RegSpan { id: MsixCapReg::TableOff, start: 2, len: 4, passthru: false })
        } else if 6 <= off < 10 {
            Some(RegSpan { id: MsixCapReg::PbaOff, start: 6, len: 4, passthru: false })
        } else {
            None
        }
    }

    open spec fn access_ok(m: MsixModel, id: MsixCapReg, off: int, len: int) -> bool {
        off == 0 && len == if id is MsgCtrl {
            2int
        } else {
            4
        }
    }

    open spec fn reg_rd(m: MsixModel, id: MsixCapReg, off: int, buf: Seq<u8>) -> Seq<u8> {
        match id {
            MsixCapReg::MsgCtrl => le16(m.cfg.msg_ctrl()),
            MsixCapReg::TableOff => le32(m.cfg.bar.spec_idx() as u32),
            MsixCapReg::PbaOff => le32((m.cfg.pba_off + m.cfg.bar.spec_idx()) as u32),
        }
    }

    open spec fn reg_wr(m: MsixModel, id: MsixCapReg, off: int, data: Seq<u8>) -> MsixModel {
        match id {
            MsixCapReg::MsgCtrl => msg_ctrl_write(m, val16(data)),
            _ => m,
        }
    }

    proof fn span_laws(&self, ctx: &Vec<DevEvent>, off: int) {
    }

    fn find(&self, ctx: &Vec<DevEvent>, off: usize) -> (r: Option<RegSpan<MsixCapReg>>) {
        if off < 2 {
            Some(RegSpan { id: MsixCapReg::MsgCtrl, start: 0, len: 2, passthru: false })
        } else if off < 6 {
            Some(RegSpan { id: MsixCapReg::TableOff, start: 2, len: 4, passthru: false })
        } else if off < 10 {
            Some(RegSpan { id: MsixCapReg::PbaOff, start: 6, len: 4, passthru: false })
        } else {
            None
        }
    }

    fn read_reg(&self, ctx: &Vec<DevEvent>, id: MsixCapReg, off: usize, buf: Vec<u8>) -> (r: Vec<
        u8,
    >) {
        let mut out: Vec<u8> = Vec::new();
        match id {
            MsixCapReg::MsgCtrl => {
                let val: u16 = self.count - 1 + if self.enabled {
                    0x8000
                } else {
                    0
                } + if self.func_mask {
                    0x4000
                } else {
                    0
                };
                push_le16(&mut out, val);
                assert(out@ =~= le16(val));
            },
            MsixCapReg::TableOff => {
                let val: u32 = self.bar.idx() as u32;
                push_le32(&mut out, val);
                assert(out@ =~= le32(val));
            },
            MsixCapReg::PbaOff => {
                proof {
                    law_msix_bar_layout(self.count);
                }
                let val: u32 = self.pba_off + self.bar.idx() as u32;
                push_le32(&mut out, val);
                assert(out@ =~= le32(val));
            },
        }
        out
    }

    fn write_reg(&mut self, ctx: &mut Vec<DevEvent>, id: MsixCapReg, off: usize, data: Vec<u8>) {
        match id {
            MsixCapReg::MsgCtrl => {
                let val: u16 = get_le16(&data, 0);
                assert(data@.subrange(0, 2) =~= data@);
                let ghost m0 = MsixModel { cfg: self@, events: ctx@ };
                let new_ena: bool = val / 0x8000 == 1;
                let old_ena: bool = self.enabled;
                let new_mask: bool = (val / 0x4000) % 2 == 1;
                let old_mask: bool = self.func_mask;
                if old_ena != new_ena || old_mask != new_mask {
                    self.set_func(ctx, new_mask, new_ena);
                } else {
                    assert(ctx@ + Seq::<DevEvent>::empty() =~= ctx@);
                }
                self.enabled = new_ena;
                self.func_mask = new_mask;
                if old_mask != new_mask && old_ena == new_ena && new_ena {
                    ctx.push(
                        DevEvent::MsiUpdate(
                            if new_mask {
                                MsiUpdate::MaskAll
                            } else {
                                MsiUpdate::UnmaskAll
                            },
                        ),
                    );
                } else {
                    assert(ctx@ + Seq::<DevEvent>::empty() =~= ctx@);
                }
                assert(ctx@ =~= msg_ctrl_write(m0, val).events);
                assert(self@ =~= msg_ctrl_write(m0, val).cfg);
            },
            _ => {},
        }
    }
}

/// Writes to the BAR do not change how many vectors there are, and where.
proof fn lemma_bar_shape(m: MsixModel, off: int, data: Seq<u8>)
    ensures
        space_write::<MsixBarLayout, MsixCfg>(m, off, data).cfg.count == m.cfg.count,
        space_write::<MsixBarLayout, MsixCfg>(m, off, data).cfg.bar == m.cfg.bar,
    decreases data.len(),
{
    if data.len() > 0 {
        match <MsixCfg as RegSpace<MsixBarLayout>>::span_at(m, off) {
            None => {
                lemma_bar_shape(m, off + 1, data.skip(1));
            },
            Some(s) => {
                let n = span_part(s, off, data.len() as int);
                if 0 < n {
                    lemma_bar_shape(part_write::<MsixBarLayout, MsixCfg>(m, s, off, data), off + n, data.skip(n));
                }
            },
        }
    }
}

/// Writes to the capability do not change how many vectors there are, and where.
pub proof fn lemma_cap_shape(m: MsixModel, off: int, data: Seq<u8>)
    ensures
        space_write::<MsixCapLayout, MsixCfg>(m, off, data).cfg.count == m.cfg.count,
        space_write::<MsixCapLayout, MsixCfg>(m, off, data).cfg.bar == m.cfg.bar,
    decreases data.len(),
{
    if data.len() > 0 {
        match <MsixCfg as RegSpace<MsixCapLayout>>::span_at(m, off) {
            None => {
                lemma_cap_shape(m, off + 1, data.skip(1));
            },
            Some(s) => {
                let n = span_part(s, off, data.len() as int);
                if 0 < n {
                    lemma_cap_shape(part_write::<MsixCapLayout, MsixCfg>(m, s, off, data), off + n, data.skip(n));
                }
            },
        }
    }
}

impl MsixCfg {
    /// The invariant of MSI-X state.
    pub open spec fn wf(&self) -> bool {
        self@.wf()
    }

    /// MSI-X state of a function with `count` vectors, and the size of its BAR.
    pub fn new(count: u16, bar: BarN) -> (r: (MsixCfg, usize))
        requires
            0 < count <= 2048,
        ensures
            r.0@ == MsixView::spec_new(count, bar),
            r.0.wf(),
            r.1 == msix_bar_size(count),
    {
        proof {
            law_msix_bar_layout(count);
        }
        let table_size: u32 = count as u32 * 16;
        let over: u32 = table_size % 4096;
        // The PBA starts a page, so that the guest can map it separately.
        let pba_off: u32 = if over == 0 {
            table_size
        } else {
            table_size + (4096 - over)
        };
        let bar_size: u32 = next_pow2(pba_off + 4096);
        let mut entries: Vec<MsixEntry> = Vec::new();
        let mut i: u16 = 0;
        while i < count
            invariant
                i <= count,
                entries@.len() == i,
                forall|k: int| 0 <= k < i ==> #[trigger] entries@[k] == MsixEntry::blank(),
            decreases count - i,
        {
            entries.push(MsixEntry::new());
            i += 1;
        }
        let cfg: MsixCfg = MsixCfg {
            count,
            bar,
            pba_off,
            entries,
            enabled: false,
            func_mask: false,
        };
        assert(cfg@ =~= MsixView::spec_new(count, bar));
        (cfg, bar_size as usize)
    }

    /// Whether a BAR is that of the table and the PBA.
    pub fn bar_match(&self, bar: BarN) -> (r: bool)
        ensures
            r == (self@.bar == bar),
    {
        self.bar == bar
    }

    /// Reads from the BAR.
    pub fn bar_read(&self, events: &Vec<DevEvent>, offset: usize, buf: Vec<u8>) -> (r: Vec<u8>)
        requires
            self.wf(),
            offset + buf@.len() <= usize::MAX,
        ensures
            r@ == space_read::<MsixBarLayout, MsixCfg>(
                (MsixModel { cfg: self@, events: events@ }),
                offset as int,
                buf@,
            ),
            r@.len() == buf@.len(),
    {
        process_read::<MsixBarLayout, MsixCfg>(self, events, offset, buf)
    }

    /// Writes to the BAR. What the device is to be told, and the messages to be
    /// sent, are added to `events`.
    pub fn bar_write(&mut self, events: &mut Vec<DevEvent>, offset: usize, data: Vec<u8>)
        requires
            old(self).wf(),
            offset + data@.len() <= usize::MAX,
        ensures
            final(self).wf(),
            (MsixModel { cfg: final(self)@, events: final(events)@ }) == space_write::<
                MsixBarLayout,
                MsixCfg,
            >((MsixModel { cfg: old(self)@, events: old(events)@ }), offset as int, data@),
            final(self)@.count == old(self)@.count,
            final(self)@.bar == old(self)@.bar,
    {
        proof {
            lemma_bar_shape(MsixModel { cfg: self@, events: events@ }, offset as int, data@);
        }
        process_write::<MsixBarLayout, MsixCfg>(self, events, offset, data)
    }

    /// Reads from the capability.
    pub fn cfg_read(&self, events: &Vec<DevEvent>, offset: usize, buf: Vec<u8>) -> (r: Vec<u8>)
        requires
            self.wf(),
            offset + buf@.len() <= usize::MAX,
        ensures
            r@ == space_read::<MsixCapLayout, MsixCfg>(
                (MsixModel { cfg: self@, events: events@ }),
                offset as int,
                buf@,
            ),
            r@.len() == buf@.len(),
    {
        process_read::<MsixCapLayout, MsixCfg>(self, events, offset, buf)
    }

    /// Writes to the capability. What the device is to be told, and the
    /// messages to be sent, are added to `events`.
    pub fn cfg_write(&mut self, events: &mut Vec<DevEvent>, offset: usize, data: Vec<u8>)
        requires
            old(self).wf(),
            offset + data@.len() <= usize::MAX,
        ensures
            final(self).wf(),
            (MsixModel { cfg: final(self)@, events: final(events)@ }) == space_write::<
                MsixCapLayout,
                MsixCfg,
            >((MsixModel { cfg: old(self)@, events: old(events)@ }), offset as int, data@),
            final(self)@.count == old(self)@.count,
            final(self)@.bar == old(self)@.bar,
    {
        proof {
            lemma_cap_shape(MsixModel { cfg: self@, events: events@ }, offset as int, data@);
        }
        process_write::<MsixCapLayout, MsixCfg>(self, events, offset, data)
    }

    /// Reads `len` bytes of the PBA from `offset` on.
    pub fn read_pba(&self, offset: usize, len: usize) -> (r: Vec<u8>)
        requires
            self.wf(),
            offset + len <= 4096,
        ensures
            r@ == Seq::new(len as nat, |k: int| pba_byte(self@.entries, offset + k)),
    {
        let mut out: Vec<u8> = Vec::new();
        let mut i: usize = 0;
        while i < len
            invariant
                i <= len,
                self.wf(),
                offset + len <= 4096,
                out@.len() == i,
                forall|k: int| 0 <= k < i ==> #[trigger] out@[k] == pba_byte(self@.entries, offset + k),
            decreases len - i,
        {
            let mut val: u8 = 0;
            let mut weight: u16 = 1;
            let mut bitpos: usize = 0;
            proof {
                vstd::arithmetic::power2::lemma2_to64();
            }
            while bitpos < 8
                invariant
                    bitpos <= 8,
                    i < len,
                    self.wf(),
                    offset + len <= 4096,
                    weight == pow2(bitpos as nat),
                    weight <= 256,
                    val == pba_bits(self@.entries, offset + i, bitpos as nat),
                    val < weight,
                decreases 8 - bitpos,
            {
                let idx: usize = (i + offset) * 8 + bitpos;
                proof {
                    vstd::arithmetic::power2::lemma2_to64();
                    vstd::arithmetic::power2::lemma_pow2_unfold((bitpos + 1) as nat);
                    lemma_pba_bits_range(self@.entries, offset + i, (bitpos + 1) as nat);
                    assert(weight <= 128) by {
                        if bitpos < 7 {
                            vstd::arithmetic::power2::lemma_pow2_strictly_increases(
                                bitpos as nat,
                                7,
                            );
                        }
                    }
                }
                if idx < self.count as usize {
                    let e: MsixEntry = self.entries[idx];
                    if e.pending {
                        val = val + weight as u8;
                    }
                }
                weight = weight * 2;
                bitpos += 1;
            }
            out.push(val);
            i += 1;
        }
        assert(out@ =~= Seq::new(len as nat, |k: int| pba_byte(self@.entries, offset + k)));
        out
    }

    /// Tells every vector the state of the function.
    fn set_func(&mut self, events: &mut Vec<DevEvent>, mask: bool, ena: bool)
        requires
            old(self).wf(),
        ensures
            final(self)@ == (MsixView {
                entries: Seq::new(
                    old(self)@.entries.len(),
                    |i: int| with_func(old(self)@.entries[i], mask, ena).checked(),
                ),
                ..old(self)@
            }),
            final(events)@ == old(events)@ + func_events(
                old(self)@.entries,
                mask,
                ena,
                old(self)@.entries.len() as int,
            ),
    {
        let ghost e0 = self.entries@;
        let ghost ev0 = events@;
        let n: usize = self.entries.len();
        let mut i: usize = 0;
        assert(events@ + Seq::<DevEvent>::empty() =~= events@);
        while i < n
            invariant
                i <= n,
                n == e0.len(),
                self.entries@.len() == n,
                self@ == (MsixView { entries: self.entries@, ..old(self)@ }),
                forall|k: int|
                    0 <= k < i ==> #[trigger] self.entries@[k] == with_func(
                        e0[k],
                        mask,
                        ena,
                    ).checked(),
                forall|k: int| i <= k < n ==> #[trigger] self.entries@[k] == e0[k],
                events@ == ev0 + func_events(e0, mask, ena, i as int),
            decreases n - i,
        {
            let mut e: MsixEntry = self.entries[i];
            e.mask_func = mask;
            e.enabled = ena;
            let msg: Option<MsiMsg> = e.check_mask();
            self.entries[i] = e;
            push_send(events, msg);
            i += 1;
            assert(events@ =~= ev0 + func_events(e0, mask, ena, i as int));
        }
        assert(self.entries@ =~= Seq::new(
            e0.len(),
            |i: int| with_func(e0[i], mask, ena).checked(),
        ));
    }

    /// Signals an interrupt of a vector. Returns the message to be sent.
    pub fn fire(&mut self, idx: u16) -> (r: Option<MsiMsg>)
        requires
            old(self).wf(),
            idx < old(self)@.count,
        ensures
            final(self).wf(),
            final(self)@ == old(self)@.spec_fire(idx),
            r == old(self)@.entries[idx as int].fire_msg(),
    {
        let mut e: MsixEntry = self.entries[idx as usize];
        let msg: Option<MsiMsg> = e.fire();
        self.entries[idx as usize] = e;
        msg
    }

    /// Whether MSI-X is enabled.
    pub fn is_enabled(&self) -> (r: bool)
        ensures
            r == self@.enabled,
    {
        self.enabled
    }

    /// The state of a vector.
    pub fn read(&self, idx: u16) -> (r: MsiEnt)
        requires
            self.wf(),
            idx < self@.count,
        ensures
            ({
                let e = self@.entries[idx as int];
                r == (MsiEnt {
                    addr: e.addr,
                    data: e.data,
                    masked: e.masked(),
                    pending: e.pending,
                })
            }),
    {
        let e: MsixEntry = self.entries[idx as usize];
        MsiEnt {
            addr: e.addr,
            data: e.data,
            masked: e.mask_vec || e.mask_func,
            pending: e.pending,
        }
    }

    /// Resets the function and every vector.
    pub fn reset(&mut self)
        requires
            old(self).wf(),
        ensures
            final(self).wf(),
            final(self)@ == MsixView::spec_new(old(self)@.count, old(self)@.bar),
    {
        self.enabled = false;
        self.func_mask = false;
        let n: usize = self.entries.len();
        let mut i: usize = 0;
        while i < n
            invariant
                i <= n,
                n == self.entries@.len(),
                self@ == (MsixView {
                    entries: self.entries@,
                    enabled: false,
                    func_mask: false,
                    ..old(self)@
                }),
                forall|k: int| 0 <= k < i ==> #[trigger] self.entries@[k] == MsixEntry::blank(),
            decreases n - i,
        {
            let mut e: MsixEntry = self.entries[i];
            e.reset();
            self.entries[i] = e;
            i += 1;
        }
        assert(self@ =~= MsixView::spec_new(old(self)@.count, old(self)@.bar));
    }

    /// The state to be moved to another host.
    pub fn export(&self) -> (r: MsixStateV1)
        ensures
            self@.saved_as(r),
    {
        let mut entries: Vec<MsixEntryV1> = Vec::new();
        let n: usize = self.entries.len();
        let mut i: usize = 0;
        while i < n
            invariant
                i <= n,
                n == self.entries@.len(),
                entries@.len() == i,
                forall|k: int|
                    0 <= k < i ==> #[trigger] entries@[k] == (MsixEntryV1 {
                        addr: self.entries@[k].addr,
                        data: self.entries@[k].data,
                        is_vec_masked: self.entries@[k].mask_vec,
                        is_pending: self.entries@[k].pending,
                    }),
            decreases n - i,
        {
            let e: MsixEntry = self.entries[i];
            entries.push(
                MsixEntryV1 {
                    addr: e.addr,
                    data: e.data,
                    is_vec_masked: e.mask_vec,
                    is_pending: e.pending,
                },
            );
            i += 1;
        }
        MsixStateV1 {
            count: self.count,
            is_enabled: self.enabled,
            is_func_masked: self.func_mask,
            entries,
        }
    }

    /// Takes over the state brought from another host, if it is that of as
    /// many vectors.
    pub fn import(&mut self, state: &MsixStateV1) -> (r: Result<(), MigrateStateError>)
        requires
            old(self).wf(),
        ensures
            final(self).wf(),
            if old(self)@.count != state.count {
                &&& r == Err::<(), MigrateStateError>(
                    MigrateStateError::MsixCount(old(self)@.count, state.count),
                )
                &&& final(self)@ == old(self)@
            } else if old(self)@.count != state.entries@.len() {
                &&& r == Err::<(), MigrateStateError>(
                    MigrateStateError::MsixEntryCount(
                        old(self)@.count as u64,
                        state.entries@.len() as u64,
                    ),
                )
                &&& final(self)@ == old(self)@
            } else {
                &&& r is Ok
                &&& final(self)@ == old(self)@.imported(*state)
            },
    {
        if self.count != state.count {
            return Err(MigrateStateError::MsixCount(self.count, state.count));
        }
        if self.entries.len() != state.entries.len() {
            return Err(
                MigrateStateError::MsixEntryCount(
                    self.entries.len() as u64,
                    state.entries.len() as u64,
                ),
            );
        }
        self.enabled = state.is_enabled;
        self.func_mask = state.is_func_masked;
        let n: usize = self.entries.len();
        let mut i: usize = 0;
        while i < n
            invariant
                i <= n,
                n == self.entries@.len(),
                n == state.entries@.len(),
                n == old(self)@.entries.len(),
                self@ == (MsixView {
                    entries: self.entries@,
                    enabled: state.is_enabled,
                    func_mask: state.is_func_masked,
                    ..old(self)@
                }),
                forall|k: int|
                    0 <= k < i ==> #[trigger] self.entries@[k] == old(self)@.imported(
                        *state,
                    ).entries[k],
            decreases n - i,
        {
            let saved: MsixEntryV1 = state.entries[i];
            self.entries[i] = MsixEntry {
                addr: saved.addr,
                data: saved.data,
                mask_vec: saved.is_vec_masked,
                mask_func: state.is_func_masked,
                enabled: state.is_enabled,
                pending: saved.is_pending,
            };
            i += 1;
        }
        assert(self@ =~= old(self)@.imported(*state));
        Ok(())
    }
}

/// A function that takes over the state that another one exported is in the
/// same state.
pub proof fn law_msix_migrates(from: MsixView, to: MsixView, s: MsixStateV1)
    requires
        from.wf(),
        to.wf(),
        from.saved_as(s),
        to.count == from.count,
        to.bar == from.bar,
    ensures
        to.imported(s) == from,
{
    assert forall|i: int| 0 <= i < from.count implies to.imported(s).entries[i]
        == from.entries[i] by {
        assert(s.entries@[i].addr == from.entries[i].addr);
    }
    assert(to.imported(s) =~= from);
}

/// What a device uses to signal its interrupts.
#[derive(Debug)]
pub struct MsixHdl {
    pub cfg: MsixCfg,
}

impl MsixHdl {
    /// The invariant of the MSI-X state.
    pub open spec fn wf(&self) -> bool {
        self.cfg.wf()
    }

    /// A handle on that state.
    pub fn new(cfg: MsixCfg) -> (r: MsixHdl)
        ensures
            r.cfg == cfg,
    {
        MsixHdl { cfg }
    }

    /// Signals an interrupt of a vector. Returns the message to be sent.
    pub fn fire(&mut self, idx: u16) -> (r: Option<MsiMsg>)
        requires
            old(self).wf(),
            idx < old(self).cfg@.count,
        ensures
            final(self).wf(),
            final(self).cfg@ == old(self).cfg@.spec_fire(idx),
            r == old(self).cfg@.entries[idx as int].fire_msg(),
    {
        self.cfg.fire(idx)
    }

    /// The state of a vector.
    pub fn read(&self, idx: u16) -> (r: MsiEnt)
        requires
            self.wf(),
            idx < self.cfg@.count,
        ensures
            ({
                let e = self.cfg@.entries[idx as int];
                r == (MsiEnt {
                    addr: e.addr,
                    data: e.data,
                    masked: e.masked(),
                    pending: e.pending,
                })
            }),
    {
        self.cfg.read(idx)
    }

    /// The number of vectors.
    pub fn count(&self) -> (r: u16)
        ensures
            r == self.cfg@.count,
    {
        self.cfg.count
    }
}

} // verus!
