//! The layout of the configuration space of a PCI function.
use crate::hw::pci::bits::{LEN_CFG_ECAM, LEN_CFG_STD};
use crate::regmap::RegSpan;
use vstd::prelude::*;

verus! {

/// A region of the configuration space.
#[derive(Clone, Copy, Debug, PartialEq, Eq, Structural)]
pub enum CfgReg {
    /// The standard header.
    Std,
    /// A region that the device handles by itself, named by its offset.
    Custom(u8),
    /// The identifier of a capability.
    CapId(u8),
    /// The offset of the next capability.
    CapNext(u8),
    /// The rest of a capability.
    CapBody(u8),
}

/// A capability: its identifier, and where it starts.
#[derive(Clone, Copy, Debug, PartialEq, Eq, Structural)]
pub struct Cap {
    pub id: u8,
    pub offset: u8,
}

/// The region that holds the offset, among those from `i` on.
pub open spec fn region_at(regions: Seq<RegSpan<CfgReg>>, i: int, off: int) -> Option<
    RegSpan<CfgReg>,
>
    decreases regions.len() - i,
{
    if i < 0 || i >= regions.len() {
        None
    } else if regions[i].start <= off < regions[i].start + regions[i].len {
        Some(regions[i])
    } else {
        region_at(regions, i + 1, off)
    }
}

/// Whether a region lies in the configuration space and has the form of its
/// kind.
pub open spec fn region_ok(r: RegSpan<CfgReg>, caps: nat) -> bool {
    &&& 0 < r.len
    &&& r.start + r.len <= LEN_CFG_ECAM
    &&& match r.id {
        CfgReg::Std => r.start == 0 && r.len == LEN_CFG_STD && r.passthru,
        CfgReg::Custom(o) => r.start == o && r.passthru,
        CfgReg::CapId(i) => i < caps && r.len == 1 && !r.passthru,
        CfgReg::CapNext(i) => i < caps && r.len == 1 && !r.passthru,
        CfgReg::CapBody(i) => i < caps && r.passthru,
    }
}

/// Whether no region touches the `len` bytes at `start`.
pub open spec fn region_free(regions: Seq<RegSpan<CfgReg>>, start: int, len: int) -> bool {
    forall|k: int|
        0 <= k < regions.len() ==> start + len <= (#[trigger] regions[k]).start || regions[k].start
            + regions[k].len <= start
}

/// Whether capability `i` is where it says.
pub open spec fn cap_placed(regions: Seq<RegSpan<CfgReg>>, caps: Seq<Cap>, i: int) -> bool {
    let o = caps[i].offset as int;
    &&& region_at(regions, 0, o) matches Some(r) && r.id == CfgReg::CapId(i as u8) && r.start == o
    &&& region_at(regions, 0, o + 1) matches Some(r) && r.id == CfgReg::CapNext(i as u8)
}

/// The invariant of a layout.
pub open spec fn layout_ok(regions: Seq<RegSpan<CfgReg>>, caps: Seq<Cap>) -> bool {
    &&& caps.len() <= 64
    &&& forall|k: int| 0 <= k < regions.len() ==> #[trigger] region_ok(regions[k], caps.len())
    &&& forall|i: int| 0 <= i < caps.len() ==> #[trigger] cap_placed(regions, caps, i)
}

/// What is found is one of the regions, and holds the offset.
pub proof fn lemma_region_at(regions: Seq<RegSpan<CfgReg>>, i: int, off: int)
    requires
        0 <= i,
    ensures
        region_at(regions, i, off) matches Some(r) ==> r.start <= off < r.start + r.len && exists|
            k: int,
        |
            i <= k < regions.len() && #[trigger] regions[k] == r,
    decreases regions.len() - i,
{
    if i < regions.len() && !(regions[i].start <= off < regions[i].start + regions[i].len) {
        lemma_region_at(regions, i + 1, off);
    }
}

/// A region that is added takes nothing from those that were there.
proof fn lemma_region_push(
    regions: Seq<RegSpan<CfgReg>>,
    r: RegSpan<CfgReg>,
    i: int,
    off: int,
)
    requires
        0 <= i <= regions.len(),
    ensures
        region_at(regions, i, off) is Some ==> region_at(regions.push(r), i, off) == region_at(
            regions,
            i,
            off,
        ),
        region_at(regions, i, off) is None ==> region_at(regions.push(r), i, off) == (if r.start
            <= off < r.start + r.len {
            Some(r)
        } else {
            None
        }),
    decreases regions.len() - i,
{
    let s = regions.push(r);
    if i < regions.len() {
        assert(s[i] == regions[i]);
        lemma_region_push(regions, r, i + 1, off);
    } else {
        assert(s[i] == r);
        assert(region_at(s, i + 1, off) is None);
    }
}

/// Where no region is, none is found.
proof fn lemma_region_free(regions: Seq<RegSpan<CfgReg>>, start: int, len: int, i: int, off: int)
    requires
        region_free(regions, start, len),
        start <= off < start + len,
        0 <= i,
    ensures
        region_at(regions, i, off) is None,
    decreases regions.len() - i,
{
    if i < regions.len() {
        lemma_region_free(regions, start, len, i + 1, off);
    }
}

/// Finds the region that holds an offset.
pub fn find_region(regions: &Vec<RegSpan<CfgReg>>, off: usize) -> (r: Option<RegSpan<CfgReg>>)
    requires
        forall|k: int|
            0 <= k < regions@.len() ==> (#[trigger] regions@[k]).start + regions@[k].len
                <= LEN_CFG_ECAM,
    ensures
        r == region_at(regions@, 0, off as int),
        r matches Some(s) ==> s.start <= off < s.start + s.len <= LEN_CFG_ECAM,
{
    let mut i: usize = 0;
    while i < regions.len()
        invariant
            i <= regions@.len(),
            forall|k: int|
                0 <= k < regions@.len() ==> (#[trigger] regions@[k]).start + regions@[k].len
                    <= LEN_CFG_ECAM,
            region_at(regions@, i as int, off as int) == region_at(regions@, 0, off as int),
        decreases regions@.len() - i,
    {
        let r: RegSpan<CfgReg> = regions[i];
        if r.start <= off && off < r.start + r.len {
            return Some(r);
        }
        i += 1;
    }
    None
}

/// Builds the layout of a configuration space.
#[derive(Debug)]
pub struct CfgBuilder {
    pub regions: Vec<RegSpan<CfgReg>>,
    pub caps: Vec<Cap>,
    /// Where the next capability will start.
    pub cap_next: u8,
}

impl CfgBuilder {
    /// The invariant of a layout that is being built.
    pub open spec fn wf(self) -> bool {
        layout_ok(self.regions@, self.caps@)
    }

    /// A layout of the standard header alone.
    pub fn new() -> (r: CfgBuilder)
        ensures
            r.wf(),
            r.regions@ == seq![
                RegSpan { id: CfgReg::Std, start: 0, len: LEN_CFG_STD, passthru: true },
            ],
            r.caps@.len() == 0,
            r.cap_next == LEN_CFG_STD,
    {
        let mut regions: Vec<RegSpan<CfgReg>> = Vec::new();
        regions.push(RegSpan { id: CfgReg::Std, start: 0, len: LEN_CFG_STD, passthru: true });
        CfgBuilder { regions, caps: Vec::new(), cap_next: LEN_CFG_STD as u8 }
    }

    fn define(&mut self, r: RegSpan<CfgReg>)
        requires
            old(self).wf(),
            region_ok(r, old(self).caps@.len()),
        ensures
            final(self).wf(),
            final(self).regions@ == old(self).regions@.push(r),
            final(self).caps == old(self).caps,
            final(self).cap_next == old(self).cap_next,
    {
        let ghost s = self.regions@;
        let ghost caps = self.caps@;
        self.regions.push(r);
        proof {
            let t = self.regions@;
            assert forall|k: int| 0 <= k < t.len() implies #[trigger] region_ok(
                t[k],
                caps.len(),
            ) by {
                if k < s.len() {
                    assert(region_ok(s[k], caps.len()));
                }
            }
            assert forall|i: int| 0 <= i < caps.len() implies #[trigger] cap_placed(t, caps, i) by {
                assert(cap_placed(s, caps, i));
                lemma_region_push(s, r, 0, caps[i].offset as int);
                lemma_region_push(s, r, 0, caps[i].offset + 1);
            }
        }
    }

    /// Adds a region that the device handles by itself. It must not overlap
    /// what was added before.
    pub fn add_custom(&mut self, offset: u8, len: u8)
        requires
            old(self).wf(),
            0 < len,
            region_free(old(self).regions@, offset as int, len as int),
        ensures
            final(self).wf(),
            final(self).regions@ == old(self).regions@.push(
                RegSpan {
                    id: CfgReg::Custom(offset),
                    start: offset as usize,
                    len: len as usize,
                    passthru: true,
                },
            ),
            final(self).caps == old(self).caps,
            final(self).cap_next == old(self).cap_next,
    {
        self.define(
            RegSpan {
                id: CfgReg::Custom(offset),
                start: offset as usize,
                len: len as usize,
                passthru: true,
            },
        );
    }

    /// Adds a capability whose body has `len` bytes. It must end at a multiple
    /// of 4 bytes, and must not overlap what was added before.
    pub fn add_capability(&mut self, id: u8, len: u8)
        requires
            old(self).wf(),
            0 < len,
            old(self).caps@.len() < 64,
            (old(self).cap_next + 2 + len) % 4 == 0,
            old(self).cap_next + 2 + len <= u8::MAX,
            region_free(old(self).regions@, old(self).cap_next as int, 2 + len),
        ensures
            final(self).wf(),
            ({
                let i = old(self).caps@.len() as u8;
                let o = old(self).cap_next as usize;
                &&& final(self).regions@ == old(self).regions@.push(
                    RegSpan { id: CfgReg::CapId(i), start: o, len: 1, passthru: false },
                ).push(
                    RegSpan {
                        id: CfgReg::CapNext(i),
                        start: (o + 1) as usize,
                        len: 1,
                        passthru: false,
                    },
                ).push(
                    RegSpan {
                        id: CfgReg::CapBody(i),
                        start: (o + 2) as usize,
                        len: len as usize,
                        passthru: true,
                    },
                )
                &&& final(self).caps@ == old(self).caps@.push(
                    Cap { id, offset: old(self).cap_next },
                )
                &&& final(self).cap_next == o + 2 + len
            }),
    {
        let ghost s0 = self.regions@;
        let ghost caps0 = self.caps@;
        let idx: u8 = self.caps.len() as u8;
        let at: usize = self.cap_next as usize;
        let r1: RegSpan<CfgReg> = RegSpan {
            id: CfgReg::CapId(idx),
            start: at,
            len: 1,
            passthru: false,
        };
        let r2: RegSpan<CfgReg> = RegSpan {
            id: CfgReg::CapNext(idx),
            start: at + 1,
            len: 1,
            passthru: false,
        };
        let r3: RegSpan<CfgReg> = RegSpan {
            id: CfgReg::CapBody(idx),
            start: at + 2,
            len: len as usize,
            passthru: true,
        };
        self.caps.push(Cap { id, offset: self.cap_next });
        self.regions.push(r1);
        self.regions.push(r2);
        self.regions.push(r3);
        self.cap_next = self.cap_next + 2 + len;
        proof {
            let s1 = s0.push(r1);
            let s2 = s1.push(r2);
            let s3 = s2.push(r3);
            let caps = self.caps@;
            assert forall|k: int| 0 <= k < s3.len() implies #[trigger] region_ok(
                s3[k],
                caps.len(),
            ) by {
                if k < s0.len() {
                    assert(region_ok(s0[k], caps0.len()));
                }
            }
            assert forall|i: int| 0 <= i < caps.len() implies #[trigger] cap_placed(s3, caps, i) by {
                let o = caps[i].offset as int;
                lemma_region_push(s0, r1, 0, o);
                lemma_region_push(s1, r2, 0, o);
                lemma_region_push(s2, r3, 0, o);
                lemma_region_push(s0, r1, 0, o + 1);
                lemma_region_push(s1, r2, 0, o + 1);
                lemma_region_push(s2, r3, 0, o + 1);
                if i < caps0.len() {
                    assert(cap_placed(s0, caps0, i));
                } else {
                    lemma_region_free(s0, at as int, 2 + len, 0, o);
                    lemma_region_free(s0, at as int, 2 + len, 0, o + 1);
                }
            }
        }
    }

    /// The regions and the capabilities of the layout.
    pub fn finish(self) -> (r: (Vec<RegSpan<CfgReg>>, Vec<Cap>))
        ensures
            r.0 == self.regions,
            r.1 == self.caps,
    {
        (self.regions, self.caps)
    }
}

} // verus!
