//! Address spaces in which devices place their registers.
use vstd::prelude::*;

verus! {

/// Who has placed something in an address space.
#[derive(Clone, Copy, Debug, PartialEq, Eq, Structural)]
pub struct Owner {
    /// The bus that the owner is on.
    pub bus: usize,
    /// The register of the owner, by its number on that bus.
    pub reg: usize,
}

/// A run of addresses.
#[derive(Clone, Copy, Debug, PartialEq, Eq, Structural)]
pub struct AddrRange {
    pub start: u64,
    pub len: u64,
    pub owner: Owner,
}

impl AddrRange {
    /// Whether an address is in the run.
    pub open spec fn holds(self, addr: u64) -> bool {
        self.start <= addr < self.start + self.len
    }

    /// Whether two runs share an address.
    pub open spec fn overlaps(self, other: AddrRange) -> bool {
        self.start < other.start + other.len && other.start < self.start + self.len
    }
}

/// An address space: what is placed in it does not overlap.
#[derive(Debug)]
pub struct AddrSpace {
    /// The last address.
    pub last: u64,
    pub ranges: Vec<AddrRange>,
}

/// Whether a run can be added to those that are there.
pub open spec fn can_place(last: u64, ranges: Seq<AddrRange>, r: AddrRange) -> bool {
    &&& 0 < r.len
    &&& r.start + r.len - 1 <= last
    &&& forall|k: int| 0 <= k < ranges.len() ==> !r.overlaps(#[trigger] ranges[k])
}

/// The runs without the one at `start`, if there is one.
pub open spec fn without_start(ranges: Seq<AddrRange>, start: u64) -> Seq<AddrRange>
    decreases ranges.len(),
{
    if ranges.len() == 0 {
        ranges
    } else if ranges.last().start == start {
        ranges.drop_last()
    } else {
        without_start(ranges.drop_last(), start).push(ranges.last())
    }
}

/// The invariant of an address space.
pub open spec fn ranges_ok(last: u64, ranges: Seq<AddrRange>) -> bool {
    &&& forall|k: int|
        0 <= k < ranges.len() ==> 0 < (#[trigger] ranges[k]).len && ranges[k].start + ranges[k].len
            - 1 <= last
    &&& forall|j: int, k: int|
        0 <= j < ranges.len() && 0 <= k < ranges.len() && j != k
            ==> !(#[trigger] ranges[j]).overlaps(#[trigger] ranges[k])
}

/// What is left after a run was taken out.
pub proof fn lemma_without_start(last: u64, ranges: Seq<AddrRange>, start: u64)
    requires
        ranges_ok(last, ranges),
    ensures
        ranges_ok(last, without_start(ranges, start)),
        forall|r: AddrRange| #[trigger]
            without_start(ranges, start).contains(r) <==> ranges.contains(r) && r.start != start,
    decreases ranges.len(),
{
    let out = without_start(ranges, start);
    if ranges.len() > 0 {
        let init = ranges.drop_last();
        assert(ranges_ok(last, init));
        lemma_without_start(last, init, start);
        let inner = without_start(init, start);
        let l = ranges.last();
        let n = ranges.len() - 1;
        assert(ranges[n] == l);
        if l.start == start {
            assert forall|r: AddrRange| #[trigger] out.contains(r) <==> ranges.contains(r)
                && r.start != start by {
                if out.contains(r) {
                    let k = choose|k: int| 0 <= k < init.len() && init[k] == r;
                    assert(ranges[k] == r);
                    assert(!ranges[k].overlaps(ranges[n]));
                }
                if ranges.contains(r) && r.start != start {
                    let k = choose|k: int| 0 <= k < ranges.len() && ranges[k] == r;
                    assert(init[k] == r);
                }
            }
        } else {
            assert forall|k: int| 0 <= k < inner.len() implies #[trigger] ranges.contains(inner[k])
                && !inner[k].overlaps(l) by {
                assert(inner.contains(inner[k]));
                let j = choose|j: int| 0 <= j < init.len() && init[j] == inner[k];
                assert(ranges[j] == inner[k]);
                assert(!ranges[j].overlaps(ranges[n]));
            }
            assert forall|j: int, k: int|
                0 <= j < out.len() && 0 <= k < out.len() && j != k implies !(
            #[trigger] out[j]).overlaps(#[trigger] out[k]) by {
                if j < inner.len() && k < inner.len() {
                    assert(!inner[j].overlaps(inner[k]));
                } else if j < inner.len() {
                    assert(ranges.contains(inner[j]));
                } else {
                    assert(ranges.contains(inner[k]));
                }
            }
            assert forall|r: AddrRange| #[trigger] out.contains(r) <==> ranges.contains(r)
                && r.start != start by {
                if out.contains(r) {
                    let k = choose|k: int| 0 <= k < out.len() && out[k] == r;
                    if k < inner.len() {
                        assert(inner.contains(r));
                        let j = choose|j: int| 0 <= j < init.len() && init[j] == r;
                        assert(ranges[j] == r);
                    } else {
                        assert(ranges[n] == r);
                    }
                }
                if ranges.contains(r) && r.start != start {
                    let k = choose|k: int| 0 <= k < ranges.len() && ranges[k] == r;
                    if k < n {
                        assert(init[k] == r);
                        assert(inner.contains(r));
                        let j = choose|j: int| 0 <= j < inner.len() && inner[j] == r;
                        assert(out[j] == r);
                    } else {
                        assert(out[inner.len() as int] == r);
                    }
                }
            }
            assert forall|k: int| 0 <= k < out.len() implies 0 < (#[trigger] out[k]).len
                && out[k].start + out[k].len - 1 <= last by {
                if k < inner.len() {
                    assert(inner[k].len > 0);
                }
            }
        }
    }
}

/// Taking out what was just placed leaves the space as it was.
pub proof fn law_place_and_remove(last: u64, ranges: Seq<AddrRange>, r: AddrRange)
    requires
        can_place(last, ranges, r),
    ensures
        without_start(ranges.push(r), r.start) == ranges,
{
    assert(ranges.push(r).drop_last() =~= ranges);
}

impl AddrSpace {
    /// The invariant of an address space.
    pub open spec fn wf(&self) -> bool {
        ranges_ok(self.last, self.ranges@)
    }

    /// An empty space of the addresses up to `last`.
    pub fn new(last: u64) -> (r: AddrSpace)
        ensures
            r.wf(),
            r.last == last,
            r.ranges@ == Seq::<AddrRange>::empty(),
    {
        AddrSpace { last, ranges: Vec::new() }
    }

    /// Places a run of addresses, unless it overlaps what is there, or does not
    /// fit; tells whether it was placed.
    pub fn register(&mut self, start: u64, len: u64, owner: Owner) -> (r: bool)
        requires
            old(self).wf(),
        ensures
            final(self).wf(),
            final(self).last == old(self).last,
            r == can_place(
                old(self).last,
                old(self).ranges@,
                (AddrRange { start, len, owner }),
            ),
            final(self).ranges@ == if r {
                old(self).ranges@.push(AddrRange { start, len, owner })
            } else {
                old(self).ranges@
            },
    {
        if len == 0 || start > self.last || len - 1 > self.last - start {
            return false;
        }
        let new: AddrRange = AddrRange { start, len, owner };
        let end: u64 = start + (len - 1);
        let mut i: usize = 0;
        while i < self.ranges.len()
            invariant
                i <= self.ranges@.len(),
                self.wf(),
                new == (AddrRange { start, len, owner }),
                0 < len,
                end == start + len - 1,
                forall|k: int| 0 <= k < i ==> !new.overlaps(#[trigger] self.ranges@[k]),
            decreases self.ranges@.len() - i,
        {
            let r: AddrRange = self.ranges[i];
            assert(self.ranges@[i as int].len > 0);
            if start <= r.start + (r.len - 1) && r.start <= end {
                assert(new.overlaps(self.ranges@[i as int]));
                return false;
            }
            i += 1;
        }
        self.ranges.push(new);
        true
    }

    /// Takes out the run that starts at `start`, if there is one; tells whether
    /// there was.
    pub fn unregister(&mut self, start: u64) -> (r: bool)
        requires
            old(self).wf(),
        ensures
            final(self).wf(),
            final(self).last == old(self).last,
            final(self).ranges@ == without_start(old(self).ranges@, start),
            r <==> exists|k: int|
                0 <= k < old(self).ranges@.len() && (#[trigger] old(self).ranges@[k]).start
                    == start,
    {
        let ghost s = self.ranges@;
        proof {
            lemma_without_start(self.last, s, start);
        }
        let mut i: usize = self.ranges.len();
        assert(s.take(s.len() as int) =~= s);
        while i > 0
            invariant
                i <= s.len(),
                self.ranges@ == s,
                self.last == old(self).last,
                s == old(self).ranges@,
                ranges_ok(self.last, without_start(s, start)),
                without_start(s, start) == without_start(s.take(i as int), start) + s.skip(i as int),
                forall|k: int| i <= k < s.len() ==> (#[trigger] s[k]).start != start,
            decreases i,
        {
            i -= 1;
            let ghost t = s.take(i + 1);
            assert(t.drop_last() =~= s.take(i as int));
            assert(t.last() == s[i as int]);
            if self.ranges[i].start == start {
                let _gone: AddrRange = self.ranges.remove(i);
                assert(self.ranges@ =~= s.take(i as int) + s.skip(i + 1));
                return true;
            }
            assert(without_start(s, start) =~= without_start(s.take(i as int), start) + s.skip(
                i as int,
            ));
        }
        assert(without_start(s, start) =~= s);
        false
    }

    /// What is placed at an address: its first address, and its owner.
    pub fn find(&self, addr: u64) -> (r: Option<AddrRange>)
        requires
            self.wf(),
        ensures
            match r {
                Some(x) => self.ranges@.contains(x) && x.holds(addr),
                None => forall|k: int|
                    0 <= k < self.ranges@.len() ==> !(#[trigger] self.ranges@[k]).holds(addr),
            },
    {
        let mut i: usize = 0;
        while i < self.ranges.len()
            invariant
                i <= self.ranges@.len(),
                self.wf(),
                forall|k: int| 0 <= k < i ==> !(#[trigger] self.ranges@[k]).holds(addr),
            decreases self.ranges@.len() - i,
        {
            let r: AddrRange = self.ranges[i];
            assert(self.ranges@[i as int].len > 0);
            if r.start <= addr && addr - r.start < r.len {
                return Some(r);
            }
            i += 1;
        }
        None
    }
}

/// At most one thing is placed at an address.
pub proof fn law_one_owner(last: u64, ranges: Seq<AddrRange>, a: AddrRange, b: AddrRange, addr: u64)
    requires
        ranges_ok(last, ranges),
        ranges.contains(a),
        ranges.contains(b),
        a.holds(addr),
        b.holds(addr),
    ensures
        a == b,
{
    let j = choose|j: int| 0 <= j < ranges.len() && ranges[j] == a;
    let k = choose|k: int| 0 <= k < ranges.len() && ranges[k] == b;
    if j != k {
        assert(!ranges[j].overlaps(ranges[k]));
    }
}

} // verus!
