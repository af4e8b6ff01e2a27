//! A PCI bus: the functions on it, and where their BARs are placed.
use crate::addrspace::{
    can_place, law_place_and_remove, lemma_without_start, without_start, AddrRange, AddrSpace,
    Owner,
};
use crate::hw::pci::bar::BarDefine;
use crate::hw::pci::{BarN, BusLocation, LintrCfg};
use vstd::prelude::*;

verus! {

/// Number of devices on a bus.
pub const SLOTS_PER_BUS: usize = 32;

/// Number of functions of a device.
pub const FUNCS_PER_SLOT: usize = 8;

/// What can be attached to a bus.
#[derive(Clone, Copy, Debug, PartialEq, Eq, Structural)]
pub enum Endpoint {
    /// A bridge, by its number in the topology.
    Bridge(usize),
    /// A device, by a number that its owner chose.
    Device(u32),
}

/// The address spaces that BARs are placed in.
#[derive(Debug)]
pub struct IoSpaces {
    /// Ports.
    pub pio: AddrSpace,
    /// Memory-mapped registers.
    pub mmio: AddrSpace,
}

impl IoSpaces {
    /// The invariant of the spaces: there are 65536 ports.
    pub open spec fn wf(&self) -> bool {
        self.pio.wf() && self.mmio.wf() && self.pio.last == 0xffff && self.mmio.last == u64::MAX
    }

    /// The runs in the space that a BAR of this kind is placed in.
    pub open spec fn ranges_for(&self, def: BarDefine) -> Seq<AddrRange> {
        if def.spec_is_pio() {
            self.pio.ranges@
        } else {
            self.mmio.ranges@
        }
    }

    /// Empty spaces.
    pub fn new() -> (r: IoSpaces)
        ensures
            r.wf(),
            r.pio.ranges@ == Seq::<AddrRange>::empty(),
            r.mmio.ranges@ == Seq::<AddrRange>::empty(),
    {
        IoSpaces { pio: AddrSpace::new(0xffff), mmio: AddrSpace::new(u64::MAX) }
    }
}

/// A BAR that a device has enabled.
#[derive(Clone, Copy, Debug, PartialEq, Eq, Structural)]
pub struct BarState {
    pub def: BarDefine,
    pub value: u64,
    /// Whether it could be placed. It cannot if it conflicts with something
    /// else.
    pub live: bool,
}

/// The run of addresses of a BAR.
pub open spec fn bar_range(def: BarDefine, value: u64, owner: Owner) -> AddrRange {
    AddrRange {
        start: if def.spec_is_pio() {
            (value % 0x1_0000) as u64
        } else {
            value
        },
        len: def.spec_size(),
        owner,
    }
}

/// What a bus holds.
#[verifier::ext_equal]
pub struct BusView {
    pub index: usize,
    pub funcs: Seq<Option<Endpoint>>,
    pub bars: Seq<Option<BarState>>,
}

/// A PCI bus.
#[derive(Debug)]
pub struct Bus {
    /// Tells the bus from others.
    pub index: usize,
    /// The functions, device by device.
    pub funcs: Vec<Option<Endpoint>>,
    /// The enabled BARs, function by function.
    pub bars: Vec<Option<BarState>>,
}

impl View for Bus {
    type V = BusView;

    open spec fn view(&self) -> BusView {
        BusView { index: self.index, funcs: self.funcs@, bars: self.bars@ }
    }
}

/// The number of a function on its bus.
pub open spec fn func_no(loc: BusLocation) -> int {
    loc.dev * 8 + loc.func
}

/// The number of a BAR on its bus.
pub open spec fn bar_no(loc: BusLocation, n: BarN) -> int {
    func_no(loc) * 6 + n.spec_idx()
}

/// How many of the first `n` functions of a device there are.
pub open spec fn func_count(funcs: Seq<Option<Endpoint>>, dev: int, n: int) -> int
    decreases n,
{
    if n <= 0 {
        0
    } else {
        func_count(funcs, dev, n - 1) + if funcs[dev * 8 + n - 1] is Some {
            1int
        } else {
            0
        }
    }
}

impl BusView {
    /// The invariant of a bus.
    pub open spec fn wf(self) -> bool {
        self.funcs.len() == 256 && self.bars.len() == 1536
    }

    /// The function at a place.
    pub open spec fn at(self, loc: BusLocation) -> Option<Endpoint> {
        self.funcs[func_no(loc)]
    }

    /// Whether a device has several functions.
    pub open spec fn multifunc(self, dev: u8) -> bool {
        func_count(self.funcs, dev as int, 8) > 1
    }

    /// The bus with a function at a place.
    pub open spec fn with(self, loc: BusLocation, ep: Endpoint) -> BusView {
        BusView { funcs: self.funcs.update(func_no(loc), Some(ep)), ..self }
    }

    /// Whether enabled BAR `i` is placed, if it could be.
    pub open spec fn bar_placed(self, spaces: IoSpaces, i: int) -> bool {
        self.bars[i] matches Some(st) ==> {
            &&& st.def.spec_size() > 0
            &&& st.live ==> spaces.ranges_for(st.def).contains(
                bar_range(st.def, st.value, Owner { bus: self.index, reg: i as usize }),
            )
        }
    }

    /// Whether all enabled BARs are placed, as far as they could be.
    pub open spec fn placed(self, spaces: IoSpaces) -> bool {
        forall|i: int| 0 <= i < self.bars.len() ==> #[trigger] self.bar_placed(spaces, i)
    }
}

/// A second function of a device makes it a multi-function device; a function of
/// another device does not.
pub proof fn law_multifunc(v: BusView, loc: BusLocation, ep: Endpoint, other: u8)
    requires
        v.wf(),
        loc.wf(),
        v.at(loc) is None,
        other < 32,
    ensures
        v.with(loc, ep).multifunc(loc.dev) <==> func_count(v.funcs, loc.dev as int, 8) >= 1,
        other != loc.dev ==> v.with(loc, ep).multifunc(other) == v.multifunc(other),
{
    let w = v.with(loc, ep);
    lemma_func_count(v.funcs, w.funcs, loc, loc.dev as int, 8);
    if other != loc.dev {
        lemma_func_count(v.funcs, w.funcs, loc, other as int, 8);
    }
}

proof fn lemma_func_count(
    a: Seq<Option<Endpoint>>,
    b: Seq<Option<Endpoint>>,
    loc: BusLocation,
    dev: int,
    n: int,
)
    requires
        a.len() == 256,
        b.len() == 256,
        loc.wf(),
        0 <= dev < 32,
        0 <= n <= 8,
        a[func_no(loc)] is None,
        b[func_no(loc)] is Some,
        forall|k: int| 0 <= k < 256 && k != func_no(loc) ==> #[trigger] a[k] == b[k],
    ensures
        func_count(b, dev, n) == func_count(a, dev, n) + if dev == loc.dev && loc.func < n {
            1int
        } else {
            0
        },
    decreases n,
{
    if n > 0 {
        lemma_func_count(a, b, loc, dev, n - 1);
        let k = dev * 8 + n - 1;
        if k != func_no(loc) {
            assert(a[k] == b[k]);
        }
    }
}

/// Every device is on a place of its own.
pub proof fn law_places_differ(a: BusLocation, b: BusLocation, m: BarN, n: BarN)
    requires
        a.wf(),
        b.wf(),
    ensures
        func_no(a) == func_no(b) <==> a == b,
        bar_no(a, m) == bar_no(b, n) <==> a == b && m == n,
        0 <= func_no(a) < 256,
        0 <= bar_no(a, m) < 1536,
{
}

/// A device's side of being on a bus.
#[derive(Clone, Copy, Debug, PartialEq, Eq, Structural)]
pub struct Attachment {
    pub location: BusLocation,
    pub lintr_cfg: Option<LintrCfg>,
}

impl Bus {
    /// The invariant of a bus.
    pub open spec fn wf(&self) -> bool {
        self@.wf()
    }

    /// An empty bus.
    pub fn new(index: usize) -> (r: Bus)
        ensures
            r.wf(),
            r.index == index,
            forall|i: int| 0 <= i < 256 ==> #[trigger] r@.funcs[i] is None,
            forall|i: int| 0 <= i < 1536 ==> #[trigger] r@.bars[i] is None,
    {
        let mut funcs: Vec<Option<Endpoint>> = Vec::new();
        while funcs.len() < SLOTS_PER_BUS * FUNCS_PER_SLOT
            invariant
                funcs@.len() <= 256,
                forall|i: int| 0 <= i < funcs@.len() ==> #[trigger] funcs@[i] is None,
            decreases 256 - funcs@.len(),
        {
            funcs.push(None);
        }
        let mut bars: Vec<Option<BarState>> = Vec::new();
        while bars.len() < 1536
            invariant
                bars@.len() <= 1536,
                forall|i: int| 0 <= i < bars@.len() ==> #[trigger] bars@[i] is None,
            decreases 1536 - bars@.len(),
        {
            bars.push(None);
        }
        Bus { index, funcs, bars }
    }

    /// Attaches a function at a free place.
    pub fn attach(&mut self, location: BusLocation, dev: Endpoint, lintr_cfg: Option<LintrCfg>) -> (r:
        Attachment)
        requires
            old(self).wf(),
            location.wf(),
            old(self)@.at(location) is None,
        ensures
            final(self).wf(),
            final(self)@ == old(self)@.with(location, dev),
            r == (Attachment { location, lintr_cfg }),
    {
        let idx: usize = location.dev as usize * FUNCS_PER_SLOT + location.func as usize;
        self.funcs[idx] = Some(dev);
        Attachment { location, lintr_cfg }
    }

    /// The function at a place, if there is one.
    pub fn device_at(&self, location: BusLocation) -> (r: Option<Endpoint>)
        requires
            self.wf(),
            location.wf(),
        ensures
            r == self@.at(location),
    {
        self.funcs[location.dev as usize * FUNCS_PER_SLOT + location.func as usize]
    }

    /// Whether a device has several functions.
    pub fn is_multifunc(&self, dev: u8) -> (r: bool)
        requires
            self.wf(),
            dev < 32,
        ensures
            r == self@.multifunc(dev),
    {
        let mut count: usize = 0;
        let mut i: usize = 0;
        while i < FUNCS_PER_SLOT
            invariant
                i <= 8,
                self.wf(),
                dev < 32,
                count <= i,
                count == func_count(self@.funcs, dev as int, i as int),
            decreases 8 - i,
        {
            if self.funcs[dev as usize * FUNCS_PER_SLOT + i].is_some() {
                count += 1;
            }
            i += 1;
        }
        count > 1
    }

    /// Enables a BAR of a function, and places it unless that conflicts with
    /// something else.
    pub fn bar_register(
        &mut self,
        spaces: &mut IoSpaces,
        location: BusLocation,
        n: BarN,
        def: BarDefine,
        value: u64,
    )
        requires
            old(self).wf(),
            old(spaces).wf(),
            old(self)@.placed(*old(spaces)),
            location.wf(),
            def.spec_size() > 0,
            old(self)@.at(location) is Some,
            old(self)@.bars[bar_no(location, n)] is None,
        ensures
            final(self).wf(),
            final(spaces).wf(),
            final(self)@.placed(*final(spaces)),
            bar_registered(old(self)@, *old(spaces), location, n, def, value, final(self)@, *final(spaces)),
    {
        let ghost v0 = self@;
        let ghost s0 = *spaces;
        let idx: usize = (location.dev as usize * FUNCS_PER_SLOT + location.func as usize) * 6
            + n.idx();
        let owner: Owner = Owner { bus: self.index, reg: idx };
        let live: bool = match def {
            BarDefine::Pio(sz) => spaces.pio.register(value % 0x1_0000, sz as u64, owner),
            BarDefine::Mmio(sz) => spaces.mmio.register(value, sz as u64, owner),
            BarDefine::Mmio64(sz) => spaces.mmio.register(value, sz, owner),
        };
        self.bars[idx] = Some(BarState { def, value, live });
        proof {
            assert forall|i: int| 0 <= i < self@.bars.len() implies #[trigger] self@.bar_placed(
                *spaces,
                i,
            ) by {
                if i == idx {
                    if live {
                        let rs = s0.ranges_for(def);
                        let r = bar_range(def, value, owner);
                        assert(rs.push(r)[rs.len() as int] == r);
                        assert(spaces.ranges_for(def).contains(r));
                    }
                } else {
                    assert(v0.bar_placed(s0, i));
                    if let Some(st) = v0.bars[i] {
                        if st.live {
                            let r = bar_range(st.def, st.value, Owner { bus: v0.index, reg: i as usize });
                            let rs = s0.ranges_for(st.def);
                            let k = choose|k: int| 0 <= k < rs.len() && rs[k] == r;
                            assert(spaces.ranges_for(st.def)[k] == r);
                        }
                    }
                }
            }
        }
    }

    /// Disables a BAR of a function, if it is enabled.
    pub fn bar_unregister(&mut self, spaces: &mut IoSpaces, location: BusLocation, n: BarN)
        requires
            old(self).wf(),
            old(spaces).wf(),
            old(self)@.placed(*old(spaces)),
            location.wf(),
        ensures
            final(self).wf(),
            final(spaces).wf(),
            final(self)@.placed(*final(spaces)),
            bar_unregistered(old(self)@, *old(spaces), location, n, final(self)@, *final(spaces)),
    {
        let ghost v0 = self@;
        let ghost s0 = *spaces;
        let idx: usize = (location.dev as usize * FUNCS_PER_SLOT + location.func as usize) * 6
            + n.idx();
        assert(v0.bar_placed(s0, idx as int));
        match self.bars[idx] {
            None => {
                assert(self@.bars =~= v0.bars.update(idx as int, None));
            },
            Some(st) => {
                self.bars[idx] = None;
                if st.live {
                    match st.def {
                        BarDefine::Pio(_) => {
                            let _found: bool = spaces.pio.unregister(st.value % 0x1_0000);
                        },
                        _ => {
                            let _found: bool = spaces.mmio.unregister(st.value);
                        },
                    }
                }
                proof {
                    lemma_unregister_keeps(v0, s0, *spaces, idx as int, v0.index);
                    assert forall|i: int|
                        0 <= i < self@.bars.len() implies #[trigger] self@.bar_placed(*spaces, i) by {
                        if i != idx {
                            assert(v0.bar_placed(s0, i));
                        }
                    }
                }
            },
        }
    }
}

/// A bus, and all that is placed in the address spaces.
#[verifier::ext_equal]
pub struct Placing {
    pub bus: BusView,
    pub pio: Seq<AddrRange>,
    pub mmio: Seq<AddrRange>,
}

/// A bus, and all that is placed in the address spaces.
pub open spec fn placing(bus: BusView, spaces: IoSpaces) -> Placing {
    Placing { bus, pio: spaces.pio.ranges@, mmio: spaces.mmio.ranges@ }
}

impl Placing {
    /// What enabling a BAR of the function at `loc` leads to: it is placed
    /// unless that conflicts with something else.
    pub open spec fn registered(self, loc: BusLocation, n: BarN, def: BarDefine, value: u64) -> Placing {
        let i = bar_no(loc, n);
        let r = bar_range(def, value, Owner { bus: self.bus.index, reg: i as usize });
        if def.spec_is_pio() {
            let live = can_place(0xffff, self.pio, r);
            Placing {
                bus: BusView {
                    bars: self.bus.bars.update(i, Some(BarState { def, value, live })),
                    ..self.bus
                },
                pio: if live {
                    self.pio.push(r)
                } else {
                    self.pio
                },
                ..self
            }
        } else {
            let live = can_place(u64::MAX, self.mmio, r);
            Placing {
                bus: BusView {
                    bars: self.bus.bars.update(i, Some(BarState { def, value, live })),
                    ..self.bus
                },
                mmio: if live {
                    self.mmio.push(r)
                } else {
                    self.mmio
                },
                ..self
            }
        }
    }

    /// What disabling a BAR of the function at `loc` leads to: if it was placed,
    /// its place is free.
    pub open spec fn unregistered(self, loc: BusLocation, n: BarN) -> Placing {
        let i = bar_no(loc, n);
        let bus = BusView { bars: self.bus.bars.update(i, None), ..self.bus };
        match self.bus.bars[i] {
            Some(st) if st.live => {
                let start = bar_range(
                    st.def,
                    st.value,
                    Owner { bus: self.bus.index, reg: i as usize },
                ).start;
                if st.def.spec_is_pio() {
                    Placing { bus, pio: without_start(self.pio, start), ..self }
                } else {
                    Placing { bus, mmio: without_start(self.mmio, start), ..self }
                }
            },
            _ => Placing { bus, ..self },
        }
    }
}

/// What enabling a BAR leads to.
pub open spec fn bar_registered(
    v: BusView,
    s: IoSpaces,
    location: BusLocation,
    n: BarN,
    def: BarDefine,
    value: u64,
    w: BusView,
    t: IoSpaces,
) -> bool {
    placing(w, t) == placing(v, s).registered(location, n, def, value)
}

/// What disabling a BAR leads to.
pub open spec fn bar_unregistered(
    v: BusView,
    s: IoSpaces,
    location: BusLocation,
    n: BarN,
    w: BusView,
    t: IoSpaces,
) -> bool {
    placing(w, t) == placing(v, s).unregistered(location, n)
}

/// Taking out the run of one BAR leaves those of all others, also on other
/// buses.
proof fn lemma_unregister_keeps(v: BusView, s: IoSpaces, t: IoSpaces, i: int, other: usize)
    requires
        v.wf(),
        s.wf(),
        0 <= i < v.bars.len(),
        v.bar_placed(s, i),
        v.bars[i] matches Some(st) && {
            let start = bar_range(st.def, st.value, Owner { bus: v.index, reg: i as usize }).start;
            &&& t.pio.ranges@ == if st.live && st.def.spec_is_pio() {
                without_start(s.pio.ranges@, start)
            } else {
                s.pio.ranges@
            }
            &&& t.mmio.ranges@ == if st.live && !st.def.spec_is_pio() {
                without_start(s.mmio.ranges@, start)
            } else {
                s.mmio.ranges@
            }
        },
    ensures
        forall|def: BarDefine, value: u64, reg: usize|
            #![trigger bar_range(def, value, (Owner { bus: other, reg }))]
            {
                let r = bar_range(def, value, Owner { bus: other, reg });
                (other != v.index || reg != i) && s.ranges_for(def).contains(r)
                    ==> t.ranges_for(def).contains(r)
            },
{
    let st = v.bars[i]->0;
    let mine = bar_range(st.def, st.value, Owner { bus: v.index, reg: i as usize });
    lemma_without_start(s.pio.last, s.pio.ranges@, mine.start);
    lemma_without_start(s.mmio.last, s.mmio.ranges@, mine.start);
    assert forall|def: BarDefine, value: u64, reg: usize|
        #![trigger bar_range(def, value, (Owner { bus: other, reg }))]
        {
            let r = bar_range(def, value, Owner { bus: other, reg });
            (other != v.index || reg != i) && s.ranges_for(def).contains(r) ==> t.ranges_for(
                def,
            ).contains(r)
        } by {
        let r = bar_range(def, value, Owner { bus: other, reg });
        let rs = s.ranges_for(def);
        if (other != v.index || reg != i) && rs.contains(r) && st.live && def.spec_is_pio()
            == st.def.spec_is_pio() {
            assert(rs.contains(mine));
            let j = choose|j: int| 0 <= j < rs.len() && rs[j] == r;
            let k = choose|k: int| 0 <= k < rs.len() && rs[k] == mine;
            if r.start == mine.start {
                assert(!rs[j].overlaps(rs[k]));
            }
        }
    }
}

/// Enabling and disabling BARs on one bus leaves those of another bus placed.
pub proof fn law_buses_apart(
    v: BusView,
    w: BusView,
    other: BusView,
    s: IoSpaces,
    t: IoSpaces,
    location: BusLocation,
    n: BarN,
    def: BarDefine,
    value: u64,
)
    requires
        v.wf(),
        s.wf(),
        v.placed(s),
        other.placed(s),
        other.index != v.index,
        location.wf(),
        bar_registered(v, s, location, n, def, value, w, t) || bar_unregistered(
            v,
            s,
            location,
            n,
            w,
            t,
        ),
    ensures
        other.placed(t),
{
    let x = bar_no(location, n);
    assert(v.bar_placed(s, x));
    if bar_unregistered(v, s, location, n, w, t) && v.bars[x] is Some {
        lemma_unregister_keeps(v, s, t, x, other.index);
    }
    assert forall|i: int| 0 <= i < other.bars.len() implies #[trigger] other.bar_placed(t, i) by {
        assert(other.bar_placed(s, i));
        if let Some(st) = other.bars[i] {
            if st.live {
                let r = bar_range(st.def, st.value, Owner { bus: other.index, reg: i as usize });
                let rs = s.ranges_for(st.def);
                let k = choose|k: int| 0 <= k < rs.len() && rs[k] == r;
                if bar_registered(v, s, location, n, def, value, w, t) {
                    assert(t.ranges_for(st.def)[k] == r);
                }
            }
        }
    }
}

/// Disabling a BAR that was just enabled leaves the bus and the address spaces
/// as they were.
pub proof fn law_bar_enable_disable(
    v: BusView,
    w: BusView,
    x: BusView,
    s: IoSpaces,
    t: IoSpaces,
    u: IoSpaces,
    location: BusLocation,
    n: BarN,
    def: BarDefine,
    value: u64,
)
    requires
        v.wf(),
        location.wf(),
        v.bars[bar_no(location, n)] is None,
        bar_registered(v, s, location, n, def, value, w, t),
        bar_unregistered(w, t, location, n, x, u),
    ensures
        x == v,
        u.pio.ranges@ == s.pio.ranges@,
        u.mmio.ranges@ == s.mmio.ranges@,
{
    let i = bar_no(location, n);
    let r = bar_range(def, value, Owner { bus: v.index, reg: i as usize });
    let last: u64 = if def.spec_is_pio() {
        0xffff
    } else {
        u64::MAX
    };
    if can_place(last, s.ranges_for(def), r) {
        law_place_and_remove(last, s.ranges_for(def), r);
    }
    assert(x.bars =~= v.bars);
}

impl Attachment {
    /// Enables a BAR of the device.
    pub fn bar_register(
        &self,
        bus: &mut Bus,
        spaces: &mut IoSpaces,
        n: BarN,
        def: BarDefine,
        addr: u64,
    )
        requires
            old(bus).wf(),
            old(spaces).wf(),
            old(bus)@.placed(*old(spaces)),
            self.location.wf(),
            def.spec_size() > 0,
            old(bus)@.at(self.location) is Some,
            old(bus)@.bars[bar_no(self.location, n)] is None,
        ensures
            final(bus).wf(),
            final(spaces).wf(),
            final(bus)@.placed(*final(spaces)),
            bar_registered(
                old(bus)@,
                *old(spaces),
                self.location,
                n,
                def,
                addr,
                final(bus)@,
                *final(spaces),
            ),
    {
        bus.bar_register(spaces, self.location, n, def, addr);
    }

    /// Disables a BAR of the device.
    pub fn bar_unregister(&self, bus: &mut Bus, spaces: &mut IoSpaces, n: BarN)
        requires
            old(bus).wf(),
            old(spaces).wf(),
            old(bus)@.placed(*old(spaces)),
            self.location.wf(),
        ensures
            final(bus).wf(),
            final(spaces).wf(),
            final(bus)@.placed(*final(spaces)),
            bar_unregistered(
                old(bus)@,
                *old(spaces),
                self.location,
                n,
                final(bus)@,
                *final(spaces),
            ),
    {
        bus.bar_unregister(spaces, self.location, n);
    }

    /// The interrupt pin of the device, if it has one.
    pub fn lintr_cfg(&self) -> (r: Option<LintrCfg>)
        ensures
            r == self.lintr_cfg,
    {
        self.lintr_cfg
    }

    /// The place of the device.
    pub fn location(&self) -> (r: BusLocation)
        ensures
            r == self.location,
    {
        self.location
    }

    /// Whether the device has several functions.
    pub fn is_multifunc(&self, bus: &Bus) -> (r: bool)
        requires
            bus.wf(),
            self.location.wf(),
        ensures
            r == bus@.multifunc(self.location.dev),
    {
        bus.is_multifunc(self.location.dev)
    }
}

} // verus!
