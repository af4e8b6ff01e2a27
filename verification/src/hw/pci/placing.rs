//! How the events of a device are applied to the bus that it is on, and what
//! that keeps: the BARs that the bus has placed are those that are enabled.
use crate::addrspace::Owner;
use crate::common::{overlay, val16, val32, zeros};
use crate::hw::pci::bar::{
    bar_home, bar_written, bars_imported, bars_wf, entry_ok, BarDefine, Entry,
};
use crate::hw::pci::bits::CAP_ID_MSIX;
use crate::hw::pci::bus::{
    bar_no, bar_range, func_no, law_places_differ, placing, Attachment, BarState, Bus, BusView,
    IoSpaces, Placing,
};
use crate::hw::pci::cfgspace::CfgReg;
use crate::hw::pci::device::{
    bar_reg_written, cmd_bar_event, cmd_events, cmd_written, dev_cfg_rd, dev_cfg_wr, dev_imported,
    dev_reset, import_events, msix_model, reset_events, std_rd, std_wr, CfgLayout, DevModel,
    DevView, DeviceState, PciStateV1, RegCmd, StdCfgLayout, StdCfgReg,
};
use crate::hw::pci::msix::{
    func_events, msg_ctrl_write, msix_bar_wr, MsixBarLayout, MsixBarReg, MsixCapLayout, MsixCfg,
    MsixEntry, MsixModel,
};
use crate::hw::pci::{BarN, BusLocation, DevEvent};
use crate::regmap::{part_write, space_write, span_part, RegSpace};
use vstd::prelude::*;

verus! {

impl Placing {
    /// What an event of the device at `loc` leads to. Interrupts are no matter
    /// of the bus.
    pub open spec fn applied(self, loc: BusLocation, e: DevEvent) -> Placing {
        match e {
            DevEvent::BarRegister(n, def, value) => self.registered(loc, n, def, value),
            DevEvent::BarUnregister(n) => self.unregistered(loc, n),
            _ => self,
        }
    }

    /// What events of the device at `loc` lead to, one after the other.
    pub open spec fn all_applied(self, loc: BusLocation, events: Seq<DevEvent>) -> Placing
        decreases events.len(),
    {
        if events.len() == 0 {
            self
        } else {
            self.all_applied(loc, events.drop_last()).applied(loc, events.last())
        }
    }

    /// Whether an event of the device at `loc` can occur: a BAR is enabled only
    /// if it is not.
    pub open spec fn takes(self, loc: BusLocation, e: DevEvent) -> bool {
        e matches DevEvent::BarRegister(n, def, _) ==> {
            &&& def.spec_size() > 0
            &&& self.bus.bars[bar_no(loc, n)] is None
        }
    }

    /// Whether events of the device at `loc` can occur one after the other.
    pub open spec fn takes_all(self, loc: BusLocation, events: Seq<DevEvent>) -> bool
        decreases events.len(),
    {
        if events.len() == 0 {
            true
        } else {
            &&& self.takes_all(loc, events.drop_last())
            &&& self.all_applied(loc, events.drop_last()).takes(loc, events.last())
        }
    }
}

/// Events that follow others are applied to what these led to.
proof fn lemma_applied_concat(p: Placing, loc: BusLocation, a: Seq<DevEvent>, b: Seq<DevEvent>)
    ensures
        p.all_applied(loc, a + b) == p.all_applied(loc, a).all_applied(loc, b),
        p.takes_all(loc, a + b) <==> p.takes_all(loc, a) && p.all_applied(loc, a).takes_all(loc, b),
    decreases b.len(),
{
    if b.len() == 0 {
        assert(a + b =~= a);
    } else {
        lemma_applied_concat(p, loc, a, b.drop_last());
        assert((a + b).drop_last() =~= a + b.drop_last());
        assert((a + b).last() == b.last());
    }
}

/// One event.
proof fn lemma_applied_one(p: Placing, loc: BusLocation, e: DevEvent)
    ensures
        p.all_applied(loc, seq![e]) == p.applied(loc, e),
        p.takes_all(loc, seq![e]) == p.takes(loc, e),
{
    assert(seq![e].drop_last() =~= Seq::empty());
    assert(p.all_applied(loc, Seq::empty()) == p);
    assert(p.takes_all(loc, Seq::empty()));
}

/// Events keep the bus one, and what is attached to it.
proof fn lemma_applied_bus(p: Placing, loc: BusLocation, events: Seq<DevEvent>)
    requires
        p.bus.wf(),
        loc.wf(),
    ensures
        p.all_applied(loc, events).bus.wf(),
        p.all_applied(loc, events).bus.index == p.bus.index,
        p.all_applied(loc, events).bus.funcs == p.bus.funcs,
    decreases events.len(),
{
    if events.len() > 0 {
        lemma_applied_bus(p, loc, events.drop_last());
    }
}

/// The events of a device leave the BARs of every other one on the bus alone.
pub proof fn law_other_bars_kept(
    p: Placing,
    loc: BusLocation,
    events: Seq<DevEvent>,
    other: BusLocation,
    n: BarN,
)
    requires
        p.bus.wf(),
        loc.wf(),
        other.wf(),
        other != loc,
    ensures
        p.all_applied(loc, events).bus.bars[bar_no(other, n)] == p.bus.bars[bar_no(other, n)],
    decreases events.len(),
{
    if events.len() > 0 {
        law_other_bars_kept(p, loc, events.drop_last(), other, n);
        lemma_applied_bus(p, loc, events.drop_last());
        match events.last() {
            DevEvent::BarRegister(m, _, _) => law_places_differ(loc, other, m, n),
            DevEvent::BarUnregister(m) => law_places_differ(loc, other, m, n),
            _ => {},
        }
    }
}

impl Bus {
    /// What is known of a BAR of a function, if it is enabled.
    pub fn bar_at(&self, location: BusLocation, n: BarN) -> (r: Option<BarState>)
        requires
            self.wf(),
            location.wf(),
        ensures
            r == self@.bars[bar_no(location, n)],
    {
        self.bars[(location.dev as usize * 8 + location.func as usize) * 6 + n.idx()]
    }
}

impl Attachment {
    /// Does on the bus what the events of the device ask for, one after the
    /// other.
    pub fn apply(&self, bus: &mut Bus, spaces: &mut IoSpaces, events: &Vec<DevEvent>)
        requires
            old(bus).wf(),
            old(spaces).wf(),
            old(bus)@.placed(*old(spaces)),
            self.location.wf(),
            old(bus)@.at(self.location) is Some,
            placing(old(bus)@, *old(spaces)).takes_all(self.location, events@),
        ensures
            final(bus).wf(),
            final(spaces).wf(),
            final(bus)@.placed(*final(spaces)),
            placing(final(bus)@, *final(spaces)) == placing(old(bus)@, *old(spaces)).all_applied(
                self.location,
                events@,
            ),
    {
        let ghost p0 = placing(bus@, *spaces);
        let ghost loc = self.location;
        assert(events@.take(0) =~= Seq::empty());
        assert(events@.take(events@.len() as int) =~= events@);
        let mut i: usize = 0;
        while i < events.len()
            invariant
                i <= events@.len(),
                bus.wf(),
                spaces.wf(),
                bus@.placed(*spaces),
                self.location.wf(),
                loc == self.location,
                bus@.at(loc) is Some,
                p0.takes_all(loc, events@),
                placing(bus@, *spaces) == p0.all_applied(loc, events@.take(i as int)),
            decreases events@.len() - i,
        {
            proof {
                let done = events@.take(i + 1);
                assert(done.drop_last() =~= events@.take(i as int));
                lemma_applied_concat(p0, loc, done, events@.skip(i + 1));
                assert(done + events@.skip(i + 1) =~= events@);
            }
            match events[i] {
                DevEvent::BarRegister(n, def, value) => {
                    self.bar_register(bus, spaces, n, def, value);
                },
                DevEvent::BarUnregister(n) => {
                    self.bar_unregister(bus, spaces, n);
                },
                _ => {},
            }
            i += 1;
        }
    }
}

// ---------------------------------------------------------------------------
// The enabled BARs are those that the bus has placed
// ---------------------------------------------------------------------------

/// What the bus knows of BAR `i` of the function at `loc`, if it is enabled.
pub open spec fn bar_known(bus: BusView, loc: BusLocation, i: int) -> Option<(BarDefine, u64)> {
    match bus.bars[func_no(loc) * 6 + i] {
        Some(st) => Some((st.def, st.value)),
        None => None,
    }
}

/// What the bus is to know of a BAR of a device with this command register.
pub open spec fn bar_wanted(e: Entry, cmd: RegCmd) -> Option<(BarDefine, u64)> {
    match e.kind.spec_define() {
        Some(def) => if (if def.spec_is_pio() {
            cmd.io_en
        } else {
            cmd.mmio_en
        }) {
            Some((def, e.value))
        } else {
            None
        },
        None => None,
    }
}

/// Whether the BARs of the device at `loc` that are enabled, and no others, are
/// known to the bus, each at its address.
pub open spec fn bars_known(d: DevView, bus: BusView, loc: BusLocation) -> bool {
    forall|i: int|
        0 <= i < 6 ==> #[trigger] bar_known(bus, loc, i) == bar_wanted(d.bars[i], d.reg_command)
}

/// The events that came after those of `m`.
pub open spec fn new_events(m: DevModel, after: DevModel) -> Seq<DevEvent> {
    after.events.skip(m.events.len() as int)
}

/// Whether a change of a device from `m` to `after` keeps the bus informed:
/// events were added, the bus takes them, and what they lead to there is again
/// what the device has enabled.
pub open spec fn stays_known(m: DevModel, after: DevModel, p: Placing, loc: BusLocation) -> bool {
    &&& after.events == m.events + new_events(m, after)
    &&& p.takes_all(loc, new_events(m, after))
    &&& bars_known(after.dev, p.all_applied(loc, new_events(m, after)).bus, loc)
}

/// The BARs and the bus that a change of a device starts from.
pub open spec fn known_before(m: DevModel, p: Placing, loc: BusLocation) -> bool {
    &&& bars_wf(m.dev.bars)
    &&& p.bus.wf()
    &&& loc.wf()
    &&& bars_known(m.dev, p.bus, loc)
}

/// What one event changes about what the bus knows.
proof fn lemma_known_event(p: Placing, loc: BusLocation, e: DevEvent)
    requires
        p.bus.wf(),
        loc.wf(),
    ensures
        p.applied(loc, e).bus.wf(),
        forall|i: int|
            0 <= i < 6 ==> #[trigger] bar_known(p.applied(loc, e).bus, loc, i) == match e {
                DevEvent::BarRegister(n, def, value) if n.spec_idx() == i => Some((def, value)),
                DevEvent::BarUnregister(n) if n.spec_idx() == i => None,
                _ => bar_known(p.bus, loc, i),
            },
        forall|n: BarN|
            bar_known(p.bus, loc, #[trigger] n.spec_idx()) is None <==> p.bus.bars[bar_no(loc, n)]
                is None,
{
}

/// A change without events of BARs, or of enabled BARs.
proof fn lemma_stays_quiet(m: DevModel, after: DevModel, added: Seq<DevEvent>, p: Placing, loc: BusLocation)
    requires
        known_before(m, p, loc),
        after.events == m.events + added,
        forall|k: int|
            0 <= k < added.len() ==> !(#[trigger] added[k] is BarRegister || added[k]
                is BarUnregister),
        forall|i: int|
            0 <= i < 6 ==> #[trigger] bar_wanted(after.dev.bars[i], after.dev.reg_command)
                == bar_wanted(m.dev.bars[i], m.dev.reg_command),
    ensures
        stays_known(m, after, p, loc),
        p.all_applied(loc, new_events(m, after)) == p,
{
    assert(new_events(m, after) =~= added);
    lemma_quiet(p, loc, added);
}

/// Events that are not of BARs change nothing on the bus.
proof fn lemma_quiet(p: Placing, loc: BusLocation, events: Seq<DevEvent>)
    requires
        forall|k: int|
            0 <= k < events.len() ==> !(#[trigger] events[k] is BarRegister || events[k]
                is BarUnregister),
    ensures
        p.all_applied(loc, events) == p,
        p.takes_all(loc, events),
    decreases events.len(),
{
    if events.len() > 0 {
        lemma_quiet(p, loc, events.drop_last());
        assert(events[events.len() - 1] == events.last());
    }
}

/// Two changes after each other.
proof fn lemma_stays_concat(a: DevModel, b: DevModel, c: DevModel, p: Placing, loc: BusLocation)
    requires
        stays_known(a, b, p, loc),
        stays_known(b, c, p.all_applied(loc, new_events(a, b)), loc),
    ensures
        stays_known(a, c, p, loc),
{
    let x = new_events(a, b);
    let y = new_events(b, c);
    assert(c.events =~= a.events + (x + y));
    assert(new_events(a, c) =~= x + y);
    lemma_applied_concat(p, loc, x, y);
}

/// What a change of the command register does for the first `n` BARs.
proof fn lemma_cmd_known(m: DevModel, after: RegCmd, n: int, p: Placing, loc: BusLocation)
    requires
        known_before(m, p, loc),
        0 <= n <= 6,
    ensures
        ({
            let evs = cmd_events(m.dev.bars, m.dev.reg_command, after, n);
            &&& p.takes_all(loc, evs)
            &&& forall|i: int|
                0 <= i < 6 ==> #[trigger] bar_known(p.all_applied(loc, evs).bus, loc, i)
                    == bar_wanted(
                    m.dev.bars[i],
                    if i < n {
                        after
                    } else {
                        m.dev.reg_command
                    },
                )
        }),
    decreases n,
{
    let before = m.dev.reg_command;
    let bars = m.dev.bars;
    if n > 0 {
        lemma_cmd_known(m, after, n - 1, p, loc);
        let evs = cmd_events(bars, before, after, n - 1);
        let one = cmd_bar_event(bars[n - 1], n - 1, before, after);
        let q = p.all_applied(loc, evs);
        lemma_applied_bus(p, loc, evs);
        lemma_applied_concat(p, loc, evs, one);
        assert(bar_known(q.bus, loc, n - 1) == bar_wanted(bars[n - 1], before));
        assert(entry_ok(bars, n - 1));
        if one.len() > 0 {
            let e = one[0];
            assert(one =~= seq![e]);
            lemma_applied_one(q, loc, e);
            lemma_known_event(q, loc, e);
            assert(BarN::spec_of(n - 1).spec_idx() == n - 1);
        } else {
            assert(q.all_applied(loc, one) == q);
        }
    }
}

/// A write to the command register places the BARs that it enables, and takes
/// away those that it disables.
pub proof fn law_command_keeps_known(m: DevModel, val: RegCmd, p: Placing, loc: BusLocation)
    requires
        known_before(m, p, loc),
    ensures
        stays_known(m, cmd_written(m, val), p, loc),
{
    let after = cmd_written(m, val);
    let evs = cmd_events(m.dev.bars, m.dev.reg_command, val, 6);
    lemma_cmd_known(m, val, 6, p, loc);
    if m.dev.reg_command.intx_dis != val.intx_dis {
        let last = after.events.last();
        assert(new_events(m, after) =~= evs + seq![last]);
        lemma_applied_concat(p, loc, evs, seq![last]);
        lemma_applied_one(p.all_applied(loc, evs), loc, last);
    } else {
        assert(new_events(m, after) =~= evs);
    }
    assert(after.events =~= m.events + new_events(m, after));
}

/// A write to a BAR moves it if it is enabled.
pub proof fn law_bar_write_keeps_known(m: DevModel, n: BarN, val: u32, p: Placing, loc: BusLocation)
    requires
        known_before(m, p, loc),
    ensures
        stays_known(m, bar_reg_written(m, n, val), p, loc),
        bars_wf(bar_reg_written(m, n, val).dev.bars),
{
    let after = bar_reg_written(m, n, val);
    let s = m.dev.bars;
    let i = n.spec_idx();
    let h = bar_home(s, i);
    let new = bar_written(s, i, val);
    assert(entry_ok(s, i));
    assert(entry_ok(s, h));
    assert forall|k: int| 0 <= k < 6 implies #[trigger] entry_ok(after.dev.bars, k) by {
        assert(entry_ok(s, k));
    }
    if after.events.len() != m.events.len() {
        let def = s[h].kind.spec_define()->0;
        let e1 = DevEvent::BarUnregister(BarN::spec_of(h));
        let e2 = DevEvent::BarRegister(BarN::spec_of(h), def, new);
        assert(BarN::spec_of(h).spec_idx() == h);
        assert(new_events(m, after) =~= seq![e1] + seq![e2]);
        let q = p.all_applied(loc, seq![e1]);
        lemma_applied_concat(p, loc, seq![e1], seq![e2]);
        lemma_applied_one(p, loc, e1);
        lemma_known_event(p, loc, e1);
        lemma_applied_one(q, loc, e2);
        lemma_known_event(q, loc, e2);
        assert(bar_known(q.bus, loc, BarN::spec_of(h).spec_idx()) is None);
    } else {
        assert(new_events(m, after) =~= Seq::empty());
        assert(p.all_applied(loc, Seq::empty()) == p);
        assert forall|k: int| 0 <= k < 6 implies #[trigger] bar_wanted(
            after.dev.bars[k],
            after.dev.reg_command,
        ) == bar_wanted(s[k], m.dev.reg_command) by {}
        lemma_stays_quiet(m, after, Seq::empty(), p, loc);
    }
    assert(after.events =~= m.events + new_events(m, after));
}

/// Whether events were added that are not of BARs.
pub open spec fn quiet_since(before: Seq<DevEvent>, after: Seq<DevEvent>) -> bool {
    &&& before.len() <= after.len()
    &&& after == before + after.skip(before.len() as int)
    &&& forall|k: int|
        before.len() <= k < after.len() ==> !(#[trigger] after[k] is BarRegister || after[k]
            is BarUnregister)
}

proof fn lemma_quiet_concat(a: Seq<DevEvent>, b: Seq<DevEvent>, c: Seq<DevEvent>)
    requires
        quiet_since(a, b),
        quiet_since(b, c),
    ensures
        quiet_since(a, c),
{
    assert(c =~= a + c.skip(a.len() as int));
    assert forall|k: int| a.len() <= k < c.len() implies !(#[trigger] c[k] is BarRegister || c[k]
        is BarUnregister) by {
        if k < b.len() {
            assert(c[k] == b[k]);
        }
    }
}

proof fn lemma_quiet_added(a: Seq<DevEvent>, added: Seq<DevEvent>)
    requires
        forall|k: int|
            0 <= k < added.len() ==> !(#[trigger] added[k] is BarRegister || added[k]
                is BarUnregister),
    ensures
        quiet_since(a, a + added),
{
    assert((a + added).skip(a.len() as int) =~= added);
}

proof fn lemma_func_events_quiet(entries: Seq<MsixEntry>, mask: bool, ena: bool, n: int)
    ensures
        forall|k: int|
            0 <= k < func_events(entries, mask, ena, n).len() ==> (#[trigger] func_events(
                entries,
                mask,
                ena,
                n,
            )[k]) is SendMsi,
    decreases n,
{
    if n > 0 {
        lemma_func_events_quiet(entries, mask, ena, n - 1);
    }
}

proof fn lemma_msg_ctrl_quiet(m: MsixModel, val: u16)
    ensures
        quiet_since(m.events, msg_ctrl_write(m, val).events),
{
    let c = m.cfg;
    let ena = val / 0x8000 == 1;
    let mask = (val / 0x4000) % 2 == 1;
    lemma_func_events_quiet(c.entries, mask, ena, c.entries.len() as int);
    let after = msg_ctrl_write(m, val).events;
    assert(after =~= m.events + after.skip(m.events.len() as int));
}

/// Writes to the MSI-X capability bring about no events of BARs.
proof fn lemma_cap_quiet(m: MsixModel, off: int, data: Seq<u8>)
    ensures
        quiet_since(m.events, space_write::<MsixCapLayout, MsixCfg>(m, off, data).events),
    decreases data.len(),
{
    if data.len() > 0 {
        match <MsixCfg as RegSpace<MsixCapLayout>>::span_at(m, off) {
            None => {
                lemma_cap_quiet(m, off + 1, data.skip(1));
            },
            Some(s) => {
                let n = span_part(s, off, data.len() as int);
                if 0 < n {
                    let next = part_write::<MsixCapLayout, MsixCfg>(m, s, off, data);
                    let o = off - s.start;
                    lemma_msg_ctrl_quiet(m, val16(data.take(n)));
                    lemma_msg_ctrl_quiet(
                        m,
                        val16(
                            overlay(
                                <MsixCfg as RegSpace<MsixCapLayout>>::reg_rd(
                                    m,
                                    s.id,
                                    0,
                                    zeros(s.len as nat),
                                ),
                                o,
                                data.take(n),
                            ),
                        ),
                    );
                    lemma_quiet_added(m.events, Seq::empty());
                    assert(m.events + Seq::empty() =~= m.events);
                    assert(quiet_since(m.events, next.events));
                    lemma_cap_quiet(next, off + n, data.skip(n));
                    lemma_quiet_concat(
                        m.events,
                        next.events,
                        space_write::<MsixCapLayout, MsixCfg>(m, off, data).events,
                    );
                }
            },
        }
    }
    lemma_quiet_added(m.events, Seq::empty());
    assert(m.events + Seq::empty() =~= m.events);
}

/// A write to a register of the standard header.
proof fn lemma_std_reg_known(m: DevModel, id: StdCfgReg, data: Seq<u8>, p: Placing, loc: BusLocation)
    requires
        known_before(m, p, loc),
    ensures
        stays_known(m, std_wr(m, id, data), p, loc),
        bars_wf(std_wr(m, id, data).dev.bars),
{
    match id {
        StdCfgReg::Command => {
            law_command_keeps_known(m, RegCmd::spec_truncate(val16(data)), p, loc);
        },
        StdCfgReg::Bar(n) => {
            law_bar_write_keeps_known(m, n, val32(data), p, loc);
        },
        _ => {
            assert(m.events =~= m.events + Seq::<DevEvent>::empty());
            lemma_stays_quiet(m, std_wr(m, id, data), Seq::empty(), p, loc);
        },
    }
}

/// A write to the standard header.
proof fn lemma_std_known(m: DevModel, off: int, data: Seq<u8>, p: Placing, loc: BusLocation)
    requires
        known_before(m, p, loc),
    ensures
        stays_known(m, space_write::<StdCfgLayout, DeviceState>(m, off, data), p, loc),
        bars_wf(space_write::<StdCfgLayout, DeviceState>(m, off, data).dev.bars),
    decreases data.len(),
{
    assert(m.events =~= m.events + Seq::<DevEvent>::empty());
    if data.len() > 0 {
        match <DeviceState as RegSpace<StdCfgLayout>>::span_at(m, off) {
            None => {
                lemma_std_known(m, off + 1, data.skip(1), p, loc);
            },
            Some(s) => {
                let n = span_part(s, off, data.len() as int);
                if 0 < n {
                    let o = off - s.start;
                    let next = part_write::<StdCfgLayout, DeviceState>(m, s, off, data);
                    lemma_std_reg_known(m, s.id, data.take(n), p, loc);
                    lemma_std_reg_known(
                        m,
                        s.id,
                        overlay(std_rd(m, s.id, zeros(s.len as nat).len()), o, data.take(n)),
                        p,
                        loc,
                    );
                    assert(stays_known(m, next, p, loc));
                    let q = p.all_applied(loc, new_events(m, next));
                    lemma_applied_bus(p, loc, new_events(m, next));
                    lemma_std_known(next, off + n, data.skip(n), q, loc);
                    lemma_stays_concat(
                        m,
                        next,
                        space_write::<StdCfgLayout, DeviceState>(m, off, data),
                        p,
                        loc,
                    );
                } else {
                    lemma_stays_quiet(m, m, Seq::empty(), p, loc);
                }
            },
        }
    } else {
        lemma_stays_quiet(m, m, Seq::empty(), p, loc);
    }
}

/// A write to a region of the configuration space.
proof fn lemma_region_known(m: DevModel, id: CfgReg, off: int, data: Seq<u8>, p: Placing, loc: BusLocation)
    requires
        known_before(m, p, loc),
    ensures
        stays_known(m, dev_cfg_wr(m, id, off, data), p, loc),
        bars_wf(dev_cfg_wr(m, id, off, data).dev.bars),
{
    let after = dev_cfg_wr(m, id, off, data);
    match id {
        CfgReg::Std => {
            lemma_std_known(m, off, data, p, loc);
        },
        CfgReg::CapBody(i) if m.dev.caps[i as int].id == CAP_ID_MSIX => {
            lemma_cap_quiet(msix_model(m), off, data);
            let mid = space_write::<MsixCapLayout, MsixCfg>(msix_model(m), off, data).events;
            lemma_quiet_added(mid, seq![after.events.last()]);
            assert(mid + seq![after.events.last()] =~= after.events);
            lemma_quiet_concat(m.events, mid, after.events);
            lemma_stays_quiet(m, after, after.events.skip(m.events.len() as int), p, loc);
        },
        _ => {
            assert(m.events =~= m.events + Seq::<DevEvent>::empty());
            lemma_stays_quiet(m, m, Seq::empty(), p, loc);
        },
    }
}

/// Whatever is written to the configuration space of a device, the BARs that it
/// has enabled afterwards are those that its bus knows of, once the bus has
/// taken the events of the write.
pub proof fn law_cfg_write_keeps_known(
    m: DevModel,
    off: int,
    data: Seq<u8>,
    p: Placing,
    loc: BusLocation,
)
    requires
        known_before(m, p, loc),
    ensures
        stays_known(m, space_write::<CfgLayout, DeviceState>(m, off, data), p, loc),
        bars_wf(space_write::<CfgLayout, DeviceState>(m, off, data).dev.bars),
    decreases data.len(),
{
    assert(m.events =~= m.events + Seq::<DevEvent>::empty());
    if data.len() > 0 {
        match <DeviceState as RegSpace<CfgLayout>>::span_at(m, off) {
            None => {
                law_cfg_write_keeps_known(m, off + 1, data.skip(1), p, loc);
            },
            Some(s) => {
                let n = span_part(s, off, data.len() as int);
                if 0 < n {
                    let o = off - s.start;
                    let next = part_write::<CfgLayout, DeviceState>(m, s, off, data);
                    lemma_region_known(m, s.id, o, data.take(n), p, loc);
                    lemma_region_known(
                        m,
                        s.id,
                        0,
                        overlay(dev_cfg_rd(m, s.id, 0, zeros(s.len as nat)), o, data.take(n)),
                        p,
                        loc,
                    );
                    assert(stays_known(m, next, p, loc));
                    let q = p.all_applied(loc, new_events(m, next));
                    lemma_applied_bus(p, loc, new_events(m, next));
                    law_cfg_write_keeps_known(next, off + n, data.skip(n), q, loc);
                    lemma_stays_concat(
                        m,
                        next,
                        space_write::<CfgLayout, DeviceState>(m, off, data),
                        p,
                        loc,
                    );
                } else {
                    lemma_stays_quiet(m, m, Seq::empty(), p, loc);
                }
            },
        }
    } else {
        lemma_stays_quiet(m, m, Seq::empty(), p, loc);
    }
}

proof fn lemma_bar_reg_quiet(m: MsixModel, id: MsixBarReg, data: Seq<u8>)
    ensures
        quiet_since(m.events, msix_bar_wr(m, id, data).events),
{
    let after = msix_bar_wr(m, id, data).events;
    assert(after =~= m.events + after.skip(m.events.len() as int));
}

/// Writes to the MSI-X table bring about no events of BARs.
pub proof fn law_table_write_quiet(m: MsixModel, off: int, data: Seq<u8>)
    ensures
        quiet_since(m.events, space_write::<MsixBarLayout, MsixCfg>(m, off, data).events),
    decreases data.len(),
{
    if data.len() > 0 {
        match <MsixCfg as RegSpace<MsixBarLayout>>::span_at(m, off) {
            None => {
                law_table_write_quiet(m, off + 1, data.skip(1));
            },
            Some(s) => {
                let n = span_part(s, off, data.len() as int);
                if 0 < n {
                    let next = part_write::<MsixBarLayout, MsixCfg>(m, s, off, data);
                    lemma_bar_reg_quiet(m, s.id, data.take(n));
                    lemma_bar_reg_quiet(
                        m,
                        s.id,
                        overlay(
                            <MsixCfg as RegSpace<MsixBarLayout>>::reg_rd(
                                m,
                                s.id,
                                0,
                                zeros(s.len as nat),
                            ),
                            off - s.start,
                            data.take(n),
                        ),
                    );
                    assert(quiet_since(m.events, next.events));
                    law_table_write_quiet(next, off + n, data.skip(n));
                    lemma_quiet_concat(
                        m.events,
                        next.events,
                        space_write::<MsixBarLayout, MsixCfg>(m, off, data).events,
                    );
                }
            },
        }
    }
    lemma_quiet_added(m.events, Seq::empty());
    assert(m.events + Seq::empty() =~= m.events);
}

/// What a reset tells of the first `n` BARs makes the bus forget them.
proof fn lemma_reset_known(m: DevModel, n: int, p: Placing, loc: BusLocation)
    requires
        known_before(m, p, loc),
        0 <= n <= 6,
    ensures
        ({
            let evs = reset_events(m.dev.bars, n);
            &&& p.takes_all(loc, evs)
            &&& forall|i: int|
                0 <= i < 6 ==> #[trigger] bar_known(p.all_applied(loc, evs).bus, loc, i) == if i
                    < n {
                    None
                } else {
                    bar_known(p.bus, loc, i)
                }
        }),
    decreases n,
{
    if n > 0 {
        lemma_reset_known(m, n - 1, p, loc);
        let evs = reset_events(m.dev.bars, n - 1);
        lemma_applied_bus(p, loc, evs);
        if m.dev.bars[n - 1].kind.spec_define() is Some {
            let e = DevEvent::BarUnregister(BarN::spec_of(n - 1));
            assert(evs.push(e).drop_last() =~= evs);
            lemma_known_event(p.all_applied(loc, evs), loc, e);
            assert(BarN::spec_of(n - 1).spec_idx() == n - 1);
        } else {
            assert(bar_known(p.bus, loc, n - 1) is None);
        }
    }
}

/// After a reset no BAR of the device is enabled, and none is known to the bus.
pub proof fn law_reset_keeps_known(m: DevModel, p: Placing, loc: BusLocation)
    requires
        known_before(m, p, loc),
    ensures
        stays_known(m, dev_reset(m), p, loc),
        bars_wf(dev_reset(m).dev.bars),
        forall|i: int|
            0 <= i < 6 ==> #[trigger] bar_known(
                p.all_applied(loc, new_events(m, dev_reset(m))).bus,
                loc,
                i,
            ) is None,
{
    let after = dev_reset(m);
    let evs = reset_events(m.dev.bars, 6);
    let e = after.events[m.events.len() as int];
    assert(new_events(m, after) =~= seq![e] + evs);
    assert(after.events =~= m.events + new_events(m, after));
    lemma_applied_concat(p, loc, seq![e], evs);
    lemma_applied_one(p, loc, e);
    lemma_reset_known(m, 6, p, loc);
    assert forall|k: int| 0 <= k < 6 implies #[trigger] entry_ok(after.dev.bars, k) by {
        assert(entry_ok(m.dev.bars, k));
    }
}

/// The events of taking over a state make the bus know the first `n` BARs.
proof fn lemma_import_known(bars: Seq<Entry>, cmd: RegCmd, n: int, p: Placing, loc: BusLocation)
    requires
        bars_wf(bars),
        p.bus.wf(),
        loc.wf(),
        forall|i: int| 0 <= i < 6 ==> #[trigger] bar_known(p.bus, loc, i) is None,
        0 <= n <= 6,
    ensures
        ({
            let evs = import_events(bars, cmd, n);
            &&& p.takes_all(loc, evs)
            &&& forall|i: int|
                0 <= i < 6 ==> #[trigger] bar_known(p.all_applied(loc, evs).bus, loc, i) == if i
                    < n {
                    bar_wanted(bars[i], cmd)
                } else {
                    None
                }
        }),
    decreases n,
{
    if n > 0 {
        lemma_import_known(bars, cmd, n - 1, p, loc);
        let before = import_events(bars, cmd, n - 1);
        let evs = import_events(bars, cmd, n);
        lemma_applied_bus(p, loc, before);
        assert(entry_ok(bars, n - 1));
        if evs.len() != before.len() {
            let q = p.all_applied(loc, before);
            assert(evs.drop_last() =~= before);
            assert(BarN::spec_of(n - 1).spec_idx() == n - 1);
            assert(bar_known(q.bus, loc, n - 1) is None);
            lemma_known_event(q, loc, evs.last());
        }
    }
}

/// A device that has no BAR enabled and takes over a state has those of that
/// state placed, unless the state of the BARs themselves is refused.
pub proof fn law_import_keeps_known(m: DevModel, s: PciStateV1, p: Placing, loc: BusLocation)
    requires
        known_before(m, p, loc),
        !m.dev.reg_command.io_en,
        !m.dev.reg_command.mmio_en,
        bars_wf(dev_imported(m, s).0.dev.bars),
        bars_imported(m.dev.bars, s.bars.entries@, 0).1 is None,
    ensures
        stays_known(m, dev_imported(m, s).0, p, loc),
{
    let after = dev_imported(m, s).0;
    let cmd = RegCmd::spec_truncate(s.reg_command);
    assert(m.events =~= m.events + Seq::<DevEvent>::empty());
    if cmd.spec_bits() != s.reg_command {
        lemma_stays_quiet(m, m, Seq::empty(), p, loc);
    } else {
        let evs = import_events(after.dev.bars, cmd, 6);
        assert(new_events(m, after) =~= evs);
        lemma_import_known(after.dev.bars, cmd, 6, p, loc);
    }
}

/// A device that enables no BAR fits a bus that knows of none, as a new device
/// does that is attached to a free place.
pub proof fn law_idle_device_known(d: DevView, bus: BusView, loc: BusLocation)
    requires
        !d.reg_command.io_en,
        !d.reg_command.mmio_en,
        loc.wf(),
        forall|n: BarN| (#[trigger] bus.bars[bar_no(loc, n)]) is None,
    ensures
        bars_known(d, bus, loc),
{
    assert forall|i: int| 0 <= i < 6 implies #[trigger] bar_known(bus, loc, i) == bar_wanted(
        d.bars[i],
        d.reg_command,
    ) by {
        assert(bar_no(loc, BarN::spec_of(i)) == func_no(loc) * 6 + i);
    }
}

/// What an enabled BAR is for is found in its address space at the address of
/// the BAR, unless it conflicted with something else there.
pub proof fn law_known_placed(d: DevView, bus: BusView, spaces: IoSpaces, loc: BusLocation, n: BarN)
    requires
        bus.wf(),
        loc.wf(),
        bus.placed(spaces),
        bars_known(d, bus, loc),
    ensures
        match (bar_wanted(d.bars[n.spec_idx()], d.reg_command), bus.bars[bar_no(loc, n)]) {
            (Some((def, value)), Some(st)) => {
                &&& st.def == def
                &&& st.value == value
                &&& st.live ==> spaces.ranges_for(def).contains(
                    bar_range(
                        def,
                        value,
                        Owner { bus: bus.index, reg: bar_no(loc, n) as usize },
                    ),
                )
            },
            (None, None) => true,
            _ => false,
        },
{
    let i = bar_no(loc, n);
    law_places_differ(loc, loc, n, n);
    assert(bar_known(bus, loc, n.spec_idx()) == bar_wanted(
        d.bars[n.spec_idx()],
        d.reg_command,
    ));
    assert(bus.bar_placed(spaces, i));
}

} // verus!
