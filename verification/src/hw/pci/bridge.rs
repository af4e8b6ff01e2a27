//! PCI-PCI bridges, and the routing of bus numbers that they set up.
use crate::common::{
    byte_vec, copy_vec, get_le16, le16, le16_vec, overlay, val16, zero_vec, zeros, RWOp, ReadOp,
};
use crate::hw::pci::bits::{
    BRIDGE_PROG_CLASS, BRIDGE_PROG_IF, BRIDGE_PROG_SUBCLASS, HEADER_TYPE_BRIDGE, LEN_CFG_STD,
};
use crate::hw::pci::bus::Attachment;
use crate::hw::pci::device::{Ident, RegCmd, StdCfgReg};
use crate::hw::pci::{BarN, BusNum};
use crate::regmap::{
    find_in_table, lemma_table_find, part_write, process_read, process_write, reg_start,
    space_read, space_write, span_part, table_find, RegDef, RegSpace, RegSpan,
};
use vstd::prelude::*;

verus! {

/// The number of a bus that does not depend on how bridges are configured.
#[derive(Clone, Copy, Debug, PartialEq, Eq, Structural)]
pub struct LogicalBusId(pub u8);

/// The number that accesses to a bus are directed by. Which bus they reach
/// depends on how bridges are configured.
#[derive(Clone, Copy, Debug, PartialEq, Eq, Structural)]
pub struct RoutedBusId(pub u8);

// ---------------------------------------------------------------------------
// Routing
// ---------------------------------------------------------------------------

/// Where accesses to a bus number go.
#[derive(Clone, Copy, Debug, PartialEq, Eq, Structural)]
pub struct Route {
    /// The bus, by its index in the topology.
    pub bus: usize,
    /// The bridge that leads to it; none leads to the root bus.
    pub owner: Option<usize>,
}

/// What a router holds.
#[verifier::ext_equal]
pub struct RouterView {
    pub logical: Seq<Option<usize>>,
    pub routed: Seq<Option<Route>>,
}

/// Finds buses by their numbers.
#[derive(Debug)]
pub struct Router {
    /// The index of the bus of each logical number.
    pub logical: Vec<Option<usize>>,
    /// Where accesses to each bus number go.
    pub routed: Vec<Option<Route>>,
}

impl View for Router {
    type V = RouterView;

    open spec fn view(&self) -> RouterView {
        RouterView { logical: self.logical@, routed: self.routed@ }
    }
}

impl RouterView {
    /// The invariant of routers: bus 0 is always reached under its own number.
    pub open spec fn wf(self) -> bool {
        &&& self.logical.len() == 256
        &&& self.routed.len() == 256
        &&& self.logical[0] == Some(0usize)
        &&& self.routed[0] == Some(Route { bus: 0, owner: None })
    }

    /// The router with another route for a bus number.
    pub open spec fn with_route(self, n: u8, r: Option<Route>) -> RouterView {
        RouterView { routed: self.routed.update(n as int, r), ..self }
    }

    /// Whether `self` and `v` differ at most in routes of the bridge `owner`.
    pub open spec fn same_but_for(self, v: RouterView, owner: usize) -> bool {
        &&& self.logical == v.logical
        &&& self.routed.len() == v.routed.len()
        &&& forall|n: int|
            #![trigger self.routed[n]]
            #![trigger v.routed[n]]
            0 <= n < v.routed.len() ==> self.routed[n] == v.routed[n] || ((self.routed[n] is None
                || self.routed[n]->0.owner == Some(owner)) && (v.routed[n] is None
                || v.routed[n]->0.owner == Some(owner)))
    }
}

impl Router {
    /// A router that knows bus 0 alone.
    pub fn new() -> (r: Router)
        ensures
            r@.wf(),
            forall|i: int| 1 <= i < 256 ==> #[trigger] r@.logical[i] is None,
            forall|i: int| 1 <= i < 256 ==> #[trigger] r@.routed[i] is None,
    {
        let mut logical: Vec<Option<usize>> = Vec::new();
        let mut routed: Vec<Option<Route>> = Vec::new();
        logical.push(Some(0));
        routed.push(Some(Route { bus: 0, owner: None }));
        while logical.len() < 256
            invariant
                1 <= logical@.len() <= 256,
                routed@.len() == logical@.len(),
                logical@[0] == Some(0usize),
                routed@[0] == Some(Route { bus: 0, owner: None }),
                forall|i: int| 1 <= i < logical@.len() ==> #[trigger] logical@[i] is None,
                forall|i: int| 1 <= i < routed@.len() ==> #[trigger] routed@[i] is None,
            decreases 256 - logical@.len(),
        {
            logical.push(None);
            routed.push(None);
        }
        Router { logical, routed }
    }
}

// ---------------------------------------------------------------------------
// Registers
// ---------------------------------------------------------------------------

/// A register of the header of a bridge.
#[derive(Clone, Copy, Debug, PartialEq, Eq, Structural)]
pub enum BridgeReg {
    /// One that other devices have too.
    Common(StdCfgReg),
    PrimaryBus,
    SecondaryBus,
    SubordinateBus,
    SecondaryLatencyTimer,
    IoBase,
    IoLimit,
    SecondaryStatus,
    MemoryBase,
    MemoryLimit,
    PrefetchableMemoryBase,
    PrefetchableMemoryLimit,
    PrefetchableMemoryBaseUpper,
    PrefetchableMemoryLimitUpper,
    IoBaseUpper,
    IoLimitUpper,
    BridgeControl,
}

impl BridgeReg {
    /// The number of bytes of the register, or 0 if that differs.
    pub open spec fn size(self) -> int {
        match self {
            BridgeReg::Common(id) => id.size(),
            BridgeReg::PrimaryBus => 1,
            BridgeReg::SecondaryBus => 1,
            BridgeReg::SubordinateBus => 1,
            BridgeReg::SecondaryLatencyTimer => 1,
            BridgeReg::IoBase => 1,
            BridgeReg::IoLimit => 1,
            BridgeReg::PrefetchableMemoryBaseUpper => 4,
            BridgeReg::PrefetchableMemoryLimitUpper => 4,
            _ => 2,
        }
    }
}

/// The layout of the header of a bridge.
pub struct BridgeLayout;

/// A register of the header of `len` bytes.
pub open spec fn bridge_def(id: BridgeReg, len: usize) -> RegDef<BridgeReg> {
    RegDef { id, len, passthru: false }
}

/// The registers of the header, in their order.
pub open spec fn bridge_table() -> Seq<RegDef<BridgeReg>> {
    seq![
        bridge_def(BridgeReg::Common(StdCfgReg::VendorId), 2),
        bridge_def(BridgeReg::Common(StdCfgReg::DeviceId), 2),
        bridge_def(BridgeReg::Common(StdCfgReg::Command), 2),
        bridge_def(BridgeReg::Common(StdCfgReg::Status), 2),
        bridge_def(BridgeReg::Common(StdCfgReg::RevisionId), 1),
        bridge_def(BridgeReg::Common(StdCfgReg::ProgIf), 1),
        bridge_def(BridgeReg::Common(StdCfgReg::Subclass), 1),
        bridge_def(BridgeReg::Common(StdCfgReg::Class), 1),
        bridge_def(BridgeReg::Common(StdCfgReg::CacheLineSize), 1),
        bridge_def(BridgeReg::Common(StdCfgReg::LatencyTimer), 1),
        bridge_def(BridgeReg::Common(StdCfgReg::HeaderType), 1),
        bridge_def(BridgeReg::Common(StdCfgReg::Bist), 1),
        bridge_def(BridgeReg::Common(StdCfgReg::Bar(BarN::BAR0)), 4),
        bridge_def(BridgeReg::Common(StdCfgReg::Bar(BarN::BAR1)), 4),
        bridge_def(BridgeReg::PrimaryBus, 1),
        bridge_def(BridgeReg::SecondaryBus, 1),
        bridge_def(BridgeReg::SubordinateBus, 1),
        bridge_def(BridgeReg::SecondaryLatencyTimer, 1),
        bridge_def(BridgeReg::IoBase, 1),
        bridge_def(BridgeReg::IoLimit, 1),
        bridge_def(BridgeReg::SecondaryStatus, 2),
        bridge_def(BridgeReg::MemoryBase, 2),
        bridge_def(BridgeReg::MemoryLimit, 2),
        bridge_def(BridgeReg::PrefetchableMemoryBase, 2),
        bridge_def(BridgeReg::PrefetchableMemoryLimit, 2),
        bridge_def(BridgeReg::PrefetchableMemoryBaseUpper, 4),
        bridge_def(BridgeReg::PrefetchableMemoryLimitUpper, 4),
        bridge_def(BridgeReg::IoBaseUpper, 2),
        bridge_def(BridgeReg::IoLimitUpper, 2),
        bridge_def(BridgeReg::Common(StdCfgReg::CapPtr), 1),
        bridge_def(BridgeReg::Common(StdCfgReg::Reserved), 3),
        bridge_def(BridgeReg::Common(StdCfgReg::ExpansionRomAddr), 4),
        bridge_def(BridgeReg::Common(StdCfgReg::IntrLine), 1),
        bridge_def(BridgeReg::Common(StdCfgReg::IntrPin), 1),
        bridge_def(BridgeReg::BridgeControl, 2),
    ]
}

/// Where registers of the header of a bridge are, and that they fill it.
pub proof fn law_bridge_layout()
    ensures
        bridge_table().len() == 35,
        reg_start(bridge_table(), 0) == 0,
        reg_start(bridge_table(), 10) == 0x0e,
        reg_start(bridge_table(), 14) == 0x18,
        reg_start(bridge_table(), 15) == 0x19,
        reg_start(bridge_table(), 16) == 0x1a,
        reg_start(bridge_table(), 21) == 0x20,
        reg_start(bridge_table(), 35) == LEN_CFG_STD,
{
    reveal_with_fuel(reg_start, 36);
}

/// The registers of the header, in their order.
pub fn bridge_layout() -> (r: Vec<RegDef<BridgeReg>>)
    ensures
        r@ == bridge_table(),
{
    let mut v: Vec<RegDef<BridgeReg>> = Vec::new();
    v.push(RegDef { id: BridgeReg::Common(StdCfgReg::VendorId), len: 2, passthru: false });
    v.push(RegDef { id: BridgeReg::Common(StdCfgReg::DeviceId), len: 2, passthru: false });
    v.push(RegDef { id: BridgeReg::Common(StdCfgReg::Command), len: 2, passthru: false });
    v.push(RegDef { id: BridgeReg::Common(StdCfgReg::Status), len: 2, passthru: false });
    v.push(RegDef { id: BridgeReg::Common(StdCfgReg::RevisionId), len: 1, passthru: false });
    v.push(RegDef { id: BridgeReg::Common(StdCfgReg::ProgIf), len: 1, passthru: false });
    v.push(RegDef { id: BridgeReg::Common(StdCfgReg::Subclass), len: 1, passthru: false });
    v.push(RegDef { id: BridgeReg::Common(StdCfgReg::Class), len: 1, passthru: false });
    v.push(RegDef { id: BridgeReg::Common(StdCfgReg::CacheLineSize), len: 1, passthru: false });
    v.push(RegDef { id: BridgeReg::Common(StdCfgReg::LatencyTimer), len: 1, passthru: false });
    v.push(RegDef { id: BridgeReg::Common(StdCfgReg::HeaderType), len: 1, passthru: false });
    v.push(RegDef { id: BridgeReg::Common(StdCfgReg::Bist), len: 1, passthru: false });
    v.push(RegDef { id: BridgeReg::Common(StdCfgReg::Bar(BarN::BAR0)), len: 4, passthru: false });
    v.push(RegDef { id: BridgeReg::Common(StdCfgReg::Bar(BarN::BAR1)), len: 4, passthru: false });
    v.push(RegDef { id: BridgeReg::PrimaryBus, len: 1, passthru: false });
    v.push(RegDef { id: BridgeReg::SecondaryBus, len: 1, passthru: false });
    v.push(RegDef { id: BridgeReg::SubordinateBus, len: 1, passthru: false });
    v.push(RegDef { id: BridgeReg::SecondaryLatencyTimer, len: 1, passthru: false });
    v.push(RegDef { id: BridgeReg::IoBase, len: 1, passthru: false });
    v.push(RegDef { id: BridgeReg::IoLimit, len: 1, passthru: false });
    v.push(RegDef { id: BridgeReg::SecondaryStatus, len: 2, passthru: false });
    v.push(RegDef { id: BridgeReg::MemoryBase, len: 2, passthru: false });
    v.push(RegDef { id: BridgeReg::MemoryLimit, len: 2, passthru: false });
    v.push(RegDef { id: BridgeReg::PrefetchableMemoryBase, len: 2, passthru: false });
    v.push(RegDef { id: BridgeReg::PrefetchableMemoryLimit, len: 2, passthru: false });
    v.push(RegDef { id: BridgeReg::PrefetchableMemoryBaseUpper, len: 4, passthru: false });
    v.push(RegDef { id: BridgeReg::PrefetchableMemoryLimitUpper, len: 4, passthru: false });
    v.push(RegDef { id: BridgeReg::IoBaseUpper, len: 2, passthru: false });
    v.push(RegDef { id: BridgeReg::IoLimitUpper, len: 2, passthru: false });
    v.push(RegDef { id: BridgeReg::Common(StdCfgReg::CapPtr), len: 1, passthru: false });
    v.push(RegDef { id: BridgeReg::Common(StdCfgReg::Reserved), len: 3, passthru: false });
    v.push(RegDef { id: BridgeReg::Common(StdCfgReg::ExpansionRomAddr), len: 4, passthru: false });
    v.push(RegDef { id: BridgeReg::Common(StdCfgReg::IntrLine), len: 1, passthru: false });
    v.push(RegDef { id: BridgeReg::Common(StdCfgReg::IntrPin), len: 1, passthru: false });
    v.push(RegDef { id: BridgeReg::BridgeControl, len: 2, passthru: false });
    assert(v@ =~= bridge_table());
    v
}

// ---------------------------------------------------------------------------
// Bridges
// ---------------------------------------------------------------------------

/// A PCI-PCI bridge.
#[derive(Clone, Copy, Debug)]
pub struct Bridge {
    /// Tells the bridge from others.
    pub index: usize,
    pub ident: Ident,
    /// The place of the bridge, once it has one.
    pub attachment: Option<Attachment>,
    /// The bus behind the bridge.
    pub downstream_bus_id: LogicalBusId,
    pub reg_command: RegCmd,
    pub primary_bus: BusNum,
    pub secondary_bus: BusNum,
    pub subordinate_bus: BusNum,
    pub memory_base: u16,
    pub memory_limit: u16,
}

/// A bridge with the router that it sets up.
#[verifier::ext_equal]
pub struct BridgeModel {
    pub bridge: Bridge,
    pub router: RouterView,
}

impl Bridge {
    /// A new bridge.
    pub open spec fn spec_new(
        vendor: u16,
        device: u16,
        index: usize,
        downstream: LogicalBusId,
    ) -> Bridge {
        Bridge {
            index,
            ident: Ident {
                vendor_id: vendor,
                device_id: device,
                class: BRIDGE_PROG_CLASS,
                subclass: BRIDGE_PROG_SUBCLASS,
                prog_if: BRIDGE_PROG_IF,
                revision_id: 0,
                sub_vendor_id: vendor,
                sub_device_id: device,
            },
            attachment: None,
            downstream_bus_id: downstream,
            reg_command: RegCmd::spec_empty(),
            primary_bus: BusNum(0),
            secondary_bus: BusNum(0),
            subordinate_bus: BusNum(0),
            memory_base: 0,
            memory_limit: 0,
        }
    }

    /// Whether the router leads accesses over this bridge exactly if they are
    /// directed to its secondary bus.
    pub open spec fn routed_by(self, r: RouterView) -> bool {
        &&& r.logical[self.downstream_bus_id.0 as int] is Some
        &&& self.secondary_bus.0 != 0 ==> r.routed[self.secondary_bus.0 as int] == Some(
            Route {
                bus: r.logical[self.downstream_bus_id.0 as int]->0,
                owner: Some(self.index),
            },
        )
        &&& forall|n: int|
            0 <= n < 256 ==> (#[trigger] r.routed[n] matches Some(x) && x.owner == Some(self.index)
                ==> n == self.secondary_bus.0 && n != 0)
    }
}

/// What a read of a register of a bridge gives.
pub open spec fn bridge_rd(b: Bridge, id: BridgeReg, len: nat) -> Seq<u8> {
    match id {
        BridgeReg::Common(id) => match id {
            StdCfgReg::VendorId => le16(b.ident.vendor_id),
            StdCfgReg::DeviceId => le16(b.ident.device_id),
            StdCfgReg::Class => seq![b.ident.class],
            StdCfgReg::Subclass => seq![b.ident.subclass],
            StdCfgReg::ProgIf => seq![b.ident.prog_if],
            StdCfgReg::HeaderType => seq![1u8],
            StdCfgReg::Command => le16(b.reg_command.spec_bits()),
            StdCfgReg::IntrLine => seq![0xffu8],
            _ => zeros(len),
        },
        BridgeReg::PrimaryBus => seq![b.primary_bus.0],
        BridgeReg::SecondaryBus => seq![b.secondary_bus.0],
        BridgeReg::SubordinateBus => seq![b.subordinate_bus.0],
        BridgeReg::MemoryBase => le16((b.memory_base - b.memory_base % 16) as u16),
        BridgeReg::MemoryLimit => le16((b.memory_limit - b.memory_limit % 16) as u16),
        _ => zeros(len),
    }
}

/// What setting the secondary bus number to `n` leads to: accesses to that
/// number are led over the bridge, and no longer those to the number it had. A
/// number under which another bus is reached is refused. With number 0, no
/// accesses are led over the bridge.
pub open spec fn secondary_set(m: BridgeModel, n: u8) -> BridgeModel {
    let b = m.bridge;
    let cleared = if b.secondary_bus.0 != 0 {
        m.router.with_route(b.secondary_bus.0, None)
    } else {
        m.router
    };
    if n == 0 {
        BridgeModel { bridge: Bridge { secondary_bus: BusNum(0), ..b }, router: cleared }
    } else if cleared.routed[n as int] is Some {
        m
    } else {
        BridgeModel {
            bridge: Bridge { secondary_bus: BusNum(n), ..b },
            router: cleared.with_route(
                n,
                Some(
                    Route {
                        bus: m.router.logical[b.downstream_bus_id.0 as int]->0,
                        owner: Some(b.index),
                    },
                ),
            ),
        }
    }
}

/// What a reset of a bridge leads to: no accesses are led over it.
pub open spec fn bridge_reset(m: BridgeModel) -> BridgeModel {
    BridgeModel {
        bridge: Bridge {
            primary_bus: BusNum(0),
            secondary_bus: BusNum(0),
            subordinate_bus: BusNum(0),
            memory_base: 0,
            memory_limit: 0,
            ..m.bridge
        },
        router: secondary_set(m, 0).router,
    }
}

/// What a write to a register of a bridge leads to.
pub open spec fn bridge_wr(m: BridgeModel, id: BridgeReg, data: Seq<u8>) -> BridgeModel {
    let b = m.bridge;
    match id {
        BridgeReg::Common(StdCfgReg::Command) => BridgeModel {
            bridge: Bridge { reg_command: RegCmd::spec_truncate(val16(data)), ..b },
            ..m
        },
        BridgeReg::PrimaryBus => BridgeModel {
            bridge: Bridge { primary_bus: BusNum(data[0]), ..b },
            ..m
        },
        BridgeReg::SecondaryBus => secondary_set(m, data[0]),
        BridgeReg::SubordinateBus => BridgeModel {
            bridge: Bridge { subordinate_bus: BusNum(data[0]), ..b },
            ..m
        },
        BridgeReg::MemoryBase => BridgeModel {
            bridge: Bridge { memory_base: val16(data), ..b },
            ..m
        },
        BridgeReg::MemoryLimit => BridgeModel {
            bridge: Bridge { memory_limit: val16(data), ..b },
            ..m
        },
        _ => m,
    }
}

/// A bus number that is free leads to the bus behind the bridge once it is the
/// secondary bus number; the number that the bridge had before then leads
/// nowhere, and all others lead where they did.
pub proof fn law_secondary_routes(m: BridgeModel, n: u8)
    requires
        m.router.wf(),
        m.bridge.routed_by(m.router),
        n != 0,
        m.router.routed[n as int] is None || n == m.bridge.secondary_bus.0,
    ensures
        ({
            let t = secondary_set(m, n);
            &&& t.bridge.secondary_bus == BusNum(n)
            &&& t.router.routed[n as int] matches Some(r) && Some(r.bus)
                == m.router.logical[m.bridge.downstream_bus_id.0 as int]
            &&& m.bridge.secondary_bus.0 != n && m.bridge.secondary_bus.0 != 0
                ==> t.router.routed[m.bridge.secondary_bus.0 as int] is None
            &&& forall|k: int|
                0 <= k < 256 && k != n && k != m.bridge.secondary_bus.0
                    ==> #[trigger] t.router.routed[k] == m.router.routed[k]
            &&& t.bridge.routed_by(t.router)
        }),
{
    lemma_secondary(m, n);
}

/// Setting the secondary bus number keeps the invariants.
proof fn lemma_secondary(m: BridgeModel, n: u8)
    requires
        m.router.wf(),
        m.bridge.routed_by(m.router),
    ensures
        secondary_set(m, n).router.wf(),
        secondary_set(m, n).bridge.routed_by(secondary_set(m, n).router),
        secondary_set(m, n).router.same_but_for(m.router, m.bridge.index),
        secondary_set(m, n).bridge == (Bridge {
            secondary_bus: secondary_set(m, n).bridge.secondary_bus,
            ..m.bridge
        }),
{
}

/// Clearing the secondary bus number undoes setting it.
pub proof fn law_secondary_undone(m: BridgeModel, n: u8)
    requires
        m.router.wf(),
        m.bridge.routed_by(m.router),
        m.bridge.secondary_bus.0 == 0,
        m.router.routed[n as int] is None,
    ensures
        secondary_set(secondary_set(m, n), 0) == m,
{
    let t = secondary_set(secondary_set(m, n), 0);
    assert(t.router.routed =~= m.router.routed);
    assert(t =~= m);
}

impl RegSpace<BridgeLayout> for Bridge {
    type Id = BridgeReg;

    type Ctx = Router;

    type V = BridgeModel;

    open spec fn model(&self, ctx: &Router) -> BridgeModel {
        BridgeModel { bridge: *self, router: ctx@ }
    }

    open spec fn inv(&self, ctx: &Router) -> bool {
        ctx@.wf() && self.routed_by(ctx@)
    }

    open spec fn span_at(m: BridgeModel, off: int) -> Option<RegSpan<BridgeReg>> {
        table_find(bridge_table(), 0, 0, off)
    }

    open spec fn access_ok(m: BridgeModel, id: BridgeReg, off: int, len: int) -> bool {
        id == BridgeReg::Common(StdCfgReg::Reserved) || (off == 0 && len == id.size())
    }

    open spec fn reg_rd(m: BridgeModel, id: BridgeReg, off: int, buf: Seq<u8>) -> Seq<u8> {
        bridge_rd(m.bridge, id, buf.len())
    }

    open spec fn reg_wr(m: BridgeModel, id: BridgeReg, off: int, data: Seq<u8>) -> BridgeModel {
        bridge_wr(m, id, data)
    }

    proof fn span_laws(&self, ctx: &Router, off: int) {
        law_bridge_layout();
        lemma_table_find(bridge_table(), 0, 0, off);
    }

    fn find(&self, ctx: &Router, off: usize) -> (r: Option<RegSpan<BridgeReg>>) {
        proof {
            law_bridge_layout();
        }
        find_in_table(&bridge_layout(), off)
    }

    fn read_reg(&self, ctx: &Router, id: BridgeReg, off: usize, buf: Vec<u8>) -> (r: Vec<u8>) {
        self.cfg_std_read(id, buf.len())
    }

    fn write_reg(&mut self, ctx: &mut Router, id: BridgeReg, off: usize, data: Vec<u8>) {
        self.cfg_std_write(id, &data, ctx);
    }
}

/// What writes to the registers of a bridge leave alone: what the bridge is and
/// where, and the routes of other bridges.
pub open spec fn bridge_frame(m: BridgeModel, t: BridgeModel) -> bool {
    &&& t.bridge.index == m.bridge.index
    &&& t.bridge.ident == m.bridge.ident
    &&& t.bridge.attachment == m.bridge.attachment
    &&& t.bridge.downstream_bus_id == m.bridge.downstream_bus_id
    &&& t.router.same_but_for(m.router, m.bridge.index)
}

proof fn lemma_bridge_wr(m: BridgeModel, id: BridgeReg, data: Seq<u8>)
    requires
        m.router.wf(),
        m.bridge.routed_by(m.router),
    ensures
        bridge_frame(m, bridge_wr(m, id, data)),
        bridge_wr(m, id, data).router.wf(),
        bridge_wr(m, id, data).bridge.routed_by(bridge_wr(m, id, data).router),
{
    lemma_secondary(m, data[0]);
}

/// Writes to one bridge leave what it is, and the routes of other bridges,
/// alone.
pub proof fn lemma_bridge_space(m: BridgeModel, off: int, data: Seq<u8>)
    requires
        m.router.wf(),
        m.bridge.routed_by(m.router),
    ensures
        bridge_frame(m, space_write::<BridgeLayout, Bridge>(m, off, data)),
    decreases data.len(),
{
    if data.len() > 0 {
        match <Bridge as RegSpace<BridgeLayout>>::span_at(m, off) {
            None => {
                lemma_bridge_space(m, off + 1, data.skip(1));
            },
            Some(s) => {
                let n = span_part(s, off, data.len() as int);
                if 0 < n {
                    let o = off - s.start;
                    lemma_bridge_wr(m, s.id, data.take(n));
                    lemma_bridge_wr(
                        m,
                        s.id,
                        overlay(bridge_rd(m.bridge, s.id, zeros(s.len as nat).len()), o, data.take(n)),
                    );
                    lemma_bridge_space(
                        part_write::<BridgeLayout, Bridge>(m, s, off, data),
                        off + n,
                        data.skip(n),
                    );
                }
            },
        }
    }
}

impl Bridge {
    /// A bridge to the given bus, over which no accesses are led yet.
    pub fn new(vendor: u16, device: u16, index: usize, downstream_bus_id: LogicalBusId) -> (r:
        Bridge)
        ensures
            r == Self::spec_new(vendor, device, index, downstream_bus_id),
    {
        Bridge {
            index,
            ident: Ident {
                vendor_id: vendor,
                device_id: device,
                class: BRIDGE_PROG_CLASS,
                subclass: BRIDGE_PROG_SUBCLASS,
                prog_if: BRIDGE_PROG_IF,
                revision_id: 0,
                sub_vendor_id: vendor,
                sub_device_id: device,
            },
            attachment: None,
            downstream_bus_id,
            reg_command: RegCmd::empty(),
            primary_bus: BusNum::new(0),
            secondary_bus: BusNum::new(0),
            subordinate_bus: BusNum::new(0),
            memory_base: 0,
            memory_limit: 0,
        }
    }

    /// Gives the bridge its place on a bus.
    pub fn attach(&mut self, attachment: Attachment)
        requires
            old(self).attachment is None,
        ensures
            *final(self) == (Bridge { attachment: Some(attachment), ..*old(self) }),
    {
        self.attachment = Some(attachment);
    }

    /// Reads a register.
    pub fn cfg_std_read(&self, id: BridgeReg, len: usize) -> (r: Vec<u8>)
        requires
            id == BridgeReg::Common(StdCfgReg::Reserved) || len == id.size(),
        ensures
            r@ == bridge_rd(*self, id, len as nat),
            r@.len() == len,
    {
        match id {
            BridgeReg::Common(id) => match id {
                StdCfgReg::VendorId => le16_vec(self.ident.vendor_id),
                StdCfgReg::DeviceId => le16_vec(self.ident.device_id),
                StdCfgReg::Class => byte_vec(self.ident.class),
                StdCfgReg::Subclass => byte_vec(self.ident.subclass),
                StdCfgReg::ProgIf => byte_vec(self.ident.prog_if),
                StdCfgReg::HeaderType => byte_vec(HEADER_TYPE_BRIDGE),
                StdCfgReg::Command => le16_vec(self.reg_command.bits()),
                // The bridge has no interrupts of its own.
                StdCfgReg::IntrLine => byte_vec(0xff),
                // Nor does it have BARs, an expansion ROM or capabilities.
                _ => zero_vec(len),
            },
            BridgeReg::PrimaryBus => byte_vec(self.primary_bus.get()),
            BridgeReg::SecondaryBus => byte_vec(self.secondary_bus.get()),
            BridgeReg::SubordinateBus => byte_vec(self.subordinate_bus.get()),
            BridgeReg::MemoryBase => le16_vec(self.memory_base - self.memory_base % 16),
            BridgeReg::MemoryLimit => le16_vec(self.memory_limit - self.memory_limit % 16),
            _ => zero_vec(len),
        }
    }

    /// Writes a register.
    pub fn cfg_std_write(&mut self, id: BridgeReg, data: &Vec<u8>, router: &mut Router)
        requires
            old(router)@.wf(),
            old(self).routed_by(old(router)@),
            id == BridgeReg::Common(StdCfgReg::Reserved) || data@.len() == id.size(),
        ensures
            (BridgeModel { bridge: *final(self), router: final(router)@ }) == bridge_wr(
                (BridgeModel { bridge: *old(self), router: old(router)@ }),
                id,
                data@,
            ),
            final(router)@.wf(),
            final(self).routed_by(final(router)@),
    {
        proof {
            lemma_bridge_wr(BridgeModel { bridge: *self, router: router@ }, id, data@);
        }
        match id {
            BridgeReg::Common(StdCfgReg::Command) => {
                let val: u16 = get_le16(data, 0);
                assert(data@.subrange(0, 2) =~= data@);
                self.reg_command = RegCmd::from_bits_truncate(val);
            },
            BridgeReg::PrimaryBus => {
                self.primary_bus = BusNum::new(data[0]);
            },
            BridgeReg::SecondaryBus => {
                self.set_secondary_bus(BusNum::new(data[0]), router);
            },
            BridgeReg::SubordinateBus => {
                self.subordinate_bus = BusNum::new(data[0]);
            },
            BridgeReg::MemoryBase => {
                let val: u16 = get_le16(data, 0);
                assert(data@.subrange(0, 2) =~= data@);
                self.memory_base = val;
            },
            BridgeReg::MemoryLimit => {
                let val: u16 = get_le16(data, 0);
                assert(data@.subrange(0, 2) =~= data@);
                self.memory_limit = val;
            },
            // Read-only
            _ => {},
        }
    }

    /// Sets the number under which the bus behind the bridge is reached, unless
    /// another bus is reached under it.
    pub fn set_secondary_bus(&mut self, n: BusNum, router: &mut Router)
        requires
            old(router)@.wf(),
            old(self).routed_by(old(router)@),
        ensures
            (BridgeModel { bridge: *final(self), router: final(router)@ }) == secondary_set(
                (BridgeModel { bridge: *old(self), router: old(router)@ }),
                n.0,
            ),
            final(router)@.wf(),
            final(self).routed_by(final(router)@),
    {
        proof {
            lemma_secondary(BridgeModel { bridge: *self, router: router@ }, n.0);
        }
        let num: usize = n.get() as usize;
        let cur: usize = self.secondary_bus.get() as usize;
        if num != 0 && num != cur && router.routed[num].is_some() {
            return ;
        }
        let ghost r0 = router@;
        if cur != 0 {
            router.routed[cur] = None;
        }
        self.secondary_bus = n;
        if num != 0 {
            if let Some(bus) = router.logical[self.downstream_bus_id.0 as usize] {
                router.routed[num] = Some(Route { bus, owner: Some(self.index) });
            }
        }
    }

    /// Resets the bridge: no accesses are led over it.
    pub fn reset(&mut self, router: &mut Router)
        requires
            old(router)@.wf(),
            old(self).routed_by(old(router)@),
        ensures
            (BridgeModel { bridge: *final(self), router: final(router)@ }) == bridge_reset(
                (BridgeModel { bridge: *old(self), router: old(router)@ }),
            ),
            final(router)@.same_but_for(old(router)@, old(self).index),
            final(router)@.wf(),
            final(self).routed_by(final(router)@),
    {
        proof {
            lemma_secondary(BridgeModel { bridge: *self, router: router@ }, 0);
        }
        self.primary_bus = BusNum::new(0);
        self.set_secondary_bus(BusNum::new(0), router);
        self.subordinate_bus = BusNum::new(0);
        self.memory_base = 0;
        self.memory_limit = 0;
    }

    /// Services an access to the configuration space of the bridge.
    pub fn cfg_rw(&mut self, rwo: RWOp, router: &mut Router) -> (r: RWOp)
        requires
            old(router)@.wf(),
            old(self).routed_by(old(router)@),
            rwo.spec_offset() + rwo.bytes().len() <= usize::MAX,
        ensures
            final(router)@.wf(),
            final(self).routed_by(final(router)@),
            r.spec_offset() == rwo.spec_offset(),
            r is Read <==> rwo is Read,
            ({
                let m = BridgeModel { bridge: *old(self), router: old(router)@ };
                let t = BridgeModel { bridge: *final(self), router: final(router)@ };
                let off = rwo.spec_offset() as int;
                &&& bridge_frame(m, t)
                &&& r.bytes() == if rwo is Read {
                    space_read::<BridgeLayout, Bridge>(m, off, rwo.bytes())
                } else {
                    rwo.bytes()
                }
                &&& t == if rwo is Read {
                    m
                } else {
                    space_write::<BridgeLayout, Bridge>(m, off, rwo.bytes())
                }
            }),
    {
        match rwo {
            RWOp::Read(ro) => {
                let offset: usize = ro.offset;
                let buf: Vec<u8> = process_read::<BridgeLayout, Bridge>(
                    self,
                    router,
                    offset,
                    ro.buf,
                );
                RWOp::Read(ReadOp { offset, buf })
            },
            RWOp::Write(wo) => {
                let copy: Vec<u8> = copy_vec(&wo.buf);
                proof {
                    lemma_bridge_space(
                        BridgeModel { bridge: *self, router: router@ },
                        wo.offset as int,
                        copy@,
                    );
                }
                process_write::<BridgeLayout, Bridge>(self, router, wo.offset, copy);
                RWOp::Write(wo)
            },
        }
    }
}

} // verus!
