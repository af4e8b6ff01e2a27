//! A PCI topology: the buses of a machine, and the bridges between them.
use crate::common::RWOp;
use crate::hw::ids::{PROPOLIS_BRIDGE_DEV_ID, VENDOR_OXIDE};
use crate::hw::pci::bridge::{
    bridge_frame, bridge_reset, Bridge, BridgeLayout, BridgeModel, Router, RouterView,
};
use crate::hw::pci::bus::{func_no, law_places_differ, Attachment, Bus, BusView, Endpoint};
use crate::hw::pci::{BarN, Bdf, BusLocation, LintrCfg};
use crate::regmap::{space_read, space_write};
use vstd::prelude::*;

pub use crate::hw::pci::bridge::{LogicalBusId, RoutedBusId};

verus! {

/// Errors of building or changing a topology.
#[derive(Clone, Copy, Debug, PartialEq, Eq, Structural)]
pub enum PciTopologyError {
    /// There is no such logical bus.
    LogicalBusNotFound(LogicalBusId),
    /// The logical bus behind a bridge exists already.
    LogicalBusAlreadyExists(LogicalBusId),
    /// A device is attached there already.
    DeviceAlreadyAttached(Bdf),
}

/// What becomes of an access to the configuration space of a function.
#[derive(Debug)]
pub enum CfgAnswer {
    /// A bridge has serviced it.
    Bridge(RWOp),
    /// The device of that number is to service it.
    Device(u32, RWOp),
}

/// What a topology holds.
#[verifier::ext_equal]
pub struct TopoView {
    pub buses: Seq<BusView>,
    pub bridges: Seq<Bridge>,
    pub router: RouterView,
}

/// A PCI topology.
#[derive(Debug)]
pub struct Topology {
    pub buses: Vec<Bus>,
    pub bridges: Vec<Bridge>,
    pub router: Router,
}

/// What buses hold.
pub open spec fn bus_views(v: Seq<Bus>) -> Seq<BusView> {
    Seq::new(v.len(), |i: int| v[i]@)
}

impl View for Topology {
    type V = TopoView;

    open spec fn view(&self) -> TopoView {
        TopoView {
            buses: bus_views(self.buses@),
            bridges: self.bridges@,
            router: self.router@,
        }
    }
}

/// Whether the bridges that are attached to a bus exist.
pub open spec fn bridges_exist(b: BusView, n: nat) -> bool {
    b.wf() && forall|k: int|
        0 <= k < 256 ==> (#[trigger] b.funcs[k] matches Some(Endpoint::Bridge(x)) ==> x < n)
}

/// Whether a bus number leads to an existing bus, over an existing bridge.
pub open spec fn route_exists(v: TopoView, n: int) -> bool {
    &&& v.router.logical[n] matches Some(b) ==> b < v.buses.len()
    &&& v.router.routed[n] matches Some(r) ==> r.bus < v.buses.len() && (r.owner matches Some(o)
        ==> o < v.bridges.len())
}

/// Whether bridge `i` knows its number, and is reached as it says.
pub open spec fn bridge_ok(v: TopoView, i: int) -> bool {
    v.bridges[i].index == i && v.bridges[i].routed_by(v.router)
}

impl TopoView {
    /// The invariant of topologies.
    pub open spec fn wf(self) -> bool {
        &&& self.router.wf()
        &&& forall|i: int|
            0 <= i < self.buses.len() ==> #[trigger] bridges_exist(
                self.buses[i],
                self.bridges.len(),
            )
        &&& forall|n: int| 0 <= n < 256 ==> #[trigger] route_exists(self, n)
        &&& forall|i: int| 0 <= i < self.bridges.len() ==> #[trigger] bridge_ok(self, i)
    }

    /// The function that accesses to a bus number and a place reach.
    pub open spec fn target(self, bus: RoutedBusId, loc: BusLocation) -> Option<Endpoint> {
        match self.router.routed[bus.0 as int] {
            Some(r) => self.buses[r.bus as int].at(loc),
            None => None,
        }
    }

    /// The topology with another bridge `i` and another router.
    pub open spec fn with_bridge(self, i: int, m: BridgeModel) -> TopoView {
        TopoView { bridges: self.bridges.update(i, m.bridge), router: m.router, ..self }
    }
}

/// No two bridges lead to the bus that is reached under one number, and bus 0
/// is reached under its own number, whatever bridges are set to.
pub proof fn law_one_bridge_per_number(v: TopoView, i: int, j: int)
    requires
        v.wf(),
        0 <= i < v.bridges.len(),
        0 <= j < v.bridges.len(),
        v.bridges[i].secondary_bus == v.bridges[j].secondary_bus,
        v.bridges[i].secondary_bus.0 != 0,
    ensures
        i == j,
        v.router.routed[0] matches Some(r) && r.bus == 0,
{
    assert(bridge_ok(v, i));
    assert(bridge_ok(v, j));
}

/// Changes of one bridge keep the invariant of the topology.
proof fn lemma_bridge_changed(v: TopoView, i: int, m: BridgeModel)
    requires
        v.wf(),
        0 <= i < v.bridges.len(),
        bridge_frame((BridgeModel { bridge: v.bridges[i], router: v.router }), m),
        m.router.wf(),
        m.bridge.routed_by(m.router),
    ensures
        v.with_bridge(i, m).wf(),
{
    let w = v.with_bridge(i, m);
    assert(bridge_ok(v, i));
    assert forall|k: int| 0 <= k < w.buses.len() implies #[trigger] bridges_exist(
        w.buses[k],
        w.bridges.len(),
    ) by {
        assert(bridges_exist(v.buses[k], v.bridges.len()));
    }
    assert forall|n: int| 0 <= n < 256 implies #[trigger] route_exists(w, n) by {
        assert(route_exists(v, n));
        assert(m.router.routed[n] == v.router.routed[n] || m.router.routed[n] is None
            || m.router.routed[n]->0.owner == Some(i as usize));
        if let Some(r) = m.router.routed[n] {
            if r.owner == Some(i as usize) {
                assert(n == m.bridge.secondary_bus.0);
                assert(route_exists(v, m.bridge.downstream_bus_id.0 as int));
            }
        }
    }
    assert forall|k: int| 0 <= k < w.bridges.len() implies #[trigger] bridge_ok(w, k) by {
        assert(bridge_ok(v, k));
        if k != i {
            let b = v.bridges[k];
            assert(w.bridges[k] == b);
            assert forall|n: int|
                0 <= n < 256 && #[trigger] w.router.routed[n] is Some
                    && w.router.routed[n]->0.owner == Some(b.index) implies n
                == b.secondary_bus.0 && n != 0 by {
                assert(v.router.routed[n] == w.router.routed[n]);
            }
            if b.secondary_bus.0 != 0 {
                assert(v.router.routed[b.secondary_bus.0 as int] is Some);
            }
        }
    }
}

impl Topology {
    /// Attaches a device to a logical bus, at a free place.
    pub fn pci_attach(
        &mut self,
        bus: LogicalBusId,
        location: BusLocation,
        dev: Endpoint,
        lintr_cfg: Option<LintrCfg>,
    ) -> (r: Result<Attachment, PciTopologyError>)
        requires
            old(self)@.wf(),
            location.wf(),
            dev matches Endpoint::Bridge(x) ==> x < old(self)@.bridges.len(),
            old(self)@.router.logical[bus.0 as int] matches Some(i) ==> old(
                self,
            )@.buses[i as int].at(location) is None,
        ensures
            final(self)@.wf(),
            match old(self)@.router.logical[bus.0 as int] {
                None => {
                    &&& r == Err::<Attachment, PciTopologyError>(
                        PciTopologyError::LogicalBusNotFound(bus),
                    )
                    &&& final(self)@ == old(self)@
                },
                Some(i) => {
                    &&& r == Ok::<Attachment, PciTopologyError>(
                        Attachment { location, lintr_cfg },
                    )
                    &&& final(self)@ == (TopoView {
                        buses: old(self)@.buses.update(
                            i as int,
                            old(self)@.buses[i as int].with(location, dev),
                        ),
                        ..old(self)@
                    })
                },
            },
    {
        let ghost v0 = self@;
        assert(route_exists(v0, bus.0 as int));
        match self.router.logical[bus.0 as usize] {
            None => Err(PciTopologyError::LogicalBusNotFound(bus)),
            Some(i) => {
                assert(bridges_exist(v0.buses[i as int], v0.bridges.len()));
                assert(self.buses@[i as int]@ == v0.buses[i as int]);
                let a: Attachment = self.buses[i].attach(location, dev, lintr_cfg);
                proof {
                    let w = TopoView {
                        buses: v0.buses.update(
                            i as int,
                            v0.buses[i as int].with(location, dev),
                        ),
                        ..v0
                    };
                    assert(self@.buses =~= w.buses);
                    assert forall|k: int| 0 <= k < w.buses.len() implies #[trigger] bridges_exist(
                        w.buses[k],
                        w.bridges.len(),
                    ) by {
                        assert(bridges_exist(v0.buses[k], v0.bridges.len()));
                    }
                    assert forall|n: int| 0 <= n < 256 implies #[trigger] route_exists(w, n) by {
                        assert(route_exists(v0, n));
                    }
                    assert forall|k: int| 0 <= k < w.bridges.len() implies #[trigger] bridge_ok(
                        w,
                        k,
                    ) by {
                        assert(bridge_ok(v0, k));
                    }
                }
                Ok(a)
            },
        }
    }

    /// The function that accesses to a bus number and a place reach.
    pub fn target_of(&self, bus: RoutedBusId, location: BusLocation) -> (r: Option<Endpoint>)
        requires
            self@.wf(),
            location.wf(),
        ensures
            r == self@.target(bus, location),
            r matches Some(Endpoint::Bridge(x)) ==> x < self@.bridges.len(),
    {
        assert(route_exists(self@, bus.0 as int));
        match self.router.routed[bus.0 as usize] {
            None => None,
            Some(route) => {
                assert(bridges_exist(self@.buses[route.bus as int], self@.bridges.len()));
                assert(self.buses@[route.bus as int]@ == self@.buses[route.bus as int]);
                proof {
                    law_places_differ(location, location, BarN::BAR0, BarN::BAR0);
                }
                self.buses[route.bus].device_at(location)
            },
        }
    }

    /// Issues an access to the configuration space of the function at a place
    /// of a bus. Gives nothing if there is no such function.
    pub fn pci_cfg_rw(&mut self, bus: RoutedBusId, location: BusLocation, rwo: RWOp) -> (r: Option<
        CfgAnswer,
    >)
        requires
            old(self)@.wf(),
            location.wf(),
            rwo.spec_offset() + rwo.bytes().len() <= usize::MAX,
        ensures
            final(self)@.wf(),
            match old(self)@.target(bus, location) {
                None => r is None && final(self)@ == old(self)@,
                Some(Endpoint::Device(d)) => r == Some(CfgAnswer::Device(d, rwo)) && final(self)@
                    == old(self)@,
                Some(Endpoint::Bridge(i)) => {
                    let m = BridgeModel {
                        bridge: old(self)@.bridges[i as int],
                        router: old(self)@.router,
                    };
                    let off = rwo.spec_offset() as int;
                    &&& r matches Some(CfgAnswer::Bridge(op)) && op.spec_offset()
                        == rwo.spec_offset() && (op is Read <==> rwo is Read) && op.bytes()
                        == if rwo is Read {
                        space_read::<BridgeLayout, Bridge>(m, off, rwo.bytes())
                    } else {
                        rwo.bytes()
                    }
                    &&& final(self)@ == if rwo is Read {
                        old(self)@
                    } else {
                        old(self)@.with_bridge(
                            i as int,
                            space_write::<BridgeLayout, Bridge>(m, off, rwo.bytes()),
                        )
                    }
                },
            },
    {
        let ghost v0 = self@;
        let dev: Option<Endpoint> = self.target_of(bus, location);
        match dev {
            None => None,
            Some(Endpoint::Device(d)) => Some(CfgAnswer::Device(d, rwo)),
            Some(Endpoint::Bridge(i)) => {
                assert(bridge_ok(v0, i as int));
                let out: RWOp = self.bridges[i].cfg_rw(rwo, &mut self.router);
                proof {
                    let m = BridgeModel { bridge: self.bridges@[i as int], router: self.router@ };
                    lemma_bridge_changed(v0, i as int, m);
                    assert(self@.bridges =~= v0.with_bridge(i as int, m).bridges);
                    assert(self@.buses =~= v0.buses);
                    assert(self@ == v0.with_bridge(i as int, m));
                    if rwo is Read {
                        assert(self@.bridges =~= v0.bridges);
                    }
                }
                Some(CfgAnswer::Bridge(out))
            },
        }
    }

    /// Resets a bridge.
    pub fn reset_bridge(&mut self, i: usize)
        requires
            old(self)@.wf(),
            i < old(self)@.bridges.len(),
        ensures
            final(self)@.wf(),
            final(self)@ == old(self)@.with_bridge(
                i as int,
                bridge_reset(
                    BridgeModel {
                        bridge: old(self)@.bridges[i as int],
                        router: old(self)@.router,
                    },
                ),
            ),
    {
        let ghost v0 = self@;
        assert(bridge_ok(v0, i as int));
        self.bridges[i].reset(&mut self.router);
        proof {
            let m = BridgeModel { bridge: self.bridges@[i as int], router: self.router@ };
            lemma_bridge_changed(v0, i as int, m);
            assert(self@.bridges =~= v0.with_bridge(i as int, m).bridges);
            assert(self@.buses =~= v0.buses);
            assert(self@ == v0.with_bridge(i as int, m));
        }
    }
}

// ---------------------------------------------------------------------------
// Building a topology
// ---------------------------------------------------------------------------

/// A bridge that a topology is to have.
#[derive(Clone, Copy, Debug)]
pub struct BridgeDescription {
    /// The logical bus behind the bridge.
    pub downstream_bus_id: LogicalBusId,
    /// Where the bridge is attached; the bus is a logical one.
    pub attachment_addr: Bdf,
    pub vendor_id: u16,
    pub device_id: u16,
}

impl BridgeDescription {
    /// A bridge with Oxide's identifiers.
    pub fn new(downstream_bus_id: LogicalBusId, attachment_addr: Bdf) -> (r: BridgeDescription)
        ensures
            r == (BridgeDescription {
                downstream_bus_id,
                attachment_addr,
                vendor_id: VENDOR_OXIDE,
                device_id: PROPOLIS_BRIDGE_DEV_ID,
            }),
    {
        Self::with_pci_ids(downstream_bus_id, attachment_addr, VENDOR_OXIDE, PROPOLIS_BRIDGE_DEV_ID)
    }

    /// A bridge with the given identifiers.
    pub fn with_pci_ids(
        downstream_bus_id: LogicalBusId,
        attachment_addr: Bdf,
        vendor_id: u16,
        device_id: u16,
    ) -> (r: BridgeDescription)
        ensures
            r == (BridgeDescription { downstream_bus_id, attachment_addr, vendor_id, device_id }),
    {
        BridgeDescription { downstream_bus_id, attachment_addr, vendor_id, device_id }
    }
}

/// Whether there is a logical bus of that number: bus 0, or one behind a
/// bridge.
pub open spec fn has_bus(bridges: Seq<BridgeDescription>, id: LogicalBusId) -> bool {
    id.0 == 0 || exists|k: int|
        0 <= k < bridges.len() && (#[trigger] bridges[k]).downstream_bus_id == id
}

/// Whether a bridge is attached there.
pub open spec fn has_addr(bridges: Seq<BridgeDescription>, addr: Bdf) -> bool {
    exists|k: int| 0 <= k < bridges.len() && (#[trigger] bridges[k]).attachment_addr == addr
}

/// The first bridge from `i` on that is to be attached to a bus that does not
/// exist.
pub open spec fn first_astray(bridges: Seq<BridgeDescription>, i: int) -> Option<LogicalBusId>
    decreases bridges.len() - i,
{
    if i < 0 || i >= bridges.len() {
        None
    } else {
        let id = LogicalBusId(bridges[i].attachment_addr.bus.0);
        if has_bus(bridges, id) {
            first_astray(bridges, i + 1)
        } else {
            Some(id)
        }
    }
}

/// Builds a topology.
#[derive(Debug)]
pub struct Builder {
    pub bridges: Vec<BridgeDescription>,
}

/// A topology, and the places of its bridges.
#[derive(Debug)]
pub struct FinishedTopology {
    pub topology: Topology,
    pub bridges: Vec<Bdf>,
}

/// Whether a bus is behind bridge `b - 1`, or is the root bus.
pub open spec fn logical_of(bridges: Seq<BridgeDescription>, n: int, b: int) -> bool {
    if b == 0 {
        n == 0
    } else {
        1 <= b <= bridges.len() && bridges[b - 1].downstream_bus_id.0 == n
    }
}

/// Whether the logical numbers of the root bus and of the buses behind the
/// first `m` bridges are known, and no others.
pub open spec fn logical_known(v: Seq<Option<usize>>, bridges: Seq<BridgeDescription>, m: int) -> bool {
    &&& v.len() == 256
    &&& v[0] == Some(0usize)
    &&& forall|n: int|
        0 <= n < 256 ==> (#[trigger] v[n] matches Some(b) ==> b <= m && logical_of(
            bridges,
            n,
            b as int,
        ))
    &&& forall|i: int|
        0 <= i < m ==> v[(#[trigger] bridges[i]).downstream_bus_id.0 as int] == Some(
            (i + 1) as usize,
        )
}

/// Where a bridge is attached: the index of the bus, and the place on it.
pub open spec fn attach_place(v: Seq<Option<usize>>, d: BridgeDescription) -> (int, int) {
    (v[d.attachment_addr.bus.0 as int]->0 as int, func_no(d.attachment_addr.location))
}

/// Whether the first `m` bridges are where they are to be, and nothing else is
/// anywhere.
pub open spec fn attached(
    buses: Seq<BusView>,
    v: Seq<Option<usize>>,
    bridges: Seq<BridgeDescription>,
    m: int,
) -> bool {
    &&& forall|i: int|
        0 <= i < m ==> {
            let (b, k) = attach_place(v, #[trigger] bridges[i]);
            0 <= b < buses.len() && buses[b].funcs[k] == Some(Endpoint::Bridge(i as usize))
        }
    &&& forall|b: int, k: int|
        0 <= b < buses.len() && 0 <= k < 256 ==> (#[trigger] buses[b].funcs[k] matches Some(ep)
            ==> exists|i: int|
            0 <= i < m && attach_place(v, #[trigger] bridges[i]) == (b, k) && ep
                == Endpoint::Bridge(i as usize))
}

/// A bridge as it is built from its description.
pub open spec fn bridge_of(d: BridgeDescription, i: int) -> Bridge {
    Bridge {
        attachment: Some(
            Attachment { location: d.attachment_addr.location, lintr_cfg: None },
        ),
        ..Bridge::spec_new(d.vendor_id, d.device_id, i as usize, d.downstream_bus_id)
    }
}

/// Whether the buses are numbered in order and place no BAR.
pub open spec fn buses_bare(buses: Seq<BusView>) -> bool {
    &&& forall|b: int| 0 <= b < buses.len() ==> (#[trigger] buses[b]).index == b
    &&& forall|b: int, k: int|
        0 <= b < buses.len() && 0 <= k < 1536 ==> #[trigger] buses[b].bars[k] is None
}

/// Whether a topology is the one that was asked for: the root bus and a bus
/// behind each bridge, each bridge in its place, no BAR placed, and all bus
/// numbers but 0 leading nowhere.
pub open spec fn built(bridges: Seq<BridgeDescription>, v: TopoView) -> bool {
    &&& v.buses.len() == bridges.len() + 1
    &&& v.bridges == Seq::new(bridges.len(), |i: int| bridge_of(bridges[i], i))
    &&& logical_known(v.router.logical, bridges, bridges.len() as int)
    &&& forall|n: int| 1 <= n < 256 ==> #[trigger] v.router.routed[n] is None
    &&& attached(v.buses, v.router.logical, bridges, bridges.len() as int)
    &&& buses_bare(v.buses)
}

impl Builder {
    /// The invariant of builders: neither a logical bus nor a place is used
    /// twice, and logical bus 0 is not behind a bridge.
    pub open spec fn wf(self) -> bool {
        &&& self.bridges@.len() < usize::MAX
        &&& forall|i: int|
            0 <= i < self.bridges@.len() ==> (#[trigger] self.bridges@[i]).downstream_bus_id.0 != 0
                && self.bridges@[i].attachment_addr.location.wf()
        &&& forall|i: int, j: int|
            0 <= i < j < self.bridges@.len() ==> (
            #[trigger] self.bridges@[i]).downstream_bus_id != (
            #[trigger] self.bridges@[j]).downstream_bus_id && self.bridges@[i].attachment_addr
                != self.bridges@[j].attachment_addr
    }

    /// A topology of the root bus alone.
    pub fn new() -> (r: Builder)
        ensures
            r.wf(),
            r.bridges@ == Seq::<BridgeDescription>::empty(),
    {
        Builder { bridges: Vec::new() }
    }

    /// Adds a bridge, unless its logical bus or its place is in use.
    pub fn add_bridge(&mut self, desc: BridgeDescription) -> (r: Result<(), PciTopologyError>)
        requires
            old(self).wf(),
            old(self).bridges@.len() + 1 < usize::MAX,
            desc.attachment_addr.location.wf(),
        ensures
            final(self).wf(),
            if has_bus(old(self).bridges@, desc.downstream_bus_id) {
                &&& r == Err::<(), PciTopologyError>(
                    PciTopologyError::LogicalBusAlreadyExists(desc.downstream_bus_id),
                )
                &&& final(self).bridges@ == old(self).bridges@
            } else if has_addr(old(self).bridges@, desc.attachment_addr) {
                &&& r == Err::<(), PciTopologyError>(
                    PciTopologyError::DeviceAlreadyAttached(desc.attachment_addr),
                )
                &&& final(self).bridges@ == old(self).bridges@
            } else {
                &&& r is Ok
                &&& final(self).bridges@ == old(self).bridges@.push(desc)
            },
    {
        if desc.downstream_bus_id.0 == 0 {
            return Err(PciTopologyError::LogicalBusAlreadyExists(desc.downstream_bus_id));
        }
        let mut i: usize = 0;
        while i < self.bridges.len()
            invariant
                i <= self.bridges@.len(),
                *self == *old(self),
                old(self).wf(),
                forall|k: int|
                    0 <= k < i ==> (#[trigger] self.bridges@[k]).downstream_bus_id
                        != desc.downstream_bus_id,
            decreases self.bridges@.len() - i,
        {
            if self.bridges[i].downstream_bus_id.0 == desc.downstream_bus_id.0 {
                assert(self.bridges@[i as int].downstream_bus_id == desc.downstream_bus_id);
                return Err(PciTopologyError::LogicalBusAlreadyExists(desc.downstream_bus_id));
            }
            i += 1;
        }
        let mut j: usize = 0;
        while j < self.bridges.len()
            invariant
                j <= self.bridges@.len(),
                *self == *old(self),
                old(self).wf(),
                !has_bus(self.bridges@, desc.downstream_bus_id),
                forall|k: int|
                    0 <= k < j ==> (#[trigger] self.bridges@[k]).attachment_addr
                        != desc.attachment_addr,
            decreases self.bridges@.len() - j,
        {
            if self.bridges[j].attachment_addr == desc.attachment_addr {
                assert(self.bridges@[j as int].attachment_addr == desc.attachment_addr);
                return Err(PciTopologyError::DeviceAlreadyAttached(desc.attachment_addr));
            }
            j += 1;
        }
        self.bridges.push(desc);
        Ok(())
    }

    /// Gives every bus behind a bridge its logical number.
    fn make_router(&self) -> (r: Router)
        requires
            self.wf(),
        ensures
            r@.wf(),
            logical_known(r@.logical, self.bridges@, self.bridges@.len() as int),
            forall|n: int| 1 <= n < 256 ==> #[trigger] r@.routed[n] is None,
    {
        let mut router: Router = Router::new();
        let mut i: usize = 0;
        while i < self.bridges.len()
            invariant
                i <= self.bridges@.len(),
                self.wf(),
                router@.wf(),
                logical_known(router@.logical, self.bridges@, i as int),
                forall|n: int| 1 <= n < 256 ==> #[trigger] router@.routed[n] is None,
            decreases self.bridges@.len() - i,
        {
            let id: usize = self.bridges[i].downstream_bus_id.0 as usize;
            let ghost before = router@.logical;
            assert(self.bridges@[i as int].downstream_bus_id.0 != 0);
            router.logical[id] = Some(i + 1);
            proof {
                assert forall|k: int| 0 <= k < i + 1 implies router@.logical[(
                #[trigger] self.bridges@[k]).downstream_bus_id.0 as int] == Some(
                    (k + 1) as usize,
                ) by {
                    if k < i {
                        assert(self.bridges@[k].downstream_bus_id
                            != self.bridges@[i as int].downstream_bus_id);
                    }
                }
            }
            i += 1;
        }
        router
    }

    /// Makes the buses and the bridges.
    fn make_parts(&self) -> (r: (Vec<Bus>, Vec<Bridge>))
        requires
            self.wf(),
        ensures
            r.0@.len() == self.bridges@.len() + 1,
            forall|b: int|
                0 <= b < r.0@.len() ==> (#[trigger] r.0@[b])@.wf() && forall|k: int|
                    0 <= k < 256 ==> #[trigger] r.0@[b]@.funcs[k] is None,
            buses_bare(bus_views(r.0@)),
            r.1@.len() == self.bridges@.len(),
            forall|i: int|
                0 <= i < r.1@.len() ==> #[trigger] r.1@[i] == Bridge::spec_new(
                    self.bridges@[i].vendor_id,
                    self.bridges@[i].device_id,
                    i as usize,
                    self.bridges@[i].downstream_bus_id,
                ),
    {
        let mut buses: Vec<Bus> = Vec::new();
        let mut bridges: Vec<Bridge> = Vec::new();
        buses.push(Bus::new(0));
        let mut i: usize = 0;
        while i < self.bridges.len()
            invariant
                i <= self.bridges@.len(),
                self.wf(),
                buses@.len() == i + 1,
                forall|b: int|
                    0 <= b < buses@.len() ==> (#[trigger] buses@[b])@.wf() && forall|k: int|
                        0 <= k < 256 ==> #[trigger] buses@[b]@.funcs[k] is None,
                buses_bare(bus_views(buses@)),
                bridges@.len() == i,
                forall|k: int|
                    0 <= k < bridges@.len() ==> #[trigger] bridges@[k] == Bridge::spec_new(
                        self.bridges@[k].vendor_id,
                        self.bridges@[k].device_id,
                        k as usize,
                        self.bridges@[k].downstream_bus_id,
                    ),
            decreases self.bridges@.len() - i,
        {
            let d: BridgeDescription = self.bridges[i];
            let ghost before = buses@;
            let bus: Bus = Bus::new(i + 1);
            buses.push(bus);
            assert(bus_views(buses@) =~= bus_views(before).push(bus@));
            bridges.push(Bridge::new(d.vendor_id, d.device_id, i, d.downstream_bus_id));
            i += 1;
        }
        (buses, bridges)
    }

    /// The topology with the bridges that were added. Every bridge must be
    /// attached to a bus that exists.
    pub fn finish(self) -> (r: Result<FinishedTopology, PciTopologyError>)
        requires
            self.wf(),
        ensures
            match first_astray(self.bridges@, 0) {
                Some(id) => r == Err::<FinishedTopology, PciTopologyError>(
                    PciTopologyError::LogicalBusNotFound(id),
                ),
                None => r matches Ok(t) && t.topology@.wf() && built(self.bridges@, t.topology@)
                    && t.bridges@ == Seq::new(
                    self.bridges@.len(),
                    |i: int| self.bridges@[i].attachment_addr,
                ),
            },
    {
        let router: Router = self.make_router();
        let (mut buses, mut bridges): (Vec<Bus>, Vec<Bridge>) = self.make_parts();
        let ghost known = router@.logical;
        let mut places: Vec<Bdf> = Vec::new();
        let mut i: usize = 0;
        proof {
            assert(attached(bus_views(buses@), known, self.bridges@, 0)) by {
                assert forall|b: int, k: int| 0 <= b < bus_views(buses@).len() && 0 <= k < 256
                    implies (#[trigger] bus_views(buses@)[b].funcs[k] is None) by {
                    assert(buses@[b]@.funcs[k] is None);
                }
            }
        }
        while i < self.bridges.len()
            invariant
                i <= self.bridges@.len(),
                self.wf(),
                router@.wf(),
                known == router@.logical,
                logical_known(known, self.bridges@, self.bridges@.len() as int),
                buses@.len() == self.bridges@.len() + 1,
                forall|b: int| 0 <= b < buses@.len() ==> (#[trigger] buses@[b])@.wf(),
                attached(bus_views(buses@), known, self.bridges@, i as int),
                buses_bare(bus_views(buses@)),
                bridges@.len() == self.bridges@.len(),
                forall|k: int|
                    0 <= k < i ==> #[trigger] bridges@[k] == bridge_of(self.bridges@[k], k),
                forall|k: int|
                    i <= k < bridges@.len() ==> #[trigger] bridges@[k] == Bridge::spec_new(
                        self.bridges@[k].vendor_id,
                        self.bridges@[k].device_id,
                        k as usize,
                        self.bridges@[k].downstream_bus_id,
                    ),
                forall|k: int|
                    0 <= k < i ==> known[(
                    #[trigger] self.bridges@[k]).attachment_addr.bus.0 as int] is Some,
                places@ == Seq::new(i as nat, |k: int| self.bridges@[k].attachment_addr),
                first_astray(self.bridges@, i as int) == first_astray(self.bridges@, 0),
            decreases self.bridges@.len() - i,
        {
            let d: BridgeDescription = self.bridges[i];
            let addr: Bdf = d.attachment_addr;
            let ghost id = LogicalBusId(addr.bus.0);
            let ghost n = addr.bus.0 as int;
            proof {
                lemma_has_bus(known, self.bridges@, id);
            }
            match router.logical[addr.bus.0 as usize] {
                None => {
                    return Err(
                        PciTopologyError::LogicalBusNotFound(LogicalBusId(addr.bus.0)),
                    );
                },
                Some(b) => {
                    let ghost before = bus_views(buses@);
                    proof {
                        assert(known[n] == Some(b));
                        assert(buses@[b as int]@.wf());
                        assert(self.bridges@[i as int].attachment_addr.location.wf());
                        law_places_differ(addr.location, addr.location, BarN::BAR0, BarN::BAR0);
                        lemma_place_free(before, known, self.bridges@, i as int);
                        assert(before[b as int] == buses@[b as int]@);
                    }
                    let a: Attachment = buses[b].attach(addr.location, Endpoint::Bridge(i), None);
                    bridges[i].attach(a);
                    places.push(addr);
                    proof {
                        let after = bus_views(buses@);
                        assert(after =~= before.update(
                            b as int,
                            before[b as int].with(addr.location, Endpoint::Bridge(i)),
                        ));
                        lemma_attach_one(before, after, known, self.bridges@, i as int);
                    }
                    i += 1;
                    assert(places@ =~= Seq::new(
                        i as nat,
                        |k: int| self.bridges@[k].attachment_addr,
                    ));
                },
            }
        }
        let topology: Topology = Topology { buses, bridges, router };
        proof {
            assert(topology@.bridges =~= Seq::new(
                self.bridges@.len(),
                |i: int| bridge_of(self.bridges@[i], i),
            ));
            assert(first_astray(self.bridges@, i as int) is None);
            lemma_built_wf(self.bridges@, topology@);
        }
        Ok(FinishedTopology { topology, bridges: places })
    }
}

/// A logical number is known exactly if there is such a bus.
proof fn lemma_has_bus(v: Seq<Option<usize>>, bridges: Seq<BridgeDescription>, id: LogicalBusId)
    requires
        logical_known(v, bridges, bridges.len() as int),
    ensures
        v[id.0 as int] is Some <==> has_bus(bridges, id),
{
    if let Some(b) = v[id.0 as int] {
        if b > 0 {
            assert(bridges[b - 1].downstream_bus_id == id);
        }
    }
    if has_bus(bridges, id) && id.0 != 0 {
        let k = choose|k: int|
            0 <= k < bridges.len() && (#[trigger] bridges[k]).downstream_bus_id == id;
        assert(v[bridges[k].downstream_bus_id.0 as int] is Some);
    }
}

/// The place of the next bridge is free.
proof fn lemma_place_free(
    buses: Seq<BusView>,
    v: Seq<Option<usize>>,
    bridges: Seq<BridgeDescription>,
    i: int,
)
    requires
        logical_known(v, bridges, bridges.len() as int),
        buses.len() == bridges.len() + 1,
        0 <= i < bridges.len(),
        attached(buses, v, bridges, i),
        v[bridges[i].attachment_addr.bus.0 as int] is Some,
        forall|k: int|
            0 <= k < bridges.len() ==> (#[trigger] bridges[k]).attachment_addr.location.wf(),
        forall|j: int, k: int|
            0 <= j < k < bridges.len() ==> (#[trigger] bridges[j]).attachment_addr != (
            #[trigger] bridges[k]).attachment_addr,
        forall|j: int|
            0 <= j < i ==> v[(#[trigger] bridges[j]).attachment_addr.bus.0 as int] is Some,
    ensures
        buses[attach_place(v, bridges[i]).0].funcs[attach_place(v, bridges[i]).1] is None,
{
    let (b, k) = attach_place(v, bridges[i]);
    let addr = bridges[i].attachment_addr;
    law_places_differ(addr.location, addr.location, BarN::BAR0, BarN::BAR0);
    if buses[b].funcs[k] is Some {
        let j = choose|j: int|
            0 <= j < i && attach_place(v, #[trigger] bridges[j]) == (b, k) && buses[b].funcs[k]->0
                == Endpoint::Bridge(j as usize);
        let other = bridges[j].attachment_addr;
        law_places_differ(addr.location, other.location, BarN::BAR0, BarN::BAR0);
        assert(other.location == addr.location);
        assert(v[other.bus.0 as int] is Some);
        assert(logical_of(bridges, other.bus.0 as int, b));
        assert(logical_of(bridges, addr.bus.0 as int, b));
        assert(other.bus == addr.bus);
        assert(bridges[j].attachment_addr != bridges[i].attachment_addr);
    }
}

/// Attaching the next bridge puts it in its place.
proof fn lemma_attach_one(
    before: Seq<BusView>,
    after: Seq<BusView>,
    v: Seq<Option<usize>>,
    bridges: Seq<BridgeDescription>,
    i: int,
)
    requires
        attached(before, v, bridges, i),
        0 <= i < bridges.len(),
        i < usize::MAX,
        forall|b: int| 0 <= b < before.len() ==> (#[trigger] before[b]).wf(),
        forall|k: int|
            0 <= k < bridges.len() ==> (#[trigger] bridges[k]).attachment_addr.location.wf(),
        0 <= attach_place(v, bridges[i]).0 < before.len(),
        before[attach_place(v, bridges[i]).0].funcs[attach_place(v, bridges[i]).1] is None,
        after == before.update(
            attach_place(v, bridges[i]).0,
            before[attach_place(v, bridges[i]).0].with(
                bridges[i].attachment_addr.location,
                Endpoint::Bridge(i as usize),
            ),
        ),
    ensures
        attached(after, v, bridges, i + 1),
{
    let (b0, k0) = attach_place(v, bridges[i]);
    let loc = bridges[i].attachment_addr.location;
    law_places_differ(loc, loc, BarN::BAR0, BarN::BAR0);
    assert(before[b0].wf());
    assert forall|j: int| 0 <= j < i + 1 implies ({
        let (b, k) = attach_place(v, #[trigger] bridges[j]);
        0 <= b < after.len() && after[b].funcs[k] == Some(Endpoint::Bridge(j as usize))
    }) by {
        let (b, k) = attach_place(v, bridges[j]);
        let at = bridges[j].attachment_addr.location;
        law_places_differ(at, at, BarN::BAR0, BarN::BAR0);
        if j < i {
            assert(before[b].funcs[k] == Some(Endpoint::Bridge(j as usize)));
            assert(before[b].wf());
        }
    }
    assert forall|b: int, k: int| 0 <= b < after.len() && 0 <= k < 256 implies (
    #[trigger] after[b].funcs[k] matches Some(ep) ==> exists|j: int|
        0 <= j < i + 1 && attach_place(v, #[trigger] bridges[j]) == (b, k) && ep
            == Endpoint::Bridge(j as usize)) by {
        if after[b].funcs[k] is Some {
            if b == b0 && k == k0 {
                assert(attach_place(v, bridges[i]) == (b, k));
            } else {
                assert(before[b].funcs[k] == after[b].funcs[k]);
                let j = choose|j: int|
                    0 <= j < i && attach_place(v, #[trigger] bridges[j]) == (b, k)
                        && before[b].funcs[k]->0 == Endpoint::Bridge(j as usize);
                assert(attach_place(v, bridges[j]) == (b, k));
            }
        }
    }
}

/// A topology that was just built is a good one.
proof fn lemma_built_wf(bridges: Seq<BridgeDescription>, v: TopoView)
    requires
        built(bridges, v),
        bridges.len() < usize::MAX,
        v.router.wf(),
        forall|b: int| 0 <= b < v.buses.len() ==> (#[trigger] v.buses[b]).wf(),
    ensures
        v.wf(),
{
    assert forall|b: int| 0 <= b < v.buses.len() implies #[trigger] bridges_exist(
        v.buses[b],
        v.bridges.len(),
    ) by {
        assert(v.buses[b].wf());
        assert forall|k: int| 0 <= k < 256 implies (#[trigger] v.buses[b].funcs[k] matches Some(
            Endpoint::Bridge(x),
        ) ==> x < v.bridges.len()) by {}
    }
    assert forall|n: int| 0 <= n < 256 implies #[trigger] route_exists(v, n) by {
        if n > 0 {
            assert(v.router.routed[n] is None);
        }
        if v.router.logical[n] is Some {
            assert(logical_of(bridges, n, v.router.logical[n]->0 as int));
        }
    }
    assert forall|i: int| 0 <= i < v.bridges.len() implies #[trigger] bridge_ok(v, i) by {
        assert(v.bridges[i] == bridge_of(bridges[i], i));
        assert(v.router.logical[bridges[i].downstream_bus_id.0 as int] is Some);
    }
}

} // verus!
