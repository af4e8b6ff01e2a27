use propolis::common::{RWOp, ReadOp, WriteOp};
use propolis::hw::ids::{PROPOLIS_BRIDGE_DEV_ID, VENDOR_OXIDE};
use propolis::hw::pci::bits::HEADER_TYPE_BRIDGE;
use propolis::hw::pci::bridge::{Bridge, LogicalBusId, RoutedBusId, Router};
use propolis::hw::pci::topology::{
    BridgeDescription, Builder, CfgAnswer, FinishedTopology, Topology,
};
use propolis::hw::pci::Bdf;

const OFFSET_VENDOR_ID: usize = 0x00;
const OFFSET_DEVICE_ID: usize = 0x02;
const OFFSET_HEADER_TYPE: usize = 0x0E;
const OFFSET_SECONDARY_BUS: usize = 0x19;

struct Env {
    topology: Topology,
}

impl Env {
    fn new(bridges: Option<Vec<BridgeDescription>>) -> Self {
        let mut builder = Builder::new();
        if let Some(bridges) = bridges {
            for bridge in bridges {
                builder.add_bridge(bridge).unwrap();
            }
        }
        let FinishedTopology { topology, bridges: _bridges } = builder.finish().unwrap();
        Self { topology }
    }

    fn make_bridge(&self) -> Bridge {
        Bridge::new(VENDOR_OXIDE, PROPOLIS_BRIDGE_DEV_ID, 0, LogicalBusId(0xFF))
    }

    fn read_header_byte(&mut self, target: Bdf, offset: usize) -> u8 {
        let ro = RWOp::Read(ReadOp::from_buf(offset, vec![0u8; 1]));
        let bus = RoutedBusId(target.bus.get());
        match self.topology.pci_cfg_rw(bus, target.location, ro) {
            Some(CfgAnswer::Bridge(RWOp::Read(ro))) => ro.buf[0],
            _ => 0,
        }
    }

    fn read_header_type(&mut self, target: Bdf) -> u8 {
        self.read_header_byte(target, OFFSET_HEADER_TYPE)
    }

    fn read_secondary_bus(&mut self, target: Bdf) -> u8 {
        self.read_header_byte(target, OFFSET_SECONDARY_BUS)
    }

    fn write_header_byte(&mut self, target: Bdf, offset: usize, val: u8) {
        let wo = RWOp::Write(WriteOp::from_buf(offset, vec![val; 1]));
        let bus = RoutedBusId(target.bus.get());
        self.topology.pci_cfg_rw(bus, target.location, wo);
    }

    fn write_secondary_bus(&mut self, target: Bdf, val: u8) {
        self.write_header_byte(target, OFFSET_SECONDARY_BUS, val);
    }
}

fn read(bridge: &mut Bridge, offset: usize, len: usize) -> Vec<u8> {
    let mut router = Router::new();
    match bridge.cfg_rw(RWOp::Read(ReadOp::from_buf(offset, vec![0xff; len])), &mut router) {
        RWOp::Read(ro) => ro.buf,
        RWOp::Write(_) => panic!(),
    }
}

#[test]
fn bridge_properties() {
    let env = Env::new(None);
    let mut bridge = env.make_bridge();
    let buf = read(&mut bridge, OFFSET_HEADER_TYPE, 1);
    assert_eq!(buf[0], HEADER_TYPE_BRIDGE);

    let buf = read(&mut bridge, OFFSET_VENDOR_ID, 2);
    assert_eq!(u16::from_le_bytes([buf[0], buf[1]]), VENDOR_OXIDE);

    let buf = read(&mut bridge, OFFSET_DEVICE_ID, 2);
    assert_eq!(u16::from_le_bytes([buf[0], buf[1]]), PROPOLIS_BRIDGE_DEV_ID);
}

#[test]
fn bridge_routing() {
    let mut env = Env::new(Some(vec![
        BridgeDescription::new(LogicalBusId(1), Bdf::new(0, 1, 0).unwrap()),
        BridgeDescription::new(LogicalBusId(2), Bdf::new(0, 2, 0).unwrap()),
        BridgeDescription::new(LogicalBusId(3), Bdf::new(1, 1, 0).unwrap()),
        BridgeDescription::new(LogicalBusId(4), Bdf::new(2, 1, 0).unwrap()),
    ]));

    // Set the first test bridge's downstream bus to 81, then verify that
    // 81.1.0 is a valid bridge device.
    env.write_secondary_bus(Bdf::new(0, 1, 0).unwrap(), 81);
    assert_eq!(env.read_header_type(Bdf::new(81, 1, 0).unwrap()), HEADER_TYPE_BRIDGE);

    // Write bus 83 to the newly-connected downstream bridge's secondary
    // bus number to distinguish it from the other, uninitialized bridge.
    env.write_secondary_bus(Bdf::new(81, 1, 0).unwrap(), 83);

    // Clear the test bridge's secondary bus register and verify the routing
    // is removed.
    env.write_secondary_bus(Bdf::new(0, 1, 0).unwrap(), 0);
    assert_eq!(env.read_secondary_bus(Bdf::new(81, 1, 0).unwrap()), 0);

    // Set the second parent bridge's downstream bus to 81. The downstream
    // bridge's secondary bus should not be set.
    env.write_secondary_bus(Bdf::new(0, 2, 0).unwrap(), 81);
    assert_eq!(env.read_header_type(Bdf::new(81, 1, 0).unwrap()), HEADER_TYPE_BRIDGE);
    assert_eq!(env.read_secondary_bus(Bdf::new(81, 1, 0).unwrap()), 0);

    // Route the first parent bridge to downstream bus 82 and verify the
    // child bridge with bus 83 is still there.
    env.write_secondary_bus(Bdf::new(0, 1, 0).unwrap(), 82);
    assert_eq!(env.read_secondary_bus(Bdf::new(82, 1, 0).unwrap()), 83);

    // Clear the second bridge's routing and verify that the first bridge's
    // routing is left alone.
    env.write_secondary_bus(Bdf::new(0, 2, 0).unwrap(), 0);
    assert_eq!(env.read_secondary_bus(Bdf::new(82, 1, 0).unwrap()), 83);

    // Clear the first bridge's routing and verify that its entry is also
    // safely removed.
    env.write_secondary_bus(Bdf::new(0, 1, 0).unwrap(), 0);
    assert_eq!(env.read_secondary_bus(Bdf::new(82, 1, 0).unwrap()), 0);
}

#[test]
fn secondary_bus_number_in_use_is_refused() {
    let mut env = Env::new(Some(vec![
        BridgeDescription::new(LogicalBusId(1), Bdf::new(0, 1, 0).unwrap()),
        BridgeDescription::new(LogicalBusId(2), Bdf::new(0, 2, 0).unwrap()),
    ]));
    env.write_secondary_bus(Bdf::new(0, 1, 0).unwrap(), 9);
    env.write_secondary_bus(Bdf::new(0, 2, 0).unwrap(), 9);
    assert_eq!(env.read_secondary_bus(Bdf::new(0, 1, 0).unwrap()), 9);
    assert_eq!(env.read_secondary_bus(Bdf::new(0, 2, 0).unwrap()), 0);
}
