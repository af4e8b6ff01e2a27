use propolis::common::{RWOp, ReadOp};
use propolis::hw::pci::bus::Endpoint;
use propolis::hw::pci::topology::{
    BridgeDescription, Builder, CfgAnswer, LogicalBusId, PciTopologyError, RoutedBusId,
};
use propolis::hw::pci::{Bdf, BusLocation};

fn read_one() -> RWOp {
    RWOp::Read(ReadOp::from_buf(0, vec![0u8; 1]))
}

#[test]
fn build_without_bridges() {
    let builder = Builder::new();
    assert!(builder.finish().is_ok());
}

#[test]
fn build_with_bridges() {
    let mut builder = Builder::new();

    assert!(builder
        .add_bridge(BridgeDescription::new(LogicalBusId(1), Bdf::new(0, 1, 0).unwrap()))
        .is_ok());
    assert!(builder
        .add_bridge(BridgeDescription::new(LogicalBusId(4), Bdf::new(0, 4, 0).unwrap()))
        .is_ok());

    assert!(builder.finish().is_ok());
}

#[test]
fn builder_bus_zero_reserved() {
    let mut builder = Builder::new();
    assert!(builder
        .add_bridge(BridgeDescription::new(LogicalBusId(0), Bdf::new(0, 3, 0).unwrap()))
        .is_err());
}

#[test]
fn builder_conflicts() {
    let mut builder = Builder::new();
    assert!(builder
        .add_bridge(BridgeDescription::new(LogicalBusId(7), Bdf::new(0, 7, 0).unwrap()))
        .is_ok());
    assert!(builder
        .add_bridge(BridgeDescription::new(LogicalBusId(7), Bdf::new(0, 4, 0).unwrap()))
        .is_err());
    assert!(builder
        .add_bridge(BridgeDescription::new(LogicalBusId(4), Bdf::new(0, 7, 0).unwrap()))
        .is_err());
}

#[test]
fn cfg_read() {
    let mut builder = Builder::new();
    assert!(builder
        .add_bridge(BridgeDescription::new(LogicalBusId(1), Bdf::new(0, 1, 0).unwrap()))
        .is_ok());

    let mut topology = builder.finish().unwrap().topology;
    assert!(topology
        .pci_cfg_rw(RoutedBusId(0), BusLocation::new(1, 0).unwrap(), read_one())
        .is_some());
    assert!(topology
        .pci_cfg_rw(RoutedBusId(1), BusLocation::new(1, 0).unwrap(), read_one())
        .is_none());
}

#[test]
fn registered_bridges() {
    let before = Builder::new().finish().unwrap().bridges.len();

    let mut builder = Builder::new();
    assert!(builder
        .add_bridge(BridgeDescription::new(LogicalBusId(1), Bdf::new(0, 1, 0).unwrap()))
        .is_ok());
    let after = builder.finish().unwrap().bridges.len();
    assert!(after > before);
}

#[test]
fn errors_name_what_is_wrong() {
    let at = Bdf::new(0, 7, 0).unwrap();
    let mut builder = Builder::new();
    builder.add_bridge(BridgeDescription::new(LogicalBusId(7), at)).unwrap();
    assert_eq!(
        builder.add_bridge(BridgeDescription::new(LogicalBusId(7), Bdf::new(0, 4, 0).unwrap())),
        Err(PciTopologyError::LogicalBusAlreadyExists(LogicalBusId(7)))
    );
    assert_eq!(
        builder.add_bridge(BridgeDescription::new(LogicalBusId(4), at)),
        Err(PciTopologyError::DeviceAlreadyAttached(at))
    );

    let mut builder = Builder::new();
    builder
        .add_bridge(BridgeDescription::new(LogicalBusId(1), Bdf::new(9, 1, 0).unwrap()))
        .unwrap();
    assert!(matches!(
        builder.finish(),
        Err(PciTopologyError::LogicalBusNotFound(LogicalBusId(9)))
    ));
}

#[test]
fn devices_are_found_where_they_are_attached() {
    let mut topology = Builder::new().finish().unwrap().topology;
    let at = BusLocation::new(5, 2).unwrap();
    let a = topology.pci_attach(LogicalBusId(0), at, Endpoint::Device(40), None).unwrap();
    assert_eq!(a.location, at);
    assert!(matches!(
        topology.pci_cfg_rw(RoutedBusId(0), at, read_one()),
        Some(CfgAnswer::Device(40, _))
    ));
    assert!(matches!(
        topology.pci_attach(LogicalBusId(3), at, Endpoint::Device(41), None),
        Err(PciTopologyError::LogicalBusNotFound(LogicalBusId(3)))
    ));
}

#[test]
fn buses_are_numbered_in_order() {
    let mut builder = Builder::new();
    for n in [7, 3] {
        let at = Bdf::new(0, n, 0).unwrap();
        assert!(builder.add_bridge(BridgeDescription::new(LogicalBusId(n), at)).is_ok());
    }
    let t = builder.finish().ok().unwrap().topology;
    let indices: Vec<usize> = t.buses.iter().map(|b| b.index).collect();
    assert_eq!(indices, vec![0, 1, 2]);
    assert!(t.buses.iter().all(|b| b.bars.iter().all(|s| s.is_none())));
}
