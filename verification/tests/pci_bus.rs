use propolis::addrspace::{AddrRange, Owner};
use propolis::hw::pci::bar::BarDefine;
use propolis::hw::pci::bus::{BarState, Bus, Endpoint, IoSpaces};
use propolis::hw::pci::{BarN, BusLocation, DevEvent, IntrMode};

#[test]
fn empty() {
    let bus = Bus::new(0);

    for slot in 0..31 {
        for func in 0..7 {
            let location = BusLocation::new(slot, func).unwrap();
            assert!(
                matches!(bus.device_at(location), None),
                "no device at 0.{:?}",
                location
            );
        }
    }
}

#[test]
fn set_multifunc() {
    let mut bus = Bus::new(0);

    let first = bus.attach(BusLocation::new(0, 0).unwrap(), Endpoint::Device(0), None);
    assert_eq!(first.is_multifunc(&bus), false);

    let other_slot = bus.attach(BusLocation::new(1, 0).unwrap(), Endpoint::Device(1), None);
    assert_eq!(first.is_multifunc(&bus), false);
    assert_eq!(other_slot.is_multifunc(&bus), false);

    let same_slot = bus.attach(BusLocation::new(0, 1).unwrap(), Endpoint::Device(2), None);
    assert_eq!(first.is_multifunc(&bus), true);
    assert_eq!(same_slot.is_multifunc(&bus), true);
    assert_eq!(other_slot.is_multifunc(&bus), false);
}

#[test]
fn places_beyond_a_bus_do_not_exist() {
    assert!(BusLocation::new(32, 0).is_none());
    assert!(BusLocation::new(0, 8).is_none());
    assert!(BusLocation::new(31, 7).is_some());
}

#[test]
fn bars_are_placed_and_taken_away() {
    let mut bus = Bus::new(0);
    let mut spaces = IoSpaces::new();
    let at = BusLocation::new(3, 0).unwrap();
    let dev = bus.attach(at, Endpoint::Device(7), None);
    dev.bar_register(&mut bus, &mut spaces, BarN::BAR0, BarDefine::Mmio(0x1000), 0xc000_0000);
    assert!(spaces.mmio.find(0xc000_0800).is_some());
    assert!(spaces.mmio.find(0xc000_1000).is_none());
    assert!(spaces.pio.find(0xc000).is_none());
    dev.bar_unregister(&mut bus, &mut spaces, BarN::BAR0);
    assert!(spaces.mmio.find(0xc000_0800).is_none());
}

#[test]
fn events_of_a_device_are_applied_in_order() {
    let mut bus = Bus::new(2);
    let mut spaces = IoSpaces::new();
    let dev = bus.attach(BusLocation::new(3, 0).unwrap(), Endpoint::Device(7), None);
    let def = BarDefine::Mmio(0x1000);
    dev.apply(
        &mut bus,
        &mut spaces,
        &vec![
            DevEvent::BarRegister(BarN::BAR0, def, 0xc000_0000),
            DevEvent::IntrModeChange(IntrMode::Disabled),
            DevEvent::BarRegister(BarN::BAR2, BarDefine::Pio(8), 0x300),
            DevEvent::BarUnregister(BarN::BAR0),
            DevEvent::BarRegister(BarN::BAR0, def, 0xd000_0000),
        ],
    );
    assert!(spaces.mmio.find(0xc000_0000).is_none());
    let owner = Owner { bus: 2, reg: (3 * 8) * 6 };
    assert_eq!(
        spaces.mmio.find(0xd000_0fff),
        Some(AddrRange { start: 0xd000_0000, len: 0x1000, owner })
    );
    assert_eq!(spaces.pio.find(0x307).unwrap().start, 0x300);
    assert_eq!(
        bus.bar_at(dev.location(), BarN::BAR0),
        Some(BarState { def, value: 0xd000_0000, live: true })
    );
    assert_eq!(bus.bar_at(dev.location(), BarN::BAR1), None);

    // What conflicts is not placed, and the other stays
    let other = bus.attach(BusLocation::new(4, 0).unwrap(), Endpoint::Device(8), None);
    other.apply(
        &mut bus,
        &mut spaces,
        &vec![DevEvent::BarRegister(BarN::BAR0, BarDefine::Mmio(0x100), 0xd000_0800)],
    );
    assert_eq!(bus.bar_at(other.location(), BarN::BAR0).unwrap().live, false);
    other.apply(&mut bus, &mut spaces, &vec![DevEvent::BarUnregister(BarN::BAR0)]);
    assert_eq!(spaces.mmio.find(0xd000_0800).unwrap().owner, owner);
}
