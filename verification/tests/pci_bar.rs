use propolis::hw::pci::bar::{BarDefine, BarStateV1, Bars};
use propolis::hw::pci::BarN;
use propolis::migrate::MigrateStateError;

fn setup() -> Bars {
    let bar_defs = [
        Some(BarDefine::Pio(0x100)),
        Some(BarDefine::Mmio(0x20000)),
        Some(BarDefine::Mmio64(0x40000)),
        None, // high bits
        Some(BarDefine::Mmio64(0x200000000)),
        None, // high bits
    ];
    Bars::new(&bar_defs)
}

#[test]
fn init() {
    let _ = setup();
}

#[test]
fn read_type() {
    let mut bars = setup();
    bars.set(BarN::BAR0, 0x1000);
    bars.set(BarN::BAR1, 0xc000000);
    bars.set(BarN::BAR2, 0xd000000);
    bars.set(BarN::BAR4, 0x800000000);

    assert_eq!(bars.reg_read(BarN::BAR0), 0x1001);
    assert_eq!(bars.reg_read(BarN::BAR1), 0xc000000);
    assert_eq!(bars.reg_read(BarN::BAR2), 0xd000004);
    assert_eq!(bars.reg_read(BarN::BAR3), 0);
    assert_eq!(bars.reg_read(BarN::BAR4), 0x4);
    assert_eq!(bars.reg_read(BarN::BAR5), 0x8);
}

#[test]
fn write_place() {
    let mut bars = setup();
    bars.reg_write(BarN::BAR0, 0x1000);
    bars.reg_write(BarN::BAR1, 0xc000000);
    bars.reg_write(BarN::BAR2, 0xd000000);
    bars.reg_write(BarN::BAR5, 0x8);
    bars.reg_write(BarN::BAR4, 0x0);

    assert_eq!(bars.reg_read(BarN::BAR0), 0x1001);
    assert_eq!(bars.reg_read(BarN::BAR1), 0xc000000);
    assert_eq!(bars.reg_read(BarN::BAR2), 0xd000004);
    assert_eq!(bars.reg_read(BarN::BAR3), 0);
    assert_eq!(bars.reg_read(BarN::BAR4), 0x4);
    assert_eq!(bars.reg_read(BarN::BAR5), 0x8);
}

#[test]
fn limits() {
    let mut bars = setup();
    for i in 0..=5u8 {
        bars.reg_write(BarN::from_repr(i).unwrap(), 0xffffffff);
    }
    assert_eq!(bars.reg_read(BarN::BAR0), 0x0000ff01);
    assert_eq!(bars.reg_read(BarN::BAR1), 0xfffe0000);
    assert_eq!(bars.reg_read(BarN::BAR2), 0xfffc0004);
    assert_eq!(bars.reg_read(BarN::BAR3), 0xffffffff);
    assert_eq!(bars.reg_read(BarN::BAR4), 0x00000004);
    assert_eq!(bars.reg_read(BarN::BAR5), 0xfffffffe);
}

#[test]
fn write_reports_change_once() {
    let mut bars = setup();
    let first = bars.reg_write(BarN::BAR1, 0xc000000).unwrap();
    assert_eq!(first.id, BarN::BAR1);
    assert_eq!(first.def, BarDefine::Mmio(0x20000));
    assert_eq!(first.val_old, 0);
    assert_eq!(first.val_new, 0xc000000);
    assert!(bars.reg_write(BarN::BAR1, 0xc000000).is_none());
}

#[test]
fn high_half_is_told_under_the_low_register() {
    let mut bars = setup();
    let res = bars.reg_write(BarN::BAR5, 0x8).unwrap();
    assert_eq!(res.id, BarN::BAR4);
    assert_eq!(res.val_new, 0x800000000);
}

#[test]
fn saved_bars_come_back() {
    let mut bars = setup();
    bars.set(BarN::BAR0, 0x1000);
    bars.set(BarN::BAR4, 0x800000000);
    let saved: BarStateV1 = bars.export();
    let mut other = setup();
    assert_eq!(other.import(saved), Ok(()));
    for i in 0..=5u8 {
        let n = BarN::from_repr(i).unwrap();
        assert_eq!(other.get(n), bars.get(n));
        assert_eq!(other.reg_read(n), bars.reg_read(n));
    }
}

#[test]
fn saved_bars_must_fit() {
    let bars = Bars::new(&[None, None, None, None, None, None]);
    let mut saved = bars.export();
    saved.entries[0].kind = propolis::hw::pci::bar::BarKindV1::Pio;
    saved.entries[0].value = 0;
    saved.entries[0].size = 0x10000;
    let mut other = setup();
    assert_eq!(other.import(saved), Err(MigrateStateError::PioBarSize(0x10000)));
}

#[test]
fn new_bars_are_those_that_were_defined() {
    let defs = [
        Some(BarDefine::Pio(0x20)),
        None,
        Some(BarDefine::Mmio64(0)),
        None,
        Some(BarDefine::Mmio(0x1000)),
        None,
    ];
    let bars = Bars::new(&defs);
    for i in 0..=5u8 {
        let n = BarN::from_repr(i).unwrap();
        assert_eq!(bars.get(n), defs[i as usize].map(|d| (d, 0)));
    }
}
