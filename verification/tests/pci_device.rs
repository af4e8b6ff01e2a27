use propolis::common::{RWOp, ReadOp, WriteOp};
use propolis::hw::pci::bar::BarDefine;
use propolis::hw::pci::bus::Attachment;
use propolis::hw::pci::device::{Builder, DevCtx, DeviceState, Ident, SlotInfo};
use propolis::hw::pci::msix::MsixCfg;
use propolis::hw::pci::{BarN, BusLocation, DevEvent, INTxPinID, IntrMode, LintrCfg};
use propolis::migrate::MigrateStateError;

#[test]
fn msix_cfg_sizing() {
    let (_cfg, bar_size) = MsixCfg::new(2048, BarN::BAR1);
    // 32k for entries + 4k PBA -> 64k (rounded to next pow2)
    assert_eq!(bar_size, 65536);

    // 4k for entries + 4k PBA
    let (_cfg, bar_size) = MsixCfg::new(256, BarN::BAR1);
    assert_eq!(bar_size, 8192);
}

fn ctx() -> DevCtx {
    DevCtx {
        slot: SlotInfo { is_multifunc: false, lintr_asserted: false },
        events: Vec::new(),
    }
}

fn device() -> DeviceState {
    let ident = Ident {
        vendor_id: 0x1de,
        device_id: 0x1234,
        class: 1,
        subclass: 8,
        prog_if: 2,
        revision_id: 5,
        sub_vendor_id: 0x1de,
        sub_device_id: 0x4321,
    };
    let mut dev = Builder::new(ident)
        .add_bar_io(BarN::BAR0, 0x100)
        .add_bar_mmio64(BarN::BAR2, 0x4000)
        .add_lintr()
        .add_cap_msix(BarN::BAR4, 16)
        .finish();
    dev.attach(Attachment {
        location: BusLocation::new(4, 0).unwrap(),
        lintr_cfg: Some(LintrCfg { id: INTxPinID::IntA, line: 17 }),
    });
    dev
}

fn read(dev: &mut DeviceState, off: usize, len: usize, c: &mut DevCtx) -> Vec<u8> {
    match dev.cfg_rw(RWOp::Read(ReadOp::from_buf(off, vec![0; len])), c) {
        RWOp::Read(ro) => ro.buf,
        RWOp::Write(_) => panic!(),
    }
}

fn write(dev: &mut DeviceState, off: usize, data: Vec<u8>, c: &mut DevCtx) {
    dev.cfg_rw(RWOp::Write(WriteOp::from_buf(off, data)), c);
}

#[test]
fn header_identifies_the_device() {
    let (mut dev, mut c) = (device(), ctx());
    assert_eq!(read(&mut dev, 0, 4, &mut c), vec![0xde, 0x01, 0x34, 0x12]);
    // Revision, interface, subclass and class
    assert_eq!(read(&mut dev, 8, 4, &mut c), vec![5, 2, 8, 1]);
    assert_eq!(read(&mut dev, 0x2c, 4, &mut c), vec![0xde, 0x01, 0x21, 0x43]);
    // The interrupt pin
    assert_eq!(read(&mut dev, 0x3d, 1, &mut c), vec![1]);
    // Parts of registers read as such
    assert_eq!(read(&mut dev, 1, 2, &mut c), vec![0x01, 0x34]);
}

#[test]
fn multifunction_bit_follows_the_slot() {
    let (mut dev, mut c) = (device(), ctx());
    assert_eq!(read(&mut dev, 0xe, 1, &mut c), vec![0]);
    c.slot.is_multifunc = true;
    assert_eq!(read(&mut dev, 0xe, 1, &mut c), vec![0x80]);
}

#[test]
fn command_register_places_bars() {
    let (mut dev, mut c) = (device(), ctx());
    write(&mut dev, 0x10, vec![0x00, 0xc0, 0, 0], &mut c);
    assert!(c.events.is_empty());
    // Enable I/O
    write(&mut dev, 4, vec![1, 0], &mut c);
    assert!(c
        .events
        .contains(&DevEvent::BarRegister(BarN::BAR0, BarDefine::Pio(0x100), 0xc000)));
    assert_eq!(read(&mut dev, 4, 2, &mut c), vec![1, 0]);
    c.events.clear();
    // Move it
    write(&mut dev, 0x10, vec![0x00, 0xd0, 0, 0], &mut c);
    assert!(c
        .events
        .contains(&DevEvent::BarRegister(BarN::BAR0, BarDefine::Pio(0x100), 0xd000)));
    c.events.clear();
    // Disable I/O again
    write(&mut dev, 4, vec![0, 0], &mut c);
    assert_eq!(c.events, vec![DevEvent::BarUnregister(BarN::BAR0)]);
}

#[test]
fn capabilities_are_chained() {
    let (mut dev, mut c) = (device(), ctx());
    let ptr = read(&mut dev, 0x34, 1, &mut c)[0] as usize;
    assert_eq!(ptr, 0x40);
    // MSI-X, the last one
    assert_eq!(read(&mut dev, ptr, 2, &mut c), vec![0x11, 0]);
    // 16 vectors, told as one less
    assert_eq!(read(&mut dev, ptr + 2, 2, &mut c), vec![15, 0]);
}

#[test]
fn interrupt_mode_follows_msix_and_the_command_register() {
    let (mut dev, mut c) = (device(), ctx());
    assert!(matches!(dev.get_intr_mode(), IntrMode::INTxPin));
    write(&mut dev, 0x42, vec![0x00, 0x80], &mut c);
    assert!(matches!(dev.get_intr_mode(), IntrMode::Msix));
    assert!(c.events.contains(&DevEvent::IntrModeChange(IntrMode::Msix)));
}

#[test]
fn whole_configuration_space_can_be_accessed() {
    let (mut dev, mut c) = (device(), ctx());
    for off in (0..=255).step_by(4) {
        assert_eq!(read(&mut dev, off, 4, &mut c).len(), 4);
    }
    for off in (0..=255).step_by(4) {
        write(&mut dev, off, vec![0xff; 4], &mut c);
    }
}

#[test]
fn reset_is_idempotent() {
    let (mut dev, mut c) = (device(), ctx());
    write(&mut dev, 0x10, vec![0x00, 0xc0, 0, 0], &mut c);
    write(&mut dev, 4, vec![7, 0], &mut c);
    dev.reset(&mut c);
    let once: Vec<Vec<u8>> = (0..64).map(|i| read(&mut dev, 4 * i, 4, &mut c)).collect();
    dev.reset(&mut c);
    let twice: Vec<Vec<u8>> = (0..64).map(|i| read(&mut dev, 4 * i, 4, &mut c)).collect();
    assert_eq!(once, twice);
    assert_eq!(once[1][0], 0);
    assert_eq!(once[4], vec![1, 0, 0, 0]);
}

#[test]
fn saved_device_comes_back() {
    let (mut dev, mut c) = (device(), ctx());
    write(&mut dev, 0x10, vec![0x00, 0xc0, 0, 0], &mut c);
    write(&mut dev, 4, vec![1, 0], &mut c);
    write(&mut dev, 0x3c, vec![11], &mut c);
    let saved = dev.export();
    let (mut other, mut d) = (device(), ctx());
    assert_eq!(other.import(saved, &mut d), Ok(()));
    for off in (0..=255).step_by(4) {
        assert_eq!(read(&mut other, off, 4, &mut d), read(&mut dev, off, 4, &mut c));
    }
    assert!(d
        .events
        .contains(&DevEvent::BarRegister(BarN::BAR0, BarDefine::Pio(0x100), 0xc000)));
}

#[test]
fn saved_command_register_must_exist() {
    let mut saved = device().export();
    saved.reg_command = 0x8000;
    assert_eq!(
        device().import(saved, &mut ctx()),
        Err(MigrateStateError::PciCommand(0x8000))
    );
}

#[test]
fn saved_msix_must_belong_to_the_device() {
    let mut saved = device().export();
    saved.msix = None;
    assert_eq!(device().import(saved, &mut ctx()), Err(MigrateStateError::MsixMissing));

    let mut plain = Builder::new(Ident::default()).finish();
    let with_msix = {
        let mut s = plain.export();
        s.msix = device().export().msix;
        s
    };
    assert_eq!(
        plain.import(with_msix, &mut ctx()),
        Err(MigrateStateError::MsixUnexpected)
    );
}

#[test]
fn masked_vector_is_sent_when_it_is_unmasked() {
    let (mut dev, mut c) = (device(), ctx());
    // Enable MSI-X
    write(&mut dev, 0x42, vec![0x00, 0x80], &mut c);
    // Address, data and mask of vector 1
    let entry = [0u8, 0x10, 0xe0, 0xfe, 0, 0, 0, 0, 0x31, 0, 0, 0, 1, 0, 0, 0];
    let wo = RWOp::Write(WriteOp::from_buf(16, entry.to_vec()));
    assert!(dev.bar_rw(BarN::BAR4, wo, &mut c).is_ok());
    c.events.clear();
    let mut hdl = dev.msix_hdl().unwrap();
    assert!(hdl.fire(1).is_none());
    dev.msix_return(hdl);
    // It waits, as the pending bits tell
    let wo = RWOp::Write(WriteOp::from_buf(16 + 12, vec![0, 0, 0, 0]));
    assert!(dev.bar_rw(BarN::BAR4, wo, &mut c).is_ok());
    assert!(c.events.iter().any(|e| matches!(
        e,
        DevEvent::SendMsi(m) if m.addr == 0xfee01000 && m.data == 0x31
    )));
}

#[test]
fn accesses_to_other_bars_are_for_the_device() {
    let (mut dev, mut c) = (device(), ctx());
    let ro = RWOp::Read(ReadOp::from_buf(0, vec![0; 4]));
    assert!(dev.bar_rw(BarN::BAR0, ro, &mut c).is_err());
}
