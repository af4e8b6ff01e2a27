use propolis::common::{RWOp, ReadOp, WriteOp};
use propolis::hw::ata::bits::{AtaError, Commands, ErrorRegister, Registers, StatusRegister};
use propolis::hw::ata::controller::{AtaController, ChannelSelect};
use propolis::hw::ata::device::{AtaDevice, DataInOut, FifoRegister, Operations};
use propolis::hw::ata::geometry::{
    CylinderHeadSectorAddress, Geometry, LogicalBlockAddress, Sectors,
};
use propolis::hw::ata::pci::{AtaBlockDevice, PciAtaController};
use propolis::hw::pci::device::{Builder, Ident};
use propolis::intr_pins::PinEvent;

const GEOMETRY_300_SECTORS: Geometry = Geometry { cylinders: 2, heads: 3, sectors: 50 };

struct Env {
    controller: AtaController,
    events: Vec<PinEvent>,
}

impl Env {
    fn read_register(&mut self, r: Registers) -> u8 {
        self.controller.read_register(ChannelSelect::Primary, r, &mut self.events)
    }

    fn write_register(&mut self, r: Registers, value: u8) {
        self.controller.write_register(ChannelSelect::Primary, r, value, &mut self.events);
    }

    fn command(&mut self, c: Commands) {
        self.write_register(Registers::Command, c.into());
    }
}

fn build_ata_controller_and_block_device() -> Env {
    let mut controller = AtaController::create();
    let device = AtaDevice::create(GEOMETRY_300_SECTORS.capacity(), GEOMETRY_300_SECTORS);
    controller.attach_device(ChannelSelect::Primary, 0, device);
    Env { controller, events: Vec::new() }
}

fn command_success(env: &mut Env) -> bool {
    let alt_status = StatusRegister(env.read_register(Registers::Status));
    let error = ErrorRegister(env.read_register(Registers::Error));

    !alt_status.busy() && alt_status.device_ready() && !alt_status.error() && error.0 == 0x0
}

fn command_aborted(env: &mut Env) -> bool {
    let alt_status = StatusRegister(env.read_register(Registers::Status));
    let error = ErrorRegister(env.read_register(Registers::Error));

    !alt_status.busy() && alt_status.device_ready() && alt_status.error() && error.abort()
}

fn read_sector(env: &mut Env) -> [u16; 256] {
    let mut sector = [0u16; 256];
    for word in &mut sector[0..] {
        *word = env.controller.read_data16(ChannelSelect::Primary, &mut env.events);
    }
    sector
}

fn read_identity(env: &mut Env) -> [u16; 256] {
    env.command(Commands::IdenfityDevice);
    read_sector(env)
}

fn set_pio_mode(env: &mut Env, mode: u8) {
    env.write_register(Registers::SectorCount, 1 << 3 | mode);
    env.write_register(Registers::Features, 3);
    env.command(Commands::SetFeatures);
}

#[test]
fn ata_device_power_on_reset() {
    let mut env = build_ata_controller_and_block_device();

    let status = StatusRegister(env.read_register(Registers::Status));
    assert!(!status.busy());
    assert!(!status.error());
    assert!(status.device_ready());

    // Assert the device returns the ATA device signature.
    assert_eq!(env.read_register(Registers::SectorCount), 0x1);
    assert_eq!(env.read_register(Registers::LbaLow), 0x1);
    assert_eq!(env.read_register(Registers::LbaMid), 0x0);
    assert_eq!(env.read_register(Registers::LbaHigh), 0x0);
}

#[test]
fn ata_device_unknown_command_code() {
    let mut env = build_ata_controller_and_block_device();

    env.write_register(Registers::Command, 0xff);
    assert!(command_aborted(&mut env));
}

#[test]
fn ata_device_unsupported_command() {
    let mut env = build_ata_controller_and_block_device();

    env.command(Commands::DownloadMicrocode);
    assert!(command_aborted(&mut env))
}

#[test]
fn ata_device_identify() {
    let mut env = build_ata_controller_and_block_device();

    env.command(Commands::IdenfityDevice);
    assert!(command_success(&mut env));
    assert!(StatusRegister(env.read_register(Registers::AltStatus)).device_ready());

    let status = StatusRegister(env.read_register(Registers::Status));
    assert!(!status.error());
    assert!(status.data_request());

    // Probe the IDENTITY for the correct geometry.
    let identity = read_sector(&mut env);
    assert_eq!(identity[1], GEOMETRY_300_SECTORS.cylinders);
    assert_eq!(identity[3], GEOMETRY_300_SECTORS.heads as u16);
    assert_eq!(identity[6], GEOMETRY_300_SECTORS.sectors as u16);
    assert_eq!(identity[57], 300);
    assert_eq!(identity[58], 0);
    assert_eq!(identity[60], 300);
    assert_eq!(identity[61], 0);
    assert_eq!(identity[100], 300);
    assert_eq!(identity[101], 0);
    assert_eq!(identity[102], 0);
}

#[test]
fn ata_device_set_pio_mode() {
    let mut env = build_ata_controller_and_block_device();

    // Assert PIO mode 0.
    assert_eq!(read_identity(&mut env)[51] >> 8, 0x0u16);

    for mode in 0..5 {
        set_pio_mode(&mut env, mode);
        assert!(command_success(&mut env));
        // Assert the PIO mode set.
        assert_eq!(read_identity(&mut env)[51] >> 8, mode as u16);
    }
}

#[test]
fn ata_device_initialize_device_parameters() {
    let mut env = build_ata_controller_and_block_device();

    let geometry = Geometry { cylinders: 3, heads: 4, sectors: 25 };
    env.write_register(Registers::SectorCount, geometry.sectors);
    env.write_register(Registers::Device, geometry.heads - 1);
    env.command(Commands::InitializeDeviceParameters);

    assert!(command_success(&mut env));

    let identity = read_identity(&mut env);
    assert_eq!(identity[54], geometry.cylinders);
    assert_eq!(identity[55], geometry.heads as u16);
    assert_eq!(identity[56], geometry.sectors as u16);
    assert_eq!(identity[57], 300);
    assert_eq!(identity[58], 0);
}

#[test]
fn ata_device_set_multiple_mode() {
    let mut env = build_ata_controller_and_block_device();

    env.write_register(Registers::SectorCount, 1);
    env.command(Commands::SetMultipleMode);

    assert!(command_success(&mut env));
}

#[test]
fn ata_device_clear_interrupt() {
    let mut device = AtaDevice::create(GEOMETRY_300_SECTORS.capacity(), GEOMETRY_300_SECTORS);
    assert!(device.interrupts_enabled());

    // Trigger an interrupt.
    device.write_register(Registers::Command, Commands::IdenfityDevice.into());
    assert!(device.interrupt_pending());

    // Read the Alt Status register, which should not clear the interrupt.
    device.alt_status();
    assert!(device.interrupt_pending());

    // Read the Status register, clearing the interrupt as a side-effect.
    device.status();
    assert!(!device.interrupt_pending());
}

#[test]
fn identity_strings_are_padded_and_swapped() {
    let mut env = build_ata_controller_and_block_device();
    let identity = read_identity(&mut env);
    // "01", the first character above
    assert_eq!(identity[10], 0x3031);
    assert_eq!(identity[14], 0x3839);
    assert_eq!(identity[15], 0x2020);
    assert_eq!(identity[23], 0x7631);
    assert_eq!(identity[24], 0x2020);
    let model: Vec<u8> = identity[27..46].iter().flat_map(|w| w.to_be_bytes()).collect();
    assert_eq!(String::from_utf8(model).unwrap().trim_end(), "Propolis ATA-v1");
    assert_eq!(identity[93], 0x4107);
}

#[test]
fn data_ends_after_one_sector() {
    let mut env = build_ata_controller_and_block_device();
    env.command(Commands::IdenfityDevice);
    for _ in 0..256 {
        assert!(StatusRegister(env.read_register(Registers::AltStatus)).data_request());
        env.controller.read_data16(ChannelSelect::Primary, &mut env.events);
    }
    assert!(!StatusRegister(env.read_register(Registers::AltStatus)).data_request());
    assert_eq!(env.controller.read_data16(ChannelSelect::Primary, &mut env.events), 0);
}

#[test]
fn two_words_are_read_low_first() {
    let mut env = build_ata_controller_and_block_device();
    let identity = read_identity(&mut env);
    env.command(Commands::IdenfityDevice);
    let pair = env.controller.read_data32(ChannelSelect::Primary, &mut env.events);
    assert_eq!(pair, identity[0] as u32 | (identity[1] as u32) << 16);
}

#[test]
fn each_error_of_a_command() {
    let mut device = AtaDevice::create(Sectors::new(300), GEOMETRY_300_SECTORS);
    assert_eq!(device.execute_command(0xff), Err(AtaError::UnknownCommandCode(0xff)));
    assert_eq!(
        device.execute_command(Commands::Packet.into()),
        Err(AtaError::UnsupportedCommand(Commands::Packet))
    );
    device.write_register(Registers::Features, 0x42);
    assert_eq!(
        device.execute_command(Commands::SetFeatures.into()),
        Err(AtaError::FeatureNotSupported(0x42))
    );
    device.write_register(Registers::Features, 3);
    device.write_register(Registers::SectorCount, 2 << 3 | 5);
    assert_eq!(
        device.execute_command(Commands::SetFeatures.into()),
        Err(AtaError::TransferModeNotSupported(2, 5))
    );
    device.set_software_reset(true);
    assert_eq!(
        device.execute_command(Commands::Recalibrate.into()),
        Err(AtaError::DeviceBusy)
    );
    device.registers.status = StatusRegister(0);
    assert_eq!(
        device.execute_command(Commands::Recalibrate.into()),
        Err(AtaError::DeviceNotReady)
    );
    assert_eq!(device.execute_command(Commands::ExecuteDeviceDiagnostics.into()), Ok(()));
    assert_eq!(device.error().0, 1);
    assert_eq!(device.status().0, 0x50);
}

#[test]
fn direct_transfer_mode_is_taken() {
    let mut device = AtaDevice::create(Sectors::new(300), GEOMETRY_300_SECTORS);
    device.write_register(Registers::Features, 3);
    device.write_register(Registers::SectorCount, 8 << 3 | 2);
    assert_eq!(device.execute_command(Commands::SetFeatures.into()), Ok(()));
    assert_eq!(device.dma_mode, 2);
    assert_eq!(device.pio_mode, 0);
}

#[test]
fn software_reset_happens_when_the_bit_is_cleared() {
    let mut env = build_ata_controller_and_block_device();
    env.write_register(Registers::LbaMid, 0x55);
    env.write_register(Registers::DeviceControl, 4);
    assert!(StatusRegister(env.read_register(Registers::AltStatus)).busy());
    assert_eq!(env.read_register(Registers::LbaMid), 0x55);
    env.write_register(Registers::DeviceControl, 0);
    assert_eq!(env.read_register(Registers::AltStatus), 0x50);
    assert_eq!(env.read_register(Registers::Error), 1);
    assert_eq!(env.read_register(Registers::LbaMid), 0);
}

#[test]
fn registers_keep_two_bytes() {
    let mut env = build_ata_controller_and_block_device();
    env.write_register(Registers::LbaLow, 0x11);
    env.write_register(Registers::LbaLow, 0x22);
    assert_eq!(env.read_register(Registers::LbaLow), 0x22);
    env.write_register(Registers::DeviceControl, 0x80);
    assert_eq!(env.read_register(Registers::LbaLow), 0x11);
    // Writing another register selects the last byte again
    env.write_register(Registers::Features, 0);
    assert_eq!(env.read_register(Registers::LbaLow), 0x22);

    let mut f = FifoRegister::new(1);
    f.write(2);
    assert_eq!(f.read_u16(), 0x0102);
}

#[test]
fn diagnostics_reach_both_drives() {
    let mut env = build_ata_controller_and_block_device();
    let second = AtaDevice::create(Sectors::new(300), GEOMETRY_300_SECTORS);
    env.controller.attach_device(ChannelSelect::Primary, 1, second);
    // Select the second drive
    env.write_register(Registers::Device, 0x10);
    env.write_register(Registers::LbaHigh, 7);
    env.command(Commands::ExecuteDeviceDiagnostics);
    assert_eq!(env.read_register(Registers::Error), 1);
    assert_eq!(env.controller.primary.device_selected, 0);
    env.write_register(Registers::Device, 0x10);
    assert_eq!(env.read_register(Registers::Error), 1);
    assert_eq!(env.read_register(Registers::LbaHigh), 0);
    // It identifies itself as the second one
    assert_eq!(read_identity(&mut env)[93], 0x4701);
}

#[test]
fn missing_drives_read_as_such() {
    let mut env = build_ata_controller_and_block_device();
    env.write_register(Registers::Device, 0x10);
    assert_eq!(env.read_register(Registers::Status), 0x7f);
    assert_eq!(
        env.controller.read_data16(ChannelSelect::Secondary, &mut env.events),
        0x7f
    );
    // Nothing is there that could refuse a register
    assert_eq!(env.read_register(Registers::Command), 0x7f);
    env.write_register(Registers::Status, 0xff);
    env.write_register(Registers::Data16, 0xff);
    env.write_register(Registers::Device, 0);
    assert_eq!(env.read_register(Registers::Status), 0x40);
}

#[test]
fn interrupt_line_follows_the_drive() {
    let mut env = build_ata_controller_and_block_device();
    env.controller.attach_irq(14, 15);
    env.command(Commands::Recalibrate);
    assert_eq!(env.events.pop(), Some(PinEvent::Assert(14)));
    env.read_register(Registers::AltStatus);
    assert_eq!(env.events.pop(), Some(PinEvent::Assert(14)));
    env.read_register(Registers::Status);
    assert_eq!(env.events.pop(), Some(PinEvent::Deassert(14)));
    // Interrupts can be disabled
    env.write_register(Registers::DeviceControl, 2);
    env.command(Commands::Recalibrate);
    assert_eq!(env.events.pop(), Some(PinEvent::Deassert(14)));
}

#[test]
fn controller_is_reached_by_ports() {
    let mut pci = PciAtaController::new(Builder::new(Ident::default()).finish());
    let mut events = Vec::new();
    pci.attach_irq(14, 15);
    pci.ata_state.attach_device(
        ChannelSelect::Secondary,
        0,
        AtaDevice::create(Sectors::new(300), GEOMETRY_300_SECTORS),
    );
    let wo = RWOp::Write(WriteOp::from_buf(7, vec![0xec]));
    pci.pio_rw(0x170, wo, &mut events);
    assert_eq!(events, vec![PinEvent::Assert(15)]);
    let ro = RWOp::Read(ReadOp::from_buf(0, vec![0; 4]));
    match pci.pio_rw(0x170, ro, &mut events) {
        // Word 0, and word 1: the number of cylinders
        RWOp::Read(ro) => assert_eq!(ro.buf, vec![0, 0, 2, 0]),
        RWOp::Write(_) => panic!(),
    }
    let ro = RWOp::Read(ReadOp::from_buf(0, vec![0; 1]));
    match pci.pio_rw(0x376, ro, &mut events) {
        RWOp::Read(ro) => assert_eq!(ro.buf, vec![0x48]),
        RWOp::Write(_) => panic!(),
    }
    assert_eq!(
        PciAtaController::attach_pio(),
        vec![(0x1f0, 8), (0x170, 8), (0x3f6, 2), (0x376, 2)]
    );
}

#[test]
fn block_layer_gets_no_requests() {
    let dev = AtaBlockDevice::new(ChannelSelect::Primary, 1);
    assert!(dev.next().is_none());
}

#[test]
fn sizes_of_drives() {
    assert_eq!(Sectors::one_kb(), Sectors::new(2));
    assert_eq!(Sectors::one_kb() * 1024, Sectors::one_mb());
    assert_eq!(1024 * Sectors::one_mb(), Sectors::one_gb());
    let s = Sectors::new(0xfedc_ba98_7654_3210);
    assert_eq!(s.lba28(), 0x654_3210);
    assert_eq!((s.lba28_low(), s.lba28_high()), (0x3210, 0x654));
    assert_eq!((s.lba48_low(), s.lba48_mid(), s.lba48_high()), (0x3210, 0x7654, 0xba98));
    assert_eq!(Geometry::max_compat().capacity(), Sectors::new(16383 * 15 * 63));
    assert_eq!(Geometry::min().max_logical_block_address(), LogicalBlockAddress::new(1));
}

#[test]
fn cylinders_of_drives() {
    let mut g = Geometry { cylinders: 0, heads: 4, sectors: 25 };
    g.compute_cylinders(Sectors::new(300));
    assert_eq!(g.cylinders, 3);
    g = Geometry { cylinders: 0, heads: 16, sectors: 63 };
    g.compute_cylinders(Sectors::new(100_000_000));
    assert_eq!(g.cylinders, 16383);
}

#[test]
fn places_of_sectors() {
    let g = Geometry { cylinders: 4, heads: 3, sectors: 10 };
    let at = |cylinder, head, sector| {
        CylinderHeadSectorAddress { cylinder, head, sector }.logical_block_address(&g)
    };
    assert_eq!(at(0, 0, 1), LogicalBlockAddress(0));
    assert_eq!(at(0, 1, 1), LogicalBlockAddress(10));
    assert_eq!(at(1, 2, 3), LogicalBlockAddress((3 + 2) * 10 + 2));
    assert_eq!(at(3, 2, 10), LogicalBlockAddress(119));
    assert_eq!(CylinderHeadSectorAddress::default(), g.from_lba(LogicalBlockAddress(77)));
    let chs = CylinderHeadSectorAddress::from_mbr_bytes(&[5, 0x4d, 0x02]);
    assert_eq!((chs.head, chs.sector, chs.cylinder), (5, 0x0d, 0x32));
}

#[test]
fn registers_hold_addresses() {
    let mut device = AtaDevice::create(Sectors::new(300), GEOMETRY_300_SECTORS);
    device.write_register(Registers::LbaLow, 0x11);
    device.write_register(Registers::LbaMid, 0x22);
    device.write_register(Registers::LbaHigh, 0x33);
    device.write_register(Registers::Device, 0x44);
    assert_eq!(device.seek_address(), Some(LogicalBlockAddress(0x0433_2211)));
    // By cylinder, head and sector
    device.write_register(Registers::Device, 0x02);
    device.write_register(Registers::LbaMid, 0);
    device.write_register(Registers::LbaHigh, 1);
    device.write_register(Registers::LbaLow, 4);
    assert_eq!(device.seek_address(), Some(LogicalBlockAddress((3 + 2) * 50 + 3)));
    // There is no sector before the first one
    device.write_register(Registers::Device, 0);
    device.write_register(Registers::LbaHigh, 0);
    device.write_register(Registers::LbaLow, 0);
    assert_eq!(device.seek_address(), None);
}

#[test]
fn steps_of_a_transfer() {
    let d = DataInOut { sector_address: 5, sector_ptr: 254, sectors_remaining: 1 };
    assert!(!d.last_sector_word());
    let d = d.next_word();
    assert!(d.last_sector_word());
    assert!(!d.done());
    let d = d.next_sector();
    assert_eq!((d.sector_address, d.sectors_remaining), (6, 0));
    assert!(d.done());
    assert!(Operations::DataIn(d).is_data_in());
    assert!(!Operations::DataOut(d).is_data_in());
}

#[test]
fn command_codes_come_back() {
    for code in 0..=255u8 {
        match Commands::try_from(code) {
            Ok(c) => assert_eq!(u8::from(c), code),
            Err(e) => assert_eq!(e, AtaError::UnknownCommandCode(code)),
        }
    }
}

#[test]
fn accesses_that_the_drives_can_take() {
    let env = build_ata_controller_and_block_device();
    let c = &env.controller;
    let read = |off, len| RWOp::Read(ReadOp::from_buf(off, vec![0; len]));
    let write = |off, v| RWOp::Write(WriteOp::from_buf(off, vec![v]));
    assert!(c.takes_access(0x1f0, &read(0, 2)));
    assert!(c.takes_access(0x1f0, &read(0, 4)));
    assert!(!c.takes_access(0x1f0, &read(0, 1)));
    assert!(!c.takes_access(0x1f0, &read(2, 2)));
    assert!(c.takes_access(0x3f6, &read(0, 1)));
    assert!(!c.takes_access(0x3f6, &read(1, 1)));
    assert!(!c.takes_access(0x1f1, &read(0, 2)));
    // A drive cannot be reset by a command, but may not be there
    assert!(!c.takes_access(0x1f0, &write(7, Commands::DeviceReset.into())));
    assert!(c.takes_access(0x170, &write(7, Commands::DeviceReset.into())));
    assert!(c.takes_access(0x1f0, &write(7, Commands::IdenfityDevice.into())));
    // There must be sectors on a track
    let mut env = env;
    env.write_register(Registers::DeviceControl, 4);
    env.write_register(Registers::DeviceControl, 0);
    env.write_register(Registers::SectorCount, 0);
    let init = write(7, Commands::InitializeDeviceParameters.into());
    assert!(!env.controller.takes_access(0x1f0, &init));
    env.write_register(Registers::SectorCount, 63);
    assert!(env.controller.takes_access(0x1f0, &init));
}
