//! An ATA disk drive.
use crate::hw::ata::bits::{
    flag, with_flag, AtaError, Commands, DeviceControlRegister, DeviceRegister, ErrorRegister,
    Registers, StatusRegister,
};
use crate::hw::ata::geometry::{
    law_sectors_in_parts, CylinderHeadSectorAddress, Geometry, LogicalBlockAddress, Sectors,
};
use vstd::prelude::*;

verus! {

/// Size of a sector in bytes.
pub const BLOCK_SIZE: usize = 512;

/// Number of words of a sector.
pub const BLOCK_WORDS: usize = 256;

/// Serial number of drives, `0123456789`.
pub const SERIAL_NUMBER: [u8; 10] = [
    0x30, 0x31, 0x32, 0x33, 0x34, 0x35, 0x36, 0x37, 0x38, 0x39,
];

/// Firmware revision of drives, `v1`.
pub const FIRMWARE_REVISION: [u8; 2] = [0x76, 0x31];

/// Model number of drives, `Propolis ATA-v1`.
pub const MODEL_NUMBER: [u8; 15] = [
    0x50, 0x72, 0x6f, 0x70, 0x6f, 0x6c, 0x69, 0x73, 0x20, 0x41, 0x54, 0x41, 0x2d, 0x76, 0x31,
];

// ---------------------------------------------------------------------------
// Registers
// ---------------------------------------------------------------------------

/// A register that keeps the last two bytes written to it.
#[derive(Clone, Copy, Debug, PartialEq, Eq, Structural)]
pub struct FifoRegister {
    /// The byte written last.
    pub current: u8,
    /// The byte written before it.
    pub previous: u8,
}

impl FifoRegister {
    /// The register after a byte was written.
    pub open spec fn written(self, val: u8) -> FifoRegister {
        FifoRegister { current: val, previous: self.current }
    }

    /// A register that holds a byte, with nothing before it.
    pub fn new(val: u8) -> (r: Self)
        ensures
            r == (FifoRegister { current: val, previous: 0 }),
    {
        FifoRegister { current: val, previous: 0 }
    }

    /// The byte written last.
    pub fn read_current(&self) -> (r: u8)
        ensures
            r == self.current,
    {
        self.current
    }

    /// The byte written before it.
    pub fn read_previous(&self) -> (r: u8)
        ensures
            r == self.previous,
    {
        self.previous
    }

    /// One of the two bytes.
    pub fn read_u8(&self, previous: bool) -> (r: u8)
        ensures
            r == if previous {
                self.previous
            } else {
                self.current
            },
    {
        if previous {
            self.read_previous()
        } else {
            self.read_current()
        }
    }

    /// Both bytes, the last one below.
    pub fn read_u16(&self) -> (r: u16)
        ensures
            r == self.current + 256 * self.previous,
    {
        self.current as u16 + 256 * self.previous as u16
    }

    /// Writes a byte.
    pub fn write(&mut self, val: u8)
        ensures
            *final(self) == old(self).written(val),
    {
        self.previous = self.current;
        self.current = val;
    }
}

/// A register holds the last two of the bytes that were written to it.
pub proof fn law_fifo_keeps_two(f: FifoRegister, a: u8, b: u8)
    ensures
        f.written(a).written(b).current == b,
        f.written(a).written(b).previous == a,
{
}

/// The registers of a drive.
#[derive(Clone, Copy, Debug, PartialEq, Eq, Structural)]
pub struct DeviceRegisters {
    pub status: StatusRegister,
    pub error: ErrorRegister,
    pub device: DeviceRegister,
    pub device_control: DeviceControlRegister,
    pub features: FifoRegister,
    pub sector_count: FifoRegister,
    pub lba_low: FifoRegister,
    pub lba_mid: FifoRegister,
    pub lba_high: FifoRegister,
}

impl DeviceRegisters {
    /// What the registers hold when the power comes on. The last four tell that
    /// the drive is a disk.
    pub open spec fn spec_default_ata() -> DeviceRegisters {
        DeviceRegisters {
            status: StatusRegister(0x40),
            error: ErrorRegister(0),
            device: DeviceRegister(0),
            device_control: DeviceControlRegister(0),
            features: FifoRegister { current: 0, previous: 0 },
            sector_count: FifoRegister { current: 1, previous: 0 },
            lba_low: FifoRegister { current: 1, previous: 0 },
            lba_mid: FifoRegister { current: 0, previous: 0 },
            lba_high: FifoRegister { current: 0, previous: 0 },
        }
    }

    /// What the registers hold when the power comes on.
    pub fn default_ata() -> (r: Self)
        ensures
            r == Self::spec_default_ata(),
    {
        DeviceRegisters {
            status: StatusRegister(0x40),
            error: ErrorRegister(0),
            device: DeviceRegister(0),
            device_control: DeviceControlRegister(0),
            features: FifoRegister::new(0),
            sector_count: FifoRegister::new(1),
            lba_low: FifoRegister::new(1),
            lba_mid: FifoRegister::new(0),
            lba_high: FifoRegister::new(0),
        }
    }
}

// ---------------------------------------------------------------------------
// Transfers
// ---------------------------------------------------------------------------

/// A transfer of sectors, word by word.
#[derive(Clone, Copy, Debug, PartialEq, Eq, Structural)]
pub struct DataInOut {
    /// The sector that is being moved.
    pub sector_address: usize,
    /// The next word of it.
    pub sector_ptr: usize,
    /// The number of sectors after it.
    pub sectors_remaining: usize,
}

impl DataInOut {
    /// The invariant of transfers.
    pub open spec fn wf(self) -> bool {
        &&& self.sector_ptr < BLOCK_WORDS
        &&& self.sector_address + self.sectors_remaining <= usize::MAX
    }

    /// Whether the next word is the last of its sector.
    pub open spec fn at_last_word(self) -> bool {
        self.sector_ptr >= BLOCK_WORDS - 1
    }

    /// A transfer of one sector.
    pub open spec fn spec_first() -> DataInOut {
        DataInOut { sector_address: 0, sector_ptr: 0, sectors_remaining: 0 }
    }

    /// Whether the next word is the last of its sector.
    pub fn last_sector_word(&self) -> (r: bool)
        ensures
            r == self.at_last_word(),
    {
        self.sector_ptr >= BLOCK_SIZE / 2 - 1
    }

    /// Whether the next word is the last of all.
    pub fn done(&self) -> (r: bool)
        ensures
            r == (self.at_last_word() && self.sectors_remaining == 0),
    {
        self.last_sector_word() && self.sectors_remaining == 0
    }

    /// The transfer after a word.
    pub fn next_word(&self) -> (r: Self)
        requires
            self.sector_ptr < usize::MAX,
        ensures
            r == (DataInOut { sector_ptr: (self.sector_ptr + 1) as usize, ..*self }),
    {
        DataInOut {
            sector_address: self.sector_address,
            sector_ptr: self.sector_ptr + 1,
            sectors_remaining: self.sectors_remaining,
        }
    }

    /// The transfer after a sector.
    pub fn next_sector(&self) -> (r: Self)
        requires
            self.sector_address < usize::MAX,
            self.sectors_remaining > 0,
        ensures
            r == (DataInOut {
                sector_address: (self.sector_address + 1) as usize,
                sectors_remaining: (self.sectors_remaining - 1) as usize,
                ..*self
            }),
    {
        DataInOut {
            sector_address: self.sector_address + 1,
            sector_ptr: self.sector_ptr,
            sectors_remaining: self.sectors_remaining - 1,
        }
    }
}

impl Default for DataInOut {
    /// A transfer of one sector.
    fn default() -> (r: Self)
        ensures
            r == DataInOut::spec_first(),
    {
        DataInOut { sector_address: 0, sector_ptr: 0, sectors_remaining: 0 }
    }
}

/// What a drive is in the middle of.
#[derive(Clone, Copy, Debug, PartialEq, Eq, Structural)]
pub enum Operations {
    /// Data moves to the host.
    DataIn(DataInOut),
    /// Data moves from the host.
    DataOut(DataInOut),
}

impl Operations {
    /// Whether data moves to the host.
    pub fn is_data_in(&self) -> (r: bool)
        ensures
            r == (*self is DataIn),
    {
        match self {
            Operations::DataIn(_) => true,
            _ => false,
        }
    }
}

// ---------------------------------------------------------------------------
// The drive
// ---------------------------------------------------------------------------

/// What a drive holds.
#[verifier::ext_equal]
pub struct AtaView {
    pub sector: Seq<u16>,
    pub registers: DeviceRegisters,
    pub capacity: Sectors,
    pub default_geometry: Geometry,
    pub active_geometry: Geometry,
    pub pio_mode: u8,
    pub dma_mode: u8,
    pub operation: Option<Operations>,
    pub irq: bool,
    pub id: usize,
}

/// A drive.
#[derive(Debug)]
pub struct AtaDevice {
    /// The sector that is moved to the host.
    pub sector: [u16; 256],
    pub registers: DeviceRegisters,
    pub capacity: Sectors,
    pub default_geometry: Geometry,
    pub active_geometry: Geometry,
    pub pio_mode: u8,
    pub dma_mode: u8,
    pub operation: Option<Operations>,
    /// Whether the drive asks for an interrupt.
    pub irq: bool,
    /// The place of the drive on its channel.
    pub id: usize,
}

impl View for AtaDevice {
    type V = AtaView;

    open spec fn view(&self) -> AtaView {
        AtaView {
            sector: self.sector@,
            registers: self.registers,
            capacity: self.capacity,
            default_geometry: self.default_geometry,
            active_geometry: self.active_geometry,
            pio_mode: self.pio_mode,
            dma_mode: self.dma_mode,
            operation: self.operation,
            irq: self.irq,
            id: self.id,
        }
    }
}

/// A byte of a string that is filled up with spaces.
pub open spec fn padded(s: Seq<u8>, i: int) -> u8 {
    if i < s.len() {
        s[i]
    } else {
        0x20
    }
}

/// A word of such a string, the first byte above.
pub open spec fn str_word(s: Seq<u8>, i: int) -> u16 {
    (padded(s, 2 * i) * 256 + padded(s, 2 * i + 1)) as u16
}

impl AtaView {
    /// The invariant of drives.
    pub open spec fn wf(self) -> bool {
        &&& self.sector.len() == BLOCK_WORDS
        &&& match self.operation {
            Some(Operations::DataIn(d)) => d.wf(),
            _ => true,
        }
    }

    /// Whether the drive interrupts the host.
    pub open spec fn interrupting(self) -> bool {
        !flag(self.registers.device_control.0, 0x02) && self.irq
    }

    /// The drive with the code of a passed self-test, and the signature of a
    /// disk.
    pub open spec fn diagnosed(self) -> AtaView {
        let d = DeviceRegisters::spec_default_ata();
        AtaView {
            registers: DeviceRegisters {
                error: ErrorRegister(1),
                status: StatusRegister(0x50),
                sector_count: d.sector_count,
                lba_low: d.lba_low,
                lba_mid: d.lba_mid,
                lba_high: d.lba_high,
                device: DeviceRegister(0),
                ..self.registers
            },
            ..self
        }
    }

    /// The drive after the reset line of its channel was set or cleared. The
    /// reset takes place when the line is cleared.
    pub open spec fn reset_line(self, on: bool) -> AtaView {
        let control = self.registers.device_control;
        let v = if on {
            AtaView {
                registers: DeviceRegisters {
                    status: StatusRegister(with_flag(self.registers.status.0, 0x80, true)),
                    ..self.registers
                },
                ..self
            }
        } else if flag(control.0, 0x04) {
            self.diagnosed()
        } else {
            self
        };
        AtaView {
            registers: DeviceRegisters {
                device_control: DeviceControlRegister(with_flag(control.0, 0x04, on)),
                ..v.registers
            },
            ..v
        }
    }

    /// Whether there is a word for the host.
    pub open spec fn has_data(self) -> bool {
        &&& self.operation is Some
        &&& self.operation->0 is DataIn
        &&& flag(self.registers.status.0, 0x08)
    }

    /// The drive after a read of the data port, and the word that is read.
    pub open spec fn data_got(self) -> (AtaView, u16) {
        if self.has_data() {
            let d = self.operation->0->DataIn_0;
            let word = self.sector[d.sector_ptr as int];
            if d.at_last_word() && d.sectors_remaining == 0 {
                (
                    AtaView {
                        operation: None,
                        registers: DeviceRegisters {
                            status: StatusRegister(with_flag(self.registers.status.0, 0x08, false)),
                            ..self.registers
                        },
                        ..self
                    },
                    word,
                )
            } else if d.at_last_word() {
                (
                    AtaView {
                        operation: Some(
                            Operations::DataIn(
                                DataInOut {
                                    sector_address: (d.sector_address + 1) as usize,
                                    sectors_remaining: (d.sectors_remaining - 1) as usize,
                                    ..d
                                },
                            ),
                        ),
                        irq: true,
                        ..self
                    },
                    word,
                )
            } else {
                (
                    AtaView {
                        operation: Some(
                            Operations::DataIn(
                                DataInOut { sector_ptr: (d.sector_ptr + 1) as usize, ..d },
                            ),
                        ),
                        ..self
                    },
                    word,
                )
            }
        } else {
            (self, 0)
        }
    }

    /// What a register reads as.
    pub open spec fn register(self, reg: Registers) -> u8 {
        let hob = flag(self.registers.device_control.0, 0x80);
        let pick = |f: FifoRegister|
            if hob {
                f.previous
            } else {
                f.current
            };
        match reg {
            Registers::Error => self.registers.error.0,
            Registers::SectorCount => pick(self.registers.sector_count),
            Registers::LbaLow => pick(self.registers.lba_low),
            Registers::LbaMid => pick(self.registers.lba_mid),
            Registers::LbaHigh => pick(self.registers.lba_high),
            Registers::Device => self.registers.device.0,
            _ => self.registers.status.0,
        }
    }

    /// The drive after a register was read: reading the status answers an
    /// interrupt.
    pub open spec fn register_got(self, reg: Registers) -> AtaView {
        if reg is Status {
            AtaView { irq: false, ..self }
        } else {
            self
        }
    }

    /// A word of the sector in which the drive describes itself.
    pub open spec fn identity_word(self, i: int) -> u16 {
        if 10 <= i < 20 {
            str_word(SERIAL_NUMBER@, i - 10)
        } else if 23 <= i < 26 {
            str_word(FIRMWARE_REVISION@, i - 23)
        } else if 27 <= i < 46 {
            str_word(MODEL_NUMBER@, i - 27)
        } else if i == 1 {
            self.default_geometry.cylinders
        } else if i == 2 {
            0x8c73
        } else if i == 3 {
            self.default_geometry.heads as u16
        } else if i == 6 {
            self.default_geometry.sectors as u16
        } else if i == 47 {
            0x8001
        } else if i == 49 {
            0x0200
        } else if i == 50 {
            0x4000
        } else if i == 51 {
            (self.pio_mode * 256) as u16
        } else if i == 53 {
            0x0006
        } else if i == 54 {
            self.active_geometry.cylinders
        } else if i == 55 {
            self.active_geometry.heads as u16
        } else if i == 56 {
            self.active_geometry.sectors as u16
        } else if i == 57 {
            (self.active_geometry.spec_capacity().spec_lba28() % 0x1_0000) as u16
        } else if i == 58 {
            (self.active_geometry.spec_capacity().spec_lba28() / 0x1_0000) as u16
        } else if i == 59 {
            0x0001
        } else if i == 60 {
            (self.capacity.spec_lba28() % 0x1_0000) as u16
        } else if i == 61 {
            (self.capacity.spec_lba28() / 0x1_0000) as u16
        } else if i == 64 {
            0x0003
        } else if i == 80 {
            0x0030
        } else if i == 82 || i == 87 {
            0x4000
        } else if i == 93 {
            if self.id == 0 {
                0x4107
            } else {
                0x4701
            }
        } else if i == 100 {
            (self.capacity.0 % 0x1_0000) as u16
        } else if i == 101 {
            ((self.capacity.0 / 0x1_0000) % 0x1_0000) as u16
        } else if i == 102 {
            ((self.capacity.0 / 0x1_0000_0000) % 0x1_0000) as u16
        } else {
            0
        }
    }

    /// The sector in which the drive describes itself.
    pub open spec fn identity(self) -> Seq<u16> {
        Seq::new(256, |i: int| self.identity_word(i))
    }

    /// Whether the drive can take a command, and why not.
    pub open spec fn ready_error(self) -> Option<AtaError> {
        if flag(self.registers.status.0, 0x80) {
            Some(AtaError::DeviceBusy)
        } else if !flag(self.registers.status.0, 0x40) {
            Some(AtaError::DeviceNotReady)
        } else {
            None
        }
    }

    /// The drive at the end of a command, with or without data for the host.
    pub open spec fn completed(self, data: bool) -> AtaView {
        let s0 = self.registers.status.0;
        let s1 = with_flag(s0, 0x80, false);
        let s2 = with_flag(s1, 0x40, true);
        let s3 = with_flag(s2, 0x08, data);
        let s4 = with_flag(s3, 0x01, self.registers.error.0 != 0);
        AtaView {
            registers: DeviceRegisters { status: StatusRegister(s4), ..self.registers },
            operation: if data {
                Some(Operations::DataIn(DataInOut::spec_first()))
            } else {
                self.operation
            },
            irq: true,
            ..self
        }
    }

    /// The drive after a command that it did not carry out.
    pub open spec fn aborted(self) -> AtaView {
        AtaView {
            registers: DeviceRegisters {
                error: ErrorRegister(with_flag(self.registers.error.0, 0x04, true)),
                status: StatusRegister(with_flag(self.registers.status.0, 0x01, true)),
                ..self.registers
            },
            ..self
        }
    }

    /// The arrangement of sectors that the registers ask for.
    pub open spec fn asked_geometry(self) -> Geometry {
        (Geometry {
            sectors: self.registers.sector_count.current,
            heads: (self.registers.device.0 % 16 + 1) as u8,
            ..self.active_geometry
        }).with_cylinders(self.capacity)
    }

    /// The drive with the features that the registers ask for, or why it does
    /// not have them. There are modes of programmed and of direct transfers.
    pub open spec fn features_set(self) -> Result<AtaView, AtaError> {
        let code = self.registers.features.current;
        let kind = self.registers.sector_count.current / 8;
        let mode = self.registers.sector_count.current % 8;
        if code != 3 {
            Err(AtaError::FeatureNotSupported(code))
        } else if kind == 0 && mode <= 1 {
            Ok(AtaView { pio_mode: 0, ..self })
        } else if kind == 1 {
            Ok(AtaView { pio_mode: mode, ..self })
        } else if kind == 8 {
            Ok(AtaView { dma_mode: mode, ..self })
        } else {
            Err(AtaError::TransferModeNotSupported(kind, mode))
        }
    }

    /// What a command other than the self-test leads to, for a drive that is
    /// ready: the drive after it, and whether there is data for the host.
    pub open spec fn ran(self, command: Commands) -> Result<(AtaView, bool), AtaError> {
        match command {
            Commands::Recalibrate => Ok((self, false)),
            Commands::IdenfityDevice => Ok((AtaView { sector: self.identity(), ..self }, true)),
            Commands::InitializeDeviceParameters => Ok(
                (AtaView { active_geometry: self.asked_geometry(), ..self }, false),
            ),
            Commands::SetFeatures => match self.features_set() {
                Ok(v) => Ok((v, false)),
                Err(e) => Err(e),
            },
            Commands::SetMultipleMode => Ok((self, false)),
            Commands::ReadSectors => Ok((self, true)),
            _ => Err(AtaError::UnsupportedCommand(command)),
        }
    }

    /// Whether the drive has the command.
    pub open spec fn has_command(command: Commands) -> bool {
        match command {
            Commands::Recalibrate
            | Commands::IdenfityDevice
            | Commands::InitializeDeviceParameters
            | Commands::SetFeatures
            | Commands::SetMultipleMode
            | Commands::ReadSectors
            | Commands::ExecuteDeviceDiagnostics => true,
            _ => false,
        }
    }

    /// What a command leads to.
    pub open spec fn executed(self, command: Commands) -> Result<AtaView, AtaError> {
        if command is ExecuteDeviceDiagnostics {
            Ok(self.diagnosed())
        } else if !Self::has_command(command) {
            Err(AtaError::UnsupportedCommand(command))
        } else {
            match self.ready_error() {
                Some(e) => Err(e),
                None => match self.ran(command) {
                    Ok((v, data)) => Ok(v.completed(data)),
                    Err(e) => Err(e),
                },
            }
        }
    }

    /// Whether the drive can take a code as a command. It cannot be reset by
    /// one, and it cannot have no sectors on a track.
    pub open spec fn accepts(self, code: u8) -> bool {
        &&& code != Commands::DeviceReset.spec_code()
        &&& code == Commands::InitializeDeviceParameters.spec_code() && self.ready_error() is None
            ==> self.registers.sector_count.current > 0
    }

    /// The drive after a code was written as a command, and how it went.
    pub open spec fn commanded(self, code: u8) -> (AtaView, Result<(), AtaError>) {
        if exists|c: Commands| #[trigger] c.spec_code() == code {
            let c = choose|c: Commands| #[trigger] c.spec_code() == code;
            match self.executed(c) {
                Ok(v) => (v, Ok(())),
                Err(e) => (self.aborted(), Err(e)),
            }
        } else {
            (self.aborted(), Err(AtaError::UnknownCommandCode(code)))
        }
    }

    /// The drive after a register was written.
    pub open spec fn register_written(self, reg: Registers, value: u8) -> AtaView {
        let r = self.registers;
        let v = match reg {
            Registers::Features => AtaView {
                registers: DeviceRegisters { features: r.features.written(value), ..r },
                ..self
            },
            Registers::SectorCount => AtaView {
                registers: DeviceRegisters { sector_count: r.sector_count.written(value), ..r },
                ..self
            },
            Registers::LbaLow => AtaView {
                registers: DeviceRegisters { lba_low: r.lba_low.written(value), ..r },
                ..self
            },
            Registers::LbaMid => AtaView {
                registers: DeviceRegisters { lba_mid: r.lba_mid.written(value), ..r },
                ..self
            },
            Registers::LbaHigh => AtaView {
                registers: DeviceRegisters { lba_high: r.lba_high.written(value), ..r },
                ..self
            },
            Registers::Device => AtaView {
                registers: DeviceRegisters { device: DeviceRegister(value), ..r },
                ..self
            },
            Registers::DeviceControl => AtaView {
                registers: DeviceRegisters { device_control: DeviceControlRegister(value), ..r },
                ..self
            },
            _ => self.commanded(value).0,
        };
        if reg is DeviceControl {
            v
        } else {
            AtaView {
                registers: DeviceRegisters {
                    device_control: DeviceControlRegister(
                        with_flag(v.registers.device_control.0, 0x80, false),
                    ),
                    ..v.registers
                },
                ..v
            }
        }
    }

    /// The address of the sector that the registers hold, or nothing where it
    /// is not one of a sector.
    pub open spec fn seek_address(self) -> Option<LogicalBlockAddress> {
        let r = self.registers;
        if flag(r.device.0, 0x40) {
            Some(
                LogicalBlockAddress(
                    (r.lba_low.current + 0x100 * r.lba_mid.current + 0x1_0000 * r.lba_high.current
                        + 0x100_0000 * (r.device.0 % 16)) as u64,
                ),
            )
        } else {
            let chs = CylinderHeadSectorAddress {
                cylinder: (0x100 * r.lba_mid.current + r.lba_high.current) as u16,
                head: r.device.0 % 16,
                sector: r.lba_low.current,
            };
            if chs.lba(self.active_geometry) >= 0 {
                Some(LogicalBlockAddress(chs.lba(self.active_geometry) as u64))
            } else {
                None
            }
        }
    }
}

/// Whether a register can be read.
pub open spec fn readable(reg: Registers) -> bool {
    match reg {
        Registers::Error
        | Registers::SectorCount
        | Registers::LbaLow
        | Registers::LbaMid
        | Registers::LbaHigh
        | Registers::Device
        | Registers::Status
        | Registers::AltStatus => true,
        _ => false,
    }
}

/// Whether a register can be written.
pub open spec fn writable(reg: Registers) -> bool {
    match reg {
        Registers::Features
        | Registers::SectorCount
        | Registers::LbaLow
        | Registers::LbaMid
        | Registers::LbaHigh
        | Registers::Device
        | Registers::DeviceControl
        | Registers::Command => true,
        _ => false,
    }
}

/// A word of a string that is filled up with spaces, the first byte above.
fn copy_str(s: &[u8], i: usize) -> (r: u16)
    requires
        i < 256,
        s@.len() <= 256,
    ensures
        r == str_word(s@, i as int),
{
    let first: u16 = if 2 * i < s.len() {
        s[2 * i] as u16
    } else {
        0x20
    };
    let second: u16 = if 2 * i + 1 < s.len() {
        s[2 * i + 1] as u16
    } else {
        0x20
    };
    first * 256 + second
}

impl AtaDevice {
    /// A drive of the given size, when its power comes on.
    pub fn create(capacity: Sectors, default_geometry: Geometry) -> (r: Self)
        ensures
            r@.wf(),
            r@ == (AtaView {
                sector: Seq::new(256, |i: int| 0u16),
                registers: DeviceRegisters::spec_default_ata(),
                capacity,
                default_geometry,
                active_geometry: default_geometry,
                pio_mode: 0,
                dma_mode: 0,
                operation: None,
                irq: false,
                id: 0,
            }),
    {
        let r: AtaDevice = AtaDevice {
            sector: [0u16;256],
            registers: DeviceRegisters::default_ata(),
            capacity,
            default_geometry,
            active_geometry: default_geometry,
            pio_mode: 0,
            dma_mode: 0,
            operation: None,
            irq: false,
            // The place is known once the drive is attached.
            id: 0,
        };
        assert(r@.sector =~= Seq::new(256, |i: int| 0u16));
        r
    }

    /// Whether the host wants interrupts.
    pub fn interrupts_enabled(&self) -> (r: bool)
        ensures
            r == !flag(self@.registers.device_control.0, 0x02),
    {
        !self.registers.device_control.interrupt_enabled_n()
    }

    /// Whether the drive interrupts the host.
    pub fn interrupt_pending(&self) -> (r: bool)
        ensures
            r == self@.interrupting(),
    {
        self.interrupts_enabled() && self.irq
    }

    /// Takes the state of the reset line of the channel.
    pub fn set_software_reset(&mut self, software_reset: bool)
        requires
            old(self)@.wf(),
        ensures
            final(self)@.wf(),
            final(self)@ == old(self)@.reset_line(software_reset),
    {
        if software_reset {
            self.registers.status.set_busy(true);
        } else if self.registers.device_control.software_reset() {
            self.execute_device_diagnostics();
        }
        self.registers.device_control.set_software_reset(software_reset);
        assert(self@ =~= old(self)@.reset_line(software_reset));
    }

    /// Reads a word from the data port. Where there is none, it reads as zero.
    pub fn read_data(&mut self) -> (r: u16)
        requires
            old(self)@.wf(),
        ensures
            final(self)@.wf(),
            (final(self)@, r) == old(self)@.data_got(),
    {
        let ghost v0 = self@;
        match self.operation {
            Some(Operations::DataIn(data_in)) => {
                if !self.registers.status.data_request() {
                    return 0;
                }
                let data: u16 = self.sector[data_in.sector_ptr];
                if data_in.done() {
                    self.operation = None;
                    self.registers.status.set_data_request(false);
                } else if data_in.last_sector_word() {
                    self.operation = Some(Operations::DataIn(data_in.next_sector()));
                    self.irq = true;
                } else {
                    self.operation = Some(Operations::DataIn(data_in.next_word()));
                }
                assert(self@ =~= v0.data_got().0);
                data
            },
            _ => 0,
        }
    }

    /// Reads two words from the data port, the first one below.
    pub fn read_data32(&mut self) -> (r: u32)
        requires
            old(self)@.wf(),
        ensures
            final(self)@.wf(),
            ({
                let (v1, low) = old(self)@.data_got();
                let (v2, high) = v1.data_got();
                final(self)@ == v2 && r == low + 0x1_0000 * high
            }),
    {
        let low: u16 = self.read_data();
        let high: u16 = self.read_data();
        low as u32 + 0x1_0000 * high as u32
    }

    /// Writes a word to the data port. The drive takes no data.
    pub fn write_data(&mut self, data: u16)
        ensures
            final(self)@ == old(self)@,
    {
    }

    /// Reads a register.
    pub fn read_register(&mut self, reg: Registers) -> (r: u8)
        requires
            readable(reg),
            old(self)@.wf(),
        ensures
            final(self)@.wf(),
            r == old(self)@.register(reg),
            final(self)@ == old(self)@.register_got(reg),
    {
        let hob: bool = self.registers.device_control.high_order_byte();
        match reg {
            Registers::Error => self.registers.error.0,
            Registers::SectorCount => self.registers.sector_count.read_u8(hob),
            Registers::LbaLow => self.registers.lba_low.read_u8(hob),
            Registers::LbaMid => self.registers.lba_mid.read_u8(hob),
            Registers::LbaHigh => self.registers.lba_high.read_u8(hob),
            Registers::Device => self.registers.device.0,
            Registers::Status => {
                // Reading the status answers an interrupt.
                self.irq = false;
                self.registers.status.0
            },
            _ => self.registers.status.0,
        }
    }

    /// Writes a register.
    pub fn write_register(&mut self, reg: Registers, value: u8)
        requires
            writable(reg),
            reg is Command ==> old(self)@.accepts(value),
            old(self)@.wf(),
        ensures
            final(self)@.wf(),
            final(self)@ == old(self)@.register_written(reg, value),
    {
        match reg {
            Registers::Features => {
                self.registers.features.write(value);
            },
            Registers::SectorCount => {
                self.registers.sector_count.write(value);
            },
            Registers::LbaLow => {
                self.registers.lba_low.write(value);
            },
            Registers::LbaMid => {
                self.registers.lba_mid.write(value);
            },
            Registers::LbaHigh => {
                self.registers.lba_high.write(value);
            },
            Registers::Device => {
                self.registers.device = DeviceRegister(value);
            },
            Registers::DeviceControl => {
                self.registers.device_control = DeviceControlRegister(value);
            },
            _ => {
                let _outcome: Result<(), AtaError> = self.execute_command(value);
            },
        }
        match reg {
            Registers::DeviceControl => {},
            _ => {
                self.registers.device_control.set_high_order_byte(false);
            },
        }
        assert(self@ =~= old(self)@.register_written(reg, value));
    }

    /// Whether the drive can take a code as a command.
    pub fn can_take(&self, code: u8) -> (r: bool)
        ensures
            r == self@.accepts(code),
    {
        if code == Commands::DeviceReset.code() {
            return false;
        }
        let ready: bool = self.check_ready().is_ok();
        !(code == Commands::InitializeDeviceParameters.code() && ready)
            || self.registers.sector_count.read_current() > 0
    }

    /// Carries out the command of a code, or tells why it was not carried out.
    pub fn execute_command(&mut self, code: u8) -> (r: Result<(), AtaError>)
        requires
            old(self)@.wf(),
            old(self)@.accepts(code),
        ensures
            final(self)@.wf(),
            (final(self)@, r) == old(self)@.commanded(code),
    {
        let ghost v0 = self@;
        match Commands::try_from(code) {
            Err(e) => {
                self.abort_command();
                Err(e)
            },
            Ok(command) => {
                assert(command.spec_code() == code);
                assert forall|c: Commands| #[trigger] c.spec_code() == code implies c == command by {
                    crate::hw::ata::bits::law_command_codes(c, command);
                }
                match self.run_command(command) {
                    Ok(()) => Ok(()),
                    Err(e) => {
                        self.abort_command();
                        Err(e)
                    },
                }
            },
        }
    }

    /// Carries out a command.
    fn run_command(&mut self, command: Commands) -> (r: Result<(), AtaError>)
        requires
            old(self)@.wf(),
            old(self)@.accepts(command.spec_code()),
        ensures
            final(self)@.wf(),
            match old(self)@.executed(command) {
                Ok(v) => final(self)@ == v && r is Ok,
                Err(e) => final(self)@ == old(self)@ && r == Err::<(), AtaError>(e),
            },
    {
        match command {
            Commands::ExecuteDeviceDiagnostics => {
                self.execute_device_diagnostics();
                Ok(())
            },
            Commands::Recalibrate => {
                self.check_ready()?;
                self.complete_non_data();
                Ok(())
            },
            Commands::IdenfityDevice => {
                self.check_ready()?;
                self.set_identity();
                self.complete_data_in();
                Ok(())
            },
            Commands::InitializeDeviceParameters => {
                self.check_ready()?;
                self.initialize_device_parameters();
                self.complete_non_data();
                Ok(())
            },
            Commands::SetFeatures => {
                self.check_ready()?;
                self.set_features()?;
                self.complete_non_data();
                Ok(())
            },
            Commands::SetMultipleMode => {
                // One sector per interrupt, whatever is asked for.
                self.check_ready()?;
                self.complete_non_data();
                Ok(())
            },
            Commands::ReadSectors => {
                self.check_ready()?;
                let _address: Option<LogicalBlockAddress> = self.seek_address();
                self.complete_data_in();
                Ok(())
            },
            _ => Err(AtaError::UnsupportedCommand(command)),
        }
    }

    /// Whether the drive can take a command.
    fn check_ready(&self) -> (r: Result<(), AtaError>)
        ensures
            match self@.ready_error() {
                Some(e) => r == Err::<(), AtaError>(e),
                None => r is Ok,
            },
    {
        if self.registers.status.busy() {
            Err(AtaError::DeviceBusy)
        } else if !self.registers.status.device_ready() {
            Err(AtaError::DeviceNotReady)
        } else {
            Ok(())
        }
    }

    /// Ends a command without data.
    fn complete_non_data(&mut self)
        requires
            old(self)@.wf(),
        ensures
            final(self)@.wf(),
            final(self)@ == old(self)@.completed(false),
    {
        self.registers.status.set_busy(false);
        self.registers.status.set_device_ready(true);
        self.registers.status.set_data_request(false);
        self.registers.status.set_error(self.registers.error.0 != 0);
        self.irq = true;
        assert(self@ =~= old(self)@.completed(false));
    }

    /// Ends a command with data for the host.
    fn complete_data_in(&mut self)
        requires
            old(self)@.wf(),
        ensures
            final(self)@.wf(),
            final(self)@ == old(self)@.completed(true),
    {
        self.operation = Some(Operations::DataIn(DataInOut::default()));
        self.registers.status.set_busy(false);
        self.registers.status.set_device_ready(true);
        self.registers.status.set_data_request(true);
        self.registers.status.set_error(self.registers.error.0 != 0);
        self.irq = true;
        assert(self@ =~= old(self)@.completed(true));
    }

    /// Tells of a passed self-test, by the registers.
    pub fn execute_device_diagnostics(&mut self)
        requires
            old(self)@.wf(),
        ensures
            final(self)@.wf(),
            final(self)@ == old(self)@.diagnosed(),
    {
        self.registers.error = ErrorRegister(1);
        self.registers.status = StatusRegister(0x50);
        self.set_signature();
        assert(self@ =~= old(self)@.diagnosed());
    }

    /// Tells by the registers that the drive is a disk.
    fn set_signature(&mut self)
        ensures
            final(self)@ == (AtaView {
                registers: DeviceRegisters {
                    sector_count: DeviceRegisters::spec_default_ata().sector_count,
                    lba_low: DeviceRegisters::spec_default_ata().lba_low,
                    lba_mid: DeviceRegisters::spec_default_ata().lba_mid,
                    lba_high: DeviceRegisters::spec_default_ata().lba_high,
                    device: DeviceRegister(0),
                    ..old(self)@.registers
                },
                ..old(self)@
            }),
    {
        let ata_signature: DeviceRegisters = DeviceRegisters::default_ata();
        self.registers.sector_count = ata_signature.sector_count;
        self.registers.lba_low = ata_signature.lba_low;
        self.registers.lba_mid = ata_signature.lba_mid;
        self.registers.lba_high = ata_signature.lba_high;
        self.registers.device = DeviceRegister(0);
    }

    /// A word of the sector in which the drive describes itself.
    fn identity_word(&self, i: usize) -> (r: u16)
        requires
            i < 256,
        ensures
            r == self@.identity_word(i as int),
    {
        if 10 <= i && i < 20 {
            return copy_str(&SERIAL_NUMBER, i - 10);
        }
        if 23 <= i && i < 26 {
            return copy_str(&FIRMWARE_REVISION, i - 23);
        }
        if 27 <= i && i < 46 {
            return copy_str(&MODEL_NUMBER, i - 27);
        }
        match i {
            // The sizes that the drive has by itself.
            1 => self.default_geometry.cylinders,
            3 => self.default_geometry.heads as u16,
            6 => self.default_geometry.sectors as u16,
            // The sizes that the host has chosen.
            54 => self.active_geometry.cylinders,
            55 => self.active_geometry.heads as u16,
            56 => self.active_geometry.sectors as u16,
            57 => self.active_geometry.capacity().lba28_low(),
            58 => self.active_geometry.capacity().lba28_high(),
            // The capacity.
            60 => self.capacity.lba28_low(),
            61 => self.capacity.lba28_high(),
            100 => self.capacity.lba48_low(),
            101 => self.capacity.lba48_mid(),
            102 => self.capacity.lba48_high(),
            // No standby, and the description is complete.
            2 => 0x8c73,
            // One sector per interrupt.
            47 => 0x8001,
            59 => 0x0001,
            // Sectors can be addressed by number.
            49 => 0x0200,
            50 => 0x4000,
            51 => self.pio_mode as u16 * 256,
            // Words 64 to 70, and 88, are valid.
            53 => 0x0006,
            // Modes of programmed transfers up to 4.
            64 => 0x0003,
            // The versions of the interface.
            80 => 0x0030,
            82 => 0x4000,
            87 => 0x4000,
            // The result of the reset.
            93 => if self.id == 0 {
                0x4107
            } else {
                0x4701
            },
            _ => 0,
        }
    }

    /// Fills the sector with the description of the drive.
    fn set_identity(&mut self)
        requires
            old(self)@.wf(),
        ensures
            final(self)@.wf(),
            final(self)@ == (AtaView { sector: old(self)@.identity(), ..old(self)@ }),
    {
        let ghost v0 = self@;
        let mut i: usize = 0;
        while i < 256
            invariant
                i <= 256,
                self@.wf(),
                self@ == (AtaView { sector: self@.sector, ..v0 }),
                forall|j: int| 0 <= j < i ==> self@.sector[j] == v0.identity_word(j),
            decreases 256 - i,
        {
            let word: u16 = self.identity_word(i);
            assert(self@.identity_word(i as int) == v0.identity_word(i as int));
            self.sector[i] = word;
            i += 1;
        }
        assert(self@.sector =~= v0.identity());
    }

    /// Takes over the arrangement of sectors that the registers ask for.
    fn initialize_device_parameters(&mut self)
        requires
            old(self)@.wf(),
            old(self)@.registers.sector_count.current > 0,
        ensures
            final(self)@.wf(),
            final(self)@ == (AtaView {
                active_geometry: old(self)@.asked_geometry(),
                ..old(self)@
            }),
    {
        let mut geometry: Geometry = self.active_geometry;
        geometry.sectors = self.registers.sector_count.read_current();
        geometry.heads = self.registers.device.heads() + 1;
        geometry.compute_cylinders(self.capacity);
        self.active_geometry = geometry;
    }

    /// Takes over the feature that the registers ask for.
    fn set_features(&mut self) -> (r: Result<(), AtaError>)
        requires
            old(self)@.wf(),
        ensures
            final(self)@.wf(),
            match old(self)@.features_set() {
                Ok(v) => final(self)@ == v && r is Ok,
                Err(e) => final(self)@ == old(self)@ && r == Err::<(), AtaError>(e),
            },
    {
        let code: u8 = self.registers.features.read_current();
        if code != 3 {
            return Err(AtaError::FeatureNotSupported(code));
        }
        let arguments: u8 = self.registers.sector_count.read_current();
        let transfer_type: u8 = arguments / 8;
        let value: u8 = arguments % 8;
        if transfer_type == 0 && value <= 1 {
            self.pio_mode = 0;
            Ok(())
        } else if transfer_type == 1 {
            self.pio_mode = value;
            Ok(())
        } else if transfer_type == 8 {
            self.dma_mode = value;
            Ok(())
        } else {
            Err(AtaError::TransferModeNotSupported(transfer_type, value))
        }
    }

    /// Tells by the registers that a command was not carried out.
    fn abort_command(&mut self)
        requires
            old(self)@.wf(),
        ensures
            final(self)@.wf(),
            final(self)@ == old(self)@.aborted(),
    {
        self.registers.error.set_abort(true);
        self.registers.status.set_error(true);
    }

    /// The address of the sector that the registers hold, or nothing where it
    /// is not one of a sector.
    pub fn seek_address(&self) -> (r: Option<LogicalBlockAddress>)
        ensures
            r == self@.seek_address(),
    {
        if !self.registers.device.lba_addressing() {
            let chs: CylinderHeadSectorAddress = self.cylinder_head_sector_address();
            if chs.sector == 0 && (chs.head == 0 && (chs.cylinder == 0
                || self.active_geometry.heads == 0) || self.active_geometry.sectors == 0) {
                proof {
                    lemma_no_address(chs, self.active_geometry);
                }
                None
            } else {
                proof {
                    lemma_address(chs, self.active_geometry);
                }
                Some(chs.logical_block_address(&self.active_geometry))
            }
        } else {
            Some(self.logical_block_address28())
        }
    }

    /// The number of the sector that the registers hold.
    fn logical_block_address28(&self) -> (r: LogicalBlockAddress)
        ensures
            r.0 == self@.registers.lba_low.current + 0x100 * self@.registers.lba_mid.current
                + 0x1_0000 * self@.registers.lba_high.current + 0x100_0000 * (
            self@.registers.device.0 % 16),
    {
        LogicalBlockAddress(
            self.registers.lba_low.read_current() as u64 + 0x100
                * self.registers.lba_mid.read_current() as u64 + 0x1_0000
                * self.registers.lba_high.read_current() as u64 + 0x100_0000
                * self.registers.device.heads() as u64,
        )
    }

    /// The place of the sector that the registers hold.
    fn cylinder_head_sector_address(&self) -> (r: CylinderHeadSectorAddress)
        ensures
            r.cylinder == 0x100 * self@.registers.lba_mid.current
                + self@.registers.lba_high.current,
            r.head == self@.registers.device.0 % 16,
            r.sector == self@.registers.lba_low.current,
    {
        CylinderHeadSectorAddress {
            cylinder: 0x100 * self.registers.lba_mid.read_current() as u16
                + self.registers.lba_high.read_current() as u16,
            head: self.registers.device.heads(),
            sector: self.registers.lba_low.read_current(),
        }
    }

    /// Reads the status, which answers an interrupt.
    pub fn status(&mut self) -> (r: StatusRegister)
        requires
            old(self)@.wf(),
        ensures
            final(self)@.wf(),
            r == old(self)@.registers.status,
            final(self)@ == (AtaView { irq: false, ..old(self)@ }),
    {
        StatusRegister(self.read_register(Registers::Status))
    }

    /// Reads the status, and answers no interrupt.
    pub fn alt_status(&mut self) -> (r: StatusRegister)
        requires
            old(self)@.wf(),
        ensures
            final(self)@.wf(),
            r == old(self)@.registers.status,
            final(self)@ == old(self)@,
    {
        StatusRegister(self.read_register(Registers::AltStatus))
    }

    /// Reads what went wrong.
    pub fn error(&mut self) -> (r: ErrorRegister)
        requires
            old(self)@.wf(),
        ensures
            final(self)@.wf(),
            r == old(self)@.registers.error,
            final(self)@ == old(self)@,
    {
        ErrorRegister(self.read_register(Registers::Error))
    }
}

/// A place whose sector is 0 may still be that of a sector, of the track
/// before.
proof fn lemma_address(chs: CylinderHeadSectorAddress, g: Geometry)
    requires
        !(chs.sector == 0 && (chs.head == 0 && (chs.cylinder == 0 || g.heads == 0) || g.sectors
            == 0)),
    ensures
        chs.lba(g) >= 0,
{
    let t = chs.cylinder * g.heads;
    assert(t >= 0) by (nonlinear_arith)
        requires
            t == chs.cylinder * g.heads,
    ;
    let u = (t + chs.head) * g.sectors;
    if chs.sector > 0 {
        assert(u >= 0) by (nonlinear_arith)
            requires
                u == (t + chs.head) * g.sectors,
                t >= 0,
        ;
    } else {
        if chs.head == 0 {
            assert(t > 0) by (nonlinear_arith)
                requires
                    t == chs.cylinder * g.heads,
                    chs.cylinder > 0,
                    g.heads > 0,
            ;
        }
        assert(u >= 1) by (nonlinear_arith)
            requires
                u == (t + chs.head) * g.sectors,
                t + chs.head > 0,
                g.sectors > 0,
        ;
    }
}

/// There is no sector before the first.
proof fn lemma_no_address(chs: CylinderHeadSectorAddress, g: Geometry)
    requires
        chs.sector == 0,
        chs.head == 0 && (chs.cylinder == 0 || g.heads == 0) || g.sectors == 0,
    ensures
        chs.lba(g) < 0,
{
    let t = chs.cylinder * g.heads + chs.head;
    if g.sectors == 0 {
        assert(t * g.sectors == 0) by (nonlinear_arith)
            requires
                g.sectors == 0,
        ;
    } else {
        assert(t == 0) by (nonlinear_arith)
            requires
                t == chs.cylinder * g.heads + chs.head,
                chs.head == 0,
                chs.cylinder == 0 || g.heads == 0,
        ;
        assert(t * g.sectors == 0) by (nonlinear_arith)
            requires
                t == 0,
        ;
    }
}

// ---------------------------------------------------------------------------
// Laws
// ---------------------------------------------------------------------------

/// What `n` reads of the data port lead to, and the words that are read.
pub open spec fn words_got(v: AtaView, n: nat) -> (AtaView, Seq<u16>)
    decreases n,
{
    if n == 0 {
        (v, Seq::empty())
    } else {
        let (u, words) = words_got(v, (n - 1) as nat);
        let (w, word) = u.data_got();
        (w, words.push(word))
    }
}

/// A drive that has completed a command with data gives the words of its sector
/// in order, and has no more data after the last one.
pub proof fn law_data_in_order(v: AtaView, n: nat)
    requires
        v.wf(),
        v.has_data(),
        v.operation == Some(Operations::DataIn(DataInOut::spec_first())),
        n <= 256,
    ensures
        words_got(v, n).1 == v.sector.take(n as int),
        n < 256 ==> words_got(v, n).0 == (AtaView {
            operation: Some(
                Operations::DataIn(
                    DataInOut { sector_ptr: n as usize, ..DataInOut::spec_first() },
                ),
            ),
            ..v
        }),
        n == 256 ==> words_got(v, n).0.operation is None && !words_got(v, n).0.has_data(),
    decreases n,
{
    if n == 0 {
        assert(v.sector.take(0) =~= Seq::<u16>::empty());
        assert(words_got(v, 0).0 =~= AtaView {
            operation: Some(
                Operations::DataIn(DataInOut { sector_ptr: 0, ..DataInOut::spec_first() }),
            ),
            ..v
        });
    } else {
        law_data_in_order(v, (n - 1) as nat);
        assert(v.sector.take(n as int) =~= v.sector.take(n - 1).push(v.sector[n - 1]));
    }
}

/// The description of a drive tells its capacity, as far as it has bits for it,
/// and the arrangement of sectors in use.
pub proof fn law_identity_tells_size(v: AtaView)
    ensures
        v.identity()[60] + 0x1_0000 * v.identity()[61] == v.capacity.0 % 0x1000_0000,
        v.identity()[100] + 0x1_0000 * v.identity()[101] + 0x1_0000_0000 * v.identity()[102]
            == v.capacity.0 % 0x1_0000_0000_0000,
        v.identity()[54] == v.active_geometry.cylinders,
        v.identity()[55] == v.active_geometry.heads,
        v.identity()[56] == v.active_geometry.sectors,
{
    law_sectors_in_parts(v.capacity);
}

/// A command that is not carried out changes nothing but the registers that
/// tell of it.
pub proof fn law_abort_tells(v: AtaView, code: u8)
    requires
        v.commanded(code).1 is Err,
    ensures
        v.commanded(code).0 == v.aborted(),
        flag(v.commanded(code).0.registers.error.0, 0x04),
        flag(v.commanded(code).0.registers.status.0, 0x01),
{
    crate::hw::ata::bits::law_flag_set_get(v.registers.error.0, 0x04, true, 0x04);
    crate::hw::ata::bits::law_flag_set_get(v.registers.status.0, 0x01, true, 0x01);
}

/// A reset by the line of the channel leaves the drive as its self-test does,
/// with the line cleared.
pub proof fn law_software_reset(v: AtaView)
    ensures
        v.reset_line(true).reset_line(false).registers.error == ErrorRegister(1),
        v.reset_line(true).reset_line(false).registers.status == StatusRegister(0x50),
        !flag(v.reset_line(true).reset_line(false).registers.device_control.0, 0x04),
{
    let c = v.registers.device_control.0;
    crate::hw::ata::bits::law_flag_set_get(c, 0x04, true, 0x04);
    crate::hw::ata::bits::law_flag_set_get(with_flag(c, 0x04, true), 0x04, false, 0x04);
}

} // verus!
