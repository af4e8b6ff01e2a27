//! Registers and commands of ATA disk drives.
use crate::bitfield::{
    field, law_field_set_above, law_field_set_below, law_field_set_get, with_field,
};
use vstd::prelude::*;

verus! {

/// A register of a drive. Some stand at one place, one to read and one to
/// write.
#[derive(Clone, Copy, Debug, PartialEq, Eq, Structural)]
pub enum Registers {
    Data16,
    Data32,
    Error,
    Features,
    SectorCount,
    LbaLow,
    LbaMid,
    LbaHigh,
    Device,
    Status,
    Command,
    AltStatus,
    DeviceControl,
}

/// A command to a drive.
#[derive(Clone, Copy, Debug, PartialEq, Eq, Structural)]
pub enum Commands {
    Nop,
    DeviceReset,
    Recalibrate,
    ReadSectors,
    ReadSectorsWithoutRetry,
    ReadSectorsExt,
    ReadDmaExt,
    ReadDmaQueuedExt,
    WriteDmaExt,
    WriteDmaQueuedExt,
    ExecuteDeviceDiagnostics,
    InitializeDeviceParameters,
    DownloadMicrocode,
    Packet,
    IdentifyPacketDevice,
    SetMultipleMode,
    ReadDmaQueued,
    ReadDma,
    ReadDmaWithoutRetry,
    WriteDma,
    WriteDmaWithoutRetry,
    WriteDmaQueued,
    IdleImmediate,
    Idle,
    CacheFlush,
    CasheFlushExt,
    IdenfityDevice,
    SetFeatures,
}

impl Commands {
    /// The code of the command.
    pub open spec fn spec_code(self) -> u8 {
        match self {
            Commands::Nop => 0x00,
            Commands::DeviceReset => 0x08,
            Commands::Recalibrate => 0x10,
            Commands::ReadSectors => 0x20,
            Commands::ReadSectorsWithoutRetry => 0x21,
            Commands::ReadSectorsExt => 0x24,
            Commands::ReadDmaExt => 0x25,
            Commands::ReadDmaQueuedExt => 0x26,
            Commands::WriteDmaExt => 0x35,
            Commands::WriteDmaQueuedExt => 0x36,
            Commands::ExecuteDeviceDiagnostics => 0x90,
            Commands::InitializeDeviceParameters => 0x91,
            Commands::DownloadMicrocode => 0x92,
            Commands::Packet => 0xa0,
            Commands::IdentifyPacketDevice => 0xa1,
            Commands::SetMultipleMode => 0xc6,
            Commands::ReadDmaQueued => 0xc7,
            Commands::ReadDma => 0xc8,
            Commands::ReadDmaWithoutRetry => 0xc9,
            Commands::WriteDma => 0xca,
            Commands::WriteDmaWithoutRetry => 0xcb,
            Commands::WriteDmaQueued => 0xcc,
            Commands::IdleImmediate => 0xe1,
            Commands::Idle => 0xe3,
            Commands::CacheFlush => 0xe7,
            Commands::CasheFlushExt => 0xea,
            Commands::IdenfityDevice => 0xec,
            Commands::SetFeatures => 0xef,
        }
    }

    /// The code of the command.
    pub fn code(self) -> (r: u8)
        ensures
            r == self.spec_code(),
    {
        match self {
            Commands::Nop => 0x00,
            Commands::DeviceReset => 0x08,
            Commands::Recalibrate => 0x10,
            Commands::ReadSectors => 0x20,
            Commands::ReadSectorsWithoutRetry => 0x21,
            Commands::ReadSectorsExt => 0x24,
            Commands::ReadDmaExt => 0x25,
            Commands::ReadDmaQueuedExt => 0x26,
            Commands::WriteDmaExt => 0x35,
            Commands::WriteDmaQueuedExt => 0x36,
            Commands::ExecuteDeviceDiagnostics => 0x90,
            Commands::InitializeDeviceParameters => 0x91,
            Commands::DownloadMicrocode => 0x92,
            Commands::Packet => 0xa0,
            Commands::IdentifyPacketDevice => 0xa1,
            Commands::SetMultipleMode => 0xc6,
            Commands::ReadDmaQueued => 0xc7,
            Commands::ReadDma => 0xc8,
            Commands::ReadDmaWithoutRetry => 0xc9,
            Commands::WriteDma => 0xca,
            Commands::WriteDmaWithoutRetry => 0xcb,
            Commands::WriteDmaQueued => 0xcc,
            Commands::IdleImmediate => 0xe1,
            Commands::Idle => 0xe3,
            Commands::CacheFlush => 0xe7,
            Commands::CasheFlushExt => 0xea,
            Commands::IdenfityDevice => 0xec,
            Commands::SetFeatures => 0xef,
        }
    }

    /// The command of a code, if there is one.
    pub fn try_from(code: u8) -> (r: Result<Commands, AtaError>)
        ensures
            match r {
                Ok(c) => c.spec_code() == code,
                Err(e) => e == AtaError::UnknownCommandCode(code) && forall|c: Commands| #[trigger]
                    c.spec_code() != code,
            },
    {
        match code {
            0x00 => Ok(Commands::Nop),
            0x08 => Ok(Commands::DeviceReset),
            0x10 => Ok(Commands::Recalibrate),
            0x20 => Ok(Commands::ReadSectors),
            0x21 => Ok(Commands::ReadSectorsWithoutRetry),
            0x24 => Ok(Commands::ReadSectorsExt),
            0x25 => Ok(Commands::ReadDmaExt),
            0x26 => Ok(Commands::ReadDmaQueuedExt),
            0x35 => Ok(Commands::WriteDmaExt),
            0x36 => Ok(Commands::WriteDmaQueuedExt),
            0x90 => Ok(Commands::ExecuteDeviceDiagnostics),
            0x91 => Ok(Commands::InitializeDeviceParameters),
            0x92 => Ok(Commands::DownloadMicrocode),
            0xa0 => Ok(Commands::Packet),
            0xa1 => Ok(Commands::IdentifyPacketDevice),
            0xc6 => Ok(Commands::SetMultipleMode),
            0xc7 => Ok(Commands::ReadDmaQueued),
            0xc8 => Ok(Commands::ReadDma),
            0xc9 => Ok(Commands::ReadDmaWithoutRetry),
            0xca => Ok(Commands::WriteDma),
            0xcb => Ok(Commands::WriteDmaWithoutRetry),
            0xcc => Ok(Commands::WriteDmaQueued),
            0xe1 => Ok(Commands::IdleImmediate),
            0xe3 => Ok(Commands::Idle),
            0xe7 => Ok(Commands::CacheFlush),
            0xea => Ok(Commands::CasheFlushExt),
            0xec => Ok(Commands::IdenfityDevice),
            0xef => Ok(Commands::SetFeatures),
            _ => Err(AtaError::UnknownCommandCode(code)),
        }
    }
}

impl From<Commands> for u8 {
    fn from(c: Commands) -> (r: u8) {
        c.code()
    }
}

impl vstd::std_specs::convert::FromSpecImpl<Commands> for u8 {
    open spec fn obeys_from_spec() -> bool {
        true
    }

    open spec fn from_spec(c: Commands) -> u8 {
        c.spec_code()
    }
}

/// Commands have different codes.
pub proof fn law_command_codes(a: Commands, b: Commands)
    requires
        a.spec_code() == b.spec_code(),
    ensures
        a == b,
{
}

/// Why a drive does not carry out a command.
#[derive(Clone, Copy, Debug, PartialEq, Eq, Structural)]
pub enum AtaError {
    /// There is no drive.
    NoDevice,
    /// The drive is busy.
    DeviceBusy,
    /// The drive is not ready.
    DeviceNotReady,
    /// The disk has no master boot record.
    NoMasterBootRecord,
    /// No command has that code.
    UnknownCommandCode(u8),
    /// The drive does not have that command.
    UnsupportedCommand(Commands),
    /// The drive does not have that feature.
    FeatureNotSupported(u8),
    /// The drive does not have that type of transfer, or that mode of it.
    TransferModeNotSupported(u8, u8),
}

/// Whether `w` is the weight of a bit of a byte.
pub open spec fn is_weight(w: int) -> bool {
    w == 1 || w == 2 || w == 4 || w == 8 || w == 16 || w == 32 || w == 64 || w == 128
}

/// Whether the bit of weight `w` is set.
#[verifier::opaque]
pub open spec fn flag(v: u8, w: int) -> bool {
    (v as int / w) % 2 == 1
}

/// The byte with the bit of weight `w` set or cleared.
#[verifier::opaque]
pub open spec fn with_flag(v: u8, w: int, on: bool) -> u8 {
    if on == flag(v, w) {
        v
    } else if on {
        (v + w) as u8
    } else {
        (v - w) as u8
    }
}

/// A bit reads as it was set, and the other bits keep their values.
pub proof fn law_flag_set_get(v: u8, w: int, on: bool, other: int)
    requires
        is_weight(w),
        is_weight(other),
    ensures
        flag(with_flag(v, w, on), w) == on,
        other != w ==> flag(with_flag(v, w, on), other) == flag(v, other),
{
    reveal(flag);
    reveal(with_flag);
    lemma_flag_fits(v, w);
    let x = v as int;
    let b: int = if on {
        1
    } else {
        0
    };
    law_field_set_get(x, w, 2, b);
    assert(with_flag(v, w, on) == with_field(x, w, 2, b)) by (nonlinear_arith)
        requires
            with_field(x, w, 2, b) == x + (b - field(x, w, 2)) * w,
            with_flag(v, w, on) == if b == field(x, w, 2) {
                x
            } else if b == 1 {
                x + w
            } else {
                x - w
            },
            b == 0 || b == 1,
            field(x, w, 2) == 0 || field(x, w, 2) == 1,
    ;
    if other < w {
        lemma_weights(other, w);
        law_field_set_above(x, w, 2, b, other, 2);
    } else if other > w {
        lemma_weights(w, other);
        law_field_set_below(x, w, 2, b, other, 2);
    }
}

/// The weight of a bit is a multiple of the weights of the bits below.
proof fn lemma_weights(a: int, b: int)
    requires
        is_weight(a),
        is_weight(b),
        a < b,
    ensures
        b % (a * 2) == 0,
{
    if a == 1 {
        assert(b % 2 == 0);
    } else if a == 2 {
        assert(b % 4 == 0);
    } else if a == 4 {
        assert(b % 8 == 0);
    } else if a == 8 {
        assert(b % 16 == 0);
    } else if a == 16 {
        assert(b % 32 == 0);
    } else if a == 32 {
        assert(b % 64 == 0);
    } else if a == 64 {
        assert(b % 128 == 0);
    }
}

/// There is room for a bit that is not set, and a bit that is set is there.
proof fn lemma_flag_fits(v: u8, w: int)
    requires
        is_weight(w),
    ensures
        !flag(v, w) ==> v + w <= 255,
        flag(v, w) ==> v >= w,
{
    reveal(flag);
    if w == 1 {
    } else if w == 2 {
    } else if w == 4 {
    } else if w == 8 {
    } else if w == 16 {
    } else if w == 32 {
    } else if w == 64 {
    } else {
    }
}

/// Whether the bit of weight `w` is set.
pub fn get_flag(v: u8, w: u8) -> (r: bool)
    requires
        is_weight(w as int),
    ensures
        r == flag(v, w as int),
{
    reveal(flag);
    (v / w) % 2 == 1
}

/// The byte with the bit of weight `w` set or cleared.
pub fn set_flag(v: u8, w: u8, on: bool) -> (r: u8)
    requires
        is_weight(w as int),
    ensures
        r == with_flag(v, w as int, on),
{
    reveal(with_flag);
    proof {
        lemma_flag_fits(v, w as int);
    }
    if on == get_flag(v, w) {
        v
    } else if on {
        v + w
    } else {
        v - w
    }
}

/// The status of a drive.
#[derive(Clone, Copy, Debug, PartialEq, Eq, Structural)]
pub struct StatusRegister(pub u8);

impl StatusRegister {
    /// The last command ended with an error.
    pub fn error(&self) -> (r: bool)
        ensures
            r == flag(self.0, 0x01),
    {
        get_flag(self.0, 0x01)
    }

    /// There is more to tell of an error.
    pub fn sense_data_available(&self) -> (r: bool)
        ensures
            r == flag(self.0, 0x02),
    {
        get_flag(self.0, 0x02)
    }

    /// An access was not aligned.
    pub fn alignment_error(&self) -> (r: bool)
        ensures
            r == flag(self.0, 0x04),
    {
        get_flag(self.0, 0x04)
    }

    /// There is data to be moved.
    pub fn data_request(&self) -> (r: bool)
        ensures
            r == flag(self.0, 0x08),
    {
        get_flag(self.0, 0x08)
    }

    /// The heads are where they were moved to.
    pub fn device_seek_complete(&self) -> (r: bool)
        ensures
            r == flag(self.0, 0x10),
    {
        get_flag(self.0, 0x10)
    }

    /// A write failed after it was answered.
    pub fn deferred_write_error(&self) -> (r: bool)
        ensures
            r == flag(self.0, 0x10),
    {
        get_flag(self.0, 0x10)
    }

    /// The drive has a fault.
    pub fn device_fault(&self) -> (r: bool)
        ensures
            r == flag(self.0, 0x20),
    {
        get_flag(self.0, 0x20)
    }

    /// A stream had an error.
    pub fn stream_error(&self) -> (r: bool)
        ensures
            r == flag(self.0, 0x20),
    {
        get_flag(self.0, 0x20)
    }

    /// The drive is ready for commands.
    pub fn device_ready(&self) -> (r: bool)
        ensures
            r == flag(self.0, 0x40),
    {
        get_flag(self.0, 0x40)
    }

    /// The drive is busy.
    pub fn busy(&self) -> (r: bool)
        ensures
            r == flag(self.0, 0x80),
    {
        get_flag(self.0, 0x80)
    }

    /// Sets or clears that bit: the last command ended with an error.
    pub fn set_error(&mut self, on: bool)
        ensures
            final(self).0 == with_flag(old(self).0, 0x01, on),
    {
        self.0 = set_flag(self.0, 0x01, on);
    }

    /// Sets or clears that bit: there is data to be moved.
    pub fn set_data_request(&mut self, on: bool)
        ensures
            final(self).0 == with_flag(old(self).0, 0x08, on),
    {
        self.0 = set_flag(self.0, 0x08, on);
    }

    /// Sets or clears that bit: the drive is ready for commands.
    pub fn set_device_ready(&mut self, on: bool)
        ensures
            final(self).0 == with_flag(old(self).0, 0x40, on),
    {
        self.0 = set_flag(self.0, 0x40, on);
    }

    /// Sets or clears that bit: the drive is busy.
    pub fn set_busy(&mut self, on: bool)
        ensures
            final(self).0 == with_flag(old(self).0, 0x80, on),
    {
        self.0 = set_flag(self.0, 0x80, on);
    }
}

/// What went wrong with a command.
#[derive(Clone, Copy, Debug, PartialEq, Eq, Structural)]
pub struct ErrorRegister(pub u8);

impl ErrorRegister {
    /// The command was not carried out.
    pub fn abort(&self) -> (r: bool)
        ensures
            r == flag(self.0, 0x04),
    {
        get_flag(self.0, 0x04)
    }

    /// Sets or clears that bit: the command was not carried out.
    pub fn set_abort(&mut self, on: bool)
        ensures
            final(self).0 == with_flag(old(self).0, 0x04, on),
    {
        self.0 = set_flag(self.0, 0x04, on);
    }
}

/// Which drive is addressed, and how.
#[derive(Clone, Copy, Debug, PartialEq, Eq, Structural)]
pub struct DeviceRegister(pub u8);

impl DeviceRegister {
    /// The head, or the upper bits of the number of a sector.
    pub fn heads(&self) -> (r: u8)
        ensures
            r == self.0 % 16,
    {
        self.0 % 16
    }

    /// The second drive of the channel is addressed.
    pub fn device_select(&self) -> (r: bool)
        ensures
            r == flag(self.0, 0x10),
    {
        get_flag(self.0, 0x10)
    }

    /// Sectors are addressed by number.
    pub fn lba_addressing(&self) -> (r: bool)
        ensures
            r == flag(self.0, 0x40),
    {
        get_flag(self.0, 0x40)
    }
}

/// Controls of the drives of a channel.
#[derive(Clone, Copy, Debug, PartialEq, Eq, Structural)]
pub struct DeviceControlRegister(pub u8);

impl DeviceControlRegister {
    /// Interrupts are disabled.
    pub fn interrupt_enabled_n(&self) -> (r: bool)
        ensures
            r == flag(self.0, 0x02),
    {
        get_flag(self.0, 0x02)
    }

    /// The drives are to be reset.
    pub fn software_reset(&self) -> (r: bool)
        ensures
            r == flag(self.0, 0x04),
    {
        get_flag(self.0, 0x04)
    }

    /// Registers of two bytes read as the byte written first.
    pub fn high_order_byte(&self) -> (r: bool)
        ensures
            r == flag(self.0, 0x80),
    {
        get_flag(self.0, 0x80)
    }

    /// Sets or clears that bit: the drives are to be reset.
    pub fn set_software_reset(&mut self, on: bool)
        ensures
            final(self).0 == with_flag(old(self).0, 0x04, on),
    {
        self.0 = set_flag(self.0, 0x04, on);
    }

    /// Sets or clears that bit: registers of two bytes read as the byte written first.
    pub fn set_high_order_byte(&mut self, on: bool)
        ensures
            final(self).0 == with_flag(old(self).0, 0x80, on),
    {
        self.0 = set_flag(self.0, 0x80, on);
    }
}

} // verus!
