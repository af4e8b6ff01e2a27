//! Errors of taking over the state of a device from another host.
use vstd::prelude::*;

verus! {

/// Why the state of a device cannot be taken over.
#[derive(Clone, Copy, Debug, PartialEq, Eq, Structural)]
pub enum MigrateStateError {
    /// The size of a port BAR does not fit.
    PioBarSize(u64),
    /// The size of a 32-bit memory BAR does not fit.
    MmioBarSize(u64),
    /// What follows a 64-bit BAR must be empty.
    Mmio64BarHighNotEmpty,
    /// The command register holds bits that do not exist.
    PciCommand(u16),
    /// The numbers of MSI-X vectors differ.
    MsixCount(u16, u16),
    /// The number of saved MSI-X vectors is not that of the device.
    MsixEntryCount(u64, u64),
    /// MSI-X state was saved, but the device has no MSI-X.
    MsixUnexpected,
    /// No MSI-X state was saved, but the device has MSI-X.
    MsixMissing,
    /// An NVMe completion queue could not be created.
    NvmeCompQueue(crate::hw::nvme::NvmeError),
    /// An NVMe submission queue could not be created.
    NvmeSubQueue(crate::hw::nvme::NvmeError),
    /// The configuration byte of a PS/2 controller holds bits that do not exist.
    Ps2CtrlCfg(u8),
    /// The output port of a PS/2 controller holds bits that do not exist. It is
    /// told by the configuration byte that was saved with it.
    Ps2CtrlOutPort(u8),
    /// There is no such set of scan codes.
    Ps2ScanCodeSet(u8),
    /// The status of a PS/2 mouse holds bits that do not exist.
    Ps2MouseStatus(u8),
    /// The power management status holds bits that do not exist.
    Piix3PmStatus(u16),
    /// The enabled power management events hold bits that do not exist.
    Piix3PmEna(u16),
    /// The power management control register holds bits that do not exist.
    Piix3PmCtrl(u16),
}

} // verus!
