//! Constants of PCI configuration spaces.
use vstd::prelude::*;

verus! {

/// Length of the standard part of the configuration space.
pub const LEN_CFG_STD: usize = 0x40;

/// Length of the configuration space that PCIe gives access to.
pub const LEN_CFG_ECAM: usize = 0x1000;

/// Header type of a device.
pub const HEADER_TYPE_DEVICE: u8 = 0x00;

/// Header type of a PCI-PCI bridge.
pub const HEADER_TYPE_BRIDGE: u8 = 0x01;

/// Added to the header type of a device with several functions.
pub const HEADER_TYPE_MULTIFUNC: u8 = 0x80;

/// Type bits of a base address register for I/O ports.
pub const BAR_TYPE_IO: u32 = 0x1;

/// Type bits of a base address register for memory.
pub const BAR_TYPE_MEM: u32 = 0x0;

/// Type bits of a base address register for 64-bit memory.
pub const BAR_TYPE_MEM64: u32 = 0x4;

/// Class of storage devices.
pub const CLASS_STORAGE: u8 = 0x01;

/// Class of bridges.
pub const CLASS_BRIDGE: u8 = 0x06;

/// Subclass of IDE controllers.
pub const SUBCLASS_STORAGE_IDE: u8 = 0x01;

/// Subclass of NVM controllers.
pub const SUBCLASS_STORAGE_NVM: u8 = 0x08;

/// Subclass of host bridges.
pub const SUBCLASS_BRIDGE_HOST: u8 = 0x00;

/// Subclass of ISA bridges.
pub const SUBCLASS_BRIDGE_ISA: u8 = 0x01;

/// Subclass of other bridges.
pub const SUBCLASS_BRIDGE_OTHER: u8 = 0x80;

/// Programming interface of NVMe controllers.
pub const PROGIF_ENTERPRISE_NVME: u8 = 0x02;

/// Programming interface of legacy IDE controllers.
pub const PROGIF_IDE_LEGACY_MODE: u8 = 0x00;

/// The port for addresses in the configuration space.
pub const PORT_PCI_CONFIG_ADDR: u16 = 0xcf8;

/// Number of ports for addresses in the configuration space.
pub const LEN_PCI_CONFIG_ADDR: u16 = 4;

/// The port for data of the configuration space.
pub const PORT_PCI_CONFIG_DATA: u16 = 0xcfc;

/// Number of ports for data of the configuration space.
pub const LEN_PCI_CONFIG_DATA: u16 = 4;

/// Class of PCI-PCI bridges.
pub const BRIDGE_PROG_CLASS: u8 = 0x06;

/// Subclass of PCI-PCI bridges.
pub const BRIDGE_PROG_SUBCLASS: u8 = 0x04;

/// Programming interface of PCI-PCI bridges.
pub const BRIDGE_PROG_IF: u8 = 0x00;

/// Secondary status of PCI-PCI bridges.
pub const BRIDGE_SECONDARY_STATUS: u16 = 0x0000;

/// The bits of the memory base and limit of a bridge that can be set.
pub const BRIDGE_MEMORY_REG_MASK: u16 = 0xfff0;

/// Capability ID of MSI-X.
pub const CAP_ID_MSIX: u8 = 0x11;

/// Status register: the interrupt pin is asserted.
pub const REG_STATUS_INTR: u16 = 0x0008;

/// Status register: the device has capabilities.
pub const REG_STATUS_CAP_LIST: u16 = 0x0010;

/// The most buses that one PCIe configuration region can hold.
pub const PCIE_MAX_BUSES_PER_ECAM_REGION: u16 = 256;

} // verus!
