//! Identifiers that the emulated hardware reports.
use vstd::prelude::*;

verus! {

/// Oxide's IEEE-assigned organizationally unique identifier.
pub const OXIDE_OUI: [u8; 3] = [0xa8, 0x40, 0x25];

/// Oxide's PCI vendor ID.
pub const VENDOR_OXIDE: u16 = 0x1de;

/// The PCI vendor ID of virtio devices.
pub const VENDOR_VIRTIO: u16 = 0x1AF4;

/// Intel's PCI vendor ID.
pub const VENDOR_INTEL: u16 = 0x8086;

/// PCI device ID of the PIIX4 host bridge.
pub const PIIX4_HB_DEV_ID: u16 = 0x1237;

/// PCI device ID of the PIIX3 ISA controller.
pub const PIIX3_ISA_DEV_ID: u16 = 0x7000;

/// PCI device ID of the PIIX3 IDE controller.
pub const PIIX3_IDE_DEV_ID: u16 = 0x7010;

/// PCI device ID of the PIIX4 ACPI power management controller.
pub const PIIX4_PM_DEV_ID: u16 = 0x7113;

/// PCI subsystem device ID of the emulated PIIX4 host bridge.
pub const PIIX4_HB_SUB_DEV_ID: u16 = 0xfffe;

/// PCI subsystem device ID of the emulated PIIX3 ISA controller.
pub const PIIX3_ISA_SUB_DEV_ID: u16 = 0xfffd;

/// PCI subsystem device ID of the emulated PIIX3 IDE controller.
pub const PIIX3_IDE_SUB_DEV_ID: u16 = 0xfff9;

/// PCI subsystem device ID of the emulated PIIX4 power management controller.
pub const PIIX4_PM_SUB_DEV_ID: u16 = 0xfffc;

/// PCI subsystem device ID of the virtio network device.
pub const VIRTIO_NET_SUB_DEV_ID: u16 = 0xfffb;

/// PCI subsystem device ID of the virtio block device.
pub const VIRTIO_BLOCK_SUB_DEV_ID: u16 = 0xfffa;

/// PCI device ID of the NVMe controller.
pub const PROPOLIS_NVME_DEV_ID: u16 = 0x0;

/// PCI device ID of the xHCI controller.
pub const PROPOLIS_XHCI_DEV_ID: u16 = 0x1;

/// PCI device ID of the PCI-PCI bridge.
pub const PROPOLIS_BRIDGE_DEV_ID: u16 = 0x2;

} // verus!
