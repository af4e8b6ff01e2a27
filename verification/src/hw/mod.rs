//! The emulated hardware.

pub mod ata;
pub mod bhyve;
pub mod chipset;
pub mod ibmpc;
pub mod ids;
pub mod laws;
pub mod nvme;
pub mod pci;
pub mod ps2;
