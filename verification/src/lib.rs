//! Verified models of the virtual hardware that a hypervisor presents to its
//! guests: NVMe and ATA storage controllers, PCI devices, buses and bridges,
//! the i440FX/PIIX3 chipset, a PS/2 controller and the timers and interrupt
//! controllers of the platform.

pub mod addrspace;
pub mod bitfield;
pub mod block;
pub mod common;
pub mod hw;
pub mod intr_pins;
pub mod regmap;
pub mod migrate;
