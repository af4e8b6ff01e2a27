//! ATA disk drives and their controller.

pub mod bits;
pub mod controller;
pub mod device;
pub mod geometry;
pub mod laws;
pub mod pci;
