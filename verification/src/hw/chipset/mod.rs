//! The chipset of the machine.
use crate::hw::pci::bus::Attachment;
use crate::hw::pci::Bdf;
use vstd::prelude::*;

pub mod i440fx;
pub mod irq;
pub mod laws;
pub mod lpc;
pub mod piix3_ide;
pub mod pm;

verus! {

/// What devices have of a chipset.
pub trait Chipset {
    /// The invariant of the chipset.
    spec fn chipset_ok(&self) -> bool;

    /// Whether a device of that number can be attached at a place.
    spec fn can_attach(&self, bdf: Bdf, dev: u32) -> bool;

    /// The line of the interrupt controller of a number, if devices can use it.
    spec fn irq_line(&self, irq: u8) -> Option<u32>;

    /// The line that turns the power off, if there is one.
    spec fn power_line(&self) -> Option<u32>;

    /// The line that resets the machine, if there is one.
    spec fn reset_line(&self) -> Option<u32>;

    /// Attaches a device to a PCI bus, at a free place.
    fn pci_attach(&mut self, bdf: Bdf, dev: u32) -> (r: Attachment)
        requires
            old(self).chipset_ok(),
            old(self).can_attach(bdf, dev),
        ensures
            final(self).chipset_ok(),
            r.location == bdf.location,
            forall|irq: u8| #[trigger] final(self).irq_line(irq) == old(self).irq_line(irq),
            final(self).power_line() == old(self).power_line(),
            final(self).reset_line() == old(self).reset_line(),
    ;

    /// The line of the interrupt controller of a number, if devices can use it.
    fn irq_pin(&self, irq: u8) -> (r: Option<u32>)
        ensures
            r == self.irq_line(irq),
    ;

    /// The line that turns the power off, if there is one.
    fn power_pin(&self) -> (r: Option<u32>)
        ensures
            r == self.power_line(),
    ;

    /// The line that resets the machine, if there is one.
    fn reset_pin(&self) -> (r: Option<u32>)
        ensures
            r == self.reset_line(),
    ;
}

} // verus!
