//! Interrupt lines of the machine.
use vstd::prelude::*;

verus! {

/// What a device does to an interrupt line, named by its number.
#[derive(Clone, Copy, Debug, PartialEq, Eq, Structural)]
pub enum PinEvent {
    /// The line is asserted.
    Assert(u32),
    /// The line is no longer asserted.
    Deassert(u32),
    /// The line is asserted for a moment.
    Pulse(u32),
}

} // verus!
