//! The state of devices that the hypervisor holds.
use vstd::prelude::*;

verus! {

/// A device whose state the hypervisor can read and write.
#[derive(Clone, Copy, Debug, PartialEq, Eq, Structural)]
pub enum DataClass {
    AtPic,
    AtPit,
    Hpet,
    IoApic,
    PmTimer,
    Rtc,
}

/// Which state is to be read from the hypervisor, or written to it.
#[derive(Clone, Copy, Debug, PartialEq, Eq, Structural)]
pub struct DataOp {
    pub class: DataClass,
    pub version: u16,
}

} // verus!
