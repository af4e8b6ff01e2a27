//! Devices that the bhyve hypervisor emulates by itself. What is left to do
//! here is to set them up and to move their state between hosts.

pub mod atpic;
pub mod atpit;
pub mod data;
pub mod hpet;
pub mod ioapic;
pub mod laws;
pub mod pmtimer;
pub mod rtc;

pub use atpic::BhyveAtPic;
pub use atpit::BhyveAtPit;
pub use hpet::BhyveHpet;
pub use ioapic::BhyveIoApic;
pub use pmtimer::BhyvePmTimer;
pub use rtc::BhyveRtc;
