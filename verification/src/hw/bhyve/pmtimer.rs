//! The power management timer.
use crate::hw::bhyve::data::{DataClass, DataOp};
use vstd::prelude::*;

verus! {

/// The state of the timer, as the hypervisor tells it.
#[derive(Clone, Copy, Debug, PartialEq, Eq, Structural)]
pub struct VdiPmTimerV1 {
    pub vpt_time_base: i64,
    /// The port of the timer, which is ignored when it is written.
    pub vpt_ioport: u16,
}

/// The state of the timer, as it is moved to another host. The port is not part
/// of it: it is moved with the device that the timer belongs to.
#[derive(Clone, Copy, Debug, PartialEq, Eq, Structural)]
pub struct PmTimerV1 {
    pub start_time: i64,
}

impl Default for PmTimerV1 {
    /// A timer that started at the beginning of time.
    fn default() -> (r: Self)
        ensures
            r == (PmTimerV1 { start_time: 0 }),
    {
        PmTimerV1 { start_time: 0 }
    }
}

/// The power management timer, with the port that the guest reads it at.
#[derive(Clone, Copy, Debug, PartialEq, Eq, Structural)]
pub struct BhyvePmTimer {
    /// The port that the timer is to be at.
    pub ioport: u16,
    /// The port that the hypervisor has it at, if that is known.
    pub attached_ioport: Option<u16>,
}

impl BhyvePmTimer {
    /// A timer that is to be at a port.
    pub fn create(ioport: u16) -> (r: Self)
        ensures
            r == (BhyvePmTimer { ioport, attached_ioport: None }),
    {
        BhyvePmTimer { ioport, attached_ioport: None }
    }

    /// The port that the hypervisor is to be told, unless it has the timer
    /// there. This is asked when the machine starts, and when it resumes.
    pub fn update_attachment(&self) -> (r: Option<u16>)
        ensures
            r == (if self.attached_ioport == Some(self.ioport) {
                None::<u16>
            } else {
                Some(self.ioport)
            }),
    {
        match self.attached_ioport {
            Some(p) => {
                if p == self.ioport {
                    None
                } else {
                    Some(self.ioport)
                }
            },
            None => Some(self.ioport),
        }
    }

    /// Takes the answer of the hypervisor that was told a port.
    pub fn located(&mut self, target: u16, ok: bool)
        ensures
            *final(self) == (BhyvePmTimer {
                attached_ioport: if ok {
                    Some(target)
                } else {
                    None
                },
                ..*old(self)
            }),
    {
        self.attached_ioport = if ok {
            Some(target)
        } else {
            None
        };
    }

    /// Resets the timer. The hypervisor may move it, so it is told the port
    /// again.
    pub fn reset(&mut self)
        ensures
            *final(self) == (BhyvePmTimer { attached_ioport: None, ..*old(self) }),
    {
        self.attached_ioport = None;
    }

    /// The state that is moved.
    pub fn data_op(&self) -> (r: DataOp)
        ensures
            r == (DataOp { class: DataClass::PmTimer, version: 1 }),
    {
        DataOp { class: DataClass::PmTimer, version: 1 }
    }

    /// The state to be moved to another host, from what the hypervisor told.
    pub fn export(&self, vdi: VdiPmTimerV1) -> (r: PmTimerV1)
        ensures
            r.start_time == vdi.vpt_time_base,
    {
        PmTimerV1 { start_time: vdi.vpt_time_base }
    }

    /// What is to be told the hypervisor, from the state brought from another
    /// host.
    pub fn import(&self, data: PmTimerV1) -> (r: VdiPmTimerV1)
        ensures
            r == (VdiPmTimerV1 { vpt_time_base: data.start_time, vpt_ioport: 0 }),
    {
        VdiPmTimerV1 { vpt_time_base: data.start_time, vpt_ioport: 0 }
    }
}

} // verus!
