//! The interval timer (Intel 8254).
use crate::hw::bhyve::data::{DataClass, DataOp};
use vstd::prelude::*;

verus! {

/// The state of a channel, as the hypervisor tells it.
#[derive(Clone, Copy, Debug)]
pub struct VdiAtpitChannelV1 {
    pub vac_initial: u16,
    pub vac_reg_cr: u16,
    pub vac_reg_ol: u16,
    pub vac_reg_status: u8,
    pub vac_mode: u8,
    pub vac_status: u8,
    pub vac_time_target: i64,
}

/// The state of a channel, as it is moved to another host.
#[derive(Clone, Copy, Debug, Default)]
pub struct AtPitChannelV1 {
    pub initial: u16,
    pub reg_cr: u16,
    pub reg_ol: u16,
    pub reg_status: u8,
    pub mode: u8,
    pub status: u8,
    pub time_target: i64,
}

impl AtPitChannelV1 {
    /// Whether this is what the hypervisor tells by `v`.
    pub open spec fn tells(self, v: VdiAtpitChannelV1) -> bool {
        &&& self.initial == v.vac_initial
        &&& self.reg_cr == v.vac_reg_cr
        &&& self.reg_ol == v.vac_reg_ol
        &&& self.reg_status == v.vac_reg_status
        &&& self.mode == v.vac_mode
        &&& self.status == v.vac_status
        &&& self.time_target == v.vac_time_target
    }

    /// What the hypervisor tells.
    pub fn from_vdi(v: VdiAtpitChannelV1) -> (r: Self)
        ensures
            r.tells(v),
    {
        AtPitChannelV1 {
            initial: v.vac_initial,
            reg_cr: v.vac_reg_cr,
            reg_ol: v.vac_reg_ol,
            reg_status: v.vac_reg_status,
            mode: v.vac_mode,
            status: v.vac_status,
            time_target: v.vac_time_target,
        }
    }

    /// What the hypervisor is told.
    pub fn into_vdi(self) -> (r: VdiAtpitChannelV1)
        ensures
            self.tells(r),
    {
        VdiAtpitChannelV1 {
            vac_initial: self.initial,
            vac_reg_cr: self.reg_cr,
            vac_reg_ol: self.reg_ol,
            vac_reg_status: self.reg_status,
            vac_mode: self.mode,
            vac_status: self.status,
            vac_time_target: self.time_target,
        }
    }
}

/// The state of the timer, as the hypervisor tells it.
#[derive(Clone, Copy, Debug)]
pub struct VdiAtpitV1 {
    pub va_channel: [VdiAtpitChannelV1; 3],
}

/// The state of the timer, as it is moved to another host.
#[derive(Clone, Copy, Debug, Default)]
pub struct AtPitV1 {
    pub channel: [AtPitChannelV1; 3],
}

impl AtPitV1 {
    /// Whether this is what the hypervisor tells by `v`.
    pub open spec fn tells(self, v: VdiAtpitV1) -> bool {
        &&& forall|i: int| 0 <= i < 3 ==> (#[trigger] self.channel@[i]).tells(v.va_channel@[i])
    }

    /// What the hypervisor tells.
    pub fn from_vdi(v: VdiAtpitV1) -> (r: Self)
        ensures
            r.tells(v),
    {
        AtPitV1 {
            channel: [
                AtPitChannelV1::from_vdi(v.va_channel[0]),
                AtPitChannelV1::from_vdi(v.va_channel[1]),
                AtPitChannelV1::from_vdi(v.va_channel[2]),
            ],
        }
    }

    /// What the hypervisor is told.
    pub fn into_vdi(self) -> (r: VdiAtpitV1)
        ensures
            self.tells(r),
    {
        VdiAtpitV1 {
            va_channel: [
                self.channel[0].into_vdi(),
                self.channel[1].into_vdi(),
                self.channel[2].into_vdi(),
            ],
        }
    }
}

/// The interval timer (Intel 8254).
#[derive(Clone, Copy, Debug)]
pub struct BhyveAtPit {}

impl BhyveAtPit {
    /// The device.
    pub fn create() -> (r: Self)
        ensures
            r == (BhyveAtPit {  }),
    {
        BhyveAtPit {  }
    }

    /// The state that is moved.
    pub fn data_op(&self) -> (r: DataOp)
        ensures
            r == (DataOp { class: DataClass::AtPit, version: 1 }),
    {
        DataOp { class: DataClass::AtPit, version: 1 }
    }

    /// The state to be moved to another host, from what the hypervisor told.
    pub fn export(&self, vdi: VdiAtpitV1) -> (r: AtPitV1)
        ensures
            r.tells(vdi),
    {
        AtPitV1::from_vdi(vdi)
    }

    /// What is to be told the hypervisor, from the state brought from another
    /// host.
    pub fn import(&self, data: AtPitV1) -> (r: VdiAtpitV1)
        ensures
            data.tells(r),
    {
        data.into_vdi()
    }
}

/// The hypervisor of the other host is told what that of the first one told.
pub proof fn law_atpit_migrates(s: AtPitV1, a: VdiAtpitV1, b: VdiAtpitV1)
    requires
        s.tells(a),
        s.tells(b),
    ensures
        forall|i: int| 0 <= i < 3 ==> #[trigger] a.va_channel@[i] == b.va_channel@[i],
{
    assert forall|i: int| 0 <= i < 3 implies #[trigger] a.va_channel@[i] == b.va_channel@[i] by {
        assert(s.channel@[i].tells(a.va_channel@[i]));
        assert(s.channel@[i].tells(b.va_channel@[i]));
    }
}

} // verus!
