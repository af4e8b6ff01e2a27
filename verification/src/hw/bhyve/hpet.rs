//! The high precision event timer.
use crate::hw::bhyve::data::{DataClass, DataOp};
use vstd::prelude::*;

verus! {

/// The state of one of the timers, as the hypervisor tells it.
#[derive(Clone, Copy, Debug)]
pub struct VdiHpetTimerV1 {
    pub vht_config: u64,
    pub vht_msi: u64,
    pub vht_comp_val: u32,
    pub vht_comp_rate: u32,
    pub vht_time_target: i64,
}

/// The state of one of the timers, as it is moved to another host.
#[derive(Clone, Copy, Debug, Default)]
pub struct HpetTimerV1 {
    pub config: u64,
    pub msi: u64,
    pub comp_val: u32,
    pub comp_rate: u32,
    pub time_target: i64,
}

impl HpetTimerV1 {
    /// Whether this is what the hypervisor tells by `v`.
    pub open spec fn tells(self, v: VdiHpetTimerV1) -> bool {
        &&& self.config == v.vht_config
        &&& self.msi == v.vht_msi
        &&& self.comp_val == v.vht_comp_val
        &&& self.comp_rate == v.vht_comp_rate
        &&& self.time_target == v.vht_time_target
    }

    /// What the hypervisor tells.
    pub fn from_vdi(v: VdiHpetTimerV1) -> (r: Self)
        ensures
            r.tells(v),
    {
        HpetTimerV1 {
            config: v.vht_config,
            msi: v.vht_msi,
            comp_val: v.vht_comp_val,
            comp_rate: v.vht_comp_rate,
            time_target: v.vht_time_target,
        }
    }

    /// What the hypervisor is told.
    pub fn into_vdi(self) -> (r: VdiHpetTimerV1)
        ensures
            self.tells(r),
    {
        VdiHpetTimerV1 {
            vht_config: self.config,
            vht_msi: self.msi,
            vht_comp_val: self.comp_val,
            vht_comp_rate: self.comp_rate,
            vht_time_target: self.time_target,
        }
    }
}

/// The state of the event timer, as the hypervisor tells it.
#[derive(Clone, Copy, Debug)]
pub struct VdiHpetV1 {
    pub vh_config: u64,
    pub vh_isr: u64,
    pub vh_count_base: u32,
    pub vh_time_base: i64,
    pub vh_timers: [VdiHpetTimerV1; 8],
}

/// The state of the event timer, as it is moved to another host.
#[derive(Clone, Copy, Debug, Default)]
pub struct HpetV1 {
    pub config: u64,
    pub isr: u64,
    pub count_base: u32,
    pub time_base: i64,
    pub timers: [HpetTimerV1; 8],
}

impl HpetV1 {
    /// Whether this is what the hypervisor tells by `v`.
    pub open spec fn tells(self, v: VdiHpetV1) -> bool {
        &&& self.config == v.vh_config
        &&& self.isr == v.vh_isr
        &&& self.count_base == v.vh_count_base
        &&& self.time_base == v.vh_time_base
        &&& forall|i: int| 0 <= i < 8 ==> (#[trigger] self.timers@[i]).tells(v.vh_timers@[i])
    }

    /// What the hypervisor tells.
    pub fn from_vdi(v: VdiHpetV1) -> (r: Self)
        ensures
            r.tells(v),
    {
        HpetV1 {
            config: v.vh_config,
            isr: v.vh_isr,
            count_base: v.vh_count_base,
            time_base: v.vh_time_base,
            timers: [
                HpetTimerV1::from_vdi(v.vh_timers[0]),
                HpetTimerV1::from_vdi(v.vh_timers[1]),
                HpetTimerV1::from_vdi(v.vh_timers[2]),
                HpetTimerV1::from_vdi(v.vh_timers[3]),
                HpetTimerV1::from_vdi(v.vh_timers[4]),
                HpetTimerV1::from_vdi(v.vh_timers[5]),
                HpetTimerV1::from_vdi(v.vh_timers[6]),
                HpetTimerV1::from_vdi(v.vh_timers[7]),
            ],
        }
    }

    /// What the hypervisor is told.
    pub fn into_vdi(self) -> (r: VdiHpetV1)
        ensures
            self.tells(r),
    {
        VdiHpetV1 {
            vh_config: self.config,
            vh_isr: self.isr,
            vh_count_base: self.count_base,
            vh_time_base: self.time_base,
            vh_timers: [
                self.timers[0].into_vdi(),
                self.timers[1].into_vdi(),
                self.timers[2].into_vdi(),
                self.timers[3].into_vdi(),
                self.timers[4].into_vdi(),
                self.timers[5].into_vdi(),
                self.timers[6].into_vdi(),
                self.timers[7].into_vdi(),
            ],
        }
    }
}

/// The high precision event timer.
#[derive(Clone, Copy, Debug)]
pub struct BhyveHpet {}

impl BhyveHpet {
    /// The device.
    pub fn create() -> (r: Self)
        ensures
            r == (BhyveHpet {  }),
    {
        BhyveHpet {  }
    }

    /// The state that is moved.
    pub fn data_op(&self) -> (r: DataOp)
        ensures
            r == (DataOp { class: DataClass::Hpet, version: 1 }),
    {
        DataOp { class: DataClass::Hpet, version: 1 }
    }

    /// The state to be moved to another host, from what the hypervisor told.
    pub fn export(&self, vdi: VdiHpetV1) -> (r: HpetV1)
        ensures
            r.tells(vdi),
    {
        HpetV1::from_vdi(vdi)
    }

    /// What is to be told the hypervisor, from the state brought from another
    /// host.
    pub fn import(&self, data: HpetV1) -> (r: VdiHpetV1)
        ensures
            data.tells(r),
    {
        data.into_vdi()
    }
}

/// The hypervisor of the other host is told what that of the first one told.
pub proof fn law_hpet_migrates(s: HpetV1, a: VdiHpetV1, b: VdiHpetV1)
    requires
        s.tells(a),
        s.tells(b),
    ensures
        a.vh_config == b.vh_config,
        a.vh_isr == b.vh_isr,
        a.vh_count_base == b.vh_count_base,
        a.vh_time_base == b.vh_time_base,
        forall|i: int| 0 <= i < 8 ==> #[trigger] a.vh_timers@[i] == b.vh_timers@[i],
{
    assert forall|i: int| 0 <= i < 8 implies #[trigger] a.vh_timers@[i] == b.vh_timers@[i] by {
        assert(s.timers@[i].tells(a.vh_timers@[i]));
        assert(s.timers@[i].tells(b.vh_timers@[i]));
    }
}

} // verus!
