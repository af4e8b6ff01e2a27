//! The IO interrupt controller (Intel 82093AA).
use crate::hw::bhyve::data::{DataClass, DataOp};
use vstd::prelude::*;

verus! {

/// The state of the interrupt controller, as the hypervisor tells it.
#[derive(Clone, Copy, Debug)]
pub struct VdiIoapicV1 {
    pub vi_id: u32,
    pub vi_reg_sel: u32,
    pub vi_pin_reg: [u64; 32],
    pub vi_pin_level: [u32; 32],
}

/// The state of the interrupt controller, as it is moved to another host.
#[derive(Clone, Copy, Debug, Default)]
pub struct IoApicV1 {
    pub id: u32,
    pub reg_sel: u32,
    pub registers: [u64; 32],
    pub levels: [u32; 32],
}

impl IoApicV1 {
    /// Whether this is what the hypervisor tells by `v`.
    pub open spec fn tells(self, v: VdiIoapicV1) -> bool {
        &&& self.id == v.vi_id
        &&& self.reg_sel == v.vi_reg_sel
        &&& self.registers@ == v.vi_pin_reg@
        &&& self.levels@ == v.vi_pin_level@
    }

    /// What the hypervisor tells.
    pub fn from_vdi(v: VdiIoapicV1) -> (r: Self)
        ensures
            r.tells(v),
    {
        IoApicV1 {
            id: v.vi_id,
            reg_sel: v.vi_reg_sel,
            registers: v.vi_pin_reg,
            levels: v.vi_pin_level,
        }
    }

    /// What the hypervisor is told.
    pub fn into_vdi(self) -> (r: VdiIoapicV1)
        ensures
            self.tells(r),
    {
        VdiIoapicV1 {
            vi_id: self.id,
            vi_reg_sel: self.reg_sel,
            vi_pin_reg: self.registers,
            vi_pin_level: self.levels,
        }
    }
}

/// The IO interrupt controller (Intel 82093AA).
#[derive(Clone, Copy, Debug)]
pub struct BhyveIoApic {}

impl BhyveIoApic {
    /// The device.
    pub fn create() -> (r: Self)
        ensures
            r == (BhyveIoApic {  }),
    {
        BhyveIoApic {  }
    }

    /// The state that is moved.
    pub fn data_op(&self) -> (r: DataOp)
        ensures
            r == (DataOp { class: DataClass::IoApic, version: 1 }),
    {
        DataOp { class: DataClass::IoApic, version: 1 }
    }

    /// The state to be moved to another host, from what the hypervisor told.
    pub fn export(&self, vdi: VdiIoapicV1) -> (r: IoApicV1)
        ensures
            r.tells(vdi),
    {
        IoApicV1::from_vdi(vdi)
    }

    /// What is to be told the hypervisor, from the state brought from another
    /// host.
    pub fn import(&self, data: IoApicV1) -> (r: VdiIoapicV1)
        ensures
            data.tells(r),
    {
        data.into_vdi()
    }
}

/// The hypervisor of the other host is told what that of the first one told.
pub proof fn law_ioapic_migrates(s: IoApicV1, a: VdiIoapicV1, b: VdiIoapicV1)
    requires
        s.tells(a),
        s.tells(b),
    ensures
        a.vi_id == b.vi_id,
        a.vi_reg_sel == b.vi_reg_sel,
        a.vi_pin_reg@ == b.vi_pin_reg@,
        a.vi_pin_level@ == b.vi_pin_level@,
{
}

} // verus!
