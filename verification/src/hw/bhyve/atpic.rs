//! The interrupt controller (Intel 8259A).
use crate::hw::bhyve::data::{DataClass, DataOp};
use vstd::prelude::*;

verus! {

/// The state of one of the two chips, as the hypervisor tells it.
#[derive(Clone, Copy, Debug)]
pub struct VdiAtpicChipV1 {
    pub vac_icw_state: u8,
    pub vac_status: u8,
    pub vac_reg_irr: u8,
    pub vac_reg_isr: u8,
    pub vac_reg_imr: u8,
    pub vac_irq_base: u8,
    pub vac_lowprio: u8,
    pub vac_elc: u8,
    pub vac_level: [u32; 8],
}

impl VdiAtpicChipV1 {
    /// Whether two states are the same.
    pub open spec fn same(self, b: VdiAtpicChipV1) -> bool {
        &&& self.vac_icw_state == b.vac_icw_state
        &&& self.vac_status == b.vac_status
        &&& self.vac_reg_irr == b.vac_reg_irr
        &&& self.vac_reg_isr == b.vac_reg_isr
        &&& self.vac_reg_imr == b.vac_reg_imr
        &&& self.vac_irq_base == b.vac_irq_base
        &&& self.vac_lowprio == b.vac_lowprio
        &&& self.vac_elc == b.vac_elc
        &&& self.vac_level@ == b.vac_level@
    }
}

/// The state of one of the two chips, as it is moved to another host.
#[derive(Clone, Copy, Debug, Default)]
pub struct AtPicChipV1 {
    pub icw_state: u8,
    pub status: u8,
    pub reg_irr: u8,
    pub reg_isr: u8,
    pub reg_imr: u8,
    pub irq_base: u8,
    pub lowprio: u8,
    pub elc: u8,
    pub level: [u32; 8],
}

impl AtPicChipV1 {
    /// Whether this is what the hypervisor tells by `v`.
    pub open spec fn tells(self, v: VdiAtpicChipV1) -> bool {
        &&& self.icw_state == v.vac_icw_state
        &&& self.status == v.vac_status
        &&& self.reg_irr == v.vac_reg_irr
        &&& self.reg_isr == v.vac_reg_isr
        &&& self.reg_imr == v.vac_reg_imr
        &&& self.irq_base == v.vac_irq_base
        &&& self.lowprio == v.vac_lowprio
        &&& self.elc == v.vac_elc
        &&& self.level@ == v.vac_level@
    }

    /// What the hypervisor tells.
    pub fn from_vdi(v: VdiAtpicChipV1) -> (r: Self)
        ensures
            r.tells(v),
    {
        AtPicChipV1 {
            icw_state: v.vac_icw_state,
            status: v.vac_status,
            reg_irr: v.vac_reg_irr,
            reg_isr: v.vac_reg_isr,
            reg_imr: v.vac_reg_imr,
            irq_base: v.vac_irq_base,
            lowprio: v.vac_lowprio,
            elc: v.vac_elc,
            level: v.vac_level,
        }
    }

    /// What the hypervisor is told.
    pub fn into_vdi(self) -> (r: VdiAtpicChipV1)
        ensures
            self.tells(r),
    {
        VdiAtpicChipV1 {
            vac_icw_state: self.icw_state,
            vac_status: self.status,
            vac_reg_irr: self.reg_irr,
            vac_reg_isr: self.reg_isr,
            vac_reg_imr: self.reg_imr,
            vac_irq_base: self.irq_base,
            vac_lowprio: self.lowprio,
            vac_elc: self.elc,
            vac_level: self.level,
        }
    }
}

/// The state of the interrupt controller, as the hypervisor tells it.
#[derive(Clone, Copy, Debug)]
pub struct VdiAtpicV1 {
    pub va_chip: [VdiAtpicChipV1; 2],
}

/// The state of the interrupt controller, as it is moved to another host.
#[derive(Clone, Copy, Debug, Default)]
pub struct AtPicV1 {
    pub chips: [AtPicChipV1; 2],
}

impl AtPicV1 {
    /// Whether this is what the hypervisor tells by `v`.
    pub open spec fn tells(self, v: VdiAtpicV1) -> bool {
        &&& forall|i: int| 0 <= i < 2 ==> (#[trigger] self.chips@[i]).tells(v.va_chip@[i])
    }

    /// What the hypervisor tells.
    pub fn from_vdi(v: VdiAtpicV1) -> (r: Self)
        ensures
            r.tells(v),
    {
        AtPicV1 {
            chips: [
                AtPicChipV1::from_vdi(v.va_chip[0]),
                AtPicChipV1::from_vdi(v.va_chip[1]),
            ],
        }
    }

    /// What the hypervisor is told.
    pub fn into_vdi(self) -> (r: VdiAtpicV1)
        ensures
            self.tells(r),
    {
        VdiAtpicV1 {
            va_chip: [
                self.chips[0].into_vdi(),
                self.chips[1].into_vdi(),
            ],
        }
    }
}

/// The interrupt controller (Intel 8259A).
#[derive(Clone, Copy, Debug)]
pub struct BhyveAtPic {}

impl BhyveAtPic {
    /// The device.
    pub fn create() -> (r: Self)
        ensures
            r == (BhyveAtPic {  }),
    {
        BhyveAtPic {  }
    }

    /// The state that is moved.
    pub fn data_op(&self) -> (r: DataOp)
        ensures
            r == (DataOp { class: DataClass::AtPic, version: 1 }),
    {
        DataOp { class: DataClass::AtPic, version: 1 }
    }

    /// The state to be moved to another host, from what the hypervisor told.
    pub fn export(&self, vdi: VdiAtpicV1) -> (r: AtPicV1)
        ensures
            r.tells(vdi),
    {
        AtPicV1::from_vdi(vdi)
    }

    /// What is to be told the hypervisor, from the state brought from another
    /// host.
    pub fn import(&self, data: AtPicV1) -> (r: VdiAtpicV1)
        ensures
            data.tells(r),
    {
        data.into_vdi()
    }
}

/// The hypervisor of the other host is told what that of the first one told.
pub proof fn law_atpic_migrates(s: AtPicV1, a: VdiAtpicV1, b: VdiAtpicV1)
    requires
        s.tells(a),
        s.tells(b),
    ensures
        forall|i: int|
            0 <= i < 2 ==> (#[trigger] a.va_chip@[i]).same(b.va_chip@[i]),
{
    assert forall|i: int| 0 <= i < 2 implies (#[trigger] a.va_chip@[i]).same(b.va_chip@[i]) by {
        assert(s.chips@[i].tells(a.va_chip@[i]));
        assert(s.chips@[i].tells(b.va_chip@[i]));
    }
}

} // verus!
