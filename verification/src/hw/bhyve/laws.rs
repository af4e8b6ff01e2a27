//! What a guest can rely on of the devices whose state the hypervisor holds:
//! what firmware reads of the memory sizes, and what moves to another host.
use crate::hw::bhyve::atpic::{AtPicV1, VdiAtpicV1};
use crate::hw::bhyve::atpit::{AtPitV1, VdiAtpitV1};
use crate::hw::bhyve::hpet::{HpetV1, VdiHpetV1};
use crate::hw::bhyve::ioapic::{IoApicV1, VdiIoapicV1};
use crate::hw::bhyve::rtc::{law_nvram_tells_memory, memsize_ops, told, BhyveRtcV2, VdiRtcV2};
use vstd::prelude::*;

verus! {

/// Where firmware finds the sizes of memory: at 0x15 the KiB of base memory, of
/// which there are no more than 640; at 0x17, and again at 0x30, the KiB from 1
/// MiB up to 64 MiB; at 0x34 the units of 64 KiB from 16 MiB up to 4 GiB; and at
/// 0x5b, in three bytes, those from 4 GiB on.
pub proof fn law_memory_sizes(cmos: Seq<u8>, low: int, high: int)
    requires
        cmos.len() == 128,
        0 < low < 0x1_0000_0000,
        0 <= high < 0x100_0000_0000,
    ensures
        ({
            let c = told(cmos, memsize_ops(low, high));
            let base = c[0x15] + 0x100 * c[0x16];
            let ext = c[0x17] + 0x100 * c[0x18];
            let over16m = c[0x34] + 0x100 * c[0x35];
            let over4g = c[0x5b] + 0x100 * c[0x5c] + 0x1_0000 * c[0x5d];
            &&& low >= 0xa_0000 ==> base == 640
            &&& low < 0xa_0000 ==> 0x400 * base <= low < 0x400 * (base + 1)
            &&& 0x10_0000 < low <= 0x400_0000 ==> 0x400 * ext <= low - 0x10_0000 < 0x400 * (ext
                + 1)
            &&& low >= 0x400_0000 ==> ext == 0xfc00
            &&& low > 0x10_0000 ==> c[0x30] == c[0x17] && c[0x31] == c[0x18]
            &&& low > 0x100_0000 ==> 0x1_0000 * over16m <= low - 0x100_0000 < 0x1_0000 * (over16m
                + 1)
            &&& high > 0 ==> 0x1_0000 * over4g <= high < 0x1_0000 * (over4g + 1)
        }),
{
    law_nvram_tells_memory(cmos, low, high);
    let c = told(cmos, memsize_ops(low, high));
    if low > 0x10_0000 {
        assert(c[0x17] + 0x100 * c[0x18] == c[0x30] + 0x100 * c[0x31]);
    }
}

/// What moves of the interrupt controllers is each of their registers, as such.
pub proof fn law_atpic_registers(s: AtPicV1, v: VdiAtpicV1, i: int)
    requires
        s.tells(v),
        0 <= i < 2,
    ensures
        ({
            let (a, b) = (s.chips@[i], v.va_chip@[i]);
            &&& a.icw_state == b.vac_icw_state
            &&& a.status == b.vac_status
            &&& a.reg_irr == b.vac_reg_irr
            &&& a.reg_isr == b.vac_reg_isr
            &&& a.reg_imr == b.vac_reg_imr
            &&& a.irq_base == b.vac_irq_base
            &&& a.lowprio == b.vac_lowprio
            &&& a.elc == b.vac_elc
            &&& a.level@ == b.vac_level@
        }),
{
    assert(s.chips@[i].tells(v.va_chip@[i]));
}

/// What moves of the interval timer is each register of its channels, as such.
pub proof fn law_atpit_registers(s: AtPitV1, v: VdiAtpitV1, i: int)
    requires
        s.tells(v),
        0 <= i < 3,
    ensures
        ({
            let (a, b) = (s.channel@[i], v.va_channel@[i]);
            &&& a.initial == b.vac_initial
            &&& a.reg_cr == b.vac_reg_cr
            &&& a.reg_ol == b.vac_reg_ol
            &&& a.reg_status == b.vac_reg_status
            &&& a.mode == b.vac_mode
            &&& a.status == b.vac_status
            &&& a.time_target == b.vac_time_target
        }),
{
    assert(s.channel@[i].tells(v.va_channel@[i]));
}

/// What moves of the event timers is each of their registers, as such.
pub proof fn law_hpet_registers(s: HpetV1, v: VdiHpetV1, i: int)
    requires
        s.tells(v),
        0 <= i < 8,
    ensures
        s.config == v.vh_config,
        s.isr == v.vh_isr,
        s.count_base == v.vh_count_base,
        s.time_base == v.vh_time_base,
        ({
            let (a, b) = (s.timers@[i], v.vh_timers@[i]);
            &&& a.config == b.vht_config
            &&& a.msi == b.vht_msi
            &&& a.comp_val == b.vht_comp_val
            &&& a.comp_rate == b.vht_comp_rate
            &&& a.time_target == b.vht_time_target
        }),
{
    assert(s.timers@[i].tells(v.vh_timers@[i]));
}

/// What moves of the interrupt router and of the clock is each of their
/// registers, as such.
pub proof fn law_other_registers(s: IoApicV1, v: VdiIoapicV1, t: BhyveRtcV2, w: VdiRtcV2)
    requires
        s.tells(v),
        t.tells(w),
    ensures
        s.id == v.vi_id,
        s.reg_sel == v.vi_reg_sel,
        s.registers@ == v.vi_pin_reg@,
        s.levels@ == v.vi_pin_level@,
        t.base_clock == w.vr_base_clock,
        t.last_period == w.vr_last_period,
        t.cmos@ == w.vr_content@,
        t.addr == w.vr_addr,
{
}

} // verus!
