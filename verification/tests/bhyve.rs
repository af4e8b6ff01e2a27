use propolis::hw::bhyve::atpic::{AtPicV1, VdiAtpicChipV1, VdiAtpicV1};
use propolis::hw::bhyve::atpit::{AtPitV1, VdiAtpitChannelV1, VdiAtpitV1};
use propolis::hw::bhyve::data::{DataClass, DataOp};
use propolis::hw::bhyve::hpet::{HpetV1, VdiHpetTimerV1, VdiHpetV1};
use propolis::hw::bhyve::ioapic::{IoApicV1, VdiIoapicV1};
use propolis::hw::bhyve::pmtimer::{PmTimerV1, VdiPmTimerV1};
use propolis::hw::bhyve::rtc::{RtcOp, VdiRtcV2};
use propolis::hw::bhyve::{
    BhyveAtPic, BhyveAtPit, BhyveHpet, BhyveIoApic, BhyvePmTimer, BhyveRtc,
};

fn chip(n: u8) -> VdiAtpicChipV1 {
    VdiAtpicChipV1 {
        vac_icw_state: n,
        vac_status: n + 1,
        vac_reg_irr: n + 2,
        vac_reg_isr: n + 3,
        vac_reg_imr: n + 4,
        vac_irq_base: n + 5,
        vac_lowprio: n + 6,
        vac_elc: n + 7,
        vac_level: [n as u32, 1, 2, 3, 4, 5, 6, 7],
    }
}

#[test]
fn interrupt_controller_moves() {
    let dev = BhyveAtPic::create();
    assert_eq!(dev.data_op(), DataOp { class: DataClass::AtPic, version: 1 });
    let saved: AtPicV1 = dev.export(VdiAtpicV1 { va_chip: [chip(10), chip(100)] });
    assert_eq!(saved.chips[1].reg_imr, 104);
    assert_eq!(saved.chips[0].level, [10, 1, 2, 3, 4, 5, 6, 7]);
    let told = dev.import(saved);
    assert_eq!(told.va_chip[0].vac_elc, 17);
    assert_eq!(told.va_chip[1].vac_icw_state, 100);
    assert_eq!(told.va_chip[1].vac_level, [100, 1, 2, 3, 4, 5, 6, 7]);
}

#[test]
fn interval_timer_moves() {
    let dev = BhyveAtPit::create();
    let ch = |n: u16| VdiAtpitChannelV1 {
        vac_initial: n,
        vac_reg_cr: n + 1,
        vac_reg_ol: n + 2,
        vac_reg_status: 3,
        vac_mode: 4,
        vac_status: 5,
        vac_time_target: -(n as i64),
    };
    let saved = dev.export(VdiAtpitV1 { va_channel: [ch(1), ch(20), ch(300)] });
    assert_eq!(saved.channel[1].reg_ol, 22);
    let told = dev.import(saved);
    assert_eq!(told.va_channel[2].vac_time_target, -300);
    assert_eq!(told.va_channel[0].vac_mode, 4);
}

#[test]
fn event_timer_moves() {
    let dev = BhyveHpet::create();
    let t = |n: u64| VdiHpetTimerV1 {
        vht_config: n,
        vht_msi: n + 1,
        vht_comp_val: 2,
        vht_comp_rate: 3,
        vht_time_target: -4,
    };
    let vdi = VdiHpetV1 {
        vh_config: 1,
        vh_isr: 2,
        vh_count_base: 3,
        vh_time_base: -4,
        vh_timers: [t(0), t(1), t(2), t(3), t(4), t(5), t(6), t(7)],
    };
    let saved = dev.export(vdi);
    assert_eq!((saved.config, saved.isr, saved.count_base, saved.time_base), (1, 2, 3, -4));
    let told = dev.import(saved);
    for i in 0..8 {
        assert_eq!(told.vh_timers[i].vht_config, i as u64);
        assert_eq!(told.vh_timers[i].vht_time_target, -4);
    }
}

#[test]
fn io_interrupt_controller_moves() {
    let dev = BhyveIoApic::create();
    let mut regs = [0u64; 32];
    regs[31] = 77;
    let mut levels = [0u32; 32];
    levels[3] = 5;
    let saved = dev.export(VdiIoapicV1 {
        vi_id: 9,
        vi_reg_sel: 8,
        vi_pin_reg: regs,
        vi_pin_level: levels,
    });
    assert_eq!(saved.registers[31], 77);
    let told = dev.import(saved);
    assert_eq!((told.vi_id, told.vi_reg_sel, told.vi_pin_level[3]), (9, 8, 5));
}

#[test]
fn timer_is_told_its_place_when_needed() {
    let mut t = BhyvePmTimer::create(0xb008);
    assert_eq!(t.update_attachment(), Some(0xb008));
    t.located(0xb008, true);
    assert_eq!(t.update_attachment(), None);
    t.reset();
    assert_eq!(t.update_attachment(), Some(0xb008));
    t.located(0xb008, false);
    assert_eq!(t.update_attachment(), Some(0xb008));
}

#[test]
fn timer_moves_without_its_place() {
    let t = BhyvePmTimer::create(0xb008);
    let saved = t.export(VdiPmTimerV1 { vpt_time_base: 123, vpt_ioport: 0xb008 });
    assert_eq!(saved, PmTimerV1 { start_time: 123 });
    assert_eq!(t.import(saved), VdiPmTimerV1 { vpt_time_base: 123, vpt_ioport: 0 });
}

fn nvram(low: u32, high: u64) -> [u8; 128] {
    let mut cmos = [0xaau8; 128];
    for op in BhyveRtc::create().memsize_to_nvram(low, high) {
        match op {
            RtcOp::Write(off, v) => cmos[off as usize] = v,
            RtcOp::SetTime(..) => panic!(),
        }
    }
    cmos
}

fn word(cmos: &[u8; 128], off: usize) -> u32 {
    cmos[off] as u32 | (cmos[off + 1] as u32) << 8
}

#[test]
fn memory_sizes_of_a_large_guest() {
    // 3 GiB below the boundary, 5 GiB above
    let c = nvram(0xc000_0000, 5 << 30);
    assert_eq!(word(&c, 0x15), 640);
    assert_eq!(word(&c, 0x17), 63 * 1024);
    assert_eq!(word(&c, 0x30), 63 * 1024);
    assert_eq!(word(&c, 0x34), (3072 - 16) * 16);
    let high = c[0x5b] as u32 | (c[0x5c] as u32) << 8 | (c[0x5d] as u32) << 16;
    assert_eq!(high, 5 * 1024 * 16);
}

#[test]
fn memory_sizes_of_a_small_guest() {
    // 512 KiB: only the base memory is told
    let c = nvram(512 * 1024, 0);
    assert_eq!(word(&c, 0x15), 512);
    for off in [0x17, 0x18, 0x30, 0x31, 0x34, 0x35, 0x5b, 0x5c, 0x5d] {
        assert_eq!(c[off], 0xaa);
    }
    // 8 MiB: there is extended memory
    let c = nvram(8 << 20, 0);
    assert_eq!(word(&c, 0x15), 640);
    assert_eq!(word(&c, 0x17), 7 * 1024);
    assert_eq!(c[0x34], 0xaa);
}

#[test]
fn memory_sizes_are_written_in_order() {
    let ops = BhyveRtc::create().memsize_to_nvram(4096, 0);
    assert_eq!(ops, vec![RtcOp::Write(0x15, 4), RtcOp::Write(0x16, 0)]);
}

#[test]
fn clock_is_set_and_moves() {
    let rtc = BhyveRtc::create();
    assert_eq!(rtc.set_time(1000, 5), RtcOp::SetTime(1000, 5));
    assert_eq!(rtc.data_op(), DataOp { class: DataClass::Rtc, version: 2 });
    let mut content = [0u8; 128];
    content[127] = 9;
    let saved = rtc.export(VdiRtcV2 {
        vr_base_clock: 1,
        vr_last_period: 2,
        vr_content: content,
        vr_addr: 3,
    });
    assert_eq!((saved.base_clock, saved.last_period, saved.addr), (1, 2, 3));
    assert_eq!(rtc.import(saved).vr_content[127], 9);
}

#[test]
fn saved_states_have_defaults() {
    assert_eq!(AtPicV1::default().chips[1].level, [0; 8]);
    assert_eq!(AtPitV1::default().channel[2].reg_ol, 0);
    assert_eq!(HpetV1::default().timers.len(), 8);
    assert_eq!(IoApicV1::default().levels, [0; 32]);
}
