//! What a guest can rely on of the BARs of devices: how it finds their sizes,
//! where it can place them, and what becomes of them; and of the other ways in
//! which a device shows its state.
use crate::addrspace::{can_place, ranges_ok, AddrRange, Owner};
use crate::common::{law_le32_round_trip, le32};
use crate::hw::pci::bar::{
    bar_read, bar_written, bars_wf, bars_written, entry_ok, BarDefine, Entry, EntryKind,
};
use crate::hw::pci::bus::{BarState, Placing};
use crate::hw::pci::device::{
    dev_reset, reset_events, DevModel, DevView, DeviceState, StdCfgLayout, StdCfgReg,
};
use crate::hw::pci::laws::{header_span, law_header_found};
use crate::hw::pci::msix::{
    law_pba_bit, pba_byte, MsixBarLayout, MsixBarReg, MsixCfg, MsixEntry, MsixModel,
};
use crate::hw::pci::{BarN, BusLocation, DevEvent, IntrMode};
use crate::regmap::{law_register_part, law_whole_register, space_read, space_write, RegSpan};
use vstd::prelude::*;

verus! {

// ---------------------------------------------------------------------------
// Sizes and addresses
// ---------------------------------------------------------------------------

/// The bits of all ones that are kept of a size, and the bits that tell a type
/// apart from the address.
proof fn lemma_size_bits(a: u16, b: u32, c: u64)
    requires
        a > 0 && a % 4 == 0,
        b > 0 && b % 16 == 0,
        c > 0 && c % 16 == 0,
    ensures
        (0xffff_ffffu32 & (!((a - 1) as u16) as u32)) | 1 == 0x1_0000 - a + 1,
        (0xffff_ffffu32 & !((b - 1) as u32)) | 0 == 0x1_0000_0000 - b,
        (0xffff_ffffu32 & ((!((c - 1) as u64)) % 0x1_0000_0000) as u32) | 4 == ((
        0x1_0000_0000_0000_0000 - c) % 0x1_0000_0000) + 4,
        ((0xffff_ffff_0000_0000u64) & !((c - 1) as u64)) / 0x1_0000_0000 == (
        0x1_0000_0000_0000_0000 - c) / 0x1_0000_0000,
{
    let x = (a - 1) as u16;
    assert(x % 4 == 3 ==> (0xffff_ffffu32 & ((!x) as u32)) | 1 == 0x1_0000u32 - x) by (bit_vector);
    let y = (b - 1) as u32;
    assert((0xffff_ffffu32 & !y) | 0 == 0xffff_ffffu32 - y) by (bit_vector);
    let z = (c - 1) as u64;
    assert(z % 16 == 15 ==> (0xffff_ffffu32 & ((!z) % 0x1_0000_0000u64) as u32) | 4 == (
    0xffff_ffff_ffff_ffffu64 - z) % 0x1_0000_0000 + 4) by (bit_vector);
    assert((0xffff_ffff_0000_0000u64 & !z) / 0x1_0000_0000u64 == (0xffff_ffff_ffff_ffffu64 - z)
        / 0x1_0000_0000) by (bit_vector);
}

/// A BAR to which all ones are written tells its size, which is what is missing
/// to the end of its address space: 16 bits of ports, with bit 0 set, or 32 or
/// 64 bits of memory, the latter with bit 2 set and in two registers.
pub proof fn law_bar_size_told(s: Seq<Entry>, i: int)
    requires
        bars_wf(s),
        0 <= i < 6,
    ensures
        ({
            let t = bars_written(s, i, 0xffff_ffff);
            match s[i].kind {
                EntryKind::Empty => bar_read(t, i) == 0,
                EntryKind::Pio(size) => size % 4 == 0 ==> bar_read(t, i) == 0x1_0000 - size + 1,
                EntryKind::Mmio(size) => size % 16 == 0 ==> bar_read(t, i) == 0x1_0000_0000 - size,
                EntryKind::Mmio64(size) => size % 16 == 0 ==> {
                    let u = bars_written(t, i + 1, 0xffff_ffff);
                    bar_read(u, i) + 0x1_0000_0000 * bar_read(u, i + 1) == 0x1_0000_0000_0000_0000
                        - size + 4
                },
                EntryKind::Mmio64High => true,
            }
        }),
{
    assert(entry_ok(s, i));
    crate::hw::pci::bar::law_bar_read_back(s, i, 0xffff_ffff);
    match s[i].kind {
        EntryKind::Pio(size) => {
            if size % 4 == 0 {
                lemma_size_bits(size, 16, 16);
            }
        },
        EntryKind::Mmio(size) => {
            if size % 16 == 0 {
                lemma_size_bits(4, size, 16);
            }
        },
        EntryKind::Mmio64(size) => {
            if size % 16 == 0 {
                lemma_size_bits(4, 16, size);
                let t = bars_written(s, i, 0xffff_ffff);
                lemma_written_wf(s, i, 0xffff_ffff);
                crate::hw::pci::bar::law_bar_read_back(t, i + 1, 0xffff_ffff);
                let rest = 0x1_0000_0000_0000_0000 - size;
                assert(rest % 0x1_0000_0000 + 0x1_0000_0000 * (rest / 0x1_0000_0000) == rest);
            }
        },
        _ => {},
    }
}

/// Writing a BAR keeps the invariant.
proof fn lemma_written_wf(s: Seq<Entry>, i: int, val: u32)
    requires
        bars_wf(s),
        0 <= i < 6,
    ensures
        bars_wf(bars_written(s, i, val)),
{
    let t = bars_written(s, i, val);
    assert(entry_ok(s, i));
    assert forall|k: int| 0 <= k < 6 implies entry_ok(t, k) by {
        assert(entry_ok(s, k));
        if k > 0 {
            assert(entry_ok(s, k - 1));
        }
        if k < 5 {
            assert(entry_ok(s, k + 1));
        }
    }
}

/// A BAR takes an address that has none of the bits below its size set, and
/// reads as that address with its type in the low bits. For one of 64 bits the
/// address is written, and read, in two halves, the lower one first.
pub proof fn law_bar_address_kept(s: Seq<Entry>, i: int, addr: u64)
    requires
        bars_wf(s),
        0 <= i < 6,
        s[i].kind.spec_define() is Some,
    ensures
        ({
            let low = (addr % 0x1_0000_0000) as u32;
            let high = (addr / 0x1_0000_0000) as u32;
            let t = bars_written(s, i, low);
            match s[i].kind {
                EntryKind::Pio(size) => addr < 0x1_0000 && addr & ((size - 1) as u64) == 0 ==> {
                    &&& t[i].value == addr
                    &&& bar_read(t, i) == low | 1
                },
                EntryKind::Mmio(size) => addr < 0x1_0000_0000 && addr & ((size - 1) as u64) == 0
                    ==> {
                    &&& t[i].value == addr
                    &&& bar_read(t, i) == low
                },
                EntryKind::Mmio64(size) => addr & ((size - 1) as u64) == 0 ==> {
                    let u = bars_written(t, i + 1, high);
                    &&& u[i].value == addr
                    &&& bar_read(u, i) == low | 4
                    &&& bar_read(u, i + 1) == high
                },
                _ => true,
            }
        }),
{
    assert(entry_ok(s, i));
    let low = (addr % 0x1_0000_0000) as u32;
    let high = (addr / 0x1_0000_0000) as u32;
    match s[i].kind {
        EntryKind::Pio(size) => {
            let x = (size - 1) as u16;
            assert(addr < 0x1_0000 && low as u64 == addr && addr & (x as u64) == 0 ==> low & ((
            !x) as u32) == low) by (bit_vector);
        },
        EntryKind::Mmio(size) => {
            let x = (size - 1) as u32;
            assert(low as u64 == addr && addr & (x as u64) == 0 ==> low & !x == low) by (bit_vector);
            assert(low | 0 == low) by (bit_vector);
        },
        EntryKind::Mmio64(size) => {
            let x = (size - 1) as u64;
            if addr & x == 0 {
                assert(addr & x == 0 && low as u64 == addr % 0x1_0000_0000u64 ==> low & (((!x)
                    % 0x1_0000_0000u64) as u32) == low) by (bit_vector);
                let t = bars_written(s, i, low);
                let y = (high * 0x1_0000_0000) as u64;
                assert(y == addr - low);
                assert(addr & x == 0 && low as u64 == addr % 0x1_0000_0000u64 && y == addr - low
                    ==> y & !x == y) by (bit_vector);
                assert(t[i].value % 0x1_0000_0000 == low);
                assert(y % 0x1_0000_0000 == 0);
            }
        },
        _ => {},
    }
}

/// A BAR that is enabled moves when its address changes: it leaves its place,
/// and what it is for is then at the new address. One that is not enabled, or
/// whose address stays, does not move.
pub proof fn law_bar_moves(m: DevModel, n: BarN, addr: u32)
    requires
        bars_wf(m.dev.bars),
        m.dev.bars[n.spec_idx()].kind is Mmio || m.dev.bars[n.spec_idx()].kind is Pio,
    ensures
        ({
            let i = n.spec_idx();
            let after = space_write::<StdCfgLayout, DeviceState>(m, 0x10 + 4 * i, le32(addr));
            let (old_e, new_e) = (m.dev.bars[i], after.dev.bars[i]);
            let on = if old_e.kind is Pio {
                m.dev.reg_command.io_en
            } else {
                m.dev.reg_command.mmio_en
            };
            let def = match old_e.kind {
                EntryKind::Pio(size) => BarDefine::Pio(size),
                EntryKind::Mmio(size) => BarDefine::Mmio(size),
                _ => BarDefine::Pio(0),
            };
            &&& new_e.kind == old_e.kind
            &&& after.events == if on && new_e.value != old_e.value {
                m.events + seq![
                    DevEvent::BarUnregister(n),
                    DevEvent::BarRegister(n, def, new_e.value),
                ]
            } else {
                m.events
            }
        }),
{
    law_header_found();
    let i = n.spec_idx();
    let s = header_span(StdCfgReg::Bar(n), (0x10 + 4 * i) as usize, 4);
    law_le32_round_trip(addr, le32(addr));
    law_whole_register::<StdCfgLayout, DeviceState>(m, s, le32(0), le32(addr));
    assert(entry_ok(m.dev.bars, i));
    assert(BarN::spec_of(i) == n);
    let new = bar_written(m.dev.bars, i, addr);
    let def = m.dev.bars[i].kind.spec_define()->0;
    assert(m.events.push(DevEvent::BarUnregister(n)).push(DevEvent::BarRegister(n, def, new))
        =~= m.events + seq![DevEvent::BarUnregister(n), DevEvent::BarRegister(n, def, new)]);
}

// ---------------------------------------------------------------------------
// Places
// ---------------------------------------------------------------------------

/// A run of addresses can be placed exactly if it is not empty, does not go past
/// the end of the space, and has no address that something else has.
pub proof fn law_free_place(last: u64, ranges: Seq<AddrRange>, r: AddrRange)
    requires
        ranges_ok(last, ranges),
    ensures
        can_place(last, ranges, r) <==> {
            &&& 0 < r.len
            &&& r.start + r.len - 1 <= last
            &&& forall|k: int, a: u64|
                #![trigger ranges[k], r.holds(a)]
                0 <= k < ranges.len() && r.start <= a < r.start + r.len && r.holds(a) ==> !(
                ranges[k].start <= a < ranges[k].start + ranges[k].len)
        },
        forall|a: u64| #[trigger] r.holds(a) <==> r.start <= a < r.start + r.len,
{
    let free = forall|k: int, a: u64|
        #![trigger ranges[k], r.holds(a)]
        0 <= k < ranges.len() && r.start <= a < r.start + r.len && r.holds(a) ==> !(
        ranges[k].start <= a < ranges[k].start + ranges[k].len);
    if can_place(last, ranges, r) {
        assert forall|k: int, a: u64|
            #![trigger ranges[k], r.holds(a)]
            0 <= k < ranges.len() && r.start <= a < r.start + r.len && r.holds(a) implies !(
        ranges[k].start <= a < ranges[k].start + ranges[k].len) by {
            assert(!r.overlaps(ranges[k]));
        }
    }
    if free && 0 < r.len && r.start + r.len - 1 <= last {
        assert forall|k: int| 0 <= k < ranges.len() implies !r.overlaps(#[trigger] ranges[k]) by {
            assert(0 < ranges[k].len);
            let a: u64 = if r.start < ranges[k].start {
                ranges[k].start
            } else {
                r.start
            };
            if r.overlaps(ranges[k]) {
                assert(r.holds(a));
            }
        }
    }
}

/// A BAR that is enabled goes to its address space: one of ports to the address
/// modulo 2 to the 16th, one of memory to the address. It is as long as its
/// size, and the other space stays as it is.
pub proof fn law_bar_goes_to(p: Placing, loc: BusLocation, n: BarN, def: BarDefine, value: u64)
    requires
        p.bus.wf(),
        loc.wf(),
    ensures
        ({
            let i = (loc.dev * 8 + loc.func) * 6 + n.spec_idx();
            let q = p.registered(loc, n, def, value);
            let owner = Owner { bus: p.bus.index, reg: i as usize };
            let (r, last) = match def {
                BarDefine::Pio(size) => (
                    AddrRange { start: (value % 0x1_0000) as u64, len: size as u64, owner },
                    0xffffu64,
                ),
                BarDefine::Mmio(size) => (
                    AddrRange { start: value, len: size as u64, owner },
                    0xffff_ffff_ffff_ffffu64,
                ),
                BarDefine::Mmio64(size) => (
                    AddrRange { start: value, len: size, owner },
                    0xffff_ffff_ffff_ffffu64,
                ),
            };
            let live = can_place(
                last,
                if def is Pio {
                    p.pio
                } else {
                    p.mmio
                },
                r,
            );
            &&& q.bus.bars == p.bus.bars.update(i, Some(BarState { def, value, live }))
            &&& q.bus.funcs == p.bus.funcs
            &&& q.pio == if live && def is Pio {
                p.pio.push(r)
            } else {
                p.pio
            }
            &&& q.mmio == if live && !(def is Pio) {
                p.mmio.push(r)
            } else {
                p.mmio
            }
        }),
{
    assert(u64::MAX == 0xffff_ffff_ffff_ffff);
}

// ---------------------------------------------------------------------------
// Interrupts and resets
// ---------------------------------------------------------------------------

/// How a device signals interrupts: by messages where they are enabled, else by
/// its pin, if its place gives it one and the command register does not disable
/// it (bit 10).
pub proof fn law_way_of_interrupts(d: DevView)
    ensures
        ({
            let messages = d.msix is Some && d.msix->0.enabled;
            let pin = d.attach is Some && d.attach->0.lintr_cfg is Some && (
            d.reg_command.spec_bits() / 0x400) % 2 == 0;
            d.intr_mode() == if messages {
                IntrMode::Msix
            } else if pin {
                IntrMode::INTxPin
            } else {
                IntrMode::Disabled
            }
        }),
{
}

/// A reset disables everything and forgets all addresses and vectors. The place
/// and the identity of the device, and the interrupt line, stay.
pub proof fn law_reset_forgets(m: DevModel, k: int)
    requires
        m.dev.wf(),
        0 <= k < 6,
    ensures
        ({
            let n = dev_reset(m);
            &&& n.dev.reg_command.spec_bits() == 0
            &&& n.dev.bars.len() == 6
            &&& n.dev.bars[k].kind == m.dev.bars[k].kind
            &&& m.dev.bars[k].kind is Pio || m.dev.bars[k].kind is Mmio || m.dev.bars[k].kind
                is Mmio64 ==> n.dev.bars[k].value == 0 && n.events.contains(
                DevEvent::BarUnregister(BarN::spec_of(k)),
            )
            &&& n.dev.msix is Some <==> m.dev.msix is Some
            &&& n.dev.msix is Some ==> {
                &&& !n.dev.msix->0.enabled
                &&& !n.dev.msix->0.func_mask
                &&& n.dev.msix->0.count == m.dev.msix->0.count
                &&& n.dev.msix->0.bar == m.dev.msix->0.bar
                &&& forall|i: int|
                    0 <= i < n.dev.msix->0.count ==> (#[trigger] n.dev.msix->0.entries[i])
                        == (MsixEntry {
                        addr: 0,
                        data: 0,
                        mask_vec: false,
                        mask_func: false,
                        enabled: false,
                        pending: false,
                    })
            }
            &&& n.dev.ident == m.dev.ident
            &&& n.dev.attach == m.dev.attach
            &&& n.dev.caps == m.dev.caps
            &&& n.dev.regions == m.dev.regions
            &&& n.dev.reg_intr_line == m.dev.reg_intr_line
        }),
{
    lemma_reset_tells(m.dev.bars, 6, k);
    let first = m.events.push(DevEvent::IntrModeChange(DevView {
        reg_command: dev_reset(m).dev.reg_command,
        msix: dev_reset(m).dev.msix,
        ..m.dev
    }.intr_mode()));
    let told = reset_events(m.dev.bars, 6);
    if m.dev.bars[k].kind.spec_define() is Some {
        let j = choose|j: int|
            0 <= j < told.len() && told[j] == DevEvent::BarUnregister(BarN::spec_of(k));
        assert(dev_reset(m).events[first.len() + j] == told[j]);
    }
}

/// A reset tells that each BAR is placed nowhere.
proof fn lemma_reset_tells(bars: Seq<Entry>, n: int, k: int)
    requires
        0 <= k < n <= 6,
    ensures
        bars[k].kind.spec_define() is Some ==> reset_events(bars, n).contains(
            DevEvent::BarUnregister(BarN::spec_of(k)),
        ),
    decreases n,
{
    if bars[k].kind.spec_define() is Some {
        let all = reset_events(bars, n);
        if k == n - 1 {
            assert(all.last() == DevEvent::BarUnregister(BarN::spec_of(k)));
        } else {
            lemma_reset_tells(bars, n - 1, k);
            let rest = reset_events(bars, n - 1);
            let j = choose|j: int|
                0 <= j < rest.len() && rest[j] == DevEvent::BarUnregister(BarN::spec_of(k));
            assert(all[j] == rest[j]);
        }
    }
}

/// The vectors with interrupts that wait are told, a bit each, on the page after
/// the table; the table has 16 bytes for a vector, and whole pages.
pub proof fn law_pending_told(m: MsixModel, v: int, buf: Seq<u8>)
    requires
        m.cfg.wf(),
        0 <= v < m.cfg.count,
        buf.len() == 1,
    ensures
        ({
            let page = ((m.cfg.count * 16 + 4095) / 4096) * 4096;
            let got = space_read::<MsixBarLayout, MsixCfg>(m, page + v / 8, buf);
            let weight: int = if v % 8 == 0 {
                1
            } else if v % 8 == 1 {
                2
            } else if v % 8 == 2 {
                4
            } else if v % 8 == 3 {
                8
            } else if v % 8 == 4 {
                16
            } else if v % 8 == 5 {
                32
            } else if v % 8 == 6 {
                64
            } else {
                128
            };
            &&& got.len() == 1
            &&& (got[0] as int / weight) % 2 == 1 <==> m.cfg.entries[v].pending
        }),
{
    let page = ((m.cfg.count * 16 + 4095) / 4096) * 4096;
    crate::hw::pci::msix::law_msix_bar_layout(m.cfg.count);
    assert(m.cfg.pba_off == page);
    let s = RegSpan { id: MsixBarReg::Pba, start: page as usize, len: 4096, passthru: true };
    assert(m.cfg.bar_span(page + v / 8) == Some(s));
    law_register_part::<MsixBarLayout, MsixCfg>(m, s, page + v / 8, buf, buf);
    vstd::arithmetic::power2::lemma2_to64();
    crate::hw::pci::msix::lemma_pba_bits_range(m.cfg.entries, v / 8, 8);
    law_pba_bit(m.cfg.entries, v / 8, (v % 8) as nat, 8);
    assert(8 * (v / 8) + v % 8 == v);
    assert(pba_byte(m.cfg.entries, v / 8) == crate::hw::pci::msix::pba_bits(
        m.cfg.entries,
        v / 8,
        8,
    ));
}

} // verus!
