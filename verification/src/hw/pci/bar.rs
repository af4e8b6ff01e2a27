//! Base address registers.
use crate::hw::pci::bits::{BAR_TYPE_IO, BAR_TYPE_MEM, BAR_TYPE_MEM64};
use crate::hw::pci::BarN;
use crate::migrate::MigrateStateError;
use vstd::prelude::*;

verus! {

/// Number of base address registers of a device.
pub const BAR_COUNT: usize = 6;

/// What a base address register (BAR) is for, with the size of what it places.
#[derive(Clone, Copy, Debug, PartialEq, Eq, Structural)]
pub enum BarDefine {
    Pio(u16),
    Mmio(u32),
    Mmio64(u64),
}

impl BarDefine {
    /// Whether the BAR places I/O ports.
    pub open spec fn spec_is_pio(self) -> bool {
        self is Pio
    }

    /// Whether the BAR places memory.
    pub open spec fn spec_is_mmio(self) -> bool {
        self is Mmio || self is Mmio64
    }

    /// The size of what the BAR places.
    pub open spec fn spec_size(self) -> u64 {
        match self {
            BarDefine::Pio(sz) => sz as u64,
            BarDefine::Mmio(sz) => sz as u64,
            BarDefine::Mmio64(sz) => sz,
        }
    }

    /// Whether the BAR places I/O ports.
    pub fn is_pio(&self) -> (r: bool)
        ensures
            r == self.spec_is_pio(),
    {
        match self {
            BarDefine::Pio(_) => true,
            _ => false,
        }
    }

    /// Whether the BAR places memory.
    pub fn is_mmio(&self) -> (r: bool)
        ensures
            r == self.spec_is_mmio(),
    {
        match self {
            BarDefine::Pio(_) => false,
            _ => true,
        }
    }

    /// The size of what the BAR places.
    pub fn size(&self) -> (r: u64)
        ensures
            r == self.spec_size(),
    {
        match self {
            BarDefine::Pio(sz) => *sz as u64,
            BarDefine::Mmio(sz) => *sz as u64,
            BarDefine::Mmio64(sz) => *sz,
        }
    }
}

/// What one of the registers is.
#[derive(Clone, Copy, Debug, PartialEq, Eq, Structural)]
pub enum EntryKind {
    Empty,
    Pio(u16),
    Mmio(u32),
    Mmio64(u64),
    /// The high word of the 64-bit BAR before it.
    Mmio64High,
}

impl EntryKind {
    /// The BAR that starts at this register.
    pub open spec fn spec_define(self) -> Option<BarDefine> {
        match self {
            EntryKind::Empty => None,
            EntryKind::Mmio64High => None,
            EntryKind::Pio(sz) => Some(BarDefine::Pio(sz)),
            EntryKind::Mmio(sz) => Some(BarDefine::Mmio(sz)),
            EntryKind::Mmio64(sz) => Some(BarDefine::Mmio64(sz)),
        }
    }

    /// The BAR that starts at this register, if one does.
    pub fn define(self) -> (r: Option<BarDefine>)
        ensures
            r == self.spec_define(),
    {
        match self {
            EntryKind::Empty => None,
            EntryKind::Mmio64High => None,
            EntryKind::Pio(sz) => Some(BarDefine::Pio(sz)),
            EntryKind::Mmio(sz) => Some(BarDefine::Mmio(sz)),
            EntryKind::Mmio64(sz) => Some(BarDefine::Mmio64(sz)),
        }
    }

    /// The kind of the register that a BAR starts at.
    pub open spec fn spec_of(def: BarDefine) -> EntryKind {
        match def {
            BarDefine::Pio(sz) => EntryKind::Pio(sz),
            BarDefine::Mmio(sz) => EntryKind::Mmio(sz),
            BarDefine::Mmio64(sz) => EntryKind::Mmio64(sz),
        }
    }
}

/// One of the registers, with the address that is set.
#[derive(Clone, Copy, Debug, PartialEq, Eq, Structural)]
pub struct Entry {
    pub kind: EntryKind,
    pub value: u64,
}

/// What a write to a BAR changed.
#[derive(Clone, Copy, Debug, PartialEq, Eq, Structural)]
pub struct WriteResult {
    /// The BAR that was changed: the one of the low word, if the write was to
    /// a high word.
    pub id: BarN,
    pub def: BarDefine,
    pub val_old: u64,
    pub val_new: u64,
}

/// The kind of a BAR as it is moved to another host.
#[derive(Clone, Copy, Debug, PartialEq, Eq, Structural)]
pub enum BarKindV1 {
    Empty,
    Pio,
    Mmio,
    Mmio64,
}

/// A BAR as it is moved to another host.
#[derive(Clone, Copy, Debug, PartialEq, Eq, Structural)]
pub struct BarEntryV1 {
    pub kind: BarKindV1,
    pub size: u64,
    pub value: u64,
}

/// The BARs of a device as they are moved to another host.
#[derive(Clone, Copy, Debug)]
pub struct BarStateV1 {
    pub entries: [BarEntryV1; 6],
}

/// The BARs of a device.
#[derive(Clone, Copy, Debug)]
pub struct Bars {
    pub entries: [Entry; 6],
}

/// Whether the definitions can stand together: a 64-bit BAR takes up the next
/// register too.
pub open spec fn defs_ok(defs: Seq<Option<BarDefine>>) -> bool {
    &&& defs.len() == 6
    &&& forall|i: int|
        0 <= i < 6 ==> (#[trigger] defs[i] matches Some(BarDefine::Mmio64(_)) ==> i < 5
            && defs[i + 1] is None)
}

/// The kind of register `i` under these definitions.
pub open spec fn kind_of(defs: Seq<Option<BarDefine>>, i: int) -> EntryKind {
    match defs[i] {
        Some(def) => EntryKind::spec_of(def),
        None => if i > 0 && defs[i - 1] matches Some(BarDefine::Mmio64(_)) {
            EntryKind::Mmio64High
        } else {
            EntryKind::Empty
        },
    }
}

/// The registers under these definitions, before any address is set.
pub open spec fn new_bars(defs: Seq<Option<BarDefine>>) -> Seq<Entry> {
    Seq::new(6, |i: int| Entry { kind: kind_of(defs, i), value: 0 })
}

/// The BAR that starts at register `i`, and its address.
pub open spec fn bar_got(s: Seq<Entry>, i: int) -> Option<(BarDefine, u64)> {
    match s[i].kind.spec_define() {
        Some(def) => Some((def, s[i].value)),
        None => None,
    }
}

/// New BARs are the ones that were defined, all of them at address 0. There is
/// none where none was defined, and none at the high word of a 64-bit BAR.
pub proof fn law_new_bars_get(defs: Seq<Option<BarDefine>>, n: BarN)
    requires
        defs_ok(defs),
    ensures
        bar_got(new_bars(defs), n.spec_idx()) == (match defs[n.spec_idx()] {
            Some(def) => Some((def, 0u64)),
            None => None,
        }),
        new_bars(defs)[n.spec_idx()].kind is Mmio64High ==> bar_got(
            new_bars(defs),
            n.spec_idx(),
        ) is None,
{
    let i = n.spec_idx();
    if i > 0 {
        assert(defs[i - 1] matches Some(BarDefine::Mmio64(_)) ==> defs[i] is None);
    }
}

/// The 32 bits that register `i` reads as.
pub open spec fn bar_read(s: Seq<Entry>, i: int) -> u32 {
    match s[i].kind {
        EntryKind::Empty => 0,
        EntryKind::Pio(_) => (s[i].value % 0x1_0000) as u32 | BAR_TYPE_IO,
        EntryKind::Mmio(_) => (s[i].value % 0x1_0000_0000) as u32 | BAR_TYPE_MEM,
        EntryKind::Mmio64(_) => (s[i].value % 0x1_0000_0000) as u32 | BAR_TYPE_MEM64,
        EntryKind::Mmio64High => (s[i - 1].value / 0x1_0000_0000) as u32,
    }
}

/// The register that holds the address that register `i` is a part of.
pub open spec fn bar_home(s: Seq<Entry>, i: int) -> int {
    if s[i].kind is Mmio64High {
        i - 1
    } else {
        i
    }
}

/// The address after a write of `val` to register `i`: the bits below the size
/// of the BAR stay 0.
pub open spec fn bar_written(s: Seq<Entry>, i: int, val: u32) -> u64 {
    match s[i].kind {
        EntryKind::Empty => s[i].value,
        EntryKind::Pio(size) => (val & (!((size - 1) as u16) as u32)) as u64,
        EntryKind::Mmio(size) => (val & !((size - 1) as u32)) as u64,
        EntryKind::Mmio64(size) => (s[i].value - s[i].value % 0x1_0000_0000 + (val & ((!((size
            - 1) as u64)) % 0x1_0000_0000) as u32)) as u64,
        EntryKind::Mmio64High => match s[i - 1].kind {
            EntryKind::Mmio64(size) => {
                let high = ((val * 0x1_0000_0000) as u64) & !((size - 1) as u64);
                (high - high % 0x1_0000_0000 + s[i - 1].value % 0x1_0000_0000) as u64
            },
            _ => 0,
        },
    }
}

/// The registers after a write of `val` to register `i`.
pub open spec fn bars_written(s: Seq<Entry>, i: int, val: u32) -> Seq<Entry> {
    if s[i].kind is Empty {
        s
    } else {
        let h = bar_home(s, i);
        s.update(h, Entry { value: bar_written(s, i, val), ..s[h] })
    }
}

/// What is saved of a register.
pub open spec fn entry_export(e: Entry) -> BarEntryV1 {
    match e.kind {
        EntryKind::Pio(sz) => BarEntryV1 {
            kind: BarKindV1::Pio,
            size: sz as u64,
            value: e.value,
        },
        EntryKind::Mmio(sz) => BarEntryV1 {
            kind: BarKindV1::Mmio,
            size: sz as u64,
            value: e.value,
        },
        EntryKind::Mmio64(sz) => BarEntryV1 { kind: BarKindV1::Mmio64, size: sz, value: e.value },
        _ => BarEntryV1 { kind: BarKindV1::Empty, size: 0, value: 0 },
    }
}

/// The registers after the saved ones from `i` on were taken over, up to the
/// first that cannot be, and why it cannot be.
pub open spec fn bars_imported(s: Seq<Entry>, saved: Seq<BarEntryV1>, i: int) -> (
    Seq<Entry>,
    Option<MigrateStateError>,
)
    decreases saved.len() - i,
{
    if i < 0 || i >= saved.len() {
        (s, None)
    } else {
        let e = saved[i];
        match e.kind {
            BarKindV1::Empty => bars_imported(
                s.update(i, Entry { kind: EntryKind::Empty, value: e.value }),
                saved,
                i + 1,
            ),
            BarKindV1::Pio => if e.size <= u16::MAX {
                bars_imported(
                    s.update(i, Entry { kind: EntryKind::Pio(e.size as u16), value: e.value }),
                    saved,
                    i + 1,
                )
            } else {
                (s, Some(MigrateStateError::PioBarSize(e.size)))
            },
            BarKindV1::Mmio => if e.size <= u32::MAX {
                bars_imported(
                    s.update(i, Entry { kind: EntryKind::Mmio(e.size as u32), value: e.value }),
                    saved,
                    i + 1,
                )
            } else {
                (s, Some(MigrateStateError::MmioBarSize(e.size)))
            },
            BarKindV1::Mmio64 => if i + 1 >= saved.len() || saved[i + 1].kind !is Empty {
                (s, Some(MigrateStateError::Mmio64BarHighNotEmpty))
            } else {
                bars_imported(
                    s.update(i + 1, Entry { kind: EntryKind::Mmio64High, ..s[i + 1] }).update(
                        i,
                        Entry { kind: EntryKind::Mmio64(e.size), value: e.value },
                    ),
                    saved,
                    i + 2,
                )
            },
        }
    }
}

/// Whether saved registers are ones that a device can have.
pub open spec fn saved_ok(saved: Seq<BarEntryV1>) -> bool {
    forall|i: int|
        0 <= i < saved.len() ==> (#[trigger] saved[i]).kind is Empty || saved[i].size > 0
}

impl BarStateV1 {
    /// Whether these are ones that a device can have.
    pub fn is_ok(&self) -> (r: bool)
        ensures
            r == saved_ok(self.entries@),
    {
        let mut i: usize = 0;
        while i < 6
            invariant
                i <= 6,
                forall|k: int|
                    0 <= k < i ==> (#[trigger] self.entries@[k]).kind is Empty
                        || self.entries@[k].size > 0,
            decreases 6 - i,
        {
            let e: BarEntryV1 = self.entries[i];
            if e.kind != BarKindV1::Empty && e.size == 0 {
                assert(!(self.entries@[i as int].kind is Empty || self.entries@[i as int].size
                    > 0));
                return false;
            }
            i += 1;
        }
        true
    }
}

impl Bars {
    /// The invariant of BARs: sizes are not 0, and every high word follows its
    /// low word.
    pub open spec fn wf(&self) -> bool {
        bars_wf(self.entries@)
    }

    /// BARs of the given definitions, with address 0.
    pub fn new(defs: &[Option<BarDefine>; 6]) -> (r: Bars)
        requires
            defs_ok(defs@),
        ensures
            r.entries@ == new_bars(defs@),
            (forall|i: int|
                0 <= i < 6 ==> (#[trigger] defs@[i] matches Some(d) ==> d.spec_size() > 0))
                ==> r.wf(),
    {
        let empty: Entry = Entry { kind: EntryKind::Empty, value: 0 };
        let mut entries: [Entry; 6] = [empty;6];
        let mut idx: usize = 0;
        while idx < 6
            invariant
                idx <= 6,
                defs_ok(defs@),
                entries@.len() == 6,
                forall|i: int|
                    0 <= i < idx ==> #[trigger] entries@[i] == (Entry {
                        kind: kind_of(defs@, i),
                        value: 0,
                    }),
                forall|i: int|
                    idx <= i < 6 ==> #[trigger] entries@[i] == (Entry {
                        kind: if i == idx && i > 0 && defs@[i - 1] matches Some(
                            BarDefine::Mmio64(_),
                        ) {
                            EntryKind::Mmio64High
                        } else {
                            EntryKind::Empty
                        },
                        value: 0,
                    }),
            decreases 6 - idx,
        {
            let ghost before = entries@;
            assert(defs@[idx as int] matches Some(BarDefine::Mmio64(_)) ==> idx < 5);
            match defs[idx] {
                None => {},
                Some(BarDefine::Pio(sz)) => {
                    assert(idx > 0 ==> !(defs@[idx - 1] matches Some(BarDefine::Mmio64(_))));
                    entries[idx] = Entry { kind: EntryKind::Pio(sz), value: 0 };
                },
                Some(BarDefine::Mmio(sz)) => {
                    assert(idx > 0 ==> !(defs@[idx - 1] matches Some(BarDefine::Mmio64(_))));
                    entries[idx] = Entry { kind: EntryKind::Mmio(sz), value: 0 };
                },
                Some(BarDefine::Mmio64(sz)) => {
                    assert(idx > 0 ==> !(defs@[idx - 1] matches Some(BarDefine::Mmio64(_))));
                    entries[idx + 1] = Entry { kind: EntryKind::Mmio64High, value: 0 };
                    entries[idx] = Entry { kind: EntryKind::Mmio64(sz), value: 0 };
                },
            }
            idx += 1;
        }
        let r: Bars = Bars { entries };
        assert(r.entries@ =~= new_bars(defs@));
        proof {
            if forall|i: int|
                0 <= i < 6 ==> (#[trigger] defs@[i] matches Some(d) ==> d.spec_size() > 0) {
                assert forall|i: int| 0 <= i < 6 implies entry_ok(r.entries@, i) by {
                    assert(r.entries@[i].kind == kind_of(defs@, i));
                    assert(defs@[i] matches Some(d) ==> d.spec_size() > 0);
                    if i > 0 {
                        assert(r.entries@[i - 1].kind == kind_of(defs@, i - 1));
                    }
                    if i < 5 {
                        assert(r.entries@[i + 1].kind == kind_of(defs@, i + 1));
                    }
                }
            }
        }
        r
    }

    /// The 32 bits that a register reads as.
    pub fn reg_read(&self, bar: BarN) -> (r: u32)
        requires
            self.wf(),
        ensures
            r == bar_read(self.entries@, bar.spec_idx()),
    {
        let idx: usize = bar.idx();
        let ent: Entry = self.entries[idx];
        assert(entry_ok(self.entries@, idx as int));
        match ent.kind {
            EntryKind::Empty => 0,
            EntryKind::Pio(_) => (ent.value % 0x1_0000) as u32 | BAR_TYPE_IO,
            EntryKind::Mmio(_) => (ent.value % 0x1_0000_0000) as u32 | BAR_TYPE_MEM,
            EntryKind::Mmio64(_) => (ent.value % 0x1_0000_0000) as u32 | BAR_TYPE_MEM64,
            EntryKind::Mmio64High => {
                let low: Entry = self.entries[idx - 1];
                (low.value / 0x1_0000_0000) as u32
            },
        }
    }

    /// Writes to a register, and tells what changed, if anything did.
    pub fn reg_write(&mut self, bar: BarN, val: u32) -> (r: Option<WriteResult>)
        requires
            old(self).wf(),
        ensures
            final(self).wf(),
            final(self).entries@ == bars_written(old(self).entries@, bar.spec_idx(), val),
            ({
                let s = old(self).entries@;
                let i = bar.spec_idx();
                let h = bar_home(s, i);
                if s[i].kind is Empty || bar_written(s, i, val) == s[h].value {
                    r is None
                } else {
                    r matches Some(w) && s[h].kind.spec_define() == Some(w.def) && w.id
                        == BarN::spec_of(h) && w.id.spec_idx() == h && w.val_old == s[h].value
                        && w.val_new == bar_written(s, i, val)
                }
            }),
    {
        let ghost s = self.entries@;
        let idx: usize = bar.idx();
        let ent: Entry = self.entries[idx];
        assert(entry_ok(self.entries@, idx as int));
        let (home, def, old_v, new_v): (usize, BarDefine, u64, u64) = match ent.kind {
            EntryKind::Empty => {
                return None;
            },
            EntryKind::Pio(size) => {
                let mask: u32 = !(size - 1) as u32;
                (idx, BarDefine::Pio(size), ent.value, (val & mask) as u64)
            },
            EntryKind::Mmio(size) => {
                let mask: u32 = !(size - 1);
                (idx, BarDefine::Mmio(size), ent.value, (val & mask) as u64)
            },
            EntryKind::Mmio64(size) => {
                let mask: u32 = ((!(size - 1)) % 0x1_0000_0000) as u32;
                let low: u32 = val & mask;
                (
                    idx,
                    BarDefine::Mmio64(size),
                    ent.value,
                    ent.value - ent.value % 0x1_0000_0000 + low as u64,
                )
            },
            EntryKind::Mmio64High => {
                let low: Entry = self.entries[idx - 1];
                assert(entry_ok(self.entries@, idx - 1));
                match low.kind {
                    EntryKind::Mmio64(size) => {
                        let high: u64 = (val as u64 * 0x1_0000_0000) & !(size - 1);
                        (
                            idx - 1,
                            BarDefine::Mmio64(size),
                            low.value,
                            high - high % 0x1_0000_0000 + low.value % 0x1_0000_0000,
                        )
                    },
                    _ => {
                        return None;
                    },
                }
            },
        };
        let mut e: Entry = self.entries[home];
        e.value = new_v;
        self.entries[home] = e;
        proof {
            assert(self.entries@ =~= bars_written(s, idx as int, val));
            lemma_value_keeps_wf(s, home as int, new_v);
        }
        if old_v != new_v {
            match BarN::from_repr(home as u8) {
                Some(id) => Some(WriteResult { id, def, val_old: old_v, val_new: new_v }),
                None => None,
            }
        } else {
            None
        }
    }

    /// What a BAR is for and its current address, if a BAR starts there.
    pub fn get(&self, n: BarN) -> (r: Option<(BarDefine, u64)>)
        ensures
            r == bar_got(self.entries@, n.spec_idx()),
    {
        let ent: Entry = self.entries[n.idx()];
        match ent.kind.define() {
            Some(def) => Some((def, ent.value)),
            None => None,
        }
    }

    /// Sets the address of a BAR, which must be able to hold it.
    pub fn set(&mut self, n: BarN, value: u64)
        requires
            old(self).wf(),
            ({
                let k = old(self).entries@[n.spec_idx()].kind;
                &&& k.spec_define() is Some
                &&& k is Pio ==> value <= u16::MAX
                &&& k is Mmio ==> value <= u32::MAX
            }),
        ensures
            final(self).wf(),
            final(self).entries@ == old(self).entries@.update(
                n.spec_idx(),
                Entry { value, ..old(self).entries@[n.spec_idx()] },
            ),
    {
        let idx: usize = n.idx();
        let ghost s = self.entries@;
        let mut e: Entry = self.entries[idx];
        e.value = value;
        self.entries[idx] = e;
        proof {
            lemma_value_keeps_wf(s, idx as int, value);
        }
    }

    /// The BARs to be moved to another host.
    pub fn export(&self) -> (r: BarStateV1)
        ensures
            forall|i: int|
                0 <= i < 6 ==> #[trigger] r.entries@[i] == entry_export(self.entries@[i]),
    {
        let none: BarEntryV1 = BarEntryV1 { kind: BarKindV1::Empty, size: 0, value: 0 };
        let mut entries: [BarEntryV1; 6] = [none;6];
        let mut i: usize = 0;
        while i < 6
            invariant
                i <= 6,
                entries@.len() == 6,
                forall|j: int|
                    0 <= j < i ==> #[trigger] entries@[j] == entry_export(self.entries@[j]),
            decreases 6 - i,
        {
            let e: Entry = self.entries[i];
            entries[i] = match e.kind {
                EntryKind::Pio(sz) => BarEntryV1 {
                    kind: BarKindV1::Pio,
                    size: sz as u64,
                    value: e.value,
                },
                EntryKind::Mmio(sz) => BarEntryV1 {
                    kind: BarKindV1::Mmio,
                    size: sz as u64,
                    value: e.value,
                },
                EntryKind::Mmio64(sz) => BarEntryV1 {
                    kind: BarKindV1::Mmio64,
                    size: sz,
                    value: e.value,
                },
                _ => BarEntryV1 { kind: BarKindV1::Empty, size: 0, value: 0 },
            };
            i += 1;
        }
        BarStateV1 { entries }
    }

    /// Takes over the BARs brought from another host, one after the other. On
    /// an error, those before it have been taken over.
    pub fn import(&mut self, saved: BarStateV1) -> (r: Result<(), MigrateStateError>)
        ensures
            final(self).entries@ == bars_imported(old(self).entries@, saved.entries@, 0).0,
            match bars_imported(old(self).entries@, saved.entries@, 0).1 {
                None => r is Ok,
                Some(e) => r == Err::<(), MigrateStateError>(e),
            },
            r is Ok && saved_ok(saved.entries@) ==> final(self).wf(),
    {
        let ghost goal = bars_imported(self.entries@, saved.entries@, 0);
        let mut i: usize = 0;
        while i < 6
            invariant
                i <= 6,
                saved.entries@.len() == 6,
                self.entries@.len() == 6,
                goal == bars_imported(self.entries@, saved.entries@, i as int),
                saved_ok(saved.entries@) ==> prefix_wf(self.entries@, i as int),
                goal == bars_imported(old(self).entries@, saved.entries@, 0),
            decreases 6 - i,
        {
            let e: BarEntryV1 = saved.entries[i];
            let ghost s = self.entries@;
            assert(saved_ok(saved.entries@) ==> saved.entries@[i as int].kind is Empty
                || saved.entries@[i as int].size > 0);
            match e.kind {
                BarKindV1::Empty => {
                    self.entries[i] = Entry { kind: EntryKind::Empty, value: e.value };
                    i += 1;
                },
                BarKindV1::Pio => {
                    if e.size > u16::MAX as u64 {
                        return Err(MigrateStateError::PioBarSize(e.size));
                    }
                    self.entries[i] = Entry {
                        kind: EntryKind::Pio(e.size as u16),
                        value: e.value,
                    };
                    i += 1;
                },
                BarKindV1::Mmio => {
                    if e.size > u32::MAX as u64 {
                        return Err(MigrateStateError::MmioBarSize(e.size));
                    }
                    self.entries[i] = Entry {
                        kind: EntryKind::Mmio(e.size as u32),
                        value: e.value,
                    };
                    i += 1;
                },
                BarKindV1::Mmio64 => {
                    if i + 1 >= 6 {
                        return Err(MigrateStateError::Mmio64BarHighNotEmpty);
                    }
                    let next: BarEntryV1 = saved.entries[i + 1];
                    match next.kind {
                        BarKindV1::Empty => {},
                        _ => {
                            return Err(MigrateStateError::Mmio64BarHighNotEmpty);
                        },
                    }
                    let mut high: Entry = self.entries[i + 1];
                    high.kind = EntryKind::Mmio64High;
                    self.entries[i + 1] = high;
                    self.entries[i] = Entry { kind: EntryKind::Mmio64(e.size), value: e.value };
                    i += 2;
                },
            }
            proof {
                if saved_ok(saved.entries@) {
                    let n = if e.kind is Mmio64 {
                        i - 2
                    } else {
                        i - 1
                    };
                    assert forall|k: int| 0 <= k < i implies prefix_entry_ok(
                        self.entries@,
                        k,
                        i as int,
                    ) by {
                        if k < n {
                            assert(prefix_entry_ok(s, k, n));
                        }
                    }
                }
            }
        }
        proof {
            if saved_ok(saved.entries@) {
                assert forall|k: int| 0 <= k < 6 implies entry_ok(self.entries@, k) by {
                    assert(prefix_entry_ok(self.entries@, k, 6));
                }
            }
        }
        Ok(())
    }
}

/// Whether register `i` agrees with its neighbours.
pub open spec fn entry_ok(s: Seq<Entry>, i: int) -> bool {
    match s[i].kind {
        EntryKind::Empty => true,
        EntryKind::Pio(sz) => sz > 0,
        EntryKind::Mmio(sz) => sz > 0,
        EntryKind::Mmio64(sz) => sz > 0 && i < 5 && s[i + 1].kind is Mmio64High,
        EntryKind::Mmio64High => i > 0 && s[i - 1].kind is Mmio64,
    }
}

/// The invariant of BARs.
pub open spec fn bars_wf(s: Seq<Entry>) -> bool {
    &&& s.len() == 6
    &&& forall|i: int| 0 <= i < 6 ==> #[trigger] entry_ok(s, i)
}

/// Whether register `i` agrees with those of its neighbours that are among the
/// first `n`.
pub open spec fn prefix_entry_ok(s: Seq<Entry>, i: int, n: int) -> bool {
    match s[i].kind {
        EntryKind::Empty => true,
        EntryKind::Pio(sz) => sz > 0,
        EntryKind::Mmio(sz) => sz > 0,
        EntryKind::Mmio64(sz) => sz > 0 && i < n - 1 && s[i + 1].kind is Mmio64High,
        EntryKind::Mmio64High => i > 0 && s[i - 1].kind is Mmio64,
    }
}

/// Whether the first `n` registers agree with each other.
pub open spec fn prefix_wf(s: Seq<Entry>, n: int) -> bool {
    forall|i: int| 0 <= i < n ==> #[trigger] prefix_entry_ok(s, i, n)
}

/// The address of a BAR does not matter to the invariant.
proof fn lemma_value_keeps_wf(s: Seq<Entry>, i: int, value: u64)
    requires
        bars_wf(s),
        0 <= i < 6,
    ensures
        bars_wf(s.update(i, Entry { value, ..s[i] })),
{
    let t = s.update(i, Entry { value, ..s[i] });
    assert forall|k: int| 0 <= k < 6 implies entry_ok(t, k) by {
        assert(entry_ok(s, k));
    }
}

/// The low bits of an address, those below a size that is a power of two, are
/// not kept by a BAR; what is kept, and the type of the BAR, can be read back.
pub proof fn law_bar_read_back(s: Seq<Entry>, i: int, val: u32)
    requires
        bars_wf(s),
        0 <= i < 6,
    ensures
        ({
            let t = bars_written(s, i, val);
            match s[i].kind {
                EntryKind::Empty => bar_read(t, i) == 0,
                EntryKind::Pio(size) => bar_read(t, i) == (val & (!((size - 1) as u16) as u32))
                    | BAR_TYPE_IO,
                EntryKind::Mmio(size) => bar_read(t, i) == (val & !((size - 1) as u32))
                    | BAR_TYPE_MEM,
                EntryKind::Mmio64(size) => bar_read(t, i) == (val & ((!((size - 1) as u64))
                    % 0x1_0000_0000) as u32) | BAR_TYPE_MEM64 && bar_read(t, i + 1) == bar_read(
                    s,
                    i + 1,
                ),
                EntryKind::Mmio64High => bar_read(t, i - 1) == bar_read(s, i - 1) && (s[i - 1].kind
                    matches EntryKind::Mmio64(size) && bar_read(t, i) == (((val * 0x1_0000_0000)
                    as u64) & !((size - 1) as u64)) / 0x1_0000_0000),
            }
        }),
{
    assert(entry_ok(s, i));
    let h = bar_home(s, i);
    let w = bar_written(s, i, val);
    match s[i].kind {
        EntryKind::Empty => {},
        EntryKind::Pio(size) => {
            let m = !((size - 1) as u16) as u32;
            assert(m <= 0xffff ==> val & m <= 0xffff) by (bit_vector);
            assert(w % 0x1_0000 == val & m);
        },
        EntryKind::Mmio(size) => {
            assert(w % 0x1_0000_0000 == val & !((size - 1) as u32));
        },
        EntryKind::Mmio64(size) => {
            let low = val & ((!((size - 1) as u64)) % 0x1_0000_0000) as u32;
            lemma_low_word(s[i].value, low);
        },
        EntryKind::Mmio64High => {
            assert(entry_ok(s, i - 1));
            match s[i - 1].kind {
                EntryKind::Mmio64(size) => {
                    let high = ((val * 0x1_0000_0000) as u64) & !((size - 1) as u64);
                    lemma_high_word(high, s[i - 1].value);
                },
                _ => {},
            }
        },
    }
}

/// Replacing the low word of a number leaves the high word.
proof fn lemma_low_word(v: u64, low: u32)
    ensures
        v - v % 0x1_0000_0000 + low <= u64::MAX,
        (v - v % 0x1_0000_0000 + low) % 0x1_0000_0000 == low,
        (v - v % 0x1_0000_0000 + low) / 0x1_0000_0000 == v / 0x1_0000_0000,
{
}

/// Replacing the high word of a number leaves the low word.
proof fn lemma_high_word(high: u64, v: u64)
    ensures
        high - high % 0x1_0000_0000 + v % 0x1_0000_0000 <= u64::MAX,
        (high - high % 0x1_0000_0000 + v % 0x1_0000_0000) % 0x1_0000_0000 == v % 0x1_0000_0000,
        (high - high % 0x1_0000_0000 + v % 0x1_0000_0000) / 0x1_0000_0000 == high / 0x1_0000_0000,
{
}

/// BARs that take over what others exported have the same definitions and the
/// same addresses, and no error occurs.
pub proof fn law_bars_migrate(from: Seq<Entry>, to: Seq<Entry>, saved: Seq<BarEntryV1>, i: int)
    requires
        bars_wf(from),
        to.len() == 6,
        saved.len() == 6,
        forall|k: int| 0 <= k < 6 ==> #[trigger] saved[k] == entry_export(from[k]),
        0 <= i <= 6,
        i < 6 ==> !(from[i].kind is Mmio64High),
        forall|k: int|
            0 <= k < i ==> #[trigger] to[k].kind == from[k].kind && (from[k].kind.spec_define()
                is Some ==> to[k].value == from[k].value),
    ensures
        bars_imported(to, saved, i).1 is None,
        forall|k: int|
            0 <= k < 6 ==> #[trigger] bars_imported(to, saved, i).0[k].kind == from[k].kind && (
            from[k].kind.spec_define() is Some ==> bars_imported(to, saved, i).0[k].value
                == from[k].value),
    decreases 6 - i,
{
    if i < 6 {
        assert(entry_ok(from, i));
        assert(saved[i] == entry_export(from[i]));
        let e = saved[i];
        match e.kind {
            BarKindV1::Empty => {
                let t = to.update(i, Entry { kind: EntryKind::Empty, value: e.value });
                if i < 5 {
                    assert(entry_ok(from, i + 1));
                }
                law_bars_migrate(from, t, saved, i + 1);
            },
            BarKindV1::Pio => {
                let t = to.update(i, Entry { kind: EntryKind::Pio(e.size as u16), value: e.value });
                if i < 5 {
                    assert(entry_ok(from, i + 1));
                }
                law_bars_migrate(from, t, saved, i + 1);
            },
            BarKindV1::Mmio => {
                let t = to.update(i, Entry { kind: EntryKind::Mmio(e.size as u32), value: e.value });
                if i < 5 {
                    assert(entry_ok(from, i + 1));
                }
                law_bars_migrate(from, t, saved, i + 1);
            },
            BarKindV1::Mmio64 => {
                assert(saved[i + 1] == entry_export(from[i + 1]));
                let t = to.update(
                    i + 1,
                    Entry { kind: EntryKind::Mmio64High, ..to[i + 1] },
                ).update(i, Entry { kind: EntryKind::Mmio64(e.size), value: e.value });
                if i < 4 {
                    assert(entry_ok(from, i + 2));
                }
                law_bars_migrate(from, t, saved, i + 2);
            },
        }
    }
}

} // verus!
