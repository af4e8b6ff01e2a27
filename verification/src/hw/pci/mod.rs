//! PCI devices, buses, bridges and the ways to their configuration space.
use crate::common::{get_le32, le32, le32_vec, val32, RWOp, ReadOp, WriteOp};
use crate::hw::pci::bar::BarDefine;
use crate::hw::pci::msix::{MsiMsg, MsiUpdate};
use vstd::prelude::*;

pub mod bar;
pub mod bits;
pub mod bridge;
pub mod bus;
pub mod cfgspace;
pub mod device;
pub mod laws;
pub mod laws_bars;
pub mod msix;
pub mod placing;
pub mod topology;

verus! {

/// The number of a bus.
#[derive(Clone, Copy, Debug, PartialEq, Eq, Structural)]
pub struct BusNum(pub u8);

impl BusNum {
    /// The bus `n`.
    pub fn new(n: u8) -> (r: BusNum)
        ensures
            r.0 == n,
    {
        BusNum(n)
    }

    /// The number of the bus.
    pub fn get(&self) -> (r: u8)
        ensures
            r == self.0,
    {
        self.0
    }
}

/// The place of a function on its bus.
#[derive(Clone, Copy, Debug, PartialEq, Eq, Structural)]
pub struct BusLocation {
    pub dev: u8,
    pub func: u8,
}

impl BusLocation {
    /// Whether there is such a place: a bus has 32 devices of 8 functions.
    pub open spec fn wf(self) -> bool {
        self.dev < 32 && self.func < 8
    }

    /// The place of function `func` of device `dev`, if there is one.
    pub fn new(dev: u8, func: u8) -> (r: Option<BusLocation>)
        ensures
            r == (if dev < 32 && func < 8 {
                Some(BusLocation { dev, func })
            } else {
                None
            }),
    {
        if dev < 32 && func < 8 {
            Some(BusLocation { dev, func })
        } else {
            None
        }
    }
}

/// Bus, device and function: the address of a PCI function.
#[derive(Clone, Copy, Debug, PartialEq, Eq, Structural)]
pub struct Bdf {
    pub bus: BusNum,
    pub location: BusLocation,
}

impl Bdf {
    /// The address of function `func` of device `dev` of bus `bus`, if there
    /// is one.
    pub fn new(bus: u8, dev: u8, func: u8) -> (r: Option<Bdf>)
        ensures
            r == (if dev < 32 && func < 8 {
                Some(Bdf { bus: BusNum(bus), location: BusLocation { dev, func } })
            } else {
                None
            }),
    {
        match BusLocation::new(dev, func) {
            Some(location) => Some(Bdf { bus: BusNum(bus), location }),
            None => None,
        }
    }
}

/// A base address register (BAR).
#[derive(Clone, Copy, Debug, PartialEq, Eq, Structural)]
pub enum BarN {
    BAR0,
    BAR1,
    BAR2,
    BAR3,
    BAR4,
    BAR5,
}

impl BarN {
    /// The number of the register.
    pub open spec fn spec_idx(self) -> int {
        match self {
            BarN::BAR0 => 0,
            BarN::BAR1 => 1,
            BarN::BAR2 => 2,
            BarN::BAR3 => 3,
            BarN::BAR4 => 4,
            BarN::BAR5 => 5,
        }
    }

    /// The register of a given number.
    pub open spec fn spec_of(n: int) -> BarN {
        if n == 0 {
            BarN::BAR0
        } else if n == 1 {
            BarN::BAR1
        } else if n == 2 {
            BarN::BAR2
        } else if n == 3 {
            BarN::BAR3
        } else if n == 4 {
            BarN::BAR4
        } else {
            BarN::BAR5
        }
    }

    /// The number of the register.
    pub fn idx(self) -> (r: usize)
        ensures
            r == self.spec_idx(),
            r < 6,
            Self::spec_of(r as int) == self,
    {
        match self {
            BarN::BAR0 => 0,
            BarN::BAR1 => 1,
            BarN::BAR2 => 2,
            BarN::BAR3 => 3,
            BarN::BAR4 => 4,
            BarN::BAR5 => 5,
        }
    }

    /// The register of a given number, if there is one.
    pub fn from_repr(n: u8) -> (r: Option<BarN>)
        ensures
            r == (if n < 6 {
                Some(Self::spec_of(n as int))
            } else {
                None
            }),
            r matches Some(b) ==> b.spec_idx() == n,
    {
        if n == 0 {
            Some(BarN::BAR0)
        } else if n == 1 {
            Some(BarN::BAR1)
        } else if n == 2 {
            Some(BarN::BAR2)
        } else if n == 3 {
            Some(BarN::BAR3)
        } else if n == 4 {
            Some(BarN::BAR4)
        } else if n == 5 {
            Some(BarN::BAR5)
        } else {
            None
        }
    }
}

/// An interrupt pin of a PCI device.
#[derive(Clone, Copy, Debug, PartialEq, Eq, Structural)]
pub enum INTxPinID {
    IntA,
    IntB,
    IntC,
    IntD,
}

impl INTxPinID {
    /// What the interrupt pin register holds for this pin.
    pub open spec fn spec_raw(self) -> u8 {
        match self {
            INTxPinID::IntA => 1,
            INTxPinID::IntB => 2,
            INTxPinID::IntC => 3,
            INTxPinID::IntD => 4,
        }
    }

    /// What the interrupt pin register holds for this pin.
    pub fn raw(self) -> (r: u8)
        ensures
            r == self.spec_raw(),
    {
        match self {
            INTxPinID::IntA => 1,
            INTxPinID::IntB => 2,
            INTxPinID::IntC => 3,
            INTxPinID::IntD => 4,
        }
    }
}

/// The interrupt pin of a device, and the line of the machine that it drives.
#[derive(Clone, Copy, Debug, PartialEq, Eq, Structural)]
pub struct LintrCfg {
    pub id: INTxPinID,
    pub line: u32,
}

/// How a device signals interrupts.
#[derive(Clone, Copy, Debug, PartialEq, Eq, Structural)]
pub enum IntrMode {
    Disabled,
    INTxPin,
    Msix,
}

/// What an access to a device brings about outside of it, in the order in which
/// it happens.
#[derive(Clone, Copy, Debug, PartialEq, Eq, Structural)]
pub enum DevEvent {
    /// What the BAR is for is placed at that address.
    BarRegister(BarN, BarDefine, u64),
    /// What the BAR is for is no longer placed anywhere.
    BarUnregister(BarN),
    /// The device signals interrupts in this way now.
    IntrModeChange(IntrMode),
    /// Interrupt vectors of the device have changed.
    MsiUpdate(MsiUpdate),
    /// A message is sent.
    SendMsi(MsiMsg),
}

/// What becomes of an access to the configuration space.
#[derive(Debug)]
pub enum CfgDispatch {
    /// It goes to that function, as the given access.
    Function(Bdf, RWOp),
    /// It goes nowhere. A read gives all ones.
    Unclaimed(RWOp),
}

/// The access with every byte that it reads set to all ones.
pub open spec fn unclaimed_of(op: RWOp, out: RWOp) -> bool {
    match op {
        RWOp::Read(ro) => out matches RWOp::Read(r) && r.offset == ro.offset && r.buf@ == Seq::new(
            ro.buf@.len(),
            |i: int| 0xffu8,
        ),
        RWOp::Write(_) => out == op,
    }
}

/// Sets every byte that an access reads to all ones.
pub fn unclaimed(op: RWOp) -> (r: RWOp)
    ensures
        unclaimed_of(op, r),
{
    match op {
        RWOp::Read(ro) => {
            let mut ro: ReadOp = ro;
            ro.fill(0xff);
            RWOp::Read(ro)
        },
        RWOp::Write(wo) => RWOp::Write(wo),
    }
}

/// The access at another offset.
pub open spec fn moved_to(op: RWOp, offset: usize) -> RWOp {
    match op {
        RWOp::Read(ro) => RWOp::Read(ReadOp { offset, ..ro }),
        RWOp::Write(wo) => RWOp::Write(WriteOp { offset, ..wo }),
    }
}

/// The access at another offset.
pub fn move_to(op: RWOp, offset: usize) -> (r: RWOp)
    ensures
        r == moved_to(op, offset),
{
    match op {
        RWOp::Read(ro) => RWOp::Read(ReadOp { offset, buf: ro.buf }),
        RWOp::Write(wo) => RWOp::Write(WriteOp { offset, buf: wo.buf }),
    }
}

/// Finds the function that an access to the configuration space through ports
/// is meant for. The address comes by one port, and the data by another.
#[derive(Clone, Copy, Debug, PartialEq, Eq, Structural)]
pub struct PioCfgDecoder {
    /// The address: bit 31 enables it, and below stand the bus, the device, the
    /// function and the offset.
    pub addr: u32,
}

/// The function that an address names.
pub open spec fn pio_bdf(addr: u32) -> Bdf {
    Bdf {
        bus: BusNum(((addr / 0x1_0000) % 0x100) as u8),
        location: BusLocation {
            dev: ((addr / 0x800) % 32) as u8,
            func: ((addr / 0x100) % 8) as u8,
        },
    }
}

impl PioCfgDecoder {
    /// A decoder whose address is not enabled.
    pub fn new() -> (r: PioCfgDecoder)
        ensures
            r.addr == 0,
    {
        PioCfgDecoder { addr: 0 }
    }

    /// The address.
    pub fn addr(&self) -> (r: u32)
        ensures
            r == self.addr,
    {
        self.addr
    }

    /// Sets the address.
    pub fn set_addr(&mut self, addr: u32)
        ensures
            final(self).addr == addr,
    {
        self.addr = addr;
    }

    /// Services an access to the port of the address. The address is read and
    /// written as a whole; any other access is ignored.
    pub fn service_addr(&mut self, op: RWOp) -> (r: RWOp)
        ensures
            r.spec_offset() == op.spec_offset(),
            r is Read <==> op is Read,
            ({
                let whole = op.spec_offset() == 0 && op.bytes().len() == 4;
                &&& r.bytes() == if whole && op is Read {
                    le32(old(self).addr)
                } else {
                    op.bytes()
                }
                &&& final(self).addr == if whole && op is Write {
                    val32(op.bytes())
                } else {
                    old(self).addr
                }
            }),
    {
        if op.offset() != 0 || op.len() != 4 {
            return op;
        }
        match op {
            RWOp::Read(ro) => RWOp::Read(ReadOp { offset: ro.offset, buf: le32_vec(self.addr) }),
            RWOp::Write(wo) => {
                assert(wo.buf@.subrange(0, 4) =~= wo.buf@);
                self.addr = get_le32(&wo.buf, 0);
                RWOp::Write(wo)
            },
        }
    }

    /// Finds the function that an access to the port of the data is meant for.
    pub fn service_data(&self, op: RWOp) -> (r: CfgDispatch)
        requires
            op.spec_offset() <= 0x1000,
        ensures
            if self.addr >= 0x8000_0000 {
                &&& r == CfgDispatch::Function(
                    pio_bdf(self.addr),
                    moved_to(op, (op.spec_offset() + self.addr % 0x100) as usize),
                )
                &&& pio_bdf(self.addr).location.wf()
            } else {
                r matches CfgDispatch::Unclaimed(o) && unclaimed_of(op, o)
            },
    {
        if self.addr >= 0x8000_0000 {
            let bdf: Bdf = Bdf {
                bus: BusNum(((self.addr / 0x1_0000) % 0x100) as u8),
                location: BusLocation {
                    dev: ((self.addr / 0x800) % 32) as u8,
                    func: ((self.addr / 0x100) % 8) as u8,
                },
            };
            let offset: usize = op.offset() + (self.addr % 0x100) as usize;
            CfgDispatch::Function(bdf, move_to(op, offset))
        } else {
            CfgDispatch::Unclaimed(unclaimed(op))
        }
    }
}

/// An address is put together from what it names.
pub proof fn law_pio_address(bus: u8, dev: u8, func: u8, offset: u8)
    requires
        dev < 32,
        func < 8,
    ensures
        ({
            let addr = (0x8000_0000 + 0x1_0000 * bus + 0x800 * dev + 0x100 * func + offset) as u32;
            &&& addr >= 0x8000_0000
            &&& pio_bdf(addr) == (Bdf {
                bus: BusNum(bus),
                location: BusLocation { dev, func },
            })
            &&& addr % 0x100 == offset
        }),
{
    let x = 0x8000_0000 + 0x1_0000 * bus + 0x800 * dev + 0x100 * func + offset;
    let f = 0x80_0000 + 0x100 * bus + 8 * dev + func;
    let d = 0x10_0000 + 0x20 * bus + dev;
    let b = 0x8000 + bus;
    assert(x == 0x100 * f + offset);
    assert(x / 0x100 == f && x % 0x100 == offset);
    assert(f == 8 * d + func);
    assert(f / 8 == d && f % 8 == func);
    assert(x / 0x800 == (x / 0x100) / 8);
    assert(d == 0x20 * b + dev);
    assert(d / 0x20 == b && d % 0x20 == dev);
    assert(x / 0x1_0000 == (x / 0x800) / 0x20);
    assert(b % 0x100 == bus);
}

/// Finds the function that an access to the memory-mapped configuration space
/// of PCIe is meant for.
#[derive(Clone, Copy, Debug)]
pub struct PcieCfgDecoder {
    /// Number of buses in the region.
    pub max_buses: u16,
}

/// The function whose configuration space holds the offset: 20 bits for those
/// of a bus, 15 for those of a device, 12 for those of a function.
pub open spec fn ecam_bdf(max_buses: u16, offset: usize) -> Bdf {
    Bdf {
        bus: BusNum(((offset as int / 0x10_0000) % (max_buses as int)) as u8),
        location: BusLocation {
            dev: ((offset as int / 0x8000) % 32) as u8,
            func: ((offset as int / 0x1000) % 8) as u8,
        },
    }
}

impl PcieCfgDecoder {
    /// The region holds between 1 and 256 buses.
    pub open spec fn wf(self) -> bool {
        1 <= self.max_buses <= 256
    }

    /// A decoder for a region of `max_buses` buses.
    pub fn new(max_buses: u16) -> (r: PcieCfgDecoder)
        requires
            1 <= max_buses <= 256,
        ensures
            r.max_buses == max_buses,
            r.wf(),
    {
        PcieCfgDecoder { max_buses }
    }

    /// Finds the function that an access is meant for. An access that goes
    /// beyond the space of one function is meant for none.
    pub fn service(&self, op: RWOp) -> (r: CfgDispatch)
        requires
            self.wf(),
            op.spec_offset() + op.bytes().len() <= usize::MAX,
        ensures
            ({
                let off = op.spec_offset() as int % 0x1000;
                if off + op.bytes().len() <= 0x1000 {
                    &&& r == CfgDispatch::Function(
                        ecam_bdf(self.max_buses, op.spec_offset()),
                        moved_to(op, off as usize),
                    )
                    &&& ecam_bdf(self.max_buses, op.spec_offset()).location.wf()
                } else {
                    r matches CfgDispatch::Unclaimed(o) && unclaimed_of(op, o)
                }
            }),
    {
        let offset: usize = op.offset();
        let off: usize = offset % 0x1000;
        if off + op.len() <= 0x1000 {
            let bus: usize = (offset / 0x10_0000) % (self.max_buses as usize);
            let bdf: Bdf = Bdf {
                bus: BusNum(bus as u8),
                location: BusLocation {
                    dev: ((offset / 0x8000) % 32) as u8,
                    func: ((offset / 0x1000) % 8) as u8,
                },
            };
            CfgDispatch::Function(bdf, move_to(op, off))
        } else {
            CfgDispatch::Unclaimed(unclaimed(op))
        }
    }
}

} // verus!
