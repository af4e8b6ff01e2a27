//! Sizes of disk drives, and addresses on them.
use vstd::prelude::*;

verus! {

/// The most sectors that addresses of cylinder, head and sector are used for.
pub const MAX_CHS_SECTORS: u32 = 16514064;

/// The number of sectors of a disk drive.
#[derive(Clone, Copy, Debug, PartialEq, Eq, PartialOrd, Ord, Structural)]
pub struct Sectors(pub u64);

impl Sectors {
    /// The lower 28 bits of the number, which is what old commands can address.
    pub open spec fn spec_lba28(self) -> u32 {
        (self.0 % 0x1000_0000) as u32
    }

    /// The sectors of a kilobyte.
    pub fn one_kb() -> (r: Self)
        ensures
            r == Sectors(2),
    {
        Sectors(2)
    }

    /// The sectors of a megabyte.
    pub fn one_mb() -> (r: Self)
        ensures
            r.0 == 1024 * 2,
    {
        Sectors(1024 * 2)
    }

    /// The sectors of a gigabyte.
    pub fn one_gb() -> (r: Self)
        ensures
            r.0 == 1024 * 1024 * 2,
    {
        Sectors(1024 * 1024 * 2)
    }

    /// That many sectors.
    pub fn new(size: u64) -> (r: Self)
        ensures
            r == Sectors(size),
    {
        Sectors(size)
    }

    /// The lower 28 bits of the number, which is what old commands can address.
    pub fn lba28(&self) -> (r: u32)
        ensures
            r == self.spec_lba28(),
            r < 0x1000_0000,
    {
        (self.0 % 0x1000_0000) as u32
    }

    /// The lower half of the 28 bits.
    pub fn lba28_low(&self) -> (r: u16)
        ensures
            r == self.spec_lba28() % 0x1_0000,
    {
        (self.lba28() % 0x1_0000) as u16
    }

    /// The upper half of the 28 bits.
    pub fn lba28_high(&self) -> (r: u16)
        ensures
            r == self.spec_lba28() / 0x1_0000,
    {
        (self.lba28() / 0x1_0000) as u16
    }

    /// The lower third of the lower 48 bits.
    pub fn lba48_low(&self) -> (r: u16)
        ensures
            r == self.0 % 0x1_0000,
    {
        (self.0 % 0x1_0000) as u16
    }

    /// The middle third of the lower 48 bits.
    pub fn lba48_mid(&self) -> (r: u16)
        ensures
            r == (self.0 / 0x1_0000) % 0x1_0000,
    {
        ((self.0 / 0x1_0000) % 0x1_0000) as u16
    }

    /// The upper third of the lower 48 bits.
    pub fn lba48_high(&self) -> (r: u16)
        ensures
            r == (self.0 / 0x1_0000_0000) % 0x1_0000,
    {
        ((self.0 / 0x1_0000_0000) % 0x1_0000) as u16
    }
}

impl Default for Sectors {
    /// No sectors.
    fn default() -> (r: Self)
        ensures
            r == Sectors(0),
    {
        Sectors(0)
    }
}

impl std::ops::Mul<u64> for Sectors {
    type Output = Sectors;

    fn mul(self, rhs: u64) -> (r: Sectors) {
        Sectors(self.0 * rhs)
    }
}

impl vstd::std_specs::ops::MulSpecImpl<u64> for Sectors {
    open spec fn obeys_mul_spec() -> bool {
        true
    }

    open spec fn mul_req(self, rhs: u64) -> bool {
        self.0 * rhs <= u64::MAX
    }

    open spec fn mul_spec(self, rhs: u64) -> Sectors {
        Sectors((self.0 * rhs) as u64)
    }
}

impl std::ops::Mul<Sectors> for u64 {
    type Output = Sectors;

    fn mul(self, rhs: Sectors) -> (r: Sectors) {
        assert(self * rhs.0 == rhs.0 * self) by (nonlinear_arith);
        Sectors(rhs.0 * self)
    }
}

impl vstd::std_specs::ops::MulSpecImpl<Sectors> for u64 {
    open spec fn obeys_mul_spec() -> bool {
        true
    }

    open spec fn mul_req(self, rhs: Sectors) -> bool {
        self * rhs.0 <= u64::MAX
    }

    open spec fn mul_spec(self, rhs: Sectors) -> Sectors {
        Sectors((self * rhs.0) as u64)
    }
}

/// The parts that a number of sectors is told in add up to it, as far as their
/// bits go.
pub proof fn law_sectors_in_parts(s: Sectors)
    ensures
        s.spec_lba28() % 0x1_0000 + 0x1_0000 * (s.spec_lba28() / 0x1_0000) == s.0 % 0x1000_0000,
        s.0 % 0x1_0000 + 0x1_0000 * ((s.0 / 0x1_0000) % 0x1_0000) + 0x1_0000_0000 * ((s.0
            / 0x1_0000_0000) % 0x1_0000) == s.0 % 0x1_0000_0000_0000,
{
    let x = s.0;
    assert((x / 0x1_0000) / 0x1_0000 == x / 0x1_0000_0000);
    assert((x / 0x1_0000_0000) / 0x1_0000 == x / 0x1_0000_0000_0000);
}

/// How the sectors of a disk drive are arranged.
#[derive(Clone, Copy, Debug, PartialEq, Eq, PartialOrd, Ord, Structural)]
pub struct Geometry {
    pub cylinders: u16,
    pub heads: u8,
    pub sectors: u8,
}

impl Default for Geometry {
    /// No sectors.
    fn default() -> (r: Self)
        ensures
            r == (Geometry { cylinders: 0, heads: 0, sectors: 0 }),
    {
        Geometry { cylinders: 0, heads: 0, sectors: 0 }
    }
}

impl Geometry {
    /// The number of sectors in all.
    pub open spec fn spec_capacity(self) -> Sectors {
        Sectors((self.cylinders * self.heads * self.sectors) as u64)
    }

    /// The arrangement with as many cylinders as a drive of that many sectors
    /// has, up to a limit.
    pub open spec fn with_cylinders(self, capacity: Sectors) -> Geometry {
        let usable = if capacity.spec_lba28() > MAX_CHS_SECTORS {
            MAX_CHS_SECTORS as int
        } else {
            capacity.spec_lba28() as int
        };
        Geometry {
            cylinders: ((usable / (self.sectors * self.heads)) % 0x1_0000) as u16,
            ..self
        }
    }

    /// The smallest arrangement.
    pub fn min() -> (r: Self)
        ensures
            r == (Geometry { cylinders: 1, heads: 1, sectors: 1 }),
    {
        Geometry { cylinders: 1, heads: 1, sectors: 1 }
    }

    /// The largest arrangement.
    pub fn max() -> (r: Self)
        ensures
            r == (Geometry { cylinders: u16::MAX, heads: 16, sectors: 255 }),
    {
        Geometry { cylinders: u16::MAX, heads: 16, sectors: 255 }
    }

    /// The largest arrangement that old software can use.
    pub fn max_compat() -> (r: Self)
        ensures
            r == (Geometry { cylinders: 16383, heads: 15, sectors: 63 }),
    {
        Geometry { cylinders: 16383, heads: 15, sectors: 63 }
    }

    /// The number of sectors in all.
    pub fn capacity(&self) -> (r: Sectors)
        ensures
            r == self.spec_capacity(),
            r.0 == self.cylinders * self.heads * self.sectors,
    {
        assert(self.cylinders * self.heads <= 0xffff * 0xff) by (nonlinear_arith)
            requires
                self.cylinders <= 0xffff,
                self.heads <= 0xff,
        ;
        let tracks: u64 = self.cylinders as u64 * self.heads as u64;
        assert(tracks * self.sectors <= 0xffff * 0xff * 0xff) by (nonlinear_arith)
            requires
                tracks <= 0xffff * 0xff,
                self.sectors <= 0xff,
        ;
        Sectors(tracks * self.sectors as u64)
    }

    /// The first address past the last sector.
    pub fn max_logical_block_address(&self) -> (r: LogicalBlockAddress)
        ensures
            r == LogicalBlockAddress(self.spec_capacity().0),
    {
        LogicalBlockAddress(self.capacity().0)
    }

    /// The place that addresses of blocks are taken to, which is the first.
    pub fn from_lba(&self, lba: LogicalBlockAddress) -> (r: CylinderHeadSectorAddress)
        ensures
            r == CylinderHeadSectorAddress::spec_first(),
    {
        CylinderHeadSectorAddress { cylinder: 0, head: 0, sector: 1 }
    }

    /// Sets the number of cylinders to what a drive of that many sectors has.
    pub fn compute_cylinders(&mut self, capacity: Sectors)
        requires
            old(self).sectors > 0,
            old(self).heads > 0,
        ensures
            *final(self) == old(self).with_cylinders(capacity),
    {
        let sectors: u32 = self.sectors as u32;
        let heads: u32 = self.heads as u32;
        assert(0 < sectors * heads <= 0xff * 0xff) by (nonlinear_arith)
            requires
                0 < sectors <= 0xff,
                0 < heads <= 0xff,
        ;
        let sectors_per_cylinder: u32 = sectors * heads;
        let lba: u32 = capacity.lba28();
        let usable: u32 = if lba > MAX_CHS_SECTORS {
            MAX_CHS_SECTORS
        } else {
            lba
        };
        self.cylinders = ((usable / sectors_per_cylinder) % 0x1_0000) as u16;
    }
}

/// The address of a sector by the place where it lies. Sectors are counted from
/// 1.
#[derive(Clone, Copy, Debug, PartialEq, Eq, PartialOrd, Ord, Structural)]
pub struct CylinderHeadSectorAddress {
    pub cylinder: u16,
    pub head: u8,
    pub sector: u8,
}

impl Default for CylinderHeadSectorAddress {
    /// The first address.
    fn default() -> (r: Self)
        ensures
            r == CylinderHeadSectorAddress::spec_first(),
    {
        CylinderHeadSectorAddress { cylinder: 0, head: 0, sector: 1 }
    }
}

impl CylinderHeadSectorAddress {
    /// The first address.
    pub open spec fn spec_first() -> Self {
        CylinderHeadSectorAddress { cylinder: 0, head: 0, sector: 1 }
    }

    /// The number of the sector, counted from 0. It is negative where the
    /// address is not one of a sector.
    pub open spec fn lba(self, geometry: Geometry) -> int {
        (self.cylinder * geometry.heads + self.head) * geometry.sectors + self.sector - 1
    }

    /// The address in an entry of a partition table: the head, the sector with
    /// two bits of the cylinder, and the rest of the cylinder.
    pub fn from_mbr_bytes(bytes: &[u8]) -> (r: Self)
        requires
            bytes@.len() >= 3,
        ensures
            r.head == bytes@[0],
            r.sector == bytes@[1] % 0x40,
            r.cylinder == ((((bytes@[1] / 4) % 4) * 16) as u16) | bytes@[2] as u16,
    {
        let high: u16 = (((bytes[1] / 4) % 4) * 16) as u16;
        CylinderHeadSectorAddress {
            cylinder: high | bytes[2] as u16,
            head: bytes[0],
            sector: bytes[1] % 0x40,
        }
    }

    /// The number of the sector, counted from 0.
    pub fn logical_block_address(&self, geometry: &Geometry) -> (r: LogicalBlockAddress)
        requires
            self.lba(*geometry) >= 0,
        ensures
            r.0 == self.lba(*geometry),
    {
        let heads: u64 = geometry.heads as u64;
        let sectors: u64 = geometry.sectors as u64;
        let cylinder: u64 = self.cylinder as u64;
        assert(cylinder * heads <= 0xffff * 0xff) by (nonlinear_arith)
            requires
                cylinder <= 0xffff,
                heads <= 0xff,
        ;
        let tracks: u64 = cylinder * heads + self.head as u64;
        assert(tracks * sectors <= 0x100_0000 * 0xff) by (nonlinear_arith)
            requires
                tracks <= 0x100_0000,
                sectors <= 0xff,
        ;
        LogicalBlockAddress(tracks * sectors + self.sector as u64 - 1)
    }
}

/// Each number of a sector below the capacity is that of one place, and places
/// in the arrangement have different numbers below the capacity.
pub proof fn law_chs_numbers_sectors(
    g: Geometry,
    a: CylinderHeadSectorAddress,
    b: CylinderHeadSectorAddress,
)
    requires
        a.cylinder < g.cylinders,
        a.head < g.heads,
        1 <= a.sector <= g.sectors,
        b.cylinder < g.cylinders,
        b.head < g.heads,
        1 <= b.sector <= g.sectors,
    ensures
        0 <= a.lba(g) < g.spec_capacity().0,
        a.lba(g) == b.lba(g) ==> a == b,
{
    let (c, h, s) = (g.cylinders as int, g.heads as int, g.sectors as int);
    let ta = a.cylinder * h + a.head;
    let tb = b.cylinder * h + b.head;
    assert(0 <= ta < c * h) by (nonlinear_arith)
        requires
            ta == a.cylinder * h + a.head,
            0 <= a.cylinder < c,
            0 <= a.head < h,
    ;
    assert(0 <= ta * s + a.sector - 1 < c * h * s) by (nonlinear_arith)
        requires
            0 <= ta < c * h,
            1 <= a.sector <= s,
    ;
    assert(c * h * s <= 0xffff * 0xff * 0xff) by (nonlinear_arith)
        requires
            0 <= c <= 0xffff,
            0 <= h <= 0xff,
            0 <= s <= 0xff,
    ;
    assert(c * h * s >= 0);
    if a.lba(g) == b.lba(g) {
        assert(ta == tb && a.sector == b.sector) by (nonlinear_arith)
            requires
                ta * s + a.sector - 1 == tb * s + b.sector - 1,
                1 <= a.sector <= s,
                1 <= b.sector <= s,
        ;
        assert(a.cylinder == b.cylinder && a.head == b.head) by (nonlinear_arith)
            requires
                a.cylinder * h + a.head == b.cylinder * h + b.head,
                0 <= a.head < h,
                0 <= b.head < h,
        ;
    }
}

/// The address of a sector by its number, counted from 0.
#[derive(Clone, Copy, Debug, PartialEq, Eq, PartialOrd, Ord, Structural)]
pub struct LogicalBlockAddress(pub u64);

impl LogicalBlockAddress {
    /// The address of that number.
    pub fn new(lba: u64) -> (r: Self)
        ensures
            r == LogicalBlockAddress(lba),
    {
        LogicalBlockAddress(lba)
    }
}

impl Default for LogicalBlockAddress {
    /// The first sector.
    fn default() -> (r: Self)
        ensures
            r == LogicalBlockAddress(0),
    {
        LogicalBlockAddress(0)
    }
}

} // verus!
