//! IO ports and interrupt lines of standard IBM PC hardware, and its boot
//! record.
use vstd::prelude::*;

verus! {

pub const PORT_COM1: u16 = 0x3f8;

pub const PORT_COM2: u16 = 0x2f8;

pub const PORT_COM3: u16 = 0x3e8;

pub const PORT_COM4: u16 = 0x2e8;

pub const IRQ_COM1: u8 = 4;

pub const IRQ_COM2: u8 = 3;

pub const IRQ_COM3: u8 = 4;

pub const IRQ_COM4: u8 = 3;

pub const PORT_FAST_A20: u16 = 0x92;

pub const PORT_POST_CODE: u16 = 0x80;

pub const LEN_FAST_A20: u16 = 1;

pub const LEN_POST_CODE: u16 = 1;

pub const PORT_PS2_DATA: u16 = 0x60;

pub const PORT_PS2_CMD_STATUS: u16 = 0x64;

pub const IRQ_PS2_PRI: u8 = 1;

pub const IRQ_PS2_AUX: u8 = 12;

pub const PORT_ATA0_CMD: u16 = 0x1f0;

pub const PORT_ATA1_CMD: u16 = 0x170;

pub const PORT_ATA0_CTRL: u16 = 0x3f6;

pub const PORT_ATA1_CTRL: u16 = 0x376;

pub const LEN_ATA_CMD: u16 = 8;

pub const LEN_ATA_CTRL: u16 = 2;

pub const IRQ_ATA0: u8 = 14;

pub const IRQ_ATA1: u8 = 15;

/// Where the entries of the partition table stand in a master boot record.
pub const MBR_PARTITION_ENTRY_OFFSET: [usize; 4] = [446, 462, 478, 494];

/// An entry of the partition table of an MS-DOS master boot record.
#[derive(Clone, Copy, Debug)]
pub struct PartitionEntry {
    pub status: u8,
    pub first_sector_chs: [u8; 3],
    pub partition_type: u8,
    pub last_sector_chs: [u8; 3],
    pub first_sector_lba: u32,
    pub sectors: u32,
}

/// Whether the first sector of a disk holds a master boot record.
pub fn check_ms_dos_mbr_signature(mbr: &[u8]) -> (r: bool)
    requires
        mbr@.len() >= 512,
    ensures
        r == (mbr@[510] == 0x55 && mbr@[511] == 0xaa),
{
    mbr[510] == 0x55 && mbr[511] == 0xaa
}

} // verus!
