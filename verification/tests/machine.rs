use propolis::addrspace::{AddrSpace, Owner};
use propolis::bitfield::get_field;
use propolis::common::{
    get_le16, get_le32, get_le64, push_le16, push_le32, push_le64, GuestAddr, MemCtx,
};
use propolis::hw::ibmpc::{check_ms_dos_mbr_signature, MBR_PARTITION_ENTRY_OFFSET};
use propolis::regmap::{find_in_table, RegDef};

#[test]
fn signature_of_a_boot_record() {
    let mut mbr = [0u8; 512];
    assert!(!check_ms_dos_mbr_signature(&mbr));
    mbr[510] = 0x55;
    mbr[511] = 0xaa;
    assert!(check_ms_dos_mbr_signature(&mbr));
    mbr[510] = 0xaa;
    mbr[511] = 0x55;
    assert!(!check_ms_dos_mbr_signature(&mbr));
    // Four entries of 16 bytes lie before it
    assert_eq!(MBR_PARTITION_ENTRY_OFFSET[3] + 16, 510);
}

#[test]
fn numbers_are_little_endian() {
    let mut v = Vec::new();
    push_le16(&mut v, 0x1234);
    push_le32(&mut v, 0x89ab_cdef);
    push_le64(&mut v, 0x0102_0304_0506_0708);
    assert_eq!(v[0..6], [0x34, 0x12, 0xef, 0xcd, 0xab, 0x89]);
    assert_eq!(get_le16(&v, 0), 0x1234);
    assert_eq!(get_le32(&v, 2), 0x89ab_cdef);
    assert_eq!(get_le64(&v, 6), 0x0102_0304_0506_0708);
}

#[test]
fn memory_has_an_end() {
    let mut m = MemCtx::new(0x1000, 0x100);
    assert!(m.write_u32(GuestAddr(0x10fc), 7));
    assert_eq!(m.read_u32(GuestAddr(0x10fc)), Some(7));
    assert_eq!(m.read_u32(GuestAddr(0x10fd)), None);
    assert!(!m.write_u32(GuestAddr(0xfff), 7));
    assert_eq!(m.read_bytes(GuestAddr(u64::MAX), 2), None);
    assert_eq!(m.read_u64(GuestAddr(0x10f8)), Some(7 << 32));
}

#[test]
fn addresses_have_one_owner() {
    let mut s = AddrSpace::new(0xffff);
    let owner = Owner { bus: 3, reg: 1 };
    assert!(s.register(0x100, 0x10, owner));
    // They overlap
    assert!(!s.register(0x10f, 1, Owner { bus: 4, reg: 0 }));
    // They lie beyond the end
    assert!(!s.register(0xfff0, 0x11, owner));
    assert!(s.register(0x110, 1, Owner { bus: 4, reg: 0 }));
    assert_eq!(s.find(0x10f).unwrap().start, 0x100);
    assert!(s.find(0x111).is_none());
    assert!(s.unregister(0x100));
    assert!(!s.unregister(0x100));
    assert!(s.find(0x10f).is_none());
}

#[test]
fn registers_are_found_in_a_table() {
    let defs = vec![RegDef { id: 'a', len: 4, passthru: false }, RegDef { id: 'b', len: 2, passthru: true }];
    let r = find_in_table(&defs, 5).unwrap();
    assert_eq!((r.id, r.start, r.len), ('b', 4, 2));
    assert!(find_in_table(&defs, 6).is_none());
}

#[test]
fn fields_of_a_register() {
    assert_eq!(get_field(0xabcd, 0x10, 0x100), 0xbc);
}

#[test]
fn memory_has_holes() {
    let mut m = MemCtx::new(0, 0x1000);
    assert!(m.add_run(0x2000, 0x1000));
    // Some of it is there already
    assert!(!m.add_run(0x2fff, 1));
    assert!(!m.add_run(0xfff, 2));
    assert!(m.write_u32(GuestAddr(0xffc), 1));
    assert!(m.write_u32(GuestAddr(0x2000), 2));
    assert_eq!(m.read_u32(GuestAddr(0xffc)), Some(1));
    assert_eq!(m.read_u32(GuestAddr(0x2000)), Some(2));
    // In the hole, at its edges, and across it
    assert_eq!(m.read_u32(GuestAddr(0x1800)), None);
    assert_eq!(m.read_u32(GuestAddr(0xffd)), None);
    assert_eq!(m.read_u32(GuestAddr(0x1fff)), None);
    assert_eq!(m.read_bytes(GuestAddr(0xffc), 0x1008), None);
    assert!(!m.write_bytes(GuestAddr(0xffc), &vec![0xff; 0x1008]));
    assert_eq!(m.read_u32(GuestAddr(0xffc)), Some(1));
    assert!(m.is_backed(GuestAddr(0x2000), 0x1000));
    assert!(!m.is_backed(GuestAddr(0x2000), 0x1001));
    assert!(!m.is_backed(GuestAddr(0), u64::MAX));
}
