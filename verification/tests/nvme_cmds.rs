use propolis::common::{GuestAddr, GuestRegion, MemCtx, PAGE_SIZE};
use propolis::hw::nvme::cmds::PrpIter;

const VM_SIZE: usize = 256 * PAGE_SIZE as usize;
const PRP_PER_PAGE: usize = PAGE_SIZE as usize / 8;

fn setup() -> MemCtx {
    MemCtx::new(0, VM_SIZE)
}

fn write_many(mem: &mut MemCtx, addr: u64, vals: &[u64]) {
    for (i, v) in vals.iter().enumerate() {
        assert!(mem.write_u64(GuestAddr(addr + 8 * i as u64), *v));
    }
}

// Simple helpers to make math below more terse
fn region(addr: u64, sz: u64) -> GuestRegion {
    GuestRegion(GuestAddr(addr), sz)
}

fn pages(c: u64) -> u64 {
    PAGE_SIZE as u64 * c
}

#[test]
fn test_prp_single() {
    let memctx = setup();

    // Basic single page
    let mut iter = PrpIter::new(pages(1), 0x1000, 0, &memctx);
    assert_eq!(iter.next(), Some(region(0x1000, pages(1))));
    assert_eq!(iter.next(), None);

    // Sub-single page
    let sub = 0x200;
    let mut iter = PrpIter::new(pages(1) - sub, 0x1000, 0, &memctx);
    assert_eq!(iter.next(), Some(region(0x1000, pages(1) - sub)));
    assert_eq!(iter.next(), None);

    // Sub-single page (with offset)
    let mut iter = PrpIter::new(pages(1) - sub, 0x1000 + sub, 0, &memctx);
    assert_eq!(iter.next(), Some(region(0x1000 + sub, pages(1) - sub)));
    assert_eq!(iter.next(), None);
}

#[test]
fn test_prp_dual() {
    let memctx = setup();

    // Basic dual page
    let mut iter = PrpIter::new(pages(2), 0x1000, 0x2000, &memctx);
    assert_eq!(iter.next(), Some(region(0x1000, pages(1))));
    assert_eq!(iter.next(), Some(region(0x2000, pages(1))));
    assert_eq!(iter.next(), None);

    // single page, split by offset
    let sub = 0x200;
    let mut iter = PrpIter::new(pages(1), 0x1000 + sub, 0x2000, &memctx);
    assert_eq!(iter.next(), Some(region(0x1000 + sub, pages(1) - sub)));
    assert_eq!(iter.next(), Some(region(0x2000, sub)));
    assert_eq!(iter.next(), None);

    // less than single page, split by offset
    let sz = pages(1) - 0x200;
    let off = 0x400;
    let mut iter = PrpIter::new(sz, 0x1000 + off, 0x2000, &memctx);
    assert_eq!(iter.next(), Some(region(0x1000 + off, pages(1) - off)));
    assert_eq!(iter.next(), Some(region(0x2000, sz - (pages(1) - off))));
    assert_eq!(iter.next(), None);
}

#[test]
fn test_prp_list() {
    // Basic triple page (aligned prplist)
    let mut memctx = setup();
    let listprps: [u64; 2] = [0x2000, 0x3000];
    let listaddr = 0x80000;
    write_many(&mut memctx, listaddr, &listprps);
    let mut iter = PrpIter::new(pages(3), 0x1000, listaddr, &memctx);
    assert_eq!(iter.next(), Some(region(0x1000, pages(1))));
    assert_eq!(iter.next(), Some(region(0x2000, pages(1))));
    assert_eq!(iter.next(), Some(region(0x3000, pages(1))));
    assert_eq!(iter.next(), None);

    // Basic triple page (offset prplist)
    let mut memctx = setup();
    let listprps: [u64; 2] = [0x2000, 0x3000];
    let listaddr = 0x80010;
    write_many(&mut memctx, listaddr, &listprps);
    let mut iter = PrpIter::new(pages(3), 0x1000, listaddr, &memctx);
    assert_eq!(iter.next(), Some(region(0x1000, pages(1))));
    assert_eq!(iter.next(), Some(region(0x2000, pages(1))));
    assert_eq!(iter.next(), Some(region(0x3000, pages(1))));
    assert_eq!(iter.next(), None);

    // Offset triple page
    let mut memctx = setup();
    let listprps: [u64; 3] = [0x2000, 0x3000, 0x4000];
    let listaddr = 0x80000;
    let off = 0x200;
    write_many(&mut memctx, listaddr, &listprps);
    let mut iter = PrpIter::new(pages(3), 0x1000 + off, listaddr, &memctx);
    assert_eq!(iter.next(), Some(region(0x1000 + off, pages(1) - off)));
    assert_eq!(iter.next(), Some(region(0x2000, pages(1))));
    assert_eq!(iter.next(), Some(region(0x3000, pages(1))));
    assert_eq!(iter.next(), Some(region(0x4000, off)));
    assert_eq!(iter.next(), None);
}

#[test]
fn test_prp_list_offset_last() {
    // List with offset, where last entry covers less than one page
    let mut memctx = setup();

    let listaddr = 0x80000u64;
    let mut prps: Vec<u64> = Vec::with_capacity(PRP_PER_PAGE);
    let mut bufaddr = 0x2000u64;
    for _idx in 0..PRP_PER_PAGE {
        prps.push(bufaddr);
        bufaddr += pages(1);
    }
    write_many(&mut memctx, listaddr, &prps);
    let off = 0x200;
    let mut iter = PrpIter::new(pages(PRP_PER_PAGE as u64), 0x1000 + off, listaddr, &memctx);
    assert_eq!(
        iter.next(),
        Some(region(0x1000 + off, pages(1) - off)),
        "prp1 entry incorrect"
    );

    let mut bufaddr = 0x2000u64;
    for idx in 0..(PRP_PER_PAGE - 1) {
        assert_eq!(iter.next(), Some(region(bufaddr, pages(1))), "bad prp at idx: {idx}");
        bufaddr += pages(1);
    }
    // last prplist entry should be the remaining bytes left over from
    // offsetting the prp1 entry
    assert_eq!(iter.next(), Some(region(bufaddr, off)));
}

#[test]
fn test_prp_multiple() {
    // Basic multiple-page prplist
    let mut memctx = setup();

    let listaddrs = [0x80000u64, 0x81000u64];
    let mut prps: Vec<u64> = Vec::with_capacity(PRP_PER_PAGE);
    let mut bufaddr = 0x2000u64;

    let entries_first = PRP_PER_PAGE - 1;
    for _idx in 0..entries_first {
        prps.push(bufaddr);
        bufaddr += pages(1);
    }
    // Link to the next list page
    prps.push(listaddrs[1]);
    write_many(&mut memctx, listaddrs[0], &prps[..]);

    // populate a few more entries in the next prplist
    let entries_second = 4;
    for idx in 0..entries_second {
        prps[idx] = bufaddr;
        bufaddr += pages(1);
    }
    write_many(&mut memctx, listaddrs[1], &prps[..entries_second]);

    let total_entries = 1 + entries_first + entries_second;
    let mut iter = PrpIter::new(pages(total_entries as u64), 0x1000, listaddrs[0], &memctx);

    let mut bufaddr = 0x1000u64;
    for idx in 0..total_entries {
        assert_eq!(iter.next(), Some(region(bufaddr, pages(1))), "bad prp at idx: {idx}");
        bufaddr += pages(1);
    }
    assert_eq!(iter.next(), None);
}

#[test]
fn prp_list_that_cannot_be_read_ends_the_walk() {
    let memctx = setup();
    let mut iter = PrpIter::new(pages(3), 0x1000, 0x4000_0000, &memctx);
    assert_eq!(iter.next(), Some(region(0x1000, pages(1))));
    assert_eq!(iter.next(), None);
    assert_eq!(iter.next(), None);
}

#[test]
fn prp_list_entry_with_an_offset_ends_the_walk() {
    let mut memctx = setup();
    write_many(&mut memctx, 0x80000, &[0x2004, 0x3000]);
    let mut iter = PrpIter::new(pages(3), 0x1000, 0x80000, &memctx);
    assert_eq!(iter.next(), Some(region(0x1000, pages(1))));
    assert_eq!(iter.next(), None);
}
