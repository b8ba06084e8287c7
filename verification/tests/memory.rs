use jrinx_core::addr::{PhysAddr, VirtAddr, PAGE_SIZE, REMAP_MEM_OFFSET};
use jrinx_core::paging::{PagePerm, PageTableEntry, PERM_G, PERM_R, PERM_V, PERM_W};
use jrinx_core::phys_frame::FrameAllocator;
use jrinx_core::vmm::{PageTable, PhysMemory};
use rand::rngs::SmallRng;
use rand::{RngCore, SeedableRng};

#[test]
fn address_alignment_and_remap() {
    let pa = PhysAddr::new(0x8020_1234);
    assert_eq!(pa.align_page_down().as_u64(), 0x8020_1000);
    assert_eq!(pa.to_virt().as_u64(), 0x8020_1234 + REMAP_MEM_OFFSET);
    let va = VirtAddr::new(REMAP_MEM_OFFSET + 0x1000);
    assert_eq!(va.to_phys().as_u64(), 0x1000);
}

#[test]
fn page_table_entry_packs_and_unpacks() {
    let perm = PagePerm { bits: PERM_V | PERM_R | PERM_W };
    let pte = PageTableEntry::new(PhysAddr::new(0x8020_0000), perm);
    assert_eq!(pte.bits, (0x8020_0000u64 >> 2) | 0b111);
    let (pa, p) = pte.as_tuple();
    assert_eq!(pa.addr, 0x8020_0000);
    assert_eq!(p.bits, 0b111);
    assert!(pte.is_valid());
    let invalid = PageTableEntry { bits: pte.bits & !1 };
    assert!(!invalid.is_valid());
}

#[test]
fn page_perm_operations() {
    let rw = PagePerm { bits: PERM_R }.union(PagePerm { bits: PERM_W });
    assert_eq!(rw.bits, PERM_R | PERM_W);
    assert!(rw.contains(PagePerm { bits: PERM_R }));
    assert!(!rw.contains(PagePerm { bits: PERM_G }));
    assert_eq!(PagePerm::from_bits_truncate(0xFFFF).bits, 0xFF);
}

#[test]
fn physical_frame_reuse() {
    // After dropping every outstanding frame, a later allocation returns a
    // previously-used address.
    let mut alloc = FrameAllocator::new(0x8000_0000, 8);
    let f1 = alloc.allocate().unwrap();
    let f2 = alloc.allocate().unwrap();
    let a1 = f1.addr().addr;
    let a2 = f2.addr().addr;
    assert_ne!(a1, a2);
    alloc.deallocate(f1);
    alloc.deallocate(f2);
    let f3 = alloc.allocate().unwrap();
    assert_eq!(f3.addr().addr, a2);
    let f4 = alloc.allocate().unwrap();
    assert_eq!(f4.addr().addr, a1);
}

#[test]
fn frame_allocator_exhaustion() {
    let mut alloc = FrameAllocator::new(0x8000_0000, 2);
    let f1 = alloc.allocate().unwrap();
    let _f2 = alloc.allocate().unwrap();
    assert!(alloc.allocate().is_err());
    alloc.deallocate(f1);
    assert!(alloc.allocate().is_ok());
}

#[test]
fn mapping_round_trip() {
    // translate(vaddr) yields the (paddr, perm) last written by map, and
    // two pages mapped to one frame translate alike.
    let mut alloc = FrameAllocator::new(0x8000_0000, 8);
    let mut pt = PageTable::new();
    let vaddr1 = VirtAddr::new(PAGE_SIZE);
    let vaddr2 = VirtAddr::new(PAGE_SIZE * 2);

    let frame = alloc.allocate().unwrap();
    let paddr = frame.addr();
    let perm = PagePerm { bits: PERM_G | PERM_W | PERM_R };
    pt.map(vaddr1, frame, perm).unwrap();
    let (looked, lperm) = pt.lookup(vaddr1).unwrap();
    assert_eq!(looked.addr(), paddr);
    pt.map(vaddr2, looked, lperm).unwrap();

    let (pa1, perm1) = pt.translate(vaddr1).unwrap();
    let (pa2, perm2) = pt.translate(vaddr2).unwrap();
    assert_eq!(pa1, pa2);
    assert_eq!(perm1.bits(), perm2.bits());
    assert!(perm1.contains(PagePerm { bits: PERM_V | PERM_R | PERM_W }));

    pt.unmap(vaddr1).unwrap();
    assert!(pt.translate(vaddr1).is_err());
    assert!(pt.translate(vaddr2).is_ok());
    pt.unmap(vaddr2).unwrap();
    assert!(pt.unmap(vaddr2).is_err());
}

#[test]
fn remap_overwrites_previous_mapping() {
    let mut pt = PageTable::new();
    let v = VirtAddr::new(PAGE_SIZE);
    let mut alloc = FrameAllocator::new(0x8000_0000, 4);
    let f1 = alloc.allocate().unwrap();
    let a1 = f1.addr();
    let f2 = alloc.allocate().unwrap();
    let a2 = f2.addr();
    let perm = PagePerm { bits: PERM_R };
    pt.map(v, f1, perm).unwrap();
    pt.map(v, f2, perm).unwrap();
    let (pa, _) = pt.translate(v).unwrap();
    assert_eq!(pa, a2);
    assert_ne!(pa, a1);
}

#[test]
fn page_mapping_write_read_back() {
    // Map a virtual page to a fresh frame with G|R|W, write a word through
    // the virtual view, and read it back through the direct physical view.
    let mut alloc = FrameAllocator::new(0x8000_0000, 8);
    let mut pt = PageTable::new();
    let mut memory = PhysMemory::new(0x8000_0000, 8 * (PAGE_SIZE as usize) / 8);
    let mut rng = SmallRng::seed_from_u64(0);

    let v = VirtAddr::new(PAGE_SIZE * 5);
    let frame = alloc.allocate().unwrap();
    pt.map(v, frame, PagePerm { bits: PERM_G | PERM_R | PERM_W }).unwrap();

    pt.sync_all();
    for k in 0..(PAGE_SIZE / 8) {
        let (pa, perm) = pt.translate(v).unwrap();
        assert!(perm.contains(PagePerm { bits: PERM_W }));
        let word_addr = pa.addr + k * 8;
        let w = rng.next_u64();
        memory.write_phys(word_addr, w).unwrap();
        assert_eq!(memory.read_phys(word_addr).unwrap(), w);
    }
}
