use kernel::arch::x86_64::interrupts::{IdtEntry, InterruptIndex};
use kernel::arch::x86_64::paging::{Field, PageTableEntry, PT_TABLE_FLAGS};
use kernel::mem::allocator::{LinkedListAllocator, MemNode};
use kernel::mem::pmm::{MemoryRegion, PhysicalMemoryManager};
use kernel::mem::{
    align_down, align_up, ByteLabel, ByteLabelKind, LabelBytes, PhysicalPtr, VirtualPtr, PAGE_SIZE,
};

#[test]
fn alignment_rounds_to_powers_of_two() {
    assert_eq!(align_up(0, 8), 0);
    assert_eq!(align_up(1, 8), 8);
    assert_eq!(align_up(8, 8), 8);
    assert_eq!(align_up(4097, 4096), 8192);
    assert_eq!(align_up(13, 1), 13);
    assert_eq!(align_down(4097, 4096), 4096);
    assert_eq!(align_down(4095, 4096), 0);
    assert_eq!(align_down(17, 16), 16);
    assert_eq!(align_up(usize::MAX - 7, 8), usize::MAX - 7);
}

#[test]
fn pointers_are_addresses() {
    let p: PhysicalPtr<u32> = PhysicalPtr::new(0x1000);
    assert_eq!(p.addr(), 0x1000);
    assert_eq!(p.as_raw_ptr(), 0x1000);
    assert!(!p.is_null());
    assert!(PhysicalPtr::<u8>::null_mut().is_null());
    assert_eq!(p.cast::<u8>().addr(), 0x1000);
    assert_eq!(p.add(0x10).unwrap().addr(), 0x1010);
    assert_eq!(p.sub(0x1000).unwrap().addr(), 0);
    assert!(p.sub(0x1001).is_none());
    assert!(p.add(usize::MAX).is_none());
    let v = p.to_higher_half(0xffff_8000_0000_0000).unwrap();
    assert_eq!(v.addr(), 0xffff_8000_0000_1000);
    assert_eq!(v.to_lower_half(0xffff_8000_0000_0000).unwrap().addr(), 0x1000);
    assert!(VirtualPtr::<u8>::new(5).to_lower_half(6).is_none());
    assert!(VirtualPtr::<u8>::null_mut().is_null());
    assert_eq!(v.cast::<u64>().as_raw_ptr(), v.addr());
    let copy = p;
    assert_eq!(copy.clone().addr(), p.addr());
}

#[test]
fn byte_labels_pick_the_largest_unit() {
    assert_eq!(0usize.label_bytes(), ByteLabel { byte_label: ByteLabelKind::BYTE, count: 0 });
    assert_eq!(1023usize.label_bytes(), ByteLabel { byte_label: ByteLabelKind::BYTE, count: 1023 });
    assert_eq!(1024usize.label_bytes(), ByteLabel { byte_label: ByteLabelKind::KIB, count: 1 });
    assert_eq!(
        (5 * 1024 * 1024 + 7usize).label_bytes(),
        ByteLabel { byte_label: ByteLabelKind::MIB, count: 5 }
    );
    assert_eq!(
        (3usize << 30).label_bytes(),
        ByteLabel { byte_label: ByteLabelKind::GIB, count: 3 }
    );
    assert_eq!(1usize.label_bytes().unit(), "Byte");
    assert_eq!(2usize.label_bytes().unit(), "Bytes");
    assert_eq!(1024usize.label_bytes().unit(), "KiB");
    assert_eq!(2048usize.label_bytes().unit(), "KiBs");
    assert_eq!((1usize << 20).label_bytes().unit(), "MiB");
    assert_eq!((2usize << 30).label_bytes().unit(), "GiBs");
}

#[test]
fn page_table_entry_fields() {
    let mut e = PageTableEntry::new(0x0000_1234_5678_9000, PT_TABLE_FLAGS);
    assert_eq!(e.addr(), 0x0000_1234_5678_9000);
    assert_eq!(e.get_field(Field::Present), 1);
    assert_eq!(e.get_field(Field::ReadWrite), 1);
    assert_eq!(e.get_field(Field::UserSupervisor), 1);
    assert_eq!(e.get_field(Field::PageSize), 0);
    assert_eq!(e.get_field(Field::Addr), 0x0000_1234_5678_9);
    assert_eq!(e.get_field(Field::Nx), 0);
    assert!(e.is_table());
    assert!(!e.is_large());
    assert_eq!(e.vmm_flags(), 0x2);

    e.set_field(Field::PageSize, 1);
    assert!(e.is_large());
    assert!(!e.is_table());
    e.set_field(Field::Nx, 1);
    assert_eq!(e.vmm_flags(), 0x8000_0000_0000_0002);
    e.set_field(Field::Avl1, 0x1F);
    assert_eq!(e.get_field(Field::Avl1), 0xF);
    assert_eq!(e.get_field(Field::PageSize), 1);
    e.set_field(Field::Addr, 0xABCDE);
    assert_eq!(e.addr(), 0xABCDE000);
    e.set_field(Field::Present, 0);
    assert!(!e.is_table());
    assert!(!e.is_large());
    e.set_field(Field::WriteThrough, 1);
    e.set_field(Field::CacheDisable, 1);
    e.set_field(Field::Accessed, 1);
    e.set_field(Field::Avl0, 1);
    assert_eq!(e.get_field(Field::WriteThrough), 1);
    assert_eq!(e.get_field(Field::CacheDisable), 1);
    assert_eq!(e.get_field(Field::Accessed), 1);
    assert_eq!(e.get_field(Field::Avl0), 1);
}

#[test]
fn interrupt_vectors_and_descriptors() {
    assert_eq!(InterruptIndex::Timer.as_u8(), 32);
    assert_eq!(InterruptIndex::Keyboard.as_u8(), 33);
    let empty = IdtEntry::new();
    assert_eq!(empty.flags, 0);
    assert_eq!(empty.base_hi, 0);
    let e = IdtEntry::with_handler(0x1122_3344_5566_7788, 0x28, 0x8E);
    assert_eq!(e.base_lo, 0x7788);
    assert_eq!(e.base_mid, 0x5566);
    assert_eq!(e.base_hi, 0x1122_3344);
    assert_eq!(e.sel, 0x28);
    assert_eq!(e.flags, 0x8E);
    assert_eq!(e.ist, 0);
    assert_eq!(e.always0, 0);
}

fn map() -> Vec<MemoryRegion> {
    vec![
        MemoryRegion { base: 0, length: 0x1000, usable: false },
        MemoryRegion { base: 0x1000, length: 0x8000, usable: true },
        MemoryRegion { base: 0x9000, length: 0x3000, usable: false },
        MemoryRegion { base: 0xC000, length: 0x4800, usable: true },
    ]
}

#[test]
fn pmm_init_frees_what_is_usable() {
    let mut memmap = map();
    let pmm = PhysicalMemoryManager::pmm_init(&mut memmap).unwrap();
    // 8 + 4 whole pages are usable; the highest ends at 0x10800
    assert_eq!(pmm.usable_pages, 12);
    assert_eq!(pmm.highest_page_idx, 0x10);
    assert_eq!(pmm.used_pages, 0);
    assert_eq!(pmm.bitmap.len(), 4096);
    // the first usable region gave up a page for the bitmap
    assert_eq!(memmap[1], MemoryRegion { base: 0x2000, length: 0x7000, usable: true });
    assert_eq!(memmap[3], map()[3]);
    let free: Vec<usize> = (0..0x12).filter(|p| !pmm.bitmap_test(*p)).collect();
    assert_eq!(free, vec![2, 3, 4, 5, 6, 7, 8, 0xC, 0xD, 0xE, 0xF]);
    assert_eq!(pmm.total_memory(), 12 * 4096);
    assert_eq!(pmm.used_memory(), 0);
    assert_eq!(pmm.usable_memory(), 12 * 4096);
}

#[test]
fn pmm_init_needs_room_for_the_bitmap() {
    let mut memmap = vec![MemoryRegion { base: 0x1000, length: 0x800, usable: true }];
    assert!(PhysicalMemoryManager::pmm_init(&mut memmap).is_none());
    assert_eq!(memmap[0].length, 0x800);
    let mut none: Vec<MemoryRegion> = vec![MemoryRegion { base: 0, length: 0x9000, usable: false }];
    assert!(PhysicalMemoryManager::pmm_init(&mut none).is_none());
}

#[test]
fn pmm_allocates_first_fit_from_where_it_stopped() {
    let mut memmap = map();
    let mut pmm = PhysicalMemoryManager::pmm_init(&mut memmap).unwrap();
    // free pages: 2..=8 and 0xC..=0xF
    assert_eq!(pmm.pmm_alloc_nozero(2).unwrap().addr(), 2 * PAGE_SIZE);
    assert_eq!(pmm.last_used_page_idx, 4);
    assert_eq!(pmm.pmm_alloc_nozero(4).unwrap().addr(), 4 * PAGE_SIZE);
    // one page is left of the first run; three do not fit there
    assert_eq!(pmm.pmm_alloc_nozero(3).unwrap().addr(), 0xC * PAGE_SIZE);
    assert_eq!(pmm.used_pages, 9);
    assert_eq!(pmm.used_memory(), 9 * 4096);
    assert_eq!(pmm.usable_memory(), 3 * 4096);
    // the search wraps round to the page that was passed over
    assert_eq!(pmm.pmm_alloc_nozero(1).unwrap().addr(), 0xF * PAGE_SIZE);
    assert_eq!(pmm.pmm_alloc_nozero(1).unwrap().addr(), 8 * PAGE_SIZE);
    assert!(pmm.pmm_alloc_nozero(1).is_none());
    assert!(pmm.pmm_alloc_nozero(0).is_none());
    assert_eq!(pmm.used_pages, 11);

    pmm.pmm_dealloc(PhysicalPtr::new(4 * PAGE_SIZE), 4);
    assert_eq!(pmm.used_pages, 7);
    assert!(!pmm.bitmap_test(4));
    assert!(!pmm.bitmap_test(7));
    assert!(pmm.bitmap_test(8));
    assert!(pmm.pmm_alloc_nozero(5).is_none());
    assert_eq!(pmm.pmm_alloc_nozero(4).unwrap().addr(), 4 * PAGE_SIZE);
}

#[test]
fn pmm_bitmap_bits() {
    let mut pmm = PhysicalMemoryManager::new();
    assert!(pmm.bitmap_test(0));
    pmm.bitmap = vec![0u8; 2];
    pmm.highest_page_idx = 16;
    assert!(!pmm.bitmap_test(9));
    pmm.bitmap_set(9);
    assert!(pmm.bitmap_test(9));
    assert_eq!(pmm.bitmap, vec![0, 0b10]);
    pmm.bitmap_set(0);
    pmm.bitmap_reset(9);
    assert_eq!(pmm.bitmap, vec![1, 0]);
    pmm.bitmap_set(16);
    pmm.bitmap_reset(16);
    assert!(pmm.bitmap_test(16));
    assert_eq!(pmm.bitmap, vec![1, 0]);
}

#[test]
fn free_list_keeps_the_order_of_addresses() {
    let mut heap = LinkedListAllocator::new();
    assert_eq!(heap.count_reginos(), 0);
    heap.add_free_region(0x3000, 0x100);
    heap.add_free_region(0x1000, 0x100);
    heap.add_free_region(0x2000, 0x100);
    assert_eq!(
        heap.regions,
        vec![MemNode::new(0x1000, 0x100), MemNode::new(0x2000, 0x100), MemNode::new(0x3000, 0x100)]
    );
    let mut buf = vec![(0usize, 0usize); 2];
    assert_eq!(heap.debug_regions(&mut buf), 2);
    assert_eq!(buf, vec![(0x1000, 0x1100), (0x2000, 0x2100)]);
    assert_eq!(heap.regions[0].addr(), 0x1000);
    assert_eq!(heap.regions[0].end_addr(), 0x1100);
    assert_eq!(heap.regions[0].len(), 0x100);
}

#[test]
fn free_list_joins_regions_that_touch() {
    let mut heap = LinkedListAllocator::new();
    heap.add_free_region(0x1000, 0x100);
    heap.add_free_region(0x1100, 0x100);
    heap.add_free_region(0x1200, 0x40);
    heap.add_free_region(0x2000, 0x100);
    heap.add_free_region(0x2100, 0x100);
    heap.coalesce_memory();
    assert_eq!(heap.regions, vec![MemNode::new(0x1000, 0x240), MemNode::new(0x2000, 0x200)]);
    heap.coalesce_memory();
    assert_eq!(heap.count_reginos(), 2);
}

#[test]
fn allocation_is_first_fit_and_splits() {
    let mut heap = LinkedListAllocator::new();
    heap.init(0x10000, 1);
    assert_eq!(heap.regions, vec![MemNode::new(0x10000, 4096)]);
    assert_eq!(heap.inner_alloc(24, 8), Some(0x10000));
    assert_eq!(heap.regions, vec![MemNode::new(0x10018, 4096 - 24)]);
    // sizes are rounded up to the alignment and to the least size
    assert_eq!(heap.inner_alloc(1, 1), Some(0x10018));
    assert_eq!(heap.regions, vec![MemNode::new(0x10028, 4096 - 40)]);
    assert_eq!(heap.inner_alloc(17, 16), None);
    assert_eq!(heap.inner_alloc(4096, 8), None);
    assert_eq!(heap.regions, vec![MemNode::new(0x10028, 4096 - 40)]);
    assert_eq!(LinkedListAllocator::size_align(1, 1), Some((16, 8)));
    assert_eq!(LinkedListAllocator::size_align(17, 16), Some((32, 16)));
    assert_eq!(LinkedListAllocator::size_align(0, 64), Some((16, 64)));
    assert_eq!(LinkedListAllocator::size_align(usize::MAX / 2, 8), None);

    assert!(heap.inner_dealloc(0x10000, 24, 8));
    assert_eq!(heap.regions, vec![MemNode::new(0x10000, 24), MemNode::new(0x10028, 4096 - 40)]);
    assert!(heap.inner_dealloc(0x10018, 1, 1));
    assert_eq!(heap.regions, vec![MemNode::new(0x10000, 4096)]);
}

#[test]
fn region_fits_only_with_nothing_or_enough_left() {
    let node = MemNode::new(0x1000, 64);
    assert_eq!(LinkedListAllocator::alloc_from_node(&node, 64, 8), Some(0x1000));
    assert_eq!(LinkedListAllocator::alloc_from_node(&node, 48, 8), Some(0x1000));
    assert_eq!(LinkedListAllocator::alloc_from_node(&node, 56, 8), None);
    assert_eq!(LinkedListAllocator::alloc_from_node(&node, 65, 8), None);
    let odd = MemNode::new(0x1008, 64);
    assert_eq!(LinkedListAllocator::alloc_from_node(&odd, 32, 16), None);
    assert_eq!(LinkedListAllocator::alloc_from_node(&odd, 32, 8), Some(0x1008));

    let mut heap = LinkedListAllocator::new();
    heap.add_free_region(0x1008, 64);
    heap.add_free_region(0x2000, 64);
    assert_eq!(heap.find_region(32, 16), Some(MemNode::new(0x2000, 64)));
    assert_eq!(heap.regions, vec![MemNode::new(0x1008, 64)]);
    assert_eq!(heap.find_region(128, 8), None);
}
