use kernel::arch::x86_64::paging::{
    directory_address, is_1gib_page_supported, leaf_entry, table_index, PageSize, PageTableEntry,
};
use kernel::libs::limine::get_module;
use kernel::mem::vmm::{get_next_level, high_window, page_sizes, NextLevel, VMM_FLAG_FB};

#[test]
fn address_is_split_into_table_indices() {
    let address: usize = (0x1A5 << 48) | (0x0F3 << 39) | (0x1FF << 30) | (0x001 << 21) | (0x155 << 12) | 0xABC;
    assert_eq!(table_index(address, 5), 0x1A5);
    assert_eq!(table_index(address, 4), 0x0F3);
    assert_eq!(table_index(address, 3), 0x1FF);
    assert_eq!(table_index(address, 2), 0x001);
    assert_eq!(table_index(address, 1), 0x155);
    assert_eq!(table_index(0xFFFF_8000_0000_0000, 4), 256);
    assert_eq!(table_index(usize::MAX, 5), 0x1FF);
    assert_eq!(table_index(0, 1), 0);
}

#[test]
fn pages_have_three_sizes() {
    assert_eq!(PageSize::Size4KiB.bytes(), 4096);
    assert_eq!(PageSize::Size2MiB.bytes(), 2 * 1024 * 1024);
    assert_eq!(PageSize::Size1GiB.bytes(), 1024 * 1024 * 1024);
    let sizes: Vec<u64> = (0..5).map(page_sizes).collect();
    assert_eq!(sizes, vec![1 << 12, 1 << 21, 1 << 30, 1 << 39, 1 << 48]);
}

fn entry_bits(entry: PageTableEntry) -> u64 {
    let shown = format!("{:?}", entry);
    shown["PageTableEntry(".len()..shown.len() - 1].parse().unwrap()
}

#[test]
fn mapping_entries() {
    assert_eq!(entry_bits(leaf_entry(0x4000_0000, 0x02, PageSize::Size1GiB)), 0x4000_0000 | 0x83);
    assert_eq!(entry_bits(leaf_entry(0x20_0000, 0x02, PageSize::Size2MiB)), 0x20_0000 | 0x83);
    assert_eq!(entry_bits(leaf_entry(0x5000, 0x02, PageSize::Size4KiB)), 0x5000 | 0x03);
    assert_eq!(entry_bits(leaf_entry(0x5000, 0, PageSize::Size4KiB)), 0x5000 | 0x01);
    // The memory type of the frame buffer: bit 12 for a large page, bit 7 for a small one.
    assert_eq!(
        entry_bits(leaf_entry(0x8000_0000, VMM_FLAG_FB, PageSize::Size2MiB)),
        0x8000_0000 | 0x1089
    );
    assert_eq!(
        entry_bits(leaf_entry(0x8000_0000, VMM_FLAG_FB, PageSize::Size4KiB)),
        0x8000_0000 | 0x89
    );
    assert_eq!(
        entry_bits(leaf_entry(0x5000, 1 << 63, PageSize::Size4KiB)),
        0x5000 | (1 << 63) | 1
    );
}

#[test]
fn large_pages_need_the_processor() {
    assert!(is_1gib_page_supported(1 << 26));
    assert!(is_1gib_page_supported(u32::MAX));
    assert!(!is_1gib_page_supported(!(1 << 26)));
    assert!(!is_1gib_page_supported(0));
}

#[test]
fn root_table_is_named_by_its_physical_address() {
    let kernel = 0xFFFF_FFFF_8000_0000usize;
    let hhdm = 0xFFFF_8000_0000_0000usize;
    assert_eq!(directory_address(kernel + 0x1000, kernel, hhdm), 0x1000);
    assert_eq!(directory_address(hhdm + 0x7000, kernel, hhdm), 0x7000);
    assert_eq!(directory_address(0x9000, kernel, hhdm), 0x9000);
    assert_eq!(directory_address(kernel, kernel, hhdm), kernel - hhdm);
    assert_eq!(directory_address(hhdm, kernel, hhdm), hhdm);
}

#[test]
fn next_table_is_found_made_or_split_off() {
    let table = PageTableEntry::new(0x0012_3000, 0x07);
    assert_eq!(
        get_next_level(&table, 0xFFFF_8000_0000_0000, PageSize::Size4KiB, 3),
        NextLevel::Existing { table: 0x0012_3000 }
    );
    let nx_table = PageTableEntry::new(0x0012_3000, (1 << 63) | 0x07);
    assert_eq!(
        get_next_level(&nx_table, 0, PageSize::Size4KiB, 1),
        NextLevel::Existing { table: 0x0012_3000 }
    );
    let empty = PageTableEntry::new(0, 0);
    assert_eq!(get_next_level(&empty, 0x1000, PageSize::Size4KiB, 2), NextLevel::Fresh);
    // Not valid, whatever else it holds.
    let stale = PageTableEntry::new(0x0012_3000, 0x86);
    assert_eq!(get_next_level(&stale, 0x1000, PageSize::Size4KiB, 2), NextLevel::Fresh);
    let large = PageTableEntry::new(0x4000_0000, (1 << 63) | 0x87);
    assert_eq!(
        get_next_level(&large, 0x4123_4567, PageSize::Size2MiB, 2),
        NextLevel::Split {
            old_flags: (1 << 63) | 0x02,
            old_phys: 0x4000_0000,
            old_virt: 0x4000_0000,
            old_page_size: 0x4000_0000,
            new_page_size: 0x20_0000,
        }
    );
    let large = PageTableEntry::new(0x0060_0000, 0x81);
    assert_eq!(
        get_next_level(&large, 0xFFFF_8000_0073_4567, PageSize::Size4KiB, 1),
        NextLevel::Split {
            old_flags: 0,
            old_phys: 0x0060_0000,
            old_virt: 0xFFFF_8000_0060_0000,
            old_page_size: 0x20_0000,
            new_page_size: 0x1000,
        }
    );
    // A large page where there can be none.
    assert_eq!(get_next_level(&large, 0, PageSize::Size4KiB, 0), NextLevel::Unexpected);
    assert_eq!(get_next_level(&large, 0, PageSize::Size4KiB, 4), NextLevel::Unexpected);
    // A large page that does not begin at a multiple of its size.
    assert_eq!(get_next_level(&large, 0, PageSize::Size4KiB, 2), NextLevel::Unexpected);
}

#[test]
fn memory_above_four_gigabytes_is_mapped_in_large_pages() {
    const GIB: u64 = 1 << 30;
    assert_eq!(high_window(0, 4 * GIB), None);
    assert_eq!(high_window(0x1000, 1000), None);
    assert_eq!(high_window(0, 4 * GIB + 1), Some((4 * GIB, GIB)));
    assert_eq!(high_window(5 * GIB + 5, 10), Some((5 * GIB, GIB)));
    assert_eq!(high_window(5 * GIB, 2 * GIB), Some((5 * GIB, 2 * GIB)));
    assert_eq!(high_window(5 * GIB - 1, 2 * GIB + 2), Some((4 * GIB, 4 * GIB)));
    assert_eq!(high_window(5 * GIB, 0), None);
    assert_eq!(high_window(u64::MAX, u64::MAX), None);
    assert_eq!(high_window(u64::MAX - GIB, 2), None);
    assert_eq!(
        high_window(0xFFFF_FFFF_0000_0000, 0x8000_0000),
        Some((0xFFFF_FFFF_0000_0000, 0x8000_0000))
    );
}

#[test]
fn module_is_found_by_a_part_of_its_path() {
    let paths = vec![
        b"/boot/initramfs.img".to_vec(),
        b"/boot/font.psf".to_vec(),
        b"/boot/\xFFinitramfs.img".to_vec(),
        b"/boot/old/initramfs.img.bak".to_vec(),
        b"/boot/symbols".to_vec(),
    ];
    assert_eq!(get_module(&paths, "initramfs.img"), Some(3));
    assert_eq!(get_module(&paths, "font"), Some(1));
    assert_eq!(get_module(&paths, "/boot/"), Some(4));
    assert_eq!(get_module(&paths, ""), Some(4));
    assert_eq!(get_module(&paths, "kernel"), None);
    assert_eq!(get_module(&paths, "INITRAMFS"), None);
    assert_eq!(get_module(&Vec::new(), "initramfs.img"), None);
    assert_eq!(get_module(&vec![b"\xFF".to_vec()], ""), None);
}
