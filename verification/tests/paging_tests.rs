use ruel::address_space::{AddressSpace, MappingError, MappingLayer, PageMiss};
use ruel::page_arena::PageArena;
use ruel::paging::{
    align_down, align_up, page_align_down, page_align_up, PageTableEntry, PageTableIndex,
    PAGE_PRESENT, PAGE_USER_ACCESSIBLE, PAGE_WRITABLE,
};

fn fresh_space() -> AddressSpace<PageArena> {
    AddressSpace::new(PageArena::new(0x10_0000, 64)).expect("the arena has room for a root table")
}

#[test]
fn page_alignment() {
    assert_eq!(page_align_up(0), 0);
    assert_eq!(page_align_up(1), 0x1000);
    assert_eq!(page_align_up(0x1000), 0x1000);
    assert_eq!(page_align_up(0x1001), 0x2000);
    assert_eq!(page_align_down(0x1fff), 0x1000);
    assert_eq!(page_align_down(0x2000), 0x2000);
    assert_eq!(align_up(0x1234), 0x2000);
    assert_eq!(align_down(0x1234), 0x1000);
}

#[test]
fn break_virtual_address_levels() {
    let virt = (3u64 << 39) | (5u64 << 30) | (7u64 << 21) | (9u64 << 12) | 0x123;
    let idx = PageTableIndex::break_virtual_address(virt);
    assert_eq!(idx[0].index(), 9);
    assert_eq!(idx[1].index(), 7);
    assert_eq!(idx[2].index(), 5);
    assert_eq!(idx[3].index(), 3);
    assert_eq!(idx[4].index(), 0);
}

#[test]
fn page_table_entry_accessors() {
    let e = PageTableEntry::from_address(0x1234_5000);
    assert_eq!(e.address(), 0x1234_5000);
    assert!(!e.is_present());
    let e = e.union(PAGE_PRESENT | PAGE_WRITABLE);
    assert!(e.is_present());
    assert!(e.intersects(PAGE_WRITABLE));
    assert!(!e.intersects(PAGE_USER_ACCESSIBLE));
    assert_eq!(e.bits(), 0x1234_5003);
}

#[test]
fn map_then_translate() {
    let mut space = fresh_space();
    assert_eq!(space.translate(0x40_0000), None);
    space.map_4kib(0x40_0000, 0x20_0000, PAGE_WRITABLE).unwrap();
    assert_eq!(space.translate(0x40_0000), Some(0x20_0000));
    assert_eq!(space.translate(0x40_0abc), Some(0x20_0abc));
    assert_eq!(space.translate(0x40_1000), None);
}

#[test]
fn mapping_twice_is_refused() {
    let mut space = fresh_space();
    space.map_4kib(0x40_0000, 0x20_0000, PAGE_WRITABLE).unwrap();
    assert_eq!(space.map_4kib(0x40_0000, 0x30_0000, PAGE_WRITABLE), Err(MappingError::AlreadyMapped));
    assert_eq!(space.translate(0x40_0000), Some(0x20_0000));
}

#[test]
fn unmap_removes_the_page() {
    let mut space = fresh_space();
    space.map_4kib(0x40_0000, 0x20_0000, PAGE_WRITABLE).unwrap();
    space.unmap_4kib(0x40_0000).unwrap();
    assert_eq!(space.translate(0x40_0000), None);
    let miss = space.unmap_4kib(0x40_0000).unwrap_err();
    assert_eq!(miss, PageMiss { layer: MappingLayer::L1, mapping: false });
}

#[test]
fn misses_report_huge_pages_at_their_level() {
    let mut space = fresh_space();
    space.map_2mib(0x4000_0000, 0x8000_0000, PAGE_WRITABLE).unwrap();
    assert_eq!(
        space.get_4kib_entry(0x4000_1000),
        Err(PageMiss { layer: MappingLayer::L2, mapping: true })
    );
    assert_eq!(
        space.get_4kib_entry(0x4020_0000),
        Err(PageMiss { layer: MappingLayer::L2, mapping: false })
    );
    space.map_1gib(0x80_0000_0000, 0x4000_0000, 0).unwrap();
    assert_eq!(
        space.get_4kib_entry(0x80_0000_3000),
        Err(PageMiss { layer: MappingLayer::L3, mapping: true })
    );
    assert_eq!(
        space.get_4kib_entry(0x80_4000_0000),
        Err(PageMiss { layer: MappingLayer::L3, mapping: false })
    );
}

#[test]
fn unmap_range_stops_at_the_first_unmapped_page() {
    let mut space = fresh_space();
    space.map_range(0x40_0000, 0x20_0000, 0x2000, PAGE_WRITABLE).unwrap();
    space.map_4kib(0x40_3000, 0x30_0000, PAGE_WRITABLE).unwrap();
    let miss = space.unmap_range(0x40_0000, 0x4000).unwrap_err();
    assert_eq!(miss, PageMiss { layer: MappingLayer::L1, mapping: false });
    assert_eq!(space.translate(0x40_0000), None);
    assert_eq!(space.translate(0x40_1000), None);
    assert_eq!(space.translate(0x40_3000), Some(0x30_0000));
}

#[test]
fn unmapping_an_unmapped_page_misses_at_the_top() {
    let mut space = fresh_space();
    let miss = space.unmap_4kib(0x40_0000).unwrap_err();
    assert_eq!(miss.layer, MappingLayer::L4);
}

#[test]
fn huge_mappings() {
    let mut space = fresh_space();
    space.map_2mib(0x4000_0000, 0x8000_0000, PAGE_WRITABLE).unwrap();
    assert_eq!(space.map_4kib(0x4000_1000, 0x1000, 0), Err(MappingError::AlreadyMapped));
    space.map_1gib(0x80_0000_0000, 0x4000_0000, 0).unwrap();
    assert_eq!(space.map_2mib(0x80_0020_0000, 0, 0), Err(MappingError::AlreadyMapped));
}

#[test]
fn get_4kib_entry_locates_the_leaf() {
    let mut space = fresh_space();
    assert!(space.get_4kib_entry(0x40_0000).is_err());
    space.map_4kib(0x40_0000, 0x20_0000, PAGE_WRITABLE).unwrap();
    let loc = space.get_4kib_entry(0x40_0000).unwrap();
    assert_eq!(loc.index, 0);
}

#[test]
fn find_unmapped_range_skips_mapped_pages() {
    let mut space = fresh_space();
    assert_eq!(space.find_unmapped_range(0x1000), Some(0x1000));
    space.map_4kib(0x1000, 0x20_0000, 0).unwrap();
    space.map_4kib(0x2000, 0x20_1000, 0).unwrap();
    assert_eq!(space.find_unmapped_range(0x1000), Some(0x3000));
}

#[test]
fn find_unmapped_range_needs_the_whole_range_free() {
    let mut space = fresh_space();
    space.map_4kib(0x2000, 0x20_0000, 0).unwrap();
    assert_eq!(space.find_unmapped_range(0x1000), Some(0x1000));
    assert_eq!(space.find_unmapped_range(0x2000), Some(0x3000));
    space.map_2mib(0x20_0000, 0x40_0000, 0).unwrap();
    assert_eq!(space.find_unmapped_range(0x20_0000), Some(0x40_0000));
    assert_eq!(space.find_unmapped_range(0), Some(0x1000));
    assert_eq!(space.find_unmapped_range(0x8000_0000_0000), None);
}

#[test]
fn map_range_maps_each_page() {
    let mut space = fresh_space();
    space.map_range(0x40_0000, 0x90_0000, 0x3000, PAGE_WRITABLE).unwrap();
    assert_eq!(space.translate(0x40_0000), Some(0x90_0000));
    assert_eq!(space.translate(0x40_2fff), Some(0x90_2fff));
    assert_eq!(space.translate(0x40_3000), None);
    space.unmap_range(0x40_0000, 0x3000).unwrap();
    assert_eq!(space.translate(0x40_1000), None);
}

#[test]
fn allocate_range_hands_out_fresh_pages() {
    let mut space = fresh_space();
    let pages = space.allocate_range(0x50_0000, 0x2000, PAGE_USER_ACCESSIBLE).unwrap();
    assert_eq!(pages.len(), 2);
    assert_eq!(pages[0].0, 0x50_0000);
    assert_eq!(pages[1].0, 0x50_1000);
    assert_eq!(space.translate(0x50_1000), Some(pages[1].1));
    assert_ne!(pages[0].1, pages[1].1);
}

#[test]
fn running_out_of_pages() {
    let mut space = AddressSpace::new(PageArena::new(0x10_0000, 2)).unwrap();
    assert_eq!(space.map_4kib(0x40_0000, 0x20_0000, 0), Err(MappingError::OutOfMemory));
    assert_eq!(space.translate(0x40_0000), None);
}

#[test]
fn leaked_root_is_the_l4_table() {
    let space = fresh_space();
    let root = space.l4_table();
    assert_eq!(root, 0x10_0000);
    assert_eq!(space.leak(), root);
}

#[test]
fn an_arena_without_pages_gives_no_address_space() {
    assert!(AddressSpace::new(PageArena::new(0x10_0000, 0)).is_err());
    assert!(AddressSpace::new(PageArena::new(0x10_0000, 1)).is_ok());
}

#[test]
fn map_range_over_a_mapping_is_refused() {
    let mut space = fresh_space();
    space.map_4kib(0x40_3000, 0x30_0000, PAGE_WRITABLE).unwrap();
    assert_eq!(
        space.map_range(0x40_0000, 0x50_0000, 0x8000, PAGE_WRITABLE),
        Err(MappingError::AlreadyMapped)
    );
    assert_eq!(space.translate(0x40_2000), Some(0x50_2000));
    let mut small = AddressSpace::new(PageArena::new(0x10_0000, 2)).unwrap();
    assert_eq!(
        small.map_range(0x40_0000, 0x50_0000, 0x1000, PAGE_WRITABLE),
        Err(MappingError::OutOfMemory)
    );
}

#[test]
fn map_range_uses_the_largest_pages() {
    let mut space = fresh_space();
    space.map_range(0x20_0000, 0x20_0000, 0x20_1000, PAGE_WRITABLE).unwrap();
    assert_eq!(
        space.get_4kib_entry(0x20_0000),
        Err(PageMiss { layer: MappingLayer::L2, mapping: true })
    );
    assert!(space.get_4kib_entry(0x40_0000).is_ok());
    assert_eq!(space.translate(0x40_0123), Some(0x40_0123));
    assert_eq!(space.translate(0x40_1000), None);
    space.map_range(0x4000_0000, 0x4000_0000, 0x4020_0000, PAGE_WRITABLE).unwrap();
    assert_eq!(
        space.get_4kib_entry(0x4000_0000),
        Err(PageMiss { layer: MappingLayer::L3, mapping: true })
    );
    assert_eq!(
        space.get_4kib_entry(0x8000_0000),
        Err(PageMiss { layer: MappingLayer::L2, mapping: true })
    );
}

#[test]
fn map_1gib_allocates_one_table() {
    let mut space = AddressSpace::new(PageArena::new(0x10_0000, 2)).unwrap();
    space.map_1gib(0x80_0000_0000, 0x4000_0000, PAGE_WRITABLE).unwrap();
    space.map_1gib(0x80_4000_0000, 0x8000_0000, PAGE_WRITABLE).unwrap();
    assert_eq!(
        space.get_4kib_entry(0x80_4000_0000),
        Err(PageMiss { layer: MappingLayer::L3, mapping: true })
    );
    assert_eq!(
        space.map_1gib(0x100_0000_0000, 0x4000_0000, PAGE_WRITABLE),
        Err(MappingError::OutOfMemory)
    );
}
