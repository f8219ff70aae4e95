use ruel::address_space::MappingError;
use ruel::boot::{
    basename, create_kernel_address_space, find_init_program, find_largest_usable_segment,
    find_memory_upper_bound, initialize_global_allocator, keeps_framebuffer, parse_framebuffer,
    parse_framebuffers,
    validate_and_find_usable_segments, MemmapError, HHDM_OFFSET,
};
use ruel::limine::{LimineFramebuffer, MemmapEntry, MemmapType};
use ruel::page_arena::PageArena;
use ruel::sys::{FORMAT_BGR24, FORMAT_BGR32, FORMAT_RGB32};

fn entry(base: u64, length: u64, ty: u32) -> MemmapEntry {
    MemmapEntry { base, length, ty: MemmapType(ty) }
}

#[test]
fn merges_adjacent_usable_segments() {
    let map = [
        entry(0, 0x1000, 1),
        entry(0x1000, 0x2000, 0),
        entry(0x3000, 0x1000, 5),
        entry(0x5000, 0x1000, 0),
    ];
    let u = validate_and_find_usable_segments(&map).unwrap();
    assert_eq!(u.segments, vec![entry(0x1000, 0x3000, 0), entry(0x5000, 0x1000, 0)]);
    assert!(!u.too_many_segments);
    assert_eq!(u.total_usable_memory, 0x4000);
}

#[test]
fn keeps_at_most_eight_segments() {
    let map: Vec<MemmapEntry> = (0..10).map(|i| entry(i * 0x2000, 0x1000, 0)).collect();
    let u = validate_and_find_usable_segments(&map).unwrap();
    assert_eq!(u.segments.len(), 8);
    assert!(u.too_many_segments);
    assert_eq!(u.total_usable_memory, 10 * 0x1000);
    assert_eq!(u.segments[7], entry(0xE000, 0x1000, 0));
}

#[test]
fn memory_map_errors() {
    let unsorted = [entry(0x2000, 0x1000, 1), entry(0x1000, 0x1000, 1)];
    assert_eq!(validate_and_find_usable_segments(&unsorted).unwrap_err(), MemmapError::NotSorted);
    let empty = [entry(0x1000, 0, 1)];
    assert_eq!(validate_and_find_usable_segments(&empty).unwrap_err(), MemmapError::EmptyEntry);
    let misaligned = [entry(0x1004, 0x1000, 0)];
    assert_eq!(validate_and_find_usable_segments(&misaligned).unwrap_err(), MemmapError::MisalignedUsable);
    let overlap = [entry(0, 0x2000, 1), entry(0x1000, 0x1000, 0)];
    assert_eq!(validate_and_find_usable_segments(&overlap).unwrap_err(), MemmapError::OverlappingUsable);
    let misaligned_reserved = [entry(0x1004, 0x10, 1)];
    assert!(validate_and_find_usable_segments(&misaligned_reserved).is_ok());
}

#[test]
fn largest_usable_segment_is_the_last_of_the_longest() {
    let map = [
        entry(0, 0x4000, 0),
        entry(0x10000, 0x8000, 1),
        entry(0x20000, 0x4000, 0),
        entry(0x30000, 0x2000, 5),
    ];
    assert_eq!(find_largest_usable_segment(&map), entry(0x20000, 0x4000, 0));
}

#[test]
fn memory_upper_bound() {
    let map = [entry(0, 0x4000, 0), entry(0x10000, 0x8000, 5), entry(0x40000, 0x1000, 1)];
    assert_eq!(find_memory_upper_bound(&map), 0x18000);
}

#[test]
fn basenames() {
    assert_eq!(basename(b"boot:///modules/alibert"), b"alibert");
    assert_eq!(basename(b"alibert"), b"alibert");
    assert_eq!(basename(b"dir/"), b"");
}

#[test]
fn finds_the_init_program() {
    let paths = vec![b"/boot/readme".to_vec(), b"/boot/alibert".to_vec(), b"alibert".to_vec()];
    assert_eq!(find_init_program(&paths), Some(1));
    let paths = vec![b"/boot/alibertx".to_vec()];
    assert_eq!(find_init_program(&paths), None);
}

fn fb(bpp: u16, red_shift: u8, blue_shift: u8) -> LimineFramebuffer {
    LimineFramebuffer {
        address: 0xFFFF_8000_FD00_0000,
        width: 1024,
        height: 768,
        pitch: 4096,
        bpp,
        memory_model: 1,
        red_mask_size: 8,
        red_mask_shift: red_shift,
        green_mask_size: 8,
        green_mask_shift: 8,
        blue_mask_size: 8,
        blue_mask_shift: blue_shift,
    }
}

#[test]
fn parses_framebuffers() {
    let f = parse_framebuffer(&fb(32, 16, 0), 0xFFFF_8000_0000_0000).unwrap();
    assert_eq!(f.format.0, FORMAT_BGR32);
    assert_eq!(f.address, HHDM_OFFSET + 0xFD00_0000);
    assert_eq!((f.width, f.height, f.bytes_per_lines), (1024, 768, 4096));
    assert_eq!(parse_framebuffer(&fb(32, 0, 16), 0xFFFF_8000_0000_0000).unwrap().format.0, FORMAT_RGB32);
    assert_eq!(parse_framebuffer(&fb(24, 16, 0), 0xFFFF_8000_0000_0000).unwrap().format.0, FORMAT_BGR24);
    assert!(parse_framebuffer(&fb(16, 16, 0), 0xFFFF_8000_0000_0000).is_none());
    let mut big = fb(32, 16, 0);
    big.width = 1 << 32;
    assert!(parse_framebuffer(&big, 0xFFFF_8000_0000_0000).is_none());
}

#[test]
fn keeps_at_most_four_framebuffers() {
    let all = vec![fb(32, 16, 0), fb(16, 0, 0), fb(32, 0, 16), fb(24, 16, 0), fb(24, 0, 16), fb(32, 16, 0)];
    let (kept, dropped) = parse_framebuffers(&all, 0xFFFF_8000_0000_0000);
    assert_eq!(kept.len(), 4);
    assert!(dropped);
    let (kept, dropped) = parse_framebuffers(&all[..3], 0xFFFF_8000_0000_0000);
    assert_eq!(kept.len(), 2);
    assert!(!dropped);
}

#[test]
fn free_pages_skip_the_bootstrap_range() {
    let usable = [entry(0x1000, 0x3000, 0), entry(0x10000, 0x2000, 0)];
    let pages = initialize_global_allocator(&usable, 0x2000, 0x3000);
    assert_eq!(pages, vec![0x1000, 0x3000, 0x10000, 0x11000]);
}

#[test]
fn kernel_address_space() {
    let arena = PageArena::new(0x100_0000, 64);
    let space = create_kernel_address_space(
        arena,
        0x20_0000,
        0x10_0000,
        0xFFFF_FFFF_8000_0000,
        0xFFFF_FFFF_8000_3000,
    );
    let space = match space {
        Ok(space) => space,
        Err(_) => panic!("the kernel address space could not be built"),
    };
    assert_eq!(space.translate(HHDM_OFFSET + 0x5123), Some(0x5123));
    assert_eq!(space.translate(0xFFFF_FFFF_8000_1234), Some(0x20_1234));
    assert_eq!(space.translate(0xFFFF_FFFF_8000_3000), None);
}

#[test]
fn kernel_address_space_failures() {
    let none = create_kernel_address_space(PageArena::new(0x100_0000, 0), 0x20_0000, 0x10_0000, 0xFFFF_FFFF_8000_0000, 0xFFFF_FFFF_8000_3000);
    assert!(matches!(none, Err((MappingError::OutOfMemory, None))));
    let small = create_kernel_address_space(PageArena::new(0x100_0000, 2), 0x20_0000, 0x10_0000, 0xFFFF_FFFF_8000_0000, 0xFFFF_FFFF_8000_3000);
    assert!(matches!(small, Err((MappingError::OutOfMemory, Some(_)))));
    let overlap = create_kernel_address_space(PageArena::new(0x100_0000, 64), 0x20_0000, 0x10_0000, HHDM_OFFSET + 0x4000, HHDM_OFFSET + 0x6000);
    assert!(matches!(overlap, Err((MappingError::AlreadyMapped, Some(_)))));
}

#[test]
fn kernel_next_to_the_direct_map_is_mapped() {
    let space = create_kernel_address_space(PageArena::new(0x100_0000, 64), 0x20_0000, 0x10_0000, HHDM_OFFSET + 0x10_0000, HHDM_OFFSET + 0x10_3000);
    let space = match space {
        Ok(space) => space,
        Err(_) => panic!("a kernel next to the direct map does not meet it"),
    };
    assert_eq!(space.translate(HHDM_OFFSET + 0xF_F123), Some(0xF_F123));
    assert_eq!(space.translate(HHDM_OFFSET + 0x10_1234), Some(0x20_1234));
}

#[test]
fn usable_entries_overlap_no_other_entry() {
    let next = [entry(0x1000, 0x2000, 0), entry(0x2000, 0x1000, 1)];
    assert_eq!(validate_and_find_usable_segments(&next).unwrap_err(), MemmapError::OverlappingUsable);
    let earlier = [entry(0, 0x10000, 1), entry(0x1000, 0x1000, 1), entry(0x3000, 0x1000, 0)];
    assert_eq!(validate_and_find_usable_segments(&earlier).unwrap_err(), MemmapError::OverlappingUsable);
    let reserved_overlap = [entry(0, 0x2000, 1), entry(0x1000, 0x2000, 2)];
    assert!(validate_and_find_usable_segments(&reserved_overlap).is_ok());
    let touching = [entry(0x1000, 0x1000, 0), entry(0x2000, 0x1000, 1), entry(0x3000, 0x1000, 5)];
    assert!(validate_and_find_usable_segments(&touching).is_ok());
}

#[test]
fn unsupported_framebuffers_are_dropped_whatever_their_address() {
    let mut odd = fb(16, 16, 0);
    odd.address = 0x1000;
    assert!(!keeps_framebuffer(&odd));
    assert_eq!(parse_framebuffer(&odd, 0xFFFF_8000_0000_0000), None);
    assert!(keeps_framebuffer(&fb(24, 0, 16)));
    let (kept, dropped) = parse_framebuffers(&[odd, fb(24, 16, 0)], 0xFFFF_8000_0000_0000);
    assert_eq!(kept.len(), 1);
    assert_eq!(kept[0].format.0, FORMAT_BGR24);
    assert!(!dropped);
}
