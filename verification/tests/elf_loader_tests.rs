use ruel::address_space::AddressSpace;
use ruel::elf::{header_at, program_headers_at, Elf, Error, PT_GNU_STACK, PT_LOAD, PT_NULL};
use ruel::init_process::{
    check_header, check_segment, load, load_any, load_at, phdr_to_page_flags, FileType, LoadError,
    STACK_LAST_PAGE, STACK_POS, STACK_SIZE,
};
use ruel::page_arena::PageArena;

fn put16(b: &mut [u8], off: usize, v: u16) {
    b[off..off + 2].copy_from_slice(&v.to_le_bytes());
}
fn put32(b: &mut [u8], off: usize, v: u32) {
    b[off..off + 4].copy_from_slice(&v.to_le_bytes());
}
fn put64(b: &mut [u8], off: usize, v: u64) {
    b[off..off + 8].copy_from_slice(&v.to_le_bytes());
}

struct Seg {
    ty: u32,
    flags: u32,
    offset: u64,
    vaddr: u64,
    filesz: u64,
    memsz: u64,
    align: u64,
}

fn load_seg(offset: u64, vaddr: u64, filesz: u64, memsz: u64) -> Seg {
    Seg { ty: PT_LOAD, flags: 5, offset, vaddr, filesz, memsz, align: 0x1000 }
}

/// An executable with the provided segments, whose bytes past the headers count up from 1.
fn elf_file(entry: u64, segs: &[Seg], size: usize) -> Vec<u8> {
    let mut b = vec![0u8; size];
    b[0..4].copy_from_slice(&[0x7f, 0x45, 0x4c, 0x46]);
    b[4] = 2;
    b[5] = 1;
    b[6] = 1;
    b[7] = 0;
    put16(&mut b, 16, 2);
    put16(&mut b, 18, 0x3e);
    put32(&mut b, 20, 1);
    put64(&mut b, 24, entry);
    put64(&mut b, 32, 64);
    put16(&mut b, 52, 64);
    put16(&mut b, 54, 56);
    put16(&mut b, 56, segs.len() as u16);
    let end = 64 + 56 * segs.len();
    for (i, s) in segs.iter().enumerate() {
        let o = 64 + 56 * i;
        put32(&mut b, o, s.ty);
        put32(&mut b, o + 4, s.flags);
        put64(&mut b, o + 8, s.offset);
        put64(&mut b, o + 16, s.vaddr);
        put64(&mut b, o + 24, s.vaddr);
        put64(&mut b, o + 32, s.filesz);
        put64(&mut b, o + 40, s.memsz);
        put64(&mut b, o + 48, s.align);
    }
    for (k, byte) in b.iter_mut().enumerate().skip(end) {
        *byte = (k % 251) as u8 + 1;
    }
    b
}

fn space() -> AddressSpace<PageArena> {
    AddressSpace::new(PageArena::new(0x100_0000, 128)).unwrap()
}

#[test]
fn parses_the_header() {
    let f = elf_file(0x40_1000, &[load_seg(0x1000, 0x40_1000, 0x20, 0x30)], 0x1020);
    let h = header_at(&f, 0).unwrap();
    assert_eq!(h.magic, [0x7f, 0x45, 0x4c, 0x46]);
    assert_eq!(h.class, 2);
    assert_eq!(h.entry_point, 0x40_1000);
    assert_eq!(h.phnum, 1);
    assert_eq!(header_at(&f, 4), Err(Error::MisalignedHdr));
    assert_eq!(header_at(&f[..63], 0), Err(Error::HdrOutsideFile));
}

#[test]
fn parses_the_program_headers() {
    let f = elf_file(0x40_1000, &[load_seg(0x1000, 0x40_1000, 0x20, 0x30)], 0x1020);
    let p = program_headers_at(&f, 0).unwrap();
    assert_eq!(p.len(), 1);
    assert_eq!(p[0].ty, PT_LOAD);
    assert_eq!(p[0].vaddr, 0x40_1000);
    assert_eq!(p[0].memsz, 0x30);
    let elf = Elf::new(&f);
    if let Ok(h) = elf.header() {
        assert_eq!(h.phoff, 64);
    }
}

#[test]
fn program_header_errors() {
    let mut f = elf_file(0x40_1000, &[load_seg(0x1000, 0x40_1000, 0x20, 0x30)], 0x1020);
    put16(&mut f, 54, 32);
    assert_eq!(program_headers_at(&f, 0).unwrap_err(), Error::InvalidPhdrSize);
    let mut f = elf_file(0x40_1000, &[load_seg(0x1000, 0x40_1000, 0x20, 0x30)], 0x1020);
    put64(&mut f, 32, 68);
    assert_eq!(program_headers_at(&f, 0).unwrap_err(), Error::MisalignedPhdrs);
    let mut f = elf_file(0x40_1000, &[load_seg(0x1000, 0x40_1000, 0x20, 0x30)], 0x1020);
    put64(&mut f, 32, 0x2000);
    assert_eq!(program_headers_at(&f, 0).unwrap_err(), Error::PhdrsOutsideFile);
}

#[test]
fn program_header_table_ends_after_its_last_entry() {
    let segs = [load_seg(0x1000, 0x40_1000, 0, 0x30), load_seg(0x1000, 0x40_2000, 0, 0x30)];
    let f = elf_file(0x40_1000, &segs, 200);
    let phdrs = program_headers_at(&f, 0).unwrap();
    assert_eq!(phdrs.len(), 2);
    assert_eq!(phdrs[1].vaddr, 0x40_2000);
    let f = elf_file(0x40_1000, &segs, 176);
    assert_eq!(program_headers_at(&f, 0).unwrap().len(), 2);
    assert_eq!(program_headers_at(&f[..175], 0).unwrap_err(), Error::PhdrsOutsideFile);
}

#[test]
fn file_types() {
    assert_eq!(FileType::of(&[0x7f, 0x45, 0x4c, 0x46, 2]), FileType::Elf);
    assert_eq!(FileType::of(&[0x7f, 0x45, 0x4c]), FileType::Unknown);
    assert_eq!(FileType::of(b"MZ\x90\x00"), FileType::Unknown);
}

#[test]
fn header_checks() {
    let f = elf_file(0x40_1000, &[], 0x100);
    let mut h = header_at(&f, 0).unwrap();
    assert_eq!(check_header(&h), Ok(()));
    h.class = 1;
    assert_eq!(check_header(&h), Err(LoadError::NotElf64));
    let mut h = header_at(&f, 0).unwrap();
    h.ty = 3;
    assert_eq!(check_header(&h), Err(LoadError::PositionIndependent));
    h.ty = 1;
    assert_eq!(check_header(&h), Err(LoadError::NotExecutable));
    let mut h = header_at(&f, 0).unwrap();
    h.machine = 3;
    assert_eq!(check_header(&h), Err(LoadError::WrongMachine));
    let mut h = header_at(&f, 0).unwrap();
    h.entry_point = 0;
    assert_eq!(check_header(&h), Err(LoadError::NoEntryPoint));
    let mut h = header_at(&f, 0).unwrap();
    h.data_encoding = 2;
    assert_eq!(check_header(&h), Err(LoadError::WrongEndianness));
}

#[test]
fn segment_checks() {
    let f = elf_file(1, &[load_seg(0x1000, 0x40_1000, 0x20, 0x30)], 0x1020);
    let p = program_headers_at(&f, 0).unwrap();
    assert_eq!(check_segment(&p[0], f.len()), Ok(()));
    let mut s = p[0];
    s.align = 8;
    assert_eq!(check_segment(&s, f.len()), Err(LoadError::SegmentAlignment));
    let mut s = p[0];
    s.vaddr += 4;
    assert_eq!(check_segment(&s, f.len()), Err(LoadError::SegmentOffsetMismatch));
    let mut s = p[0];
    s.filesz = 0x40;
    assert_eq!(check_segment(&s, f.len()), Err(LoadError::SegmentFileLargerThanMemory));
    let mut s = p[0];
    s.filesz = 0x30;
    assert_eq!(check_segment(&s, f.len()), Err(LoadError::SegmentOutsideFile));
    let mut s = p[0];
    s.offset = u64::MAX;
    assert_eq!(check_segment(&s, f.len()), Err(LoadError::SegmentOffsetMismatch));
    let mut s = p[0];
    s.vaddr = 0xFFFF_FFFF_FFFF_F000;
    s.offset = 0;
    s.filesz = 0;
    assert_eq!(check_segment(&s, f.len()), Err(LoadError::SegmentOutOfRange));
}

#[test]
fn page_flags_of_segments() {
    assert_eq!(phdr_to_page_flags(4), 0x4);
    assert_eq!(phdr_to_page_flags(6), 0x6);
    assert_eq!(phdr_to_page_flags(2), 0x6);
}

#[test]
fn loads_a_program() {
    let f = elf_file(0x40_1000, &[load_seg(0x1000, 0x40_1000, 0x20, 0x30)], 0x1020);
    let mut s = space();
    let img = load_any(&f, b"hi", &mut s).unwrap();
    assert_eq!(img.registers.rip, 0x40_1000);
    assert_eq!(img.registers.rdi, 0x7FFF_FFFF_EFFD);
    assert_eq!(img.registers.rsp, 0x7FFF_FFFF_EFF0);
    assert_eq!(img.registers.rbp, 0x7FFF_FFFF_EFF0);
    assert_eq!(img.writes.len(), 2);
    let w = &img.writes[0];
    assert_eq!(w.virt, 0x40_1000);
    assert_eq!(w.offset, 0);
    assert_eq!(w.data.len(), 0x30);
    assert_eq!(&w.data[..0x20], &f[0x1000..0x1020]);
    assert!(w.data[0x20..].iter().all(|&b| b == 0));
    assert_eq!(s.translate(0x40_1000), Some(w.phys));
    let c = &img.writes[1];
    assert_eq!(c.virt, STACK_LAST_PAGE);
    assert_eq!(c.offset, 0xFFD);
    assert_eq!(c.data, vec![b'h', b'i', 0]);
    assert_eq!(s.translate(STACK_LAST_PAGE), Some(c.phys));
    let mut page = STACK_POS;
    while page < STACK_POS + STACK_SIZE {
        assert!(s.get_4kib_entry(page).is_ok());
        page += 0x1000;
    }
    assert!(s.translate(STACK_POS - 0x1000).is_none());
}

#[test]
fn segment_spanning_pages() {
    let f = elf_file(0x40_1010, &[load_seg(0x1010, 0x40_1010, 0x10, 0x1000)], 0x1020);
    let mut s = space();
    let img = load(&f, b"", &mut s).unwrap();
    assert_eq!(img.writes.len(), 3);
    assert_eq!(img.writes[0].virt, 0x40_1000);
    assert_eq!(img.writes[0].offset, 0x10);
    assert_eq!(img.writes[0].data.len(), 0xFF0);
    assert_eq!(&img.writes[0].data[..0x10], &f[0x1010..0x1020]);
    assert!(img.writes[0].data[0x10..].iter().all(|&b| b == 0));
    assert_eq!(img.writes[1].virt, 0x40_2000);
    assert_eq!(img.writes[1].offset, 0);
    assert_eq!(img.writes[1].data, vec![0u8; 0x10]);
    assert_eq!(img.writes[2].data, vec![0]);
}

#[test]
fn load_errors() {
    let mut s = space();
    assert_eq!(load_any(b"not an executable", b"", &mut s).unwrap_err(), LoadError::UnknownFileType);
    let f = elf_file(0, &[], 0x100);
    assert_eq!(load(&f, b"", &mut s).unwrap_err(), LoadError::NoEntryPoint);
    let stack = Seg { ty: PT_GNU_STACK, flags: 6, offset: 0, vaddr: 0, filesz: 0, memsz: 0, align: 16 };
    let stack2 = Seg { ty: PT_GNU_STACK, flags: 6, offset: 0, vaddr: 0, filesz: 0, memsz: 0, align: 16 };
    let f = elf_file(0x40_1000, &[stack, stack2], 0x1000);
    assert_eq!(load(&f, b"", &mut s).unwrap_err(), LoadError::MultipleStackSegments);
    let null = Seg { ty: PT_NULL, flags: 0, offset: 0, vaddr: 0, filesz: 0, memsz: 0, align: 0 };
    let f = elf_file(0x40_1000, &[null], 0x1000);
    let long = vec![b'a'; 4095];
    assert_eq!(load(&f, &long, &mut s).unwrap_err(), LoadError::CommandLineTooLong);
    let f = elf_file(0x40_1000, &[load_seg(0x1000, 0x40_1000, 0x20, 0x30)], 0x1020);
    let mut s = space();
    load(&f, b"", &mut s).unwrap();
    assert!(matches!(load(&f, b"", &mut s).unwrap_err(), LoadError::Mapping(_)));
    assert_eq!(load(&f[..10], b"", &mut s).unwrap_err(), LoadError::Parse(Error::HdrOutsideFile));
}

#[test]
fn loading_at_an_address() {
    let f = elf_file(0x40_1000, &[load_seg(0x1000, 0x40_1000, 0x20, 0x30)], 0x1020);
    let mut s = space();
    assert_eq!(load_at(&f, 4, b"", &mut s).unwrap_err(), LoadError::Parse(Error::MisalignedHdr));
    let img = load_at(&f, 8, b"init", &mut s).unwrap();
    assert_eq!(img.registers.rip, 0x40_1000);
}
