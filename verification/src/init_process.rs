//! Loading the init process from its file into a fresh address space.
//!
//! The loader checks the file, maps the pages of its segments and of its stack, and says what
//! must be written in each of them. The bytes themselves are copied by the caller, which is the
//! one that can reach physical memory.
use vstd::prelude::*;
use crate::arch::{PhysAddr, VirtAddr};
use crate::paging::{
    FOUR_KIB, PAGE_PRESENT, PAGE_WRITABLE, PAGE_USER_ACCESSIBLE, PAGE_NO_EXECUTE, mapping_flags,
    page_align_up, page_align_down,
};
use crate::address_space::{
    AddressSpace, AddressSpaceContext, Mapping, MappingError, USERLAND_STOP, same_4kib,
    same_half_range, lemma_block, lemma_flags_kept,
};
use crate::elf::{
    Ehdr, Error, Phdr, ehdr_of, program_headers_spec, header_spec, header_at, program_headers_at,
    slice_address, EHDR_ALIGN, CLASS_ELF64, DATA_NATIVE,
    VERSION_CURRENT, OS_ABI_SYSV, TYPE_DYN, TYPE_EXEC, MACHINE_X86_64, PT_NULL, PT_PHDR,
    PT_GNU_STACK, PT_LOAD, PF_WRITABLE, EHDR_SIZE,
};

verus! {

/// A possible file type, used to determine how to load the file into memory.
#[derive(Debug, Clone, Copy, PartialEq, Eq, Structural)]
pub enum FileType {
    /// The type of the file is unknown.
    Unknown,
    /// The file is an ELF file.
    Elf,
}

/// Whether a file starts with the ELF magic number.
pub open spec fn has_elf_magic(file: Seq<u8>) -> bool {
    file.len() >= 4 && file[0] == 0x7f && file[1] == 0x45 && file[2] == 0x4c && file[3] == 0x46
}

impl FileType {
    /// Attempts to determine the type of the provided file.
    pub fn of(file: &[u8]) -> (r: Self)
        ensures
            r == (if has_elf_magic(file@) {
                FileType::Elf
            } else {
                FileType::Unknown
            }),
    {
        if file.len() >= 4 && file[0] == 0x7f && file[1] == 0x45 && file[2] == 0x4c && file[3]
            == 0x46 {
            FileType::Elf
        } else {
            FileType::Unknown
        }
    }
}

/// Why the init process could not be loaded.
#[derive(Debug, Clone, Copy, PartialEq, Eq, Structural)]
pub enum LoadError {
    /// The type of the file could not be determined.
    UnknownFileType,
    /// The file is not a valid ELF file.
    Parse(Error),
    /// The file is not a 64-bit ELF file.
    NotElf64,
    /// The file does not have the endianness of the machine.
    WrongEndianness,
    /// The file does not have the current ELF version.
    WrongElfVersion,
    /// The file does not target the System V ABI.
    WrongOsAbi,
    /// The file is a position-independent executable, which is not supported.
    PositionIndependent,
    /// The file is not an executable.
    NotExecutable,
    /// The file is not an x86_64 executable.
    WrongMachine,
    /// The file specifies no entry point.
    NoEntryPoint,
    /// The file has more than one `GNU_STACK` segment.
    MultipleStackSegments,
    /// A segment is not aligned to 4KiB.
    SegmentAlignment,
    /// The virtual address and the file offset of a segment are not aligned the same way.
    SegmentOffsetMismatch,
    /// The file size of a segment is larger than its memory size.
    SegmentFileLargerThanMemory,
    /// A segment extends past the end of the file.
    SegmentOutsideFile,
    /// A segment extends past the end of the address space.
    SegmentOutOfRange,
    /// The command line does not fit in the page that receives it.
    CommandLineTooLong,
    /// The memory of the process could not be mapped.
    Mapping(MappingError),
}

/// The verdict of the sanity checks on the header of the init process.
pub open spec fn header_check(h: Ehdr) -> Result<(), LoadError> {
    if h.class != CLASS_ELF64 {
        Err(LoadError::NotElf64)
    } else if h.data_encoding != DATA_NATIVE {
        Err(LoadError::WrongEndianness)
    } else if h.elf_version != VERSION_CURRENT {
        Err(LoadError::WrongElfVersion)
    } else if h.os_abi != OS_ABI_SYSV {
        Err(LoadError::WrongOsAbi)
    } else if h.ty == TYPE_DYN {
        Err(LoadError::PositionIndependent)
    } else if h.ty != TYPE_EXEC {
        Err(LoadError::NotExecutable)
    } else if h.machine != MACHINE_X86_64 {
        Err(LoadError::WrongMachine)
    } else if h.entry_point == 0 {
        Err(LoadError::NoEntryPoint)
    } else {
        Ok(())
    }
}

/// Runs the sanity checks on the header of the init process, in order.
pub fn check_header(h: &Ehdr) -> (r: Result<(), LoadError>)
    ensures
        r == header_check(*h),
{
    if h.class != CLASS_ELF64 {
        Err(LoadError::NotElf64)
    } else if h.data_encoding != DATA_NATIVE {
        Err(LoadError::WrongEndianness)
    } else if h.elf_version != VERSION_CURRENT {
        Err(LoadError::WrongElfVersion)
    } else if h.os_abi != OS_ABI_SYSV {
        Err(LoadError::WrongOsAbi)
    } else if h.ty == TYPE_DYN {
        Err(LoadError::PositionIndependent)
    } else if h.ty != TYPE_EXEC {
        Err(LoadError::NotExecutable)
    } else if h.machine != MACHINE_X86_64 {
        Err(LoadError::WrongMachine)
    } else if h.entry_point == 0 {
        Err(LoadError::NoEntryPoint)
    } else {
        Ok(())
    }
}

/// The page table flags of a segment with the provided ELF flags: always accessible from
/// userland, writable when the segment is.
pub open spec fn segment_page_flags(flags: u32) -> u64 {
    if flags & PF_WRITABLE != 0 {
        PAGE_USER_ACCESSIBLE | PAGE_WRITABLE
    } else {
        PAGE_USER_ACCESSIBLE
    }
}

/// The pages of a segment are writable exactly when its ELF flags have the write bit (bit 1),
/// always accessible from userland, and nothing else: the execute (bit 0) and read (bit 2) bits
/// of the segment play no part.
pub proof fn lemma_segment_pages_writable_iff_segment_writable(flags: u32)
    ensures
        (segment_page_flags(flags) & 0x2u64 != 0) == (flags & 0x2u32 != 0),
        segment_page_flags(flags) & 0x4u64 != 0,
        segment_page_flags(flags) & !0x6u64 == 0,
        segment_page_flags(flags) == segment_page_flags(flags & 0x2u32),
{
    assert({
        let f = flags;
        let w = f & 0x2u32;
        let p = if f & 2u32 != 0 {
            4u64 | 2u64
        } else {
            4u64
        };
        let q = if w & 2u32 != 0 {
            4u64 | 2u64
        } else {
            4u64
        };
        &&& (p & 0x2u64 != 0) == (f & 0x2u32 != 0)
        &&& p & 0x4u64 != 0
        &&& p & !0x6u64 == 0
        &&& p == q
    }) by (bit_vector);
}

/// Converts an ELF program header flags to page table flags.
///
/// Segments are readable whatever their flags say.
pub fn phdr_to_page_flags(flags: u32) -> (r: u64)
    ensures
        r == segment_page_flags(flags),
        mapping_flags(r),
        (r & 0x2u64 != 0) == (flags & 0x2u32 != 0),
        r & 0x4u64 != 0,
        r & !0x6u64 == 0,
{
    proof {
        lemma_segment_pages_writable_iff_segment_writable(flags);
    }
    let mut out: u64 = PAGE_USER_ACCESSIBLE;
    if flags & PF_WRITABLE != 0 {
        out = out | PAGE_WRITABLE;
    }
    assert(mapping_flags(PAGE_USER_ACCESSIBLE)) by (bit_vector);
    assert(mapping_flags(PAGE_USER_ACCESSIBLE | PAGE_WRITABLE)) by (bit_vector);
    out
}

/// The first address past the memory of a segment.
pub open spec fn segment_end(s: Phdr) -> int {
    s.vaddr + s.memsz
}

/// The start of the first page of a segment.
pub open spec fn segment_page_start(s: Phdr) -> int {
    s.vaddr - s.vaddr % 4096
}

/// The end of the last page of a segment.
pub open spec fn segment_page_end(s: Phdr) -> int {
    if segment_end(s) % 4096 == 0 {
        segment_end(s)
    } else {
        segment_end(s) - segment_end(s) % 4096 + 4096
    }
}

/// The verdict of the checks on a loadable segment of a file of `file_len` bytes.
pub open spec fn segment_check(s: Phdr, file_len: nat) -> Result<(), LoadError> {
    if s.align != FOUR_KIB {
        Err(LoadError::SegmentAlignment)
    } else if s.vaddr % 4096 != s.offset % 4096 {
        Err(LoadError::SegmentOffsetMismatch)
    } else if s.filesz > s.memsz {
        Err(LoadError::SegmentFileLargerThanMemory)
    } else if s.offset + s.filesz > file_len {
        Err(LoadError::SegmentOutsideFile)
    } else if segment_end(s) + 0xFFF > u64::MAX {
        Err(LoadError::SegmentOutOfRange)
    } else {
        Ok(())
    }
}

/// Runs the checks on a loadable segment, in order.
///
/// A segment whose end, rounded up to a page, does not fit in the address space is refused.
pub fn check_segment(s: &Phdr, file_len: usize) -> (r: Result<(), LoadError>)
    ensures
        r == segment_check(*s, file_len as nat),
{
    if s.align != FOUR_KIB {
        return Err(LoadError::SegmentAlignment);
    }
    let a: u64 = s.vaddr;
    let b: u64 = s.offset;
    if a & 0xFFF != b & 0xFFF {
        assert(a & 0xFFF != b & 0xFFF ==> a % 4096 != b % 4096) by (bit_vector);
        return Err(LoadError::SegmentOffsetMismatch);
    }
    assert(a & 0xFFF == b & 0xFFF ==> a % 4096 == b % 4096) by (bit_vector);
    if s.filesz > s.memsz {
        return Err(LoadError::SegmentFileLargerThanMemory);
    }
    match s.offset.checked_add(s.filesz) {
        None => {
            return Err(LoadError::SegmentOutsideFile);
        },
        Some(file_end) => {
            if file_end > file_len as u64 {
                return Err(LoadError::SegmentOutsideFile);
            }
        },
    }
    match s.vaddr.checked_add(s.memsz) {
        None => Err(LoadError::SegmentOutOfRange),
        Some(end) => {
            if end > u64::MAX - 0xFFF {
                Err(LoadError::SegmentOutOfRange)
            } else {
                Ok(())
            }
        },
    }
}

/// A range of bytes to write into a page of the loaded process.
#[derive(Debug)]
pub struct PageWrite {
    /// The virtual address of the page.
    pub virt: VirtAddr,
    /// The physical page that backs it.
    pub phys: PhysAddr,
    /// Where the bytes go within the page.
    pub offset: u64,
    /// The bytes to write.
    pub data: Vec<u8>,
}

/// The byte that a loaded segment holds at the address `a` of its memory: the byte of the file
/// where the file provides one, zero past the file size.
pub open spec fn segment_byte(file: Seq<u8>, s: Phdr, a: int) -> u8 {
    if a - s.vaddr < s.filesz {
        file[s.offset + (a - s.vaddr)]
    } else {
        0
    }
}

/// The first address of the page at `virt` that belongs to the segment.
pub open spec fn overlap_start(s: Phdr, virt: int) -> int {
    if s.vaddr > virt {
        s.vaddr as int
    } else {
        virt
    }
}

/// The first address past the page at `virt` and past the segment.
pub open spec fn overlap_end(s: Phdr, virt: int) -> int {
    if segment_end(s) < virt + 4096 {
        segment_end(s)
    } else {
        virt + 4096
    }
}

/// Whether a write fills the page at its address with the part of the segment that lies there.
pub open spec fn fills_segment_page(file: Seq<u8>, s: Phdr, w: PageWrite) -> bool {
    &&& w.virt % 4096 == 0
    &&& segment_page_start(s) <= w.virt < segment_page_end(s)
    &&& w.offset == overlap_start(s, w.virt as int) - w.virt
    &&& w.data@.len() == overlap_end(s, w.virt as int) - overlap_start(s, w.virt as int)
    &&& forall|k: int|
        0 <= k < w.data@.len() ==> #[trigger] w.data@[k] == segment_byte(
            file,
            s,
            overlap_start(s, w.virt as int) + k,
        )
}

/// Whether one of the writes fills the page at `v` with the part of the segment that lies there.
pub open spec fn writes_page(file: Seq<u8>, writes: Seq<PageWrite>, s: Phdr, v: int) -> bool {
    exists|k: int|
        0 <= k < writes.len() && writes[k].virt == v && #[trigger] fills_segment_page(
            file,
            s,
            writes[k],
        )
}

/// Whether the writes fill every page of the segment.
pub open spec fn covers_segment(file: Seq<u8>, writes: Seq<PageWrite>, s: Phdr) -> bool {
    forall|v: int|
        segment_page_start(s) <= v < segment_page_end(s) && v % 4096 == 0 ==> #[trigger] writes_page(
            file,
            writes,
            s,
            v,
        )
}

/// Covering a segment survives appending more writes.
proof fn lemma_covers_append(file: Seq<u8>, a: Seq<PageWrite>, b: Seq<PageWrite>, s: Phdr)
    requires
        covers_segment(file, a, s),
    ensures
        covers_segment(file, a + b, s),
{
    assert forall|v: int|
        segment_page_start(s) <= v < segment_page_end(s) && v % 4096 == 0 implies #[trigger] writes_page(
            file,
            a + b,
            s,
            v,
        ) by {
        assert(writes_page(file, a, s, v));
        let k = choose|k: int|
            0 <= k < a.len() && a[k].virt == v && #[trigger] fills_segment_page(file, s, a[k]);
        assert((a + b)[k] == a[k]);
    }
}

/// Writes for every page of a segment, in order, cover it, wherever they stand.
proof fn lemma_covers_pages(file: Seq<u8>, a: Seq<PageWrite>, w: Seq<PageWrite>, s: Phdr)
    requires
        segment_page_start(s) % 4096 == 0,
        w.len() * 4096 == segment_page_end(s) - segment_page_start(s),
        forall|i: int|
            0 <= i < w.len() ==> fills_segment_page(file, s, #[trigger] w[i]) && w[i].virt
                == segment_page_start(s) + i * 4096,
    ensures
        covers_segment(file, a + w, s),
{
    assert forall|v: int|
        segment_page_start(s) <= v < segment_page_end(s) && v % 4096 == 0 implies #[trigger] writes_page(
            file,
            a + w,
            s,
            v,
        ) by {
        let st = segment_page_start(s);
        let k = (v - st) / 4096;
        assert(k * 4096 == v - st && 0 <= k < w.len()) by (nonlinear_arith)
            requires
                st <= v,
                (v - st) % 4096 == 0,
                k == (v - st) / 4096,
                v < st + w.len() * 4096,
        ;
        assert((a + w)[a.len() + k] == w[k]);
        assert(fills_segment_page(file, s, (a + w)[a.len() + k]));
    }
}

/// Computes what must be written in the page at `virt`, backed by `phys`, of a checked segment.
fn fill_segment_page(file: &[u8], s: &Phdr, virt: VirtAddr, phys: PhysAddr) -> (r: PageWrite)
    requires
        segment_check(*s, file@.len()) is Ok,
        virt % 4096 == 0,
        segment_page_start(*s) <= virt < segment_page_end(*s),
    ensures
        fills_segment_page(file@, *s, r),
        r.virt == virt,
        r.phys == phys,
{
    assert(file@.len() == file.len());
    let seg_end: u64 = s.vaddr + s.memsz;
    let start: u64 = if s.vaddr > virt {
        s.vaddr
    } else {
        virt
    };
    let end: u64 = if seg_end < virt + FOUR_KIB {
        seg_end
    } else {
        virt + FOUR_KIB
    };
    let mut data: Vec<u8> = Vec::new();
    if start < end {
        let mut a: u64 = start;
        while a < end
            invariant
                start <= a <= end,
                start == overlap_start(*s, virt as int),
                end == overlap_end(*s, virt as int),
                end <= seg_end,
                seg_end == segment_end(*s),
                s.vaddr <= start,
                segment_check(*s, file@.len()) is Ok,
                file@.len() == file.len(),
                data@.len() == a - start,
                forall|k: int|
                    0 <= k < data@.len() ==> #[trigger] data@[k] == segment_byte(
                        file@,
                        *s,
                        start + k,
                    ),
            decreases end - a,
        {
            let rel: u64 = a - s.vaddr;
            let byte: u8 = if rel < s.filesz {
                file[(s.offset + rel) as usize]
            } else {
                0
            };
            data.push(byte);
            a = a + 1;
        }
    }
    PageWrite { virt, phys, offset: start - virt, data }
}

/// Computes what must be written in each page of a checked segment, given the pages that back
/// it, in order.
pub fn fill_segment(file: &[u8], s: &Phdr, pages: &Vec<(VirtAddr, PhysAddr)>) -> (r: Vec<
    PageWrite,
>)
    requires
        segment_check(*s, file@.len()) is Ok,
        pages@.len() * 4096 == segment_page_end(*s) - segment_page_start(*s),
        forall|i: int|
            0 <= i < pages@.len() ==> (#[trigger] pages@[i]).0 == segment_page_start(*s) + i
                * 4096,
    ensures
        r@.len() == pages@.len(),
        forall|i: int|
            0 <= i < r@.len() ==> fills_segment_page(file@, *s, #[trigger] r@[i]) && r@[i].virt
                == pages@[i].0 && r@[i].phys == pages@[i].1,
{
    let mut out: Vec<PageWrite> = Vec::new();
    let mut i: usize = 0;
    while i < pages.len()
        invariant
            0 <= i <= pages@.len(),
            segment_check(*s, file@.len()) is Ok,
            pages@.len() * 4096 == segment_page_end(*s) - segment_page_start(*s),
            forall|j: int|
                0 <= j < pages@.len() ==> (#[trigger] pages@[j]).0 == segment_page_start(*s) + j
                    * 4096,
            out@.len() == i,
            forall|j: int|
                0 <= j < i ==> fills_segment_page(file@, *s, #[trigger] out@[j]) && out@[j].virt
                    == pages@[j].0 && out@[j].phys == pages@[j].1,
        decreases pages@.len() - i,
    {
        let (virt, phys) = pages[i];
        proof {
            assert(pages@[i as int].0 == segment_page_start(*s) + i * 4096);
            assert(segment_page_start(*s) % 4096 == 0);
            assert((i + 1) * 4096 <= pages@.len() * 4096) by (nonlinear_arith)
                requires
                    i < pages@.len(),
            ;
            assert(virt % 4096 == 0) by (nonlinear_arith)
                requires
                    virt == segment_page_start(*s) + i * 4096,
                    segment_page_start(*s) % 4096 == 0,
            ;
        }
        let w = fill_segment_page(file, s, virt, phys);
        out.push(w);
        i = i + 1;
    }
    out
}

/// The size of the stack of the init process.
pub const STACK_SIZE: u64 = 0x8000;
/// The lowest address of the stack of the init process: below it, a guard page is left
/// unmapped up to the end of the user half.
pub const STACK_POS: VirtAddr = 0x0000_7FFF_FFFF_7000;
/// The address of the last page of the stack, which receives the command line.
pub const STACK_LAST_PAGE: VirtAddr = 0x0000_7FFF_FFFF_E000;
/// The flags of the stack when the file does not specify them.
pub const DEFAULT_STACK_FLAGS: u64 = 0x8000_0000_0000_0006;

/// The address at which the command line (and its terminating zero) is copied.
pub open spec fn command_line_start(len: nat) -> int {
    STACK_POS + STACK_SIZE - len - 1
}

/// The registers that the init process starts with.
#[derive(Debug, Clone, Copy, PartialEq, Eq, Structural)]
pub struct InitRegisters {
    /// The instruction pointer: the entry point of the program.
    pub rip: u64,
    /// The stack pointer.
    pub rsp: u64,
    /// The frame pointer.
    pub rbp: u64,
    /// The first argument: the address of the command line.
    pub rdi: u64,
}

/// The result of loading the init process.
#[derive(Debug)]
pub struct LoadedImage {
    /// The registers the process starts with.
    pub registers: InitRegisters,
    /// The bytes to copy into the pages of the process, segment by segment, the command line
    /// last.
    pub writes: Vec<PageWrite>,
}

/// The registers of a process with the provided entry point and command line length.
pub open spec fn start_registers(entry: u64, cmdline_len: nat) -> InitRegisters {
    let start = command_line_start(cmdline_len) as u64;
    InitRegisters { rip: entry, rsp: start & !0xFu64, rbp: start & !0xFu64, rdi: start }
}

/// Whether a write copies the command line, followed by a zero, just below the top of the stack.
pub open spec fn fills_command_line(cmdline: Seq<u8>, w: PageWrite) -> bool {
    &&& w.virt == STACK_LAST_PAGE
    &&& w.offset == command_line_start(cmdline.len()) - STACK_LAST_PAGE
    &&& w.data@ == cmdline.push(0u8)
}

/// The write of the command line into the last page of the stack, backed by `phys`.
fn fill_command_line(cmdline: &[u8], phys: PhysAddr) -> (r: PageWrite)
    requires
        cmdline@.len() + 1 < 4096,
    ensures
        fills_command_line(cmdline@, r),
        r.phys == phys,
{
    let mut data: Vec<u8> = Vec::new();
    let mut i: usize = 0;
    while i < cmdline.len()
        invariant
            i <= cmdline@.len(),
            data@ == cmdline@.subrange(0, i as int),
        decreases cmdline@.len() - i,
    {
        data.push(cmdline[i]);
        i = i + 1;
        assert(data@ =~= cmdline@.subrange(0, i as int));
    }
    data.push(0);
    assert(data@ =~= cmdline@.push(0u8));
    let start: u64 = STACK_POS + STACK_SIZE - cmdline.len() as u64 - 1;
    PageWrite { virt: STACK_LAST_PAGE, phys, offset: start - STACK_LAST_PAGE, data }
}

/// The first stack segment's flags, if the file has one.
pub open spec fn stack_segment(phdrs: Seq<Phdr>, upto: int) -> Option<Phdr>
    decreases upto,
{
    if upto <= 0 {
        None
    } else {
        match stack_segment(phdrs, upto - 1) {
            Some(s) => Some(s),
            None => if phdrs[upto - 1].ty == PT_GNU_STACK {
                Some(phdrs[upto - 1])
            } else {
                None
            },
        }
    }
}

/// Whether a page that was written is mapped to the physical page of the write, with the
/// provided flags.
pub open spec fn mapped_as_written<C: AddressSpaceContext>(
    space: AddressSpace<C>,
    w: PageWrite,
    flags: u64,
) -> bool {
    space.mapping(w.virt) == Some(Mapping::Page4KiB(w.phys | flags | PAGE_PRESENT))
}

/// Whether a write fills a page of a loadable segment among `phdrs`, and that page is mapped to
/// the physical page of the write with the flags of the segment.
pub open spec fn written_and_mapped<C: AddressSpaceContext>(
    space: AddressSpace<C>,
    file: Seq<u8>,
    phdrs: Seq<Phdr>,
    w: PageWrite,
) -> bool {
    exists|j: int|
        0 <= j < phdrs.len() && (#[trigger] phdrs[j]).ty == PT_LOAD && fills_segment_page(
            file,
            phdrs[j],
            w,
        ) && mapped_as_written(space, w, segment_page_flags(phdrs[j].flags))
}

/// Whether `k` lies in one of the pages of a segment.
pub open spec fn in_segment_pages(s: Phdr, k: int) -> bool {
    segment_page_start(s) <= k < segment_page_end(s)
}

/// Whether the pages of a segment lie in a single 256TiB block.
pub open spec fn segment_pages_same_half(s: Phdr) -> bool {
    same_half_range(
        segment_page_start(s) as u64,
        (segment_page_end(s) - segment_page_start(s)) as u64,
    )
}

/// Checks a loadable segment, maps its pages in `space` and computes what must be written in
/// them.
#[verifier::spinoff_prover]
#[verifier::rlimit(30)]
pub fn load_segment<C: AddressSpaceContext>(
    segment: &Phdr,
    file: &[u8],
    space: &mut AddressSpace<C>,
) -> (r: Result<Vec<PageWrite>, LoadError>)
    requires
        old(space).wf(),
    ensures
        final(space).wf(),
        final(space).root_table() == old(space).root_table(),
        segment_check(*segment, file@.len()) is Err ==> r == Err::<Vec<PageWrite>, LoadError>(
            segment_check(*segment, file@.len())->Err_0,
        ),
        segment_check(*segment, file@.len()) is Err ==> *final(space) == *old(space),
        match r {
            Ok(w) => {
                &&& segment_check(*segment, file@.len()) is Ok
                &&& w@.len() * 4096 == segment_page_end(*segment) - segment_page_start(*segment)
                &&& forall|i: int|
                    0 <= i < w@.len() ==> fills_segment_page(file@, *segment, #[trigger] w@[i])
                        && w@[i].virt == segment_page_start(*segment) + i * 4096
                &&& forall|i: int|
                    0 <= i < w@.len() ==> mapped_as_written(
                        *final(space),
                        #[trigger] w@[i],
                        segment_page_flags(segment.flags),
                    ) && old(space).mapping(w@[i].virt) is None
                &&& forall|v: u64|
                    (forall|i: int| 0 <= i < w@.len() ==> !same_4kib(#[trigger] w@[i].virt, v))
                        ==> #[trigger] final(space).mapping(v) == old(space).mapping(v)
            },
            Err(e) => segment_check(*segment, file@.len()) is Ok ==> e is Mapping,
        },
        r == Err::<Vec<PageWrite>, LoadError>(LoadError::Mapping(MappingError::OutOfMemory))
            ==> final(space).out_of_memory(),
        r == Err::<Vec<PageWrite>, LoadError>(LoadError::Mapping(MappingError::AlreadyMapped))
            && segment_pages_same_half(*segment) ==> exists|k: VirtAddr|
            #[trigger] in_segment_pages(*segment, k as int) && old(space).mapping(k) is Some,
{
    assert(file@.len() == file.len());
    match check_segment(segment, file.len()) {
        Ok(()) => {},
        Err(e) => {
            return Err(e);
        },
    }
    let flags = phdr_to_page_flags(segment.flags);
    let page_start = page_align_down(segment.vaddr);
    let page_end = page_align_up(segment.vaddr + segment.memsz);
    let pages = match space.allocate_range(page_start, page_end - page_start, flags) {
        Ok(p) => p,
        Err(e) => {
            proof {
                assert(page_start == segment_page_start(*segment));
                assert(page_end == segment_page_end(*segment));
                if e == MappingError::AlreadyMapped && segment_pages_same_half(*segment) {
                    let k = choose|k: VirtAddr|
                        page_start <= k < page_start + (page_end - page_start) && #[trigger] old(
                            space,
                        ).mapping(k) is Some;
                    assert(in_segment_pages(*segment, k as int));
                }
            }
            return Err(LoadError::Mapping(e));
        },
    };
    proof {
        assert(page_start == segment_page_start(*segment));
        assert(page_end == segment_page_end(*segment));
    }
    let w = fill_segment(file, segment, &pages);
    proof {
        assert forall|v: u64|
            (forall|i: int| 0 <= i < w@.len() ==> !same_4kib(#[trigger] w@[i].virt, v))
                implies #[trigger] space.mapping(v) == old(space).mapping(v) by {
            assert forall|i: int| 0 <= i < pages@.len() implies !same_4kib(
                #[trigger] pages@[i].0,
                v,
            ) by {
                assert(w@[i].virt == pages@[i].0);
            }
        }
    }
    Ok(w)
}

/// Whether a write fills a page of one of the loadable segments among `phdrs`.
pub open spec fn from_some_segment(file: Seq<u8>, phdrs: Seq<Phdr>, w: PageWrite) -> bool {
    exists|j: int|
        0 <= j < phdrs.len() && (#[trigger] phdrs[j]).ty == PT_LOAD && fills_segment_page(
            file,
            phdrs[j],
            w,
        )
}

/// What the checks find wrong with the program header at `i`, given those before it: a second
/// `GNU_STACK` segment, or a loadable segment that fails its checks.
pub open spec fn header_error(file_len: nat, phdrs: Seq<Phdr>, i: int) -> Option<LoadError> {
    if phdrs[i].ty == PT_GNU_STACK && stack_segment(phdrs, i) is Some {
        Some(LoadError::MultipleStackSegments)
    } else if phdrs[i].ty == PT_LOAD && segment_check(phdrs[i], file_len) is Err {
        Some(segment_check(phdrs[i], file_len)->Err_0)
    } else {
        None
    }
}

/// The first error that the checks find among the first `upto` program headers.
pub open spec fn first_header_error(file_len: nat, phdrs: Seq<Phdr>, upto: int) -> Option<
    LoadError,
>
    decreases upto,
{
    if upto <= 0 {
        None
    } else {
        match first_header_error(file_len, phdrs, upto - 1) {
            Some(e) => Some(e),
            None => header_error(file_len, phdrs, upto - 1),
        }
    }
}

/// No check of the program headers reports a file of unknown type.
proof fn lemma_header_error_known_type(file_len: nat, phdrs: Seq<Phdr>, upto: int)
    ensures
        first_header_error(file_len, phdrs, upto) != Some(LoadError::UnknownFileType),
    decreases upto,
{
    if upto > 0 {
        lemma_header_error_known_type(file_len, phdrs, upto - 1);
    }
}

/// Once found, the first error stays the first one, however many headers follow.
proof fn lemma_first_header_error_stays(file_len: nat, phdrs: Seq<Phdr>, a: int, b: int)
    requires
        0 <= a <= b,
        first_header_error(file_len, phdrs, a) is Some,
    ensures
        first_header_error(file_len, phdrs, b) == first_header_error(file_len, phdrs, a),
    decreases b - a,
{
    if a < b {
        lemma_first_header_error_stays(file_len, phdrs, a, b - 1);
    }
}

/// The checks of the program headers never report a parsing error.
proof fn lemma_first_header_error_not_parse(file_len: nat, phdrs: Seq<Phdr>, upto: int)
    ensures
        first_header_error(file_len, phdrs, upto) matches Some(e) ==> !(e is Parse),
    decreases upto,
{
    if upto > 0 {
        lemma_first_header_error_not_parse(file_len, phdrs, upto - 1);
    }
}

/// Whether a page of a loadable segment before the one at `i` is also the page of `k`.
pub open spec fn overlaps_earlier(phdrs: Seq<Phdr>, i: int, k: VirtAddr) -> bool {
    exists|j: int, p: VirtAddr|
        0 <= j < i && phdrs[j].ty == PT_LOAD && #[trigger] in_segment_pages(phdrs[j], p as int)
            && same_4kib(p, k)
}

/// Whether `v` lies in the pages of a loadable segment before the one at `i`.
pub open spec fn in_earlier_segment(phdrs: Seq<Phdr>, i: int, v: VirtAddr) -> bool {
    exists|j: int|
        0 <= j < i && phdrs[j].ty == PT_LOAD && #[trigger] in_segment_pages(phdrs[j], v as int)
}

/// Every write lies in the pages of a loadable segment before the one at `i`.
#[verifier::opaque]
pub open spec fn writes_in_earlier(phdrs: Seq<Phdr>, i: int, writes: Seq<PageWrite>) -> bool {
    forall|m: int| 0 <= m < writes.len() ==> in_earlier_segment(phdrs, i, #[trigger] writes[m].virt)
}

/// `s` maps like `o` every address that shares no page with one of the writes.
#[verifier::opaque]
pub open spec fn same_outside_writes<C: AddressSpaceContext>(
    s: AddressSpace<C>,
    o: AddressSpace<C>,
    writes: Seq<PageWrite>,
) -> bool {
    forall|v: VirtAddr|
        (forall|m: int| 0 <= m < writes.len() ==> !same_4kib(#[trigger] writes[m].virt, v))
            ==> #[trigger] s.mapping(v) == o.mapping(v)
}

/// The writes of the segments before `i` also lie before `i + 1`.
proof fn lemma_writes_in_earlier_next(phdrs: Seq<Phdr>, i: int, writes: Seq<PageWrite>)
    requires
        writes_in_earlier(phdrs, i, writes),
    ensures
        writes_in_earlier(phdrs, i + 1, writes),
{
    reveal(writes_in_earlier);
    assert forall|m: int| 0 <= m < writes.len() implies in_earlier_segment(
        phdrs,
        i + 1,
        #[trigger] writes[m].virt,
    ) by {
        assert(in_earlier_segment(phdrs, i, writes[m].virt));
        let j = choose|j: int|
            0 <= j < i && phdrs[j].ty == PT_LOAD && #[trigger] in_segment_pages(
                phdrs[j],
                writes[m].virt as int,
            );
        assert(in_segment_pages(phdrs[j], writes[m].virt as int));
    }
}

/// Adding the writes of the loadable segment at `i` keeps the writes before `i + 1`.
proof fn lemma_writes_in_earlier_append(
    phdrs: Seq<Phdr>,
    i: int,
    before: Seq<PageWrite>,
    added: Seq<PageWrite>,
)
    requires
        0 <= i < phdrs.len(),
        phdrs[i].ty == PT_LOAD,
        writes_in_earlier(phdrs, i, before),
        forall|k: int| 0 <= k < added.len() ==> in_segment_pages(phdrs[i], #[trigger] added[k].virt as int),
    ensures
        writes_in_earlier(phdrs, i + 1, before + added),
{
    lemma_writes_in_earlier_next(phdrs, i, before);
    reveal(writes_in_earlier);
    let all = before + added;
    assert forall|m: int| 0 <= m < all.len() implies in_earlier_segment(
        phdrs,
        i + 1,
        #[trigger] all[m].virt,
    ) by {
        if m < before.len() {
            assert(all[m] == before[m]);
        } else {
            assert(all[m] == added[m - before.len()]);
            assert(in_segment_pages(phdrs[i], all[m].virt as int));
        }
    }
}

/// Mapping the pages of more writes keeps the other addresses as they were.
proof fn lemma_same_outside_append<C: AddressSpaceContext>(
    after: AddressSpace<C>,
    before_s: AddressSpace<C>,
    o: AddressSpace<C>,
    before: Seq<PageWrite>,
    added: Seq<PageWrite>,
)
    requires
        same_outside_writes(before_s, o, before),
        forall|v: VirtAddr|
            (forall|i: int| 0 <= i < added.len() ==> !same_4kib(#[trigger] added[i].virt, v))
                ==> #[trigger] after.mapping(v) == before_s.mapping(v),
    ensures
        same_outside_writes(after, o, before + added),
{
    reveal(same_outside_writes);
    let all = before + added;
    assert forall|v: VirtAddr|
        (forall|m: int| 0 <= m < all.len() ==> !same_4kib(#[trigger] all[m].virt, v)) implies #[trigger] after.mapping(
        v,
    ) == o.mapping(v) by {
        assert forall|m: int| 0 <= m < before.len() implies !same_4kib(#[trigger] before[m].virt, v) by {
            assert(all[m] == before[m]);
        }
        assert forall|k: int| 0 <= k < added.len() implies !same_4kib(#[trigger] added[k].virt, v) by {
            assert(all[before.len() + k] == added[k]);
        }
    }
}

/// An address that is mapped now but was not at the start shares a page with a write, so with
/// an earlier loadable segment.
proof fn lemma_overlap_witness<C: AddressSpaceContext>(
    phdrs: Seq<Phdr>,
    i: int,
    writes: Seq<PageWrite>,
    s: AddressSpace<C>,
    o: AddressSpace<C>,
    k: VirtAddr,
)
    requires
        writes_in_earlier(phdrs, i, writes),
        same_outside_writes(s, o, writes),
        s.mapping(k) is Some,
        o.mapping(k) is None,
    ensures
        overlaps_earlier(phdrs, i, k),
{
    reveal(writes_in_earlier);
    reveal(same_outside_writes);
    let m = choose|m: int| 0 <= m < writes.len() && same_4kib(#[trigger] writes[m].virt, k);
    let v = writes[m].virt;
    assert(in_earlier_segment(phdrs, i, v));
    let j = choose|j: int| 0 <= j < i && phdrs[j].ty == PT_LOAD && #[trigger] in_segment_pages(phdrs[j], v as int);
    assert(in_segment_pages(phdrs[j], v as int) && same_4kib(v, k));
}

/// Whether some loadable segment, within a single 256TiB block, has a page that was mapped in
/// `s` or that shares a page with an earlier loadable segment.
pub open spec fn segments_conflict<C: AddressSpaceContext>(s: AddressSpace<C>, phdrs: Seq<Phdr>) -> bool {
    exists|i: int|
        0 <= i < phdrs.len() && (#[trigger] phdrs[i]).ty == PT_LOAD && (segment_pages_same_half(
            phdrs[i],
        ) ==> exists|k: VirtAddr|
            #[trigger] in_segment_pages(phdrs[i], k as int) && (s.mapping(k) is Some
                || overlaps_earlier(phdrs, i, k)))
}

/// Whether a page of the stack was mapped in `s` or shares a page with a loadable segment.
pub open spec fn stack_conflict<C: AddressSpaceContext>(s: AddressSpace<C>, phdrs: Seq<Phdr>) -> bool {
    exists|k: VirtAddr|
        STACK_POS <= k < STACK_POS + STACK_SIZE && (#[trigger] s.mapping(k) is Some
            || overlaps_earlier(phdrs, phdrs.len() as int, k))
}

/// Processes the program headers in order: loadable segments are checked and mapped, a
/// `GNU_STACK` segment gives the flags of the stack, the others are skipped.
///
/// Returns the writes that fill the loaded segments and the flags of the stack, if a segment
/// gives them.
pub fn load_segments<C: AddressSpaceContext>(
    file: &[u8],
    phdrs: &Vec<Phdr>,
    space: &mut AddressSpace<C>,
) -> (r: Result<(Vec<PageWrite>, Option<u64>), LoadError>)
    requires
        old(space).wf(),
    ensures
        final(space).wf(),
        final(space).root_table() == old(space).root_table(),
        match r {
            Ok((w, f)) => {
                &&& forall|k: int|
                    0 <= k < w@.len() ==> from_some_segment(file@, phdrs@, #[trigger] w@[k])
                &&& forall|j: int|
                    0 <= j < phdrs@.len() && (#[trigger] phdrs@[j]).ty == PT_LOAD
                        ==> covers_segment(file@, w@, phdrs@[j])
                &&& forall|k: int|
                    0 <= k < w@.len() ==> written_and_mapped(
                        *final(space),
                        file@,
                        phdrs@,
                        #[trigger] w@[k],
                    )
                &&& f == match stack_segment(phdrs@, phdrs@.len() as int) {
                    Some(s) => Some(segment_page_flags(s.flags)),
                    None => None::<u64>,
                }
                &&& match f {
                    Some(x) => mapping_flags(x),
                    None => true,
                }
            },
            Err(_) => true,
        },
        r is Ok ==> first_header_error(file@.len(), phdrs@, phdrs@.len() as int) is None,
        r is Err && !(r->Err_0 is Mapping) ==> first_header_error(
            file@.len(),
            phdrs@,
            phdrs@.len() as int,
        ) == Some(r->Err_0),
        r == Err::<(Vec<PageWrite>, Option<u64>), LoadError>(
            LoadError::Mapping(MappingError::OutOfMemory),
        ) ==> final(space).out_of_memory(),
        r == Err::<(Vec<PageWrite>, Option<u64>), LoadError>(
            LoadError::Mapping(MappingError::AlreadyMapped),
        ) ==> segments_conflict(*old(space), phdrs@),
        r matches Ok((w, f)) ==> writes_in_earlier(phdrs@, phdrs@.len() as int, w@)
            && same_outside_writes(*final(space), *old(space), w@),
{
    let ghost ph = phdrs@;
    let mut writes: Vec<PageWrite> = Vec::new();
    let mut stack_flags: Option<u64> = None;
    let mut i: usize = 0;
    proof {
        reveal(writes_in_earlier);
        reveal(same_outside_writes);
    }
    while i < phdrs.len()
        invariant
            i <= phdrs@.len(),
            ph == phdrs@,
            space.wf(),
            space.root_table() == old(space).root_table(),
            stack_flags == match stack_segment(ph, i as int) {
                Some(s) => Some(segment_page_flags(s.flags)),
                None => None::<u64>,
            },
            match stack_flags {
                Some(f) => mapping_flags(f),
                None => true,
            },
            forall|k: int| 0 <= k < writes@.len() ==> from_some_segment(file@, ph, #[trigger] writes@[k]),
            forall|j: int|
                0 <= j < i && (#[trigger] ph[j]).ty == PT_LOAD ==> covers_segment(
                    file@,
                    writes@,
                    ph[j],
                ),
            forall|k: int|
                0 <= k < writes@.len() ==> written_and_mapped(
                    *space,
                    file@,
                    ph,
                    #[trigger] writes@[k],
                ),
            first_header_error(file@.len(), ph, i as int) is None,
            writes_in_earlier(ph, i as int, writes@),
            same_outside_writes(*space, *old(space), writes@),
        decreases phdrs@.len() - i,
    {
        let phdr = phdrs[i];
        let ghost fl = file@.len();
        proof {
            assert(ph[i as int] == phdr);
        }
        if phdr.ty == PT_NULL || phdr.ty == PT_PHDR {
            proof {
                lemma_writes_in_earlier_next(ph, i as int, writes@);
            }
        } else if phdr.ty == PT_GNU_STACK {
            if stack_flags.is_some() {
                proof {
                    assert(header_error(fl, ph, i as int) == Some(LoadError::MultipleStackSegments));
                    assert(first_header_error(fl, ph, i + 1) == Some(
                        LoadError::MultipleStackSegments,
                    ));
                    lemma_first_header_error_stays(fl, ph, i + 1, ph.len() as int);
                }
                return Err(LoadError::MultipleStackSegments);
            }
            stack_flags = Some(phdr_to_page_flags(phdr.flags));
            proof {
                lemma_writes_in_earlier_next(ph, i as int, writes@);
            }
        } else if phdr.ty == PT_LOAD {
            let ghost s_before = *space;
            let mut seg_writes = match load_segment(&phdr, file, space) {
                Ok(w) => w,
                Err(e) => {
                    proof {
                        if !(e is Mapping) {
                            assert(header_error(fl, ph, i as int) == Some(e));
                            assert(first_header_error(fl, ph, i + 1) == Some(e));
                            lemma_first_header_error_stays(fl, ph, i + 1, ph.len() as int);
                        }
                        if e == LoadError::Mapping(MappingError::AlreadyMapped)
                            && segment_pages_same_half(phdr) {
                            let k = choose|k: VirtAddr|
                                #[trigger] in_segment_pages(phdr, k as int) && s_before.mapping(
                                    k,
                                ) is Some;
                            if old(space).mapping(k) is None {
                                lemma_overlap_witness(ph, i as int, writes@, s_before, *old(space), k);
                            }
                            assert(in_segment_pages(ph[i as int], k as int));
                        }
                    }
                    return Err(e);
                },
            };
            proof {
                let new_w = seg_writes@;
                assert forall|k: int| 0 <= k < writes@.len() implies written_and_mapped(
                    *space,
                    file@,
                    ph,
                    #[trigger] writes@[k],
                ) by {
                    let wk = writes@[k];
                    assert(written_and_mapped(s_before, file@, ph, wk));
                    let j = choose|j: int|
                        0 <= j < ph.len() && (#[trigger] ph[j]).ty == PT_LOAD
                            && fills_segment_page(file@, ph[j], wk) && mapped_as_written(
                            s_before,
                            wk,
                            segment_page_flags(ph[j].flags),
                        );
                    assert forall|m: int| 0 <= m < new_w.len() implies !same_4kib(
                        #[trigger] new_w[m].virt,
                        wk.virt,
                    ) by {
                        if same_4kib(new_w[m].virt, wk.virt) {
                            s_before.lemma_same_page_mapping(new_w[m].virt, wk.virt);
                        }
                    }
                    assert(space.mapping(wk.virt) == s_before.mapping(wk.virt));
                }
            }
            let ghost before = writes@;
            let ghost added = seg_writes@;
            writes.append(&mut seg_writes);
            proof {
                assert(writes@ == before + added);
                assert forall|m: int| 0 <= m < writes@.len() implies from_some_segment(
                    file@,
                    ph,
                    #[trigger] writes@[m],
                ) by {
                    if m < before.len() {
                        assert(writes@[m] == before[m]);
                    } else {
                        assert(writes@[m] == added[m - before.len()]);
                        assert(ph[i as int] == phdr);
                        assert(fills_segment_page(file@, ph[i as int], writes@[m]));
                    }
                }
                assert forall|m: int| 0 <= m < writes@.len() implies written_and_mapped(
                    *space,
                    file@,
                    ph,
                    #[trigger] writes@[m],
                ) by {
                    if m < before.len() {
                        assert(writes@[m] == before[m]);
                    } else {
                        assert(writes@[m] == added[m - before.len()]);
                        assert(ph[i as int] == phdr);
                        assert(fills_segment_page(file@, ph[i as int], writes@[m]));
                        assert(mapped_as_written(
                            *space,
                            writes@[m],
                            segment_page_flags(ph[i as int].flags),
                        ));
                    }
                }
                assert forall|j: int|
                    0 <= j < i + 1 && (#[trigger] ph[j]).ty == PT_LOAD implies covers_segment(
                    file@,
                    writes@,
                    ph[j],
                ) by {
                    if j < i {
                        lemma_covers_append(file@, before, added, ph[j]);
                    } else {
                        assert(ph[j] == phdr);
                        lemma_covers_pages(file@, before, added, phdr);
                    }
                }
                assert forall|k: int| 0 <= k < added.len() implies in_segment_pages(
                    ph[i as int],
                    #[trigger] added[k].virt as int,
                ) by {
                    assert(fills_segment_page(file@, phdr, added[k]));
                }
                lemma_writes_in_earlier_append(ph, i as int, before, added);
                lemma_same_outside_append(*space, s_before, *old(space), before, added);
            }
        } else {
            proof {
                lemma_writes_in_earlier_next(ph, i as int, writes@);
            }
        }
        i = i + 1;
    }
    Ok((writes, stack_flags))
}

/// The page table flags of the stack: those of the first `GNU_STACK` segment, if any, the
/// default ones otherwise.
pub open spec fn stack_flags_of(phdrs: Seq<Phdr>) -> u64 {
    match stack_segment(phdrs, phdrs.len() as int) {
        Some(s) => segment_page_flags(s.flags),
        None => DEFAULT_STACK_FLAGS,
    }
}

/// Whether every page of the stack has a 4KiB mapping whose entry carries `flags`.
pub open spec fn stack_mapped<C: AddressSpaceContext>(s: AddressSpace<C>, flags: u64) -> bool {
    forall|k: VirtAddr|
        STACK_POS <= k < STACK_POS + STACK_SIZE ==> (#[trigger] s.mapping(k) matches Some(
            Mapping::Page4KiB(e),
        ) && e & flags == flags)
}

/// Maps the stack of the process, with the provided flags, and appends the write of the command
/// line into its last page; the pages written so far stay mapped.
fn map_stack<C: AddressSpaceContext>(
    space: &mut AddressSpace<C>,
    flags: u64,
    cmdline: &[u8],
    writes: &mut Vec<PageWrite>,
    Ghost(file): Ghost<Seq<u8>>,
    Ghost(ph): Ghost<Seq<Phdr>>,
) -> (r: Result<(), LoadError>)
    requires
        old(space).wf(),
        mapping_flags(flags),
        cmdline@.len() + 1 < 4096,
        forall|k: int|
            0 <= k < old(writes)@.len() ==> written_and_mapped(
                *old(space),
                file,
                ph,
                #[trigger] old(writes)@[k],
            ),
    ensures
        final(space).wf(),
        final(space).root_table() == old(space).root_table(),
        r is Ok ==> {
            &&& final(writes)@.len() == old(writes)@.len() + 1
            &&& final(writes)@.drop_last() == old(writes)@
            &&& fills_command_line(cmdline@, final(writes)@.last())
            &&& final(space).mapping(STACK_LAST_PAGE) == Some(
                Mapping::Page4KiB(final(writes)@.last().phys | flags | PAGE_PRESENT),
            )
            &&& stack_mapped(*final(space), flags)
            &&& forall|k: int|
                0 <= k < old(writes)@.len() ==> written_and_mapped(
                    *final(space),
                    file,
                    ph,
                    #[trigger] final(writes)@[k],
                )
        },
        match r {
            Ok(()) => true,
            Err(LoadError::Mapping(MappingError::OutOfMemory)) => final(space).out_of_memory(),
            Err(LoadError::Mapping(MappingError::AlreadyMapped)) => exists|k: VirtAddr|
                STACK_POS <= k < STACK_POS + STACK_SIZE && #[trigger] old(space).mapping(k) is Some,
            Err(_) => false,
        },
{
    let ghost s_before = *space;
    let stack_pages = match space.allocate_range(STACK_POS, STACK_SIZE, flags) {
        Ok(p) => p,
        Err(e) => {
            proof {
                let p = STACK_POS;
                assert(p >> 48u64 == ((p + STACK_SIZE - 1) as u64 >> 48u64)) by (bit_vector)
                    requires
                        p == 0x0000_7FFF_FFFF_7000u64,
                ;
            }
            return Err(LoadError::Mapping(e));
        },
    };
    proof {
        let p = STACK_POS;
        assert(p >> 48u64 == ((p + STACK_SIZE - 1) as u64 >> 48u64) && p >> 48u64 == 0)
            by (bit_vector)
            requires
                p == 0x0000_7FFF_FFFF_7000u64,
        ;
        let sp = stack_pages@;
        assert forall|k: int| 0 <= k < writes@.len() implies written_and_mapped(
            *space,
            file,
            ph,
            #[trigger] writes@[k],
        ) by {
            let wk = writes@[k];
            assert(written_and_mapped(s_before, file, ph, wk));
            let j = choose|j: int|
                0 <= j < ph.len() && (#[trigger] ph[j]).ty == PT_LOAD && fills_segment_page(
                    file,
                    ph[j],
                    wk,
                ) && mapped_as_written(s_before, wk, segment_page_flags(ph[j].flags));
            assert forall|m: int| 0 <= m < sp.len() implies !same_4kib(#[trigger] sp[m].0, wk.virt) by {
                if same_4kib(sp[m].0, wk.virt) {
                    s_before.lemma_same_page_mapping(sp[m].0, wk.virt);
                }
            }
            assert(space.mapping(wk.virt) == s_before.mapping(wk.virt));
        }
        assert(stack_pages@.len() == 8);
        assert(stack_pages@[7].0 == STACK_LAST_PAGE);
        assert forall|k: VirtAddr| STACK_POS <= k < STACK_POS + STACK_SIZE implies (
        #[trigger] space.mapping(k) matches Some(Mapping::Page4KiB(e)) && e & flags == flags) by {
            let i: int = (k - STACK_POS) / 4096;
            let page = sp[i].0;
            assert(page == STACK_POS + i * 4096);
            assert(page >> 48u64 == k >> 48u64) by {
                crate::address_space::lemma_low_half(page, k);
            }
            lemma_block(page, k);
            space.lemma_same_page_mapping(page, k);
            lemma_flags_kept(sp[i].1, flags, 0);
        }
    }
    let last_phys: PhysAddr = stack_pages[7].1;
    let cmd_write = fill_command_line(cmdline, last_phys);
    let ghost before = writes@;
    writes.push(cmd_write);
    proof {
        assert(writes@.drop_last() =~= before);
        assert forall|k: int| 0 <= k < before.len() implies writes@[k] == before[k] by {}
    }
    Ok(())
}

/// The first error of the checks that come before any mapping: reading the header of the file
/// stored at `address`, checking it, reading the program headers.
pub open spec fn header_stage_error(file: Seq<u8>, address: usize) -> Option<LoadError> {
    match header_spec(file, address) {
        Err(e) => Some(LoadError::Parse(e)),
        Ok(h) => match header_check(h) {
            Err(e) => Some(e),
            Ok(()) => match program_headers_spec(file, address) {
                Err(e) => Some(LoadError::Parse(e)),
                Ok(_) => None,
            },
        },
    }
}

/// The first error of all the checks that the loader makes, mappings aside: those of the
/// header stage, then those of the program headers in order, then the length of the command
/// line.
pub open spec fn load_check_error(file: Seq<u8>, address: usize, cmdline_len: nat) -> Option<
    LoadError,
> {
    match header_stage_error(file, address) {
        Some(e) => Some(e),
        None => {
            let ph = program_headers_spec(file, address)->Ok_0;
            match first_header_error(file.len(), ph, ph.len() as int) {
                Some(e) => Some(e),
                None => if cmdline_len >= 4095 {
                    Some(LoadError::CommandLineTooLong)
                } else {
                    None
                },
            }
        },
    }
}

/// What loading the ELF file `file`, stored at `address`, with the command line `cmdline`,
/// gives, from the address space `before` to `after`.
pub open spec fn loaded_as<C: AddressSpaceContext>(
    file: Seq<u8>,
    address: usize,
    cmdline: Seq<u8>,
    before: AddressSpace<C>,
    after: AddressSpace<C>,
    r: Result<LoadedImage, LoadError>,
) -> bool {
    let ph = program_headers_spec(file, address)->Ok_0;
    &&& header_stage_error(file, address) matches Some(e) ==> r == Err::<LoadedImage, LoadError>(e)
        && after == before
    &&& r is Ok ==> load_check_error(file, address, cmdline.len()) is None
    &&& r is Err && !(r->Err_0 is Mapping) ==> load_check_error(file, address, cmdline.len())
        == Some(r->Err_0)
    &&& r == Err::<LoadedImage, LoadError>(LoadError::Mapping(MappingError::OutOfMemory))
        ==> after.out_of_memory()
    &&& r == Err::<LoadedImage, LoadError>(LoadError::Mapping(MappingError::AlreadyMapped))
        ==> program_headers_spec(file, address) is Ok && (segments_conflict(before, ph)
        || stack_conflict(before, ph))
    &&& match r {
        Ok(img) => {
            &&& file.len() >= EHDR_SIZE
            &&& header_check(ehdr_of(file)) is Ok
            &&& program_headers_spec(file, address) is Ok
            &&& cmdline.len() + 1 < 4096
            &&& img.registers == start_registers(ehdr_of(file).entry_point, cmdline.len())
            &&& img.writes@.len() >= 1
            &&& fills_command_line(cmdline, img.writes@.last())
            &&& forall|i: int|
                0 <= i < img.writes@.len() - 1 ==> from_some_segment(
                    file,
                    ph,
                    #[trigger] img.writes@[i],
                )
            &&& forall|j: int|
                0 <= j < ph.len() && (#[trigger] ph[j]).ty == PT_LOAD ==> covers_segment(
                    file,
                    img.writes@,
                    ph[j],
                )
            &&& forall|i: int|
                0 <= i < img.writes@.len() - 1 ==> written_and_mapped(
                    after,
                    file,
                    ph,
                    #[trigger] img.writes@[i],
                )
            &&& stack_mapped(after, stack_flags_of(ph))
            &&& after.mapping(STACK_LAST_PAGE) == Some(
                Mapping::Page4KiB(img.writes@.last().phys | stack_flags_of(ph) | PAGE_PRESENT),
            )
        },
        Err(_) => true,
    }
}

/// Loads the init process from an ELF file stored at `address`, mapping its memory in
/// `space`.
///
/// The header is checked first, then the segments are processed in order: loadable segments are
/// checked and mapped, a `GNU_STACK` segment gives the flags of the stack, null and `PHDR`
/// segments and unknown ones are skipped. Last, the stack is mapped below the end of the user
/// half and receives the command line.
#[verifier::spinoff_prover]
pub fn load_at<C: AddressSpaceContext>(
    file: &[u8],
    address: usize,
    cmdline: &[u8],
    space: &mut AddressSpace<C>,
) -> (r: Result<LoadedImage, LoadError>)
    requires
        old(space).wf(),
    ensures
        final(space).wf(),
        final(space).root_table() == old(space).root_table(),
        loaded_as(file@, address, cmdline@, *old(space), *final(space), r),
{
    let hdr = match header_at(file, address) {
        Ok(h) => h,
        Err(e) => {
            return Err(LoadError::Parse(e));
        },
    };
    match check_header(&hdr) {
        Ok(()) => {},
        Err(e) => {
            return Err(e);
        },
    }
    let phdrs = match program_headers_at(file, address) {
        Ok(p) => p,
        Err(e) => {
            return Err(LoadError::Parse(e));
        },
    };
    let ghost s0 = *space;
    let (mut writes, stack_flags) = match load_segments(file, &phdrs, space) {
        Ok(x) => x,
        Err(e) => {
            return Err(e);
        },
    };
    let ghost s1 = *space;
    if cmdline.len() >= 4095 {
        return Err(LoadError::CommandLineTooLong);
    }
    let flags: u64 = match stack_flags {
        Some(f) => f,
        None => {
            assert(mapping_flags(DEFAULT_STACK_FLAGS)) by (bit_vector);
            DEFAULT_STACK_FLAGS
        },
    };
    let ghost before = writes@;
    match map_stack(space, flags, cmdline, &mut writes, Ghost(file@), Ghost(phdrs@)) {
        Ok(()) => {},
        Err(e) => {
            proof {
                if e == LoadError::Mapping(MappingError::AlreadyMapped) {
                    let k = choose|k: VirtAddr|
                        STACK_POS <= k < STACK_POS + STACK_SIZE && #[trigger] s1.mapping(k) is Some;
                    if s0.mapping(k) is None {
                        lemma_overlap_witness(
                            phdrs@,
                            phdrs@.len() as int,
                            before,
                            s1,
                            s0,
                            k,
                        );
                    }
                    assert(stack_conflict(s0, phdrs@));
                }
            }
            return Err(e);
        },
    }
    proof {
        let ph = phdrs@;
        assert(flags == stack_flags_of(ph));
        assert forall|k: int| 0 <= k < writes@.len() - 1 implies #[trigger] writes@[k] == before[k] by {
            assert(writes@.drop_last()[k] == writes@[k]);
        }
        assert forall|j: int| 0 <= j < ph.len() && (#[trigger] ph[j]).ty == PT_LOAD implies covers_segment(
            file@,
            writes@,
            ph[j],
        ) by {
            lemma_covers_append(file@, before, seq![writes@.last()], ph[j]);
            assert(writes@ =~= before + seq![writes@.last()]);
        }
    }
    let start: u64 = STACK_POS + STACK_SIZE - cmdline.len() as u64 - 1;
    let registers = InitRegisters {
        rip: hdr.entry_point,
        rsp: start & !0xFu64,
        rbp: start & !0xFu64,
        rdi: start,
    };
    Ok(LoadedImage { registers, writes })
}

/// Loads the init process from an ELF file, mapping its memory in `space`.
///
/// Whether the header of the file is properly aligned depends on where the file lies in memory;
/// apart from a misaligned header, the outcome is that of [`load_at`] for an aligned address.
pub fn load<C: AddressSpaceContext>(
    file: &[u8],
    cmdline: &[u8],
    space: &mut AddressSpace<C>,
) -> (r: Result<LoadedImage, LoadError>)
    requires
        old(space).wf(),
    ensures
        final(space).wf(),
        final(space).root_table() == old(space).root_table(),
        r == Err::<LoadedImage, LoadError>(LoadError::Parse(Error::MisalignedHdr)) ==> file@.len()
            >= EHDR_SIZE && *final(space) == *old(space),
        r != Err::<LoadedImage, LoadError>(LoadError::Parse(Error::MisalignedHdr)) ==> loaded_as(
            file@,
            0,
            cmdline@,
            *old(space),
            *final(space),
            r,
        ),
{
    let address = slice_address(file);
    let r = load_at(file, address, cmdline, space);
    proof {
        if r == Err::<LoadedImage, LoadError>(LoadError::Parse(Error::MisalignedHdr)) {
            if header_stage_error(file@, address) is None {
                let ph = program_headers_spec(file@, address)->Ok_0;
                lemma_first_header_error_not_parse(file@.len(), ph, ph.len() as int);
                assert(load_check_error(file@, address, cmdline@.len()) == Some(
                    LoadError::Parse(Error::MisalignedHdr),
                ));
                assert(false);
            }
        }
        if r != Err::<LoadedImage, LoadError>(LoadError::Parse(Error::MisalignedHdr)) {
            if file@.len() >= EHDR_SIZE {
                assert(address % EHDR_ALIGN == 0);
            }
            assert(header_spec(file@, address) == header_spec(file@, 0));
            assert(program_headers_spec(file@, address) == program_headers_spec(file@, 0));
        }
    }
    r
}

/// Loads a process from the provided file, whatever its format: an ELF file is loaded as
/// [`load`] does, and any other file is refused as of an unknown type.
pub fn load_any<C: AddressSpaceContext>(
    file: &[u8],
    cmdline: &[u8],
    space: &mut AddressSpace<C>,
) -> (r: Result<LoadedImage, LoadError>)
    requires
        old(space).wf(),
    ensures
        final(space).wf(),
        !has_elf_magic(file@) ==> r == Err::<LoadedImage, LoadError>(LoadError::UnknownFileType),
        !has_elf_magic(file@) ==> *final(space) == *old(space),
        has_elf_magic(file@) ==> r != Err::<LoadedImage, LoadError>(LoadError::UnknownFileType),
        final(space).root_table() == old(space).root_table(),
        has_elf_magic(file@) && r == Err::<LoadedImage, LoadError>(
            LoadError::Parse(Error::MisalignedHdr),
        ) ==> file@.len() >= EHDR_SIZE && *final(space) == *old(space),
        has_elf_magic(file@) && r != Err::<LoadedImage, LoadError>(
            LoadError::Parse(Error::MisalignedHdr),
        ) ==> loaded_as(file@, 0, cmdline@, *old(space), *final(space), r),
{
    match FileType::of(file) {
        FileType::Elf => {
            let r = load(file, cmdline, space);
            proof {
                if let Ok(ph) = program_headers_spec(file@, 0) {
                    lemma_header_error_known_type(file@.len(), ph, ph.len() as int);
                }
            }
            r
        },
        FileType::Unknown => Err(LoadError::UnknownFileType),
    }
}

} // verus!
