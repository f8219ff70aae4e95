//! A simple ELF parser.
//!
//! The header and the program headers are decoded from the bytes of the file, in the
//! little-endian encoding of the x86_64 architecture.
use vstd::prelude::*;

verus! {

/// The class of a 32-bit ELF file.
pub const CLASS_ELF32: u8 = 1;
/// The class of a 64-bit ELF file.
pub const CLASS_ELF64: u8 = 2;
/// Little endian, two's complement data encoding.
pub const DATA_LITTLE_ENDIAN: u8 = 1;
/// Big endian, two's complement data encoding.
pub const DATA_BIG_ENDIAN: u8 = 2;
/// The data encoding of the machine this library targets.
pub const DATA_NATIVE: u8 = 1;
/// The current version of ELF.
pub const VERSION_CURRENT: u8 = 1;
/// The System V operating system ABI.
pub const OS_ABI_SYSV: u8 = 0;
/// The Linux operating system ABI.
pub const OS_ABI_LINUX: u8 = 3;
/// A standalone application.
pub const OS_ABI_STANDALONE: u8 = 255;
/// An unknown file type.
pub const TYPE_NONE: u16 = 0;
/// A relocatable file.
pub const TYPE_REL: u16 = 1;
/// An executable file.
pub const TYPE_EXEC: u16 = 2;
/// A shared object.
pub const TYPE_DYN: u16 = 3;
/// A core file.
pub const TYPE_CORE: u16 = 4;
/// An unknown architecture.
pub const MACHINE_NONE: u16 = 0;
/// The x86_64 architecture.
pub const MACHINE_X86_64: u16 = 0x3e;

/// A null program header; the other fields should be ignored.
pub const PT_NULL: u32 = 0;
/// A loadable segment.
///
/// If the in-memory size of the segment is larger than its in-file size, the extra bytes must be
/// zeroed out. The file size must not be larger than the memory size.
pub const PT_LOAD: u32 = 1;
/// The segment provides dynamic linker information.
pub const PT_DYNAMIC: u32 = 2;
/// The location and size of a null-terminated path name to invoke as an interpreter.
pub const PT_INTERP: u32 = 3;
/// The segment contains the location of notes.
pub const PT_NOTE: u32 = 4;
/// The segment contains the location of a dynamic symbol table.
pub const PT_SHLIB: u32 = 5;
/// The segment contains the location and size of the program header table itself.
pub const PT_PHDR: u32 = 6;
/// If present, indicates that the stack should be mapped with the given permissions.
pub const PT_GNU_STACK: u32 = 0x6474e551;
/// If present, indicates that the read-only relocations should be made writable.
pub const PT_GNU_RELRO: u32 = 0x6474e552;

/// The segment is executable.
pub const PF_EXECUTABLE: u32 = 1;
/// The segment is writable.
pub const PF_WRITABLE: u32 = 2;
/// The segment is readable.
pub const PF_READABLE: u32 = 4;

/// The size of an ELF header, in bytes.
pub const EHDR_SIZE: usize = 64;
/// The alignment of an ELF header in memory.
pub const EHDR_ALIGN: usize = 8;
/// The size of a program header, in bytes.
pub const PHDR_SIZE: usize = 56;
/// The alignment of a program header in memory.
pub const PHDR_ALIGN: usize = 8;

/// The header of an ELF file.
#[derive(Debug, Clone, Copy, PartialEq, Eq)]
pub struct Ehdr {
    /// An array of bytes that describe how to interpret the file.
    pub magic: [u8; 4],
    /// The class of the ELF file.
    pub class: u8,
    /// The data encoding used by the ELF file.
    pub data_encoding: u8,
    /// The version of ELF that the file uses.
    pub elf_version: u8,
    /// The operating system and ABI to which the object is targeted.
    pub os_abi: u8,
    /// The version of the above ABI.
    pub abi_version: u8,
    /// The type of the ELF file.
    pub ty: u16,
    /// The machine architecture that the file is encoded for.
    pub machine: u16,
    /// The file version.
    pub version: u32,
    /// The virtual address of the entry point of the program.
    pub entry_point: u64,
    /// The offset of the program header table within the file.
    pub phoff: u64,
    /// The offset of the section header table within the file.
    pub shoff: u64,
    /// Some processor-specific flags.
    pub flags: u32,
    /// The size of the elf header, in bytes.
    pub ehsize: u16,
    /// The size of one entry in the program header table.
    pub phentsize: u16,
    /// The number of entries in the program header table.
    pub phnum: u16,
    /// The size of one entry in the section header table.
    pub shentsize: u16,
    /// The number of entries in the section header table.
    pub shnum: u16,
    /// The index of the section header table entry that contains the string table.
    pub shstrndx: u16,
}

/// A program header.
#[derive(Debug, Clone, Copy, PartialEq, Eq, Structural)]
pub struct Phdr {
    /// The kind of the segment described by this header.
    pub ty: u32,
    /// The access flags of the segment.
    pub flags: u32,
    /// The offset of the segment within the file.
    pub offset: u64,
    /// The virtual address where the segment must be loaded in memory.
    pub vaddr: u64,
    /// The physical address where the segment must be loaded in memory.
    pub paddr: u64,
    /// The size of the segment in the file.
    pub filesz: u64,
    /// The size of the segment in memory.
    pub memsz: u64,
    /// The alignment of the segment in memory.
    pub align: u64,
}

/// An error that might occur while parsing an ELF file.
#[derive(Debug, Clone, Copy, PartialEq, Eq, Structural)]
pub enum Error {
    /// The header is not properly aligned for the transmutation.
    MisalignedHdr,
    /// The header is specified outside of the file.
    HdrOutsideFile,
    /// The program headers are not properly aligned for the transmutation.
    MisalignedPhdrs,
    /// The program headers are specified outside of the file.
    PhdrsOutsideFile,
    /// The program header size reported in the header file is invalid.
    InvalidPhdrSize,
}

/// The little-endian 16-bit integer at `off`.
pub open spec fn le16(b: Seq<u8>, off: int) -> u16 {
    (b[off] + 256 * b[off + 1]) as u16
}

/// The little-endian 32-bit integer at `off`.
pub open spec fn le32(b: Seq<u8>, off: int) -> u32 {
    (le16(b, off) + 65536 * le16(b, off + 2)) as u32
}

/// The little-endian 64-bit integer at `off`.
pub open spec fn le64(b: Seq<u8>, off: int) -> u64 {
    (le32(b, off) + 0x1_0000_0000 * le32(b, off + 4)) as u64
}

/// The header encoded by the first 64 bytes of `b`.
pub open spec fn ehdr_of(b: Seq<u8>) -> Ehdr {
    Ehdr {
        magic: [b[0], b[1], b[2], b[3]],
        class: b[4],
        data_encoding: b[5],
        elf_version: b[6],
        os_abi: b[7],
        abi_version: b[8],
        ty: le16(b, 16),
        machine: le16(b, 18),
        version: le32(b, 20),
        entry_point: le64(b, 24),
        phoff: le64(b, 32),
        shoff: le64(b, 40),
        flags: le32(b, 48),
        ehsize: le16(b, 52),
        phentsize: le16(b, 54),
        phnum: le16(b, 56),
        shentsize: le16(b, 58),
        shnum: le16(b, 60),
        shstrndx: le16(b, 62),
    }
}

/// The program header encoded by the 56 bytes of `b` at `off`.
pub open spec fn phdr_at(b: Seq<u8>, off: int) -> Phdr {
    Phdr {
        ty: le32(b, off),
        flags: le32(b, off + 4),
        offset: le64(b, off + 8),
        vaddr: le64(b, off + 16),
        paddr: le64(b, off + 24),
        filesz: le64(b, off + 32),
        memsz: le64(b, off + 40),
        align: le64(b, off + 48),
    }
}

/// What reading the header of the file `b`, stored at `address`, gives.
pub open spec fn header_spec(b: Seq<u8>, address: usize) -> Result<Ehdr, Error> {
    if b.len() < EHDR_SIZE {
        Err(Error::HdrOutsideFile)
    } else if address % EHDR_ALIGN != 0 {
        Err(Error::MisalignedHdr)
    } else {
        Ok(ehdr_of(b))
    }
}

/// The end of the program header table: `phoff + phnum * phentsize`, or nothing if that
/// overflows 64 bits.
pub open spec fn phdrs_end(h: Ehdr) -> Option<u64> {
    let end = h.phoff + h.phnum * h.phentsize;
    if end > u64::MAX {
        None
    } else {
        Some(end as u64)
    }
}

/// What reading the program headers of the file `b`, stored at `address`, gives.
pub open spec fn program_headers_spec(b: Seq<u8>, address: usize) -> Result<Seq<Phdr>, Error> {
    match header_spec(b, address) {
        Err(e) => Err(e),
        Ok(h) => if h.phentsize != PHDR_SIZE {
            Err(Error::InvalidPhdrSize)
        } else {
            match phdrs_end(h) {
                None => Err(Error::PhdrsOutsideFile),
                Some(end) => if b.len() < end {
                    Err(Error::PhdrsOutsideFile)
                } else if h.phoff % PHDR_ALIGN as u64 != 0 {
                    Err(Error::MisalignedPhdrs)
                } else {
                    Ok(Seq::new(h.phnum as nat, |i: int| phdr_at(b, h.phoff + i * PHDR_SIZE)))
                },
            }
        },
    }
}

/// The value of the 2 bytes of `b` at `off`, least significant first.
pub open spec fn bytes_u16(b: Seq<u8>, off: int) -> int {
    b[off] + 0x100 * b[off + 1]
}

/// The value of the 4 bytes of `b` at `off`, least significant first.
pub open spec fn bytes_u32(b: Seq<u8>, off: int) -> int {
    b[off] + 0x100 * b[off + 1] + 0x1_0000 * b[off + 2] + 0x100_0000 * b[off + 3]
}

/// The value of the 8 bytes of `b` at `off`, least significant first.
pub open spec fn bytes_u64(b: Seq<u8>, off: int) -> int {
    b[off] + 0x100 * b[off + 1] + 0x1_0000 * b[off + 2] + 0x100_0000 * b[off + 3] + 0x1_0000_0000
        * b[off + 4] + 0x100_0000_0000 * b[off + 5] + 0x1_0000_0000_0000 * b[off + 6]
        + 0x100_0000_0000_0000 * b[off + 7]
}

/// The little-endian readings of 2 and 4 bytes are their values.
proof fn lemma_le32_bytes(b: Seq<u8>, off: int)
    requires
        0 <= off,
        off + 4 <= b.len(),
    ensures
        le16(b, off) == bytes_u16(b, off),
        le16(b, off + 2) == bytes_u16(b, off + 2),
        le32(b, off) == bytes_u32(b, off),
{
}

/// The little-endian reading of 8 bytes is their value.
proof fn lemma_le64_bytes(b: Seq<u8>, off: int)
    requires
        0 <= off,
        off + 8 <= b.len(),
    ensures
        le64(b, off) == bytes_u64(b, off),
{
    lemma_le32_bytes(b, off);
    lemma_le32_bytes(b, off + 4);
}

/// The fields of the header that the loader reads sit where the ELF64 layout puts them: the
/// identification in the first 8 bytes, then the type at byte 16, the machine at 18, the version
/// at 20, the entry point at 24, the program header table's offset at 32, its entry size at 54
/// and its number of entries at 56.
pub proof fn lemma_header_bytes(b: Seq<u8>, address: usize)
    requires
        header_spec(b, address) is Ok,
    ensures
        ({
            let h = header_spec(b, address)->Ok_0;
            &&& h.magic == [b[0], b[1], b[2], b[3]]
            &&& h.class == b[4]
            &&& h.data_encoding == b[5]
            &&& h.elf_version == b[6]
            &&& h.os_abi == b[7]
            &&& h.ty == bytes_u16(b, 16)
            &&& h.machine == bytes_u16(b, 18)
            &&& h.version == bytes_u32(b, 20)
            &&& h.entry_point == bytes_u64(b, 24)
            &&& h.phoff == bytes_u64(b, 32)
            &&& h.phentsize == bytes_u16(b, 54)
            &&& h.phnum == bytes_u16(b, 56)
        }),
{
    lemma_le32_bytes(b, 16);
    lemma_le32_bytes(b, 20);
    lemma_le64_bytes(b, 24);
    lemma_le64_bytes(b, 32);
    lemma_le32_bytes(b, 52);
    lemma_le32_bytes(b, 56);
}

/// Each program header that is read is the 56-byte entry of the table at its place: entry `i`
/// starts `56 * i` bytes past the table's offset and lies in the file, and its fields are the
/// type (4 bytes at 0), the flags (4 bytes at 4), then the offset, the virtual and physical
/// addresses, the sizes in the file and in memory, and the alignment (8 bytes each, from 8 to
/// 48). There are as many headers as the header says.
pub proof fn lemma_program_header_bytes(b: Seq<u8>, address: usize, i: int)
    requires
        program_headers_spec(b, address) is Ok,
        0 <= i < program_headers_spec(b, address)->Ok_0.len(),
    ensures
        program_headers_spec(b, address)->Ok_0.len() == bytes_u16(b, 56),
        ({
            let ph = program_headers_spec(b, address)->Ok_0[i];
            let o = bytes_u64(b, 32) + 56 * i;
            &&& o + 56 <= b.len()
            &&& ph.ty == bytes_u32(b, o)
            &&& ph.flags == bytes_u32(b, o + 4)
            &&& ph.offset == bytes_u64(b, o + 8)
            &&& ph.vaddr == bytes_u64(b, o + 16)
            &&& ph.paddr == bytes_u64(b, o + 24)
            &&& ph.filesz == bytes_u64(b, o + 32)
            &&& ph.memsz == bytes_u64(b, o + 40)
            &&& ph.align == bytes_u64(b, o + 48)
        }),
{
    lemma_header_bytes(b, address);
    let h = header_spec(b, address)->Ok_0;
    let o = h.phoff + 56 * i;
    assert(56 * i <= 56 * (h.phnum - 1)) by (nonlinear_arith)
        requires
            i <= h.phnum - 1,
    ;
    lemma_le32_bytes(b, o);
    lemma_le32_bytes(b, o + 4);
    lemma_le64_bytes(b, o + 8);
    lemma_le64_bytes(b, o + 16);
    lemma_le64_bytes(b, o + 24);
    lemma_le64_bytes(b, o + 32);
    lemma_le64_bytes(b, o + 40);
    lemma_le64_bytes(b, o + 48);
}

/// Reads the little-endian 16-bit integer at `off`.
fn read_u16(b: &[u8], off: usize) -> (r: u16)
    requires
        off + 2 <= b@.len(),
    ensures
        r == le16(b@, off as int),
{
    b[off] as u16 + 256 * (b[off + 1] as u16)
}

/// Reads the little-endian 32-bit integer at `off`.
fn read_u32(b: &[u8], off: usize) -> (r: u32)
    requires
        off + 4 <= b@.len(),
    ensures
        r == le32(b@, off as int),
{
    assert(b@.len() == b.len());
    let lo: u16 = read_u16(b, off);
    let hi: u16 = read_u16(b, off + 2);
    assert(65536 * hi <= 65536 * 65535) by (nonlinear_arith)
        requires
            hi <= 65535,
    ;
    lo as u32 + 65536 * (hi as u32)
}

/// Reads the little-endian 64-bit integer at `off`.
fn read_u64(b: &[u8], off: usize) -> (r: u64)
    requires
        off + 8 <= b@.len(),
    ensures
        r == le64(b@, off as int),
{
    assert(b@.len() == b.len());
    let lo: u32 = read_u32(b, off);
    let hi: u32 = read_u32(b, off + 4);
    assert(0x1_0000_0000 * hi <= 0x1_0000_0000 * 0xffff_ffff) by (nonlinear_arith)
        requires
            hi <= 0xffff_ffff,
    ;
    lo as u64 + 0x1_0000_0000 * (hi as u64)
}

/// Decodes a program header from the 56 bytes at `off`.
fn read_phdr(b: &[u8], off: usize) -> (r: Phdr)
    requires
        off + PHDR_SIZE <= b@.len(),
    ensures
        r == phdr_at(b@, off as int),
{
    assert(b@.len() == b.len());
    Phdr {
        ty: read_u32(b, off),
        flags: read_u32(b, off + 4),
        offset: read_u64(b, off + 8),
        vaddr: read_u64(b, off + 16),
        paddr: read_u64(b, off + 24),
        filesz: read_u64(b, off + 32),
        memsz: read_u64(b, off + 40),
        align: read_u64(b, off + 48),
    }
}

/// The address at which the bytes of a slice start in memory.
///
/// Calls `<[u8]>::as_ptr` and casts the pointer to an integer. Nothing is stated of the result:
/// it depends on where the slice lies in memory.
#[verifier::external_body]
pub(crate) fn slice_address(bytes: &[u8]) -> usize {
    bytes.as_ptr() as usize
}

/// Reads the header of a file whose bytes are stored at `address`.
pub fn header_at(bytes: &[u8], address: usize) -> (r: Result<Ehdr, Error>)
    ensures
        r == header_spec(bytes@, address),
{
    if bytes.len() < EHDR_SIZE {
        return Err(Error::HdrOutsideFile);
    }
    if address % EHDR_ALIGN != 0 {
        return Err(Error::MisalignedHdr);
    }
    Ok(
        Ehdr {
            magic: [bytes[0], bytes[1], bytes[2], bytes[3]],
            class: bytes[4],
            data_encoding: bytes[5],
            elf_version: bytes[6],
            os_abi: bytes[7],
            abi_version: bytes[8],
            ty: read_u16(bytes, 16),
            machine: read_u16(bytes, 18),
            version: read_u32(bytes, 20),
            entry_point: read_u64(bytes, 24),
            phoff: read_u64(bytes, 32),
            shoff: read_u64(bytes, 40),
            flags: read_u32(bytes, 48),
            ehsize: read_u16(bytes, 52),
            phentsize: read_u16(bytes, 54),
            phnum: read_u16(bytes, 56),
            shentsize: read_u16(bytes, 58),
            shnum: read_u16(bytes, 60),
            shstrndx: read_u16(bytes, 62),
        },
    )
}

/// Reads the program headers of a file whose bytes are stored at `address`.
pub fn program_headers_at(bytes: &[u8], address: usize) -> (r: Result<Vec<Phdr>, Error>)
    ensures
        match r {
            Ok(v) => program_headers_spec(bytes@, address) == Ok::<Seq<Phdr>, Error>(v@),
            Err(e) => program_headers_spec(bytes@, address) == Err::<Seq<Phdr>, Error>(e),
        },
{
    let hdr = match header_at(bytes, address) {
        Ok(h) => h,
        Err(e) => {
            return Err(e);
        },
    };
    if hdr.phentsize as usize != PHDR_SIZE {
        return Err(Error::InvalidPhdrSize);
    }
    let start = hdr.phoff;
    let table_size: u64 = hdr.phnum as u64 * hdr.phentsize as u64;
    let end = match start.checked_add(table_size) {
        Some(e) => e,
        None => {
            return Err(Error::PhdrsOutsideFile);
        },
    };
    if (bytes.len() as u64) < end {
        return Err(Error::PhdrsOutsideFile);
    }
    if start % PHDR_ALIGN as u64 != 0 {
        return Err(Error::MisalignedPhdrs);
    }
    let count = hdr.phnum as usize;
    let mut out: Vec<Phdr> = Vec::new();
    let mut i: usize = 0;
    while i < count
        invariant
            i <= count,
            count == hdr.phnum,
            hdr == ehdr_of(bytes@),
            hdr.phentsize == PHDR_SIZE,
            start + count * PHDR_SIZE <= bytes@.len(),
            bytes@.len() <= usize::MAX,
            start == hdr.phoff,
            out@.len() == i,
            forall|j: int| 0 <= j < i ==> out@[j] == phdr_at(bytes@, start + j * PHDR_SIZE),
        decreases count - i,
    {
        proof {
            assert(i * PHDR_SIZE + PHDR_SIZE <= count * PHDR_SIZE) by (nonlinear_arith)
                requires
                    i < count,
            ;
        }
        let off: usize = start as usize + i * PHDR_SIZE;
        let phdr = read_phdr(bytes, off);
        out.push(phdr);
        i = i + 1;
    }
    proof {
        let expected = Seq::new(
            hdr.phnum as nat,
            |j: int| phdr_at(bytes@, hdr.phoff + j * PHDR_SIZE),
        );
        assert(out@ =~= expected);
    }
    Ok(out)
}

/// A parsable ELF file.
#[derive(Clone, Copy)]
pub struct Elf<'a> {
    /// The bytes of the file.
    bytes: &'a [u8],
}

impl<'a> Elf<'a> {
    /// The bytes of the file.
    pub closed spec fn file(&self) -> Seq<u8> {
        self.bytes@
    }

    /// Creates a new [`Elf`] instance from the provided bytes.
    pub fn new(file: &'a [u8]) -> (r: Self)
        ensures
            r.file() == file@,
    {
        Self { bytes: file }
    }

    /// Returns the header of the file.
    ///
    /// Whether the header is properly aligned depends on where the file lies in memory; the
    /// other outcomes are decided by the bytes alone.
    pub fn header(self) -> (r: Result<Ehdr, Error>)
        ensures
            (r == Err::<Ehdr, Error>(Error::HdrOutsideFile)) <==> self.file().len() < EHDR_SIZE,
            r is Ok ==> r == Ok::<Ehdr, Error>(ehdr_of(self.file())),
            r is Err ==> r == Err::<Ehdr, Error>(Error::HdrOutsideFile) || r == Err::<
                Ehdr,
                Error,
            >(Error::MisalignedHdr),
    {
        header_at(self.bytes, slice_address(self.bytes))
    }

    /// Returns the program headers of the file.
    ///
    /// Apart from a misaligned header, which depends on where the file lies in memory, the
    /// outcome is the one that the bytes decide.
    pub fn program_headers(self) -> (r: Result<Vec<Phdr>, Error>)
        ensures
            match r {
                Ok(v) => program_headers_spec(self.file(), 0) == Ok::<Seq<Phdr>, Error>(v@),
                Err(e) => (e == Error::MisalignedHdr && self.file().len() >= EHDR_SIZE)
                    || program_headers_spec(self.file(), 0) == Err::<Seq<Phdr>, Error>(e),
            },
    {
        let address = slice_address(self.bytes);
        program_headers_at(self.bytes, address)
    }
}

} // verus!
