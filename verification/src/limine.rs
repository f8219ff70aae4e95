//! The structures of the Limine boot protocol, with the addresses they hold as plain integers.
use vstd::prelude::*;

verus! {

/// An address stored in a structure of the protocol, pointing to a `T`.
#[derive(Debug)]
pub struct LiminePtr<T> {
    /// The address.
    pub addr: u64,
    /// The type of the pointed value.
    pub marker: core::marker::PhantomData<T>,
}

impl<T> Clone for LiminePtr<T> {
    fn clone(&self) -> (r: Self)
        ensures
            r.addr == self.addr,
    {
        LiminePtr { addr: self.addr, marker: core::marker::PhantomData }
    }
}

impl<T> LiminePtr<T> {
    /// A null pointer.
    pub fn null() -> (r: Self)
        ensures
            r.addr == 0,
    {
        LiminePtr { addr: 0, marker: core::marker::PhantomData }
    }

    /// A pointer to the provided address.
    pub fn from_addr(addr: u64) -> (r: Self)
        ensures
            r.addr == addr,
    {
        LiminePtr { addr, marker: core::marker::PhantomData }
    }

    /// Returns whether the pointer is null.
    pub fn is_null(&self) -> (r: bool)
        ensures
            r == (self.addr == 0),
    {
        self.addr == 0
    }

    /// Casts the pointer to a pointer to another type, at the same address.
    pub fn cast<U>(&self) -> (r: LiminePtr<U>)
        ensures
            r.addr == self.addr,
    {
        LiminePtr { addr: self.addr, marker: core::marker::PhantomData }
    }
}

/// The pointer through which the bootloader answers a request: null until it does.
#[derive(Debug)]
pub struct ResponsePtr<T>(pub LiminePtr<T>);

impl<T> ResponsePtr<T> {
    /// A response that has not been given.
    pub fn null() -> (r: Self)
        ensures
            r.0.addr == 0,
    {
        ResponsePtr(LiminePtr::null())
    }

    /// Returns the address of the response, if the bootloader gave one.
    pub fn read(&self) -> (r: Option<LiminePtr<T>>)
        ensures
            match r {
                Some(p) => self.0.addr != 0 && p.addr == self.0.addr,
                None => self.0.addr == 0,
            },
    {
        if self.0.is_null() {
            None
        } else {
            Some(self.0.clone())
        }
    }
}

/// The base revision of the protocol that the kernel implements.
pub const BASE_VERSION: u64 = 1;

/// Whether the bootloader supports the base revision that the kernel asked for: it sets the
/// last word of the base revision tag to zero when it does.
pub fn base_revision_supported(tag: &[u64; 3]) -> (r: bool)
    ensures
        r == (tag@[2] == 0),
{
    tag[2] == 0
}

/// The identifier of a request.
#[derive(Debug, Clone, Copy, PartialEq, Eq)]
pub struct Id(pub [u64; 4]);

/// The first word common to all request identifiers.
pub const COMMON_MAGIC_0: u64 = 0xc7b1dd30df4c8b88;
/// The second word common to all request identifiers.
pub const COMMON_MAGIC_1: u64 = 0x0a82e883a194f07b;

impl Id {
    /// The words of the identifier.
    pub open spec fn words(self) -> Seq<u64> {
        self.0@
    }

    /// Creates the identifier of a request from its two specific words.
    pub fn common(c: u64, d: u64) -> (r: Self)
        ensures
            r.words() == seq![COMMON_MAGIC_0, COMMON_MAGIC_1, c, d],
    {
        let r = Id([COMMON_MAGIC_0, COMMON_MAGIC_1, c, d]);
        assert(r.words() =~= seq![COMMON_MAGIC_0, COMMON_MAGIC_1, c, d]);
        r
    }
}

/// The revision of a request or of a response.
pub type Revision = u64;

/// Asks the bootloader for its name and version.
#[derive(Debug)]
pub struct BootloaderInfoRequest {
    pub id: Id,
    pub revision: Revision,
    pub response: ResponsePtr<BootloaderInfoResponse>,
}

/// The name and version of the bootloader.
#[derive(Debug)]
pub struct BootloaderInfoResponse {
    pub revision: Revision,
    /// The address of the null-terminated name.
    pub name: LiminePtr<u8>,
    /// The address of the null-terminated version.
    pub version: LiminePtr<u8>,
}

/// Asks the bootloader to call the provided entry point.
#[derive(Debug)]
pub struct EntryPointRequest {
    pub id: Id,
    pub revision: Revision,
    pub response: ResponsePtr<EntryPointResponse>,
    /// The address of the function to call.
    pub entry: u64,
}

/// The answer to an [`EntryPointRequest`].
#[derive(Debug)]
pub struct EntryPointResponse {
    pub revision: Revision,
}

/// Asks the bootloader for the memory map.
#[derive(Debug)]
pub struct MemmapRequest {
    pub id: Id,
    pub revision: Revision,
    pub response: ResponsePtr<MemmapResponse>,
}

/// The memory map: an array of pointers to its entries.
#[derive(Debug)]
pub struct MemmapResponse {
    pub revision: Revision,
    pub entry_count: u64,
    pub entries: LiminePtr<LiminePtr<MemmapEntry>>,
}

/// The raw type of usable memory.
pub const MEMMAP_USABLE: u32 = 0;
/// The raw type of reserved memory.
pub const MEMMAP_RESERVED: u32 = 1;
/// The raw type of memory that ACPI tables occupy and that can be reclaimed.
pub const MEMMAP_ACPI_RECLAIMABLE: u32 = 2;
/// The raw type of ACPI non-volatile memory.
pub const MEMMAP_ACPI_NVS: u32 = 3;
/// The raw type of bad memory.
pub const MEMMAP_BAD_MEMORY: u32 = 4;
/// The raw type of memory that the bootloader uses and that can be reclaimed.
pub const MEMMAP_BOOTLOADER_RECLAIMABLE: u32 = 5;
/// The raw type of memory that holds the kernel and its modules.
pub const MEMMAP_KERNEL_AND_MODULES: u32 = 6;
/// The raw type of framebuffer memory.
pub const MEMMAP_FRAMEBUFFER: u32 = 7;

/// The type of a region of the memory map.
#[derive(Debug, Clone, Copy, PartialEq, Eq, Structural)]
pub struct MemmapType(pub u32);

/// The name of a known memory type.
pub open spec fn memmap_type_name(t: u32) -> Option<Seq<char>> {
    if t == MEMMAP_USABLE {
        Some("USABLE"@)
    } else if t == MEMMAP_RESERVED {
        Some("RESERVED"@)
    } else if t == MEMMAP_ACPI_RECLAIMABLE {
        Some("ACPI_RECLAIMABLE"@)
    } else if t == MEMMAP_ACPI_NVS {
        Some("ACPI_NVS"@)
    } else if t == MEMMAP_BAD_MEMORY {
        Some("BAD_MEMORY"@)
    } else if t == MEMMAP_BOOTLOADER_RECLAIMABLE {
        Some("BOOTLOADER_RECLAIMABLE"@)
    } else if t == MEMMAP_KERNEL_AND_MODULES {
        Some("KERNEL_AND_MODULES"@)
    } else if t == MEMMAP_FRAMEBUFFER {
        Some("FRAMEBUFFER"@)
    } else {
        None
    }
}

impl MemmapType {
    /// Returns the name of the memory type, if it is a known one.
    pub fn name(self) -> (r: Option<&'static str>)
        ensures
            match r {
                Some(s) => memmap_type_name(self.0) == Some(s@),
                None => memmap_type_name(self.0) is None,
            },
    {
        if self.0 == MEMMAP_USABLE {
            Some("USABLE")
        } else if self.0 == MEMMAP_RESERVED {
            Some("RESERVED")
        } else if self.0 == MEMMAP_ACPI_RECLAIMABLE {
            Some("ACPI_RECLAIMABLE")
        } else if self.0 == MEMMAP_ACPI_NVS {
            Some("ACPI_NVS")
        } else if self.0 == MEMMAP_BAD_MEMORY {
            Some("BAD_MEMORY")
        } else if self.0 == MEMMAP_BOOTLOADER_RECLAIMABLE {
            Some("BOOTLOADER_RECLAIMABLE")
        } else if self.0 == MEMMAP_KERNEL_AND_MODULES {
            Some("KERNEL_AND_MODULES")
        } else if self.0 == MEMMAP_FRAMEBUFFER {
            Some("FRAMEBUFFER")
        } else {
            None
        }
    }
}

/// An entry of the memory map.
#[derive(Debug, Clone, Copy, PartialEq, Eq, Structural)]
pub struct MemmapEntry {
    /// The physical address of the region.
    pub base: u64,
    /// The size of the region, in bytes.
    pub length: u64,
    /// The type of the region.
    pub ty: MemmapType,
}

/// Asks the bootloader for the offset of the higher half direct map.
#[derive(Debug)]
pub struct HhdmRequest {
    pub id: Id,
    pub revision: Revision,
    pub response: ResponsePtr<HhdmResponse>,
}

/// The offset of the higher half direct map.
#[derive(Debug)]
pub struct HhdmResponse {
    pub revision: Revision,
    pub offset: u64,
}

/// Asks the bootloader where the kernel was loaded.
#[derive(Debug)]
pub struct KernelAddressRequest {
    pub id: Id,
    pub revision: Revision,
    pub response: ResponsePtr<KernelAddressResponse>,
}

/// Where the kernel was loaded, physically and virtually.
#[derive(Debug)]
pub struct KernelAddressResponse {
    pub revision: Revision,
    pub physical_base: u64,
    pub virtual_base: u64,
}

/// Asks the bootloader for the modules it loaded.
#[derive(Debug)]
pub struct ModuleRequest {
    pub id: Id,
    pub revision: Revision,
    pub response: ResponsePtr<ModuleResponse>,
    pub internal_module_count: u64,
    pub internal_modules: u64,
}

/// The modules the bootloader loaded: an array of pointers to files.
#[derive(Debug)]
pub struct ModuleResponse {
    pub revision: Revision,
    pub module_count: u64,
    pub modules: LiminePtr<LiminePtr<File>>,
}

/// A universally unique identifier.
#[derive(Debug, Clone, Copy)]
pub struct Uuid {
    pub a: u32,
    pub b: u16,
    pub c: u16,
    pub d: [u8; 8],
}

/// A generic media type.
pub const MEDIA_TYPE_GENERIC: u64 = 0;
/// An optical media.
pub const MEDIA_TYPE_OPTICAL: u64 = 1;
/// A file loaded over TFTP.
pub const MEDIA_TYPE_TFTP: u64 = 2;

/// Whether a media type is one the protocol defines.
pub fn media_type_is_known(media_type: u64) -> (r: bool)
    ensures
        r == (media_type <= MEDIA_TYPE_TFTP),
{
    media_type <= MEDIA_TYPE_TFTP
}

/// A file loaded by the bootloader.
#[derive(Debug)]
pub struct File {
    pub revision: u64,
    /// The address of the contents of the file.
    pub address: LiminePtr<u8>,
    /// The size of the file, in bytes.
    pub size: u64,
    /// The address of the null-terminated path of the file.
    pub path: LiminePtr<u8>,
    /// The address of the null-terminated command line of the file.
    pub cmdline: LiminePtr<u8>,
    pub media_type: u64,
    pub unused: u32,
    pub tftp_ip: u32,
    pub tftp_port: u32,
    pub partition_index: u32,
    pub mbr_disk_id: u32,
    pub gpt_disk_uuid: Uuid,
    pub gpt_part_uuid: Uuid,
    pub part_uuid: Uuid,
}

/// The memory model of a framebuffer whose pixels are made of color channels.
pub const FRAMEBUFFER_MEMORY_MODEL_RGB: u8 = 1;

/// A framebuffer as the bootloader describes it.
#[derive(Debug, Clone, Copy, PartialEq, Eq, Structural)]
pub struct LimineFramebuffer {
    /// The address of the framebuffer in the bootloader's higher half direct map.
    pub address: u64,
    pub width: u64,
    pub height: u64,
    pub pitch: u64,
    pub bpp: u16,
    pub memory_model: u8,
    pub red_mask_size: u8,
    pub red_mask_shift: u8,
    pub green_mask_size: u8,
    pub green_mask_shift: u8,
    pub blue_mask_size: u8,
    pub blue_mask_shift: u8,
}

/// The name and version of the bootloader, as bytes.
#[derive(Debug)]
pub struct BootloaderInfo {
    pub name: Vec<u8>,
    pub version: Vec<u8>,
}

} // verus!
