//! The raw structures that the CPU expects for 4-level paging.
use vstd::prelude::*;
use crate::arch::{PhysAddr, VirtAddr};

verus! {

/// The size of a 4KiB page.
pub const FOUR_KIB: u64 = 0x1000;
/// The size of a 2MiB page.
pub const TWO_MIB: u64 = 0x20_0000;
/// The size of a 1GiB page.
pub const ONE_GIB: u64 = 0x4000_0000;
/// The size of a 4GiB region.
pub const FOUR_GIB: u64 = 0x1_0000_0000;

/// Whether the entry is present.
pub const PAGE_PRESENT: u64 = 0x1;
/// Whether the page can be written to.
pub const PAGE_WRITABLE: u64 = 0x2;
/// Whether the page can be accessed by code running at ring 3.
pub const PAGE_USER_ACCESSIBLE: u64 = 0x4;
/// Whether the entry maps a page instead of referencing a directory (levels 2 and 3).
pub const PAGE_SIZE: u64 = 0x80;
/// Whether the page is global (not flushed when the address space changes).
pub const PAGE_GLOBAL: u64 = 0x100;
/// A bit left to the operating system (bit 9).
pub const PAGE_OS_BIT_9: u64 = 0x200;
/// A bit left to the operating system (bit 10).
pub const PAGE_OS_BIT_10: u64 = 0x400;
/// Whether instructions cannot be fetched from the page.
pub const PAGE_NO_EXECUTE: u64 = 0x8000_0000_0000_0000;
/// The bits of an entry that hold the physical address it references.
pub const PAGE_ADDRESS_MASK: u64 = 0x000F_FFFF_FFFF_F000;
/// The narrower address mask used by the kernel's raw paging helpers (48-bit physical space).
pub const RAW_PAGE_ADDRESS_MASK: u64 = 0x0000_FFFF_FFFF_F000;

/// Whether an entry value has its present bit set.
pub open spec fn present_bit(e: u64) -> bool {
    e & PAGE_PRESENT != 0
}

/// Whether an entry value has its size (huge page) bit set.
pub open spec fn size_bit(e: u64) -> bool {
    e & PAGE_SIZE != 0
}

/// The physical address referenced by an entry value.
pub open spec fn entry_address(e: u64) -> u64 {
    e & PAGE_ADDRESS_MASK
}

/// Whether a value is usable as flags for a mapping: it references no address and does not
/// carry the size bit, which the table walk reserves for huge mappings.
pub open spec fn mapping_flags(f: u64) -> bool {
    f & (PAGE_ADDRESS_MASK | PAGE_SIZE) == 0
}

/// Whether a physical address can be stored in an entry as is.
pub open spec fn storable_address(p: u64) -> bool {
    p & PAGE_ADDRESS_MASK == p
}

/// Bit-level facts about entries built from an address and flags.
pub proof fn lemma_entry_bits(t: u64, f: u64, e: u64)
    ensures
        (t & PAGE_ADDRESS_MASK == t && f & (PAGE_ADDRESS_MASK | PAGE_SIZE) == 0) ==> {
            &&& present_bit(t | f | PAGE_PRESENT)
            &&& !size_bit(t | f | PAGE_PRESENT)
            &&& entry_address(t | f | PAGE_PRESENT) == t
        },
        f & (PAGE_ADDRESS_MASK | PAGE_SIZE) == 0 ==> {
            &&& (present_bit(e) ==> present_bit(e | f))
            &&& size_bit(e | f) == size_bit(e)
            &&& entry_address(e | f) == entry_address(e)
        },
        entry_address(e) & PAGE_ADDRESS_MASK == entry_address(e),
        entry_address(e) % 4096 == 0,
        present_bit(e | PAGE_PRESENT),
        present_bit(e | PAGE_PRESENT | PAGE_SIZE),
        size_bit(e | PAGE_PRESENT | PAGE_SIZE),
        !present_bit(0),
        !size_bit(0),
        entry_address(e) <= PAGE_ADDRESS_MASK,
        e & 0xFFF <= 0xFFF,
{
    assert({
        &&& (e & 0x000F_FFFF_FFFF_F000u64) <= 0x000F_FFFF_FFFF_F000u64
        &&& e & 0xFFFu64 <= 0xFFFu64
        &&& (e | 1u64 | 0x80u64) & 1u64 != 0
        &&& (e | 1u64 | 0x80u64) & 0x80u64 != 0
        &&& (t & 0x000F_FFFF_FFFF_F000u64 == t && f & (0x000F_FFFF_FFFF_F000u64 | 0x80u64) == 0)
            ==> {
            &&& (t | f | 1u64) & 1u64 != 0
            &&& (t | f | 1u64) & 0x80u64 == 0
            &&& (t | f | 1u64) & 0x000F_FFFF_FFFF_F000u64 == t
        }
        &&& f & (0x000F_FFFF_FFFF_F000u64 | 0x80u64) == 0 ==> {
            &&& (e & 1u64 != 0 ==> (e | f) & 1u64 != 0)
            &&& ((e | f) & 0x80u64 != 0) == (e & 0x80u64 != 0)
            &&& (e | f) & 0x000F_FFFF_FFFF_F000u64 == e & 0x000F_FFFF_FFFF_F000u64
        }
        &&& (e & 0x000F_FFFF_FFFF_F000u64) & 0x000F_FFFF_FFFF_F000u64 == e
            & 0x000F_FFFF_FFFF_F000u64
        &&& (e & 0x000F_FFFF_FFFF_F000u64) % 4096 == 0
        &&& (e | 1u64) & 1u64 != 0
        &&& 0u64 & 1u64 == 0
        &&& 0u64 & 0x80u64 == 0
    }) by (bit_vector);
}

/// Addresses that fit in an entry, and entries that map them with the size bit.
pub proof fn lemma_storable(p: u64, f: u64)
    ensures
        p < 0x0010_0000_0000_0000 && p % 4096 == 0 ==> p & !PAGE_ADDRESS_MASK == 0 && p
            & PAGE_ADDRESS_MASK == p,
        p & !PAGE_ADDRESS_MASK == 0 ==> p & PAGE_ADDRESS_MASK == p,
        (p & PAGE_ADDRESS_MASK == p && f & (PAGE_ADDRESS_MASK | PAGE_SIZE) == 0) ==> entry_address(
            p | f | PAGE_PRESENT | PAGE_SIZE,
        ) == p,
{
    assert({
        &&& p < 0x0010_0000_0000_0000u64 && p % 4096 == 0 ==> p & !0x000F_FFFF_FFFF_F000u64 == 0
            && p & 0x000F_FFFF_FFFF_F000u64 == p
        &&& p & !0x000F_FFFF_FFFF_F000u64 == 0 ==> p & 0x000F_FFFF_FFFF_F000u64 == p
        &&& (p & 0x000F_FFFF_FFFF_F000u64 == p && f & (0x000F_FFFF_FFFF_F000u64 | 0x80u64) == 0)
            ==> (p | f | 1u64 | 0x80u64) & 0x000F_FFFF_FFFF_F000u64 == p
    }) by (bit_vector);
}

/// The index into the table of the given level (1 to 5) that translates `virt`.
pub open spec fn level_index(virt: u64, level: int) -> int {
    if level == 1 {
        ((virt >> 12u64) & 0x1ffu64) as int
    } else if level == 2 {
        ((virt >> 21u64) & 0x1ffu64) as int
    } else if level == 3 {
        ((virt >> 30u64) & 0x1ffu64) as int
    } else if level == 4 {
        ((virt >> 39u64) & 0x1ffu64) as int
    } else {
        ((virt >> 48u64) & 0x1ffu64) as int
    }
}

/// Every level index is below 512.
pub proof fn lemma_level_index_bound(virt: u64)
    ensures
        0 <= level_index(virt, 1) < 512,
        0 <= level_index(virt, 2) < 512,
        0 <= level_index(virt, 3) < 512,
        0 <= level_index(virt, 4) < 512,
        0 <= level_index(virt, 5) < 512,
{
    assert((virt >> 12u64) & 0x1ffu64 < 512 && (virt >> 21u64) & 0x1ffu64 < 512 && (virt >> 30u64)
        & 0x1ffu64 < 512 && (virt >> 39u64) & 0x1ffu64 < 512 && (virt >> 48u64) & 0x1ffu64 < 512)
        by (bit_vector);
}

/// An index within a [`PageTable`].
#[derive(Clone, Copy, PartialEq, Eq, Debug, Structural)]
pub struct PageTableIndex(pub u16);

impl PageTableIndex {
    /// Breaks a virtual address into the indices used by each level of the page table, from the
    /// level 1 table (`[0]`) up to the level 5 table (`[4]`).
    pub fn break_virtual_address(virt: VirtAddr) -> (r: [Self; 5])
        ensures
            forall|i: int| 0 <= i < 5 ==> r@[i].0 as int == level_index(virt, i + 1),
            forall|i: int| 0 <= i < 5 ==> r@[i].0 < 512,
    {
        proof {
            lemma_level_index_bound(virt);
        }
        [
            Self(((virt >> 12u64) & 0x1ffu64) as u16),
            Self(((virt >> 21u64) & 0x1ffu64) as u16),
            Self(((virt >> 30u64) & 0x1ffu64) as u16),
            Self(((virt >> 39u64) & 0x1ffu64) as u16),
            Self(((virt >> 48u64) & 0x1ffu64) as u16),
        ]
    }

    /// Returns the index that this [`PageTableIndex`] represents.
    pub fn index(self) -> (r: usize)
        ensures
            r == self.0,
    {
        self.0 as usize
    }
}

/// An entry in a page table: a mapping, a directory reference, or nothing.
#[derive(Clone, Copy, Debug)]
pub struct PageTableEntry(pub u64);

impl PageTableEntry {
    /// Creates an entry from its raw bits.
    pub fn from_bits_retain(bits: u64) -> (r: Self)
        ensures
            r.0 == bits,
    {
        Self(bits)
    }

    /// The empty entry.
    pub fn empty() -> (r: Self)
        ensures
            r.0 == 0,
    {
        Self(0)
    }

    /// Returns the raw bits of the entry.
    pub fn bits(self) -> (r: u64)
        ensures
            r == self.0,
    {
        self.0
    }

    /// Creates a new entry from the provided physical address.
    pub fn from_address(phys: PhysAddr) -> (r: Self)
        requires
            phys & !PAGE_ADDRESS_MASK == 0,
        ensures
            r.0 == phys,
    {
        Self(phys)
    }

    /// Returns whether the entry is present.
    pub fn is_present(self) -> (r: bool)
        ensures
            r == present_bit(self.0),
    {
        self.0 & PAGE_PRESENT != 0
    }

    /// Returns the physical address that this entry points to.
    pub fn address(self) -> (r: PhysAddr)
        ensures
            r == entry_address(self.0),
    {
        self.0 & PAGE_ADDRESS_MASK
    }

    /// Returns whether the entry shares at least one bit with `other`.
    pub fn intersects(self, other: u64) -> (r: bool)
        ensures
            r == (self.0 & other != 0),
    {
        self.0 & other != 0
    }

    /// Returns the union of this entry with the provided bits.
    pub fn union(self, other: u64) -> (r: Self)
        ensures
            r.0 == self.0 | other,
    {
        Self(self.0 | other)
    }
}

/// A page table: 512 entries.
#[derive(Clone, Copy)]
pub struct PageTable(pub [u64; 512]);

/// Aligns the provided value to the next multiple of the page size.
pub fn page_align_up(val: VirtAddr) -> (r: VirtAddr)
    requires
        val + 0xFFF <= u64::MAX,
    ensures
        r % 4096 == 0,
        val <= r < val + 4096,
{
    proof {
        lemma_align(val);
    }
    (val + 0xFFF) & !0xFFFu64
}

/// Aligns the provided value to the previous multiple of the page size.
pub fn page_align_down(val: VirtAddr) -> (r: VirtAddr)
    ensures
        r % 4096 == 0,
        r <= val < r + 4096,
{
    proof {
        lemma_align(val);
    }
    val & !0xFFFu64
}

/// Aligns the provided value to the next multiple of the page size.
pub fn align_up(val: VirtAddr) -> (r: VirtAddr)
    requires
        val + 0xFFF <= u64::MAX,
    ensures
        r % 4096 == 0,
        val <= r < val + 4096,
{
    page_align_up(val)
}

/// Aligns the provided value to the previous multiple of the page size.
pub fn align_down(val: VirtAddr) -> (r: VirtAddr)
    ensures
        r % 4096 == 0,
        r <= val < r + 4096,
{
    page_align_down(val)
}

/// Page alignment by masking.
pub proof fn lemma_align(val: u64)
    ensures
        (val & !0xFFFu64) % 4096 == 0,
        (val & !0xFFFu64) <= val < (val & !0xFFFu64) + 4096,
        val + 0xFFF <= u64::MAX ==> {
            &&& ((val + 0xFFF) as u64 & !0xFFFu64) % 4096 == 0
            &&& val <= ((val + 0xFFF) as u64 & !0xFFFu64) < val + 4096
        },
{
    assert((val & !0xFFFu64) % 4096 == 0) by (bit_vector);
    assert((val & !0xFFFu64) <= val < (val & !0xFFFu64) + 4096) by (bit_vector);
    assert(val + 0xFFF <= u64::MAX ==> {
        &&& ((val + 0xFFF) as u64 & !0xFFFu64) % 4096 == 0
        &&& val <= ((val + 0xFFF) as u64 & !0xFFFu64) < val + 4096
    }) by (bit_vector);
}

} // verus!
