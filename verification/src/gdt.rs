//! Segment descriptors, segment selectors and the Task State Segment.
use vstd::prelude::*;
use crate::arch::{Ring, VirtAddr};

verus! {

/// Indicates that the segment is currently being accessed.
pub const SEGMENT_ACCESSED: u64 = 1u64 << 40u64;
/// Indicates that the segment can be read from (executable segments only).
pub const SEGMENT_READABLE: u64 = 1u64 << 41u64;
/// Indicates that the segment can be written to (non-executable segments only).
pub const SEGMENT_WRITABLE: u64 = 1u64 << 41u64;
/// Indicates that the segment is executable.
pub const SEGMENT_EXECUTABLE: u64 = 1u64 << 43u64;
/// Indicates that the segment is a code or data segment (as opposed to a system segment).
pub const SEGMENT_NON_SYSTEM: u64 = 1u64 << 44u64;
/// Indicates that the segment is present in the GDT.
pub const SEGMENT_PRESENT: u64 = 1u64 << 47u64;
/// Indicates that the segment is a long mode code segment.
pub const SEGMENT_LONG_MODE_CODE: u64 = 1u64 << 53u64;
/// Indicates that the segment's limit is in 4KiB blocks rather than bytes.
pub const SEGMENT_GRANULARITY_4KIB: u64 = 1u64 << 55u64;
/// Indicates that the segment is a 32-bit segment.
pub const SEGMENT_SIZE_32BIT: u64 = 1u64 << 54u64;
/// Indicates that the segment is a system segment with an available TSS.
pub const SEGMENT_AVAILABLE_TSS: u64 = 0x9u64 << 40u64;
/// The maximum limit of a segment.
pub const SEGMENT_MAX_LIMIT: u64 = 0x000F_0000_0000_FFFF;

/// The size of a [`TaskStateSegment`] in memory, in bytes.
pub const TSS_SIZE: u64 = 0x68;

/// The bits that a segment limit occupies in a descriptor.
pub open spec fn limit_bits(limit: u64) -> u64 {
    (limit & 0xFFFF) | ((limit & 0xF0000) << 32u64)
}

/// The bits that a base address occupies in a descriptor.
pub open spec fn base_bits(base: u64) -> u64 {
    ((base & 0xFF_FFFF) << 16u64) | ((base & 0xFF00_0000) << 32u64)
}

/// A segment descriptor in the GDT, as its raw bits.
#[derive(Debug, Clone, Copy, PartialEq, Eq, Structural)]
pub struct SegmentFlags(pub u64);

impl SegmentFlags {
    /// Creates flags holding exactly the provided bits.
    pub fn from_bits_retain(bits: u64) -> (r: Self)
        ensures
            r.0 == bits,
    {
        SegmentFlags(bits)
    }

    /// The raw bits of the flags.
    pub fn bits(self) -> (r: u64)
        ensures
            r == self.0,
    {
        self.0
    }

    /// The flags set in either `self` or `other`.
    pub fn union(self, other: Self) -> (r: Self)
        ensures
            r.0 == self.0 | other.0,
    {
        SegmentFlags(self.0 | other.0)
    }

    /// Creates a new [`SegmentFlags`] instance from the provided limit.
    ///
    /// The limit must fit in 20 bits.
    pub fn from_limit(limit: u64) -> (r: Self)
        requires
            limit <= 0xFFFFF,
        ensures
            r.0 == limit_bits(limit),
    {
        SegmentFlags((limit & 0xFFFF) | ((limit & 0xF0000) << 32u64))
    }

    /// Creates a new [`SegmentFlags`] instance from the provided privilege level.
    pub fn from_dpl(ring: Ring) -> (r: Self)
        ensures
            r.0 == (ring.level() as u64) << 45u64,
    {
        SegmentFlags((ring.as_u8() as u64) << 45u64)
    }

    /// Creates a new [`SegmentFlags`] instance from the provided base address.
    pub fn from_base(base: u32) -> (r: Self)
        ensures
            r.0 == base_bits(base as u64),
    {
        let base: u64 = base as u64;
        SegmentFlags(((base & 0xFF_FFFF) << 16u64) | ((base & 0xFF00_0000) << 32u64))
    }
}

/// The bits of a segment selector made of an index, a table indicator and a privilege level.
pub open spec fn selector_bits(index: u64, local: bool, privilege: Ring) -> u16 {
    ((index as u16) << 3u16) | ((if local { 1u16 } else { 0u16 }) << 2u16) | (
    privilege.level() as u16)
}

/// Represents a segment selector.
#[derive(Debug, Clone, Copy, PartialEq, Eq, Structural)]
pub struct SegmentSelector(u16);

impl SegmentSelector {
    /// The raw value of the selector.
    pub closed spec fn value(self) -> u16 {
        self.0
    }

    /// Creates a new segment selector.
    ///
    /// - `index` - The index of the segment in the GDT (or LDT); it must be below 8192.
    /// - `local` - Whether the segment is part of the current LDT instead of the GDT.
    /// - `privilege` - The privilege level of the segment.
    pub fn new(index: u64, local: bool, privilege: Ring) -> (r: Self)
        requires
            index < 8192,
        ensures
            r.value() == selector_bits(index, local, privilege),
    {
        let l: u16 = if local {
            1
        } else {
            0
        };
        SegmentSelector(((index as u16) << 3u16) | (l << 2u16) | (privilege.as_u8() as u16))
    }

    /// Returns the index of the segment in the GDT or LDT.
    pub fn index(self) -> (r: u64)
        ensures
            r == self.value() >> 3u16,
    {
        (self.0 >> 3u16) as u64
    }

    /// Returns whether the segment is part of the current LDT instead of the GDT.
    pub fn is_local(self) -> (r: bool)
        ensures
            r == (self.value() & 4u16 != 0),
    {
        self.0 & 4u16 != 0
    }

    /// Returns whether the segment is part of the GDT instead of the current LDT.
    pub fn is_global(self) -> (r: bool)
        ensures
            r == (self.value() & 4u16 == 0),
    {
        self.0 & 4u16 == 0
    }

    /// Returns the privilege level of the segment.
    pub fn privilege(self) -> (r: Ring)
        ensures
            r.level() == self.value() & 3u16,
    {
        let v: u16 = self.0;
        let low: u16 = v & 3u16;
        assert(low <= 3) by (bit_vector)
            requires
                low == v & 3u16,
        ;
        Ring::from_raw(low as u8)
    }

    /// Returns the raw value of the segment selector.
    pub fn bits(self) -> (r: u16)
        ensures
            r == self.value(),
    {
        self.0
    }

    /// Creates a new [`SegmentSelector`] from the provided raw value.
    pub fn from_bits(bits: u16) -> (r: Self)
        ensures
            r.value() == bits,
    {
        SegmentSelector(bits)
    }
}

/// A selector built from an index, a table indicator and a privilege level gives each of them
/// back.
pub proof fn lemma_selector_fields(index: u64, local: bool, privilege: Ring)
    requires
        index < 8192,
    ensures
        selector_bits(index, local, privilege) >> 3u16 == index,
        (selector_bits(index, local, privilege) & 4u16 != 0) == local,
        selector_bits(index, local, privilege) & 3u16 == privilege.level(),
{
    let l: u16 = if local {
        1u16
    } else {
        0u16
    };
    let p: u16 = privilege.level() as u16;
    let i: u64 = index;
    assert(((((i as u16) << 3u16) | (l << 2u16) | p) >> 3u16) == i && ((((i as u16) << 3u16) | (l
        << 2u16) | p) & 4u16 != 0) == (l == 1) && ((((i as u16) << 3u16) | (l << 2u16) | p) & 3u16)
        == p) by (bit_vector)
        requires
            i < 8192,
            p <= 3,
            l <= 1,
    ;
}

/// A 64-bit address stored as two 32-bit halves, so that it needs no 8-byte alignment.
#[derive(Debug, Clone, Copy, PartialEq, Eq, Structural)]
pub struct UnalignedAddr {
    low: u32,
    high: u32,
}

impl UnalignedAddr {
    /// The address that this value stores.
    pub closed spec fn view_addr(self) -> u64 {
        ((self.high as u64) << 32u64) | (self.low as u64)
    }

    /// A null [`UnalignedAddr`].
    pub fn null() -> (r: Self)
        ensures
            r.view_addr() == 0,
    {
        let r = UnalignedAddr { low: 0, high: 0 };
        assert(((0u32 as u64) << 32u64) | (0u32 as u64) == 0u64) by (bit_vector);
        r
    }

    /// Creates a new [`UnalignedAddr`] from the provided address.
    pub fn new(addr: VirtAddr) -> (r: Self)
        ensures
            r.view_addr() == addr,
    {
        let low: u32 = (addr & 0xFFFF_FFFF) as u32;
        let high: u32 = (addr >> 32u64) as u32;
        assert((((addr >> 32u64) as u32 as u64) << 32u64) | ((addr & 0xFFFF_FFFF) as u32 as u64)
            == addr) by (bit_vector);
        UnalignedAddr { low, high }
    }

    /// Returns the address.
    pub fn addr(self) -> (r: VirtAddr)
        ensures
            r == self.view_addr(),
    {
        ((self.high as u64) << 32u64) | (self.low as u64)
    }
}

/// A possible IST index (within the [`TaskStateSegment`]).
#[derive(Debug, Clone, Copy, PartialEq, Eq, Structural)]
pub enum IstIndex {
    Index0,
    Index1,
    Index2,
    Index3,
    Index4,
    Index5,
    Index6,
}

impl IstIndex {
    /// The position of this index in the interrupt stack table.
    pub open spec fn position(self) -> u8 {
        match self {
            IstIndex::Index0 => 0,
            IstIndex::Index1 => 1,
            IstIndex::Index2 => 2,
            IstIndex::Index3 => 3,
            IstIndex::Index4 => 4,
            IstIndex::Index5 => 5,
            IstIndex::Index6 => 6,
        }
    }

    /// Returns the position of this index in the interrupt stack table.
    pub fn as_u8(self) -> (r: u8)
        ensures
            r == self.position(),
            r < 7,
    {
        match self {
            IstIndex::Index0 => 0,
            IstIndex::Index1 => 1,
            IstIndex::Index2 => 2,
            IstIndex::Index3 => 3,
            IstIndex::Index4 => 4,
            IstIndex::Index5 => 5,
            IstIndex::Index6 => 6,
        }
    }
}

/// The content of a Task State Segment.
#[derive(Debug, Clone, Copy)]
pub struct TaskStateSegment {
    /// The privilege stack table: the stack pointers used when switching to rings 0 to 2.
    privilege_stack_table: [UnalignedAddr; 3],
    /// The interrupt stack table.
    interrupt_stack_table: [UnalignedAddr; 7],
    /// The base address of the I/O permission bitmap.
    iomap_base: u16,
}

impl TaskStateSegment {
    /// The stack pointer stored for the IST entry at `i`.
    pub closed spec fn ist_entry(self, i: int) -> u64 {
        self.interrupt_stack_table@[i].view_addr()
    }

    /// The stack pointer stored for the privilege level `i`.
    pub closed spec fn privilege_entry(self, i: int) -> u64 {
        self.privilege_stack_table@[i].view_addr()
    }

    /// The base address of the I/O permission bitmap.
    pub closed spec fn iomap(self) -> u16 {
        self.iomap_base
    }

    /// An empty [`TaskStateSegment`]: every stack pointer is null and the I/O permission bitmap
    /// lies past the end of the segment.
    pub fn empty() -> (r: Self)
        ensures
            forall|i: int| 0 <= i < 7 ==> #[trigger] r.ist_entry(i) == 0,
            forall|i: int| 0 <= i < 3 ==> #[trigger] r.privilege_entry(i) == 0,
            r.iomap() == TSS_SIZE,
    {
        let n = UnalignedAddr::null();
        TaskStateSegment {
            privilege_stack_table: [n, n, n],
            interrupt_stack_table: [n, n, n, n, n, n, n],
            iomap_base: 0x68,
        }
    }

    /// Sets the stack pointer for the provided IST index.
    pub fn set_ist(&mut self, index: IstIndex, stack: VirtAddr)
        ensures
            final(self).ist_entry(index.position() as int) == stack,
            forall|i: int|
                0 <= i < 7 && i != index.position() ==> #[trigger] final(self).ist_entry(i) == old(
                    self,
                ).ist_entry(i),
            forall|i: int|
                0 <= i < 3 ==> #[trigger] final(self).privilege_entry(i) == old(
                    self,
                ).privilege_entry(i),
            final(self).iomap() == old(self).iomap(),
    {
        let i = index.as_u8() as usize;
        self.interrupt_stack_table[i] = UnalignedAddr::new(stack);
    }

    /// Returns the stack pointer for the provided IST index.
    pub fn ist(&self, index: IstIndex) -> (r: VirtAddr)
        ensures
            r == self.ist_entry(index.position() as int),
    {
        let i = index.as_u8() as usize;
        self.interrupt_stack_table[i].addr()
    }

    /// Sets the stack pointer for the provided privilege level, which must not be ring 3.
    pub fn set_privilege_stack(&mut self, privilege: Ring, stack: VirtAddr)
        requires
            privilege != Ring::Three,
        ensures
            final(self).privilege_entry(privilege.level() as int) == stack,
            forall|i: int|
                0 <= i < 3 && i != privilege.level() ==> #[trigger] final(self).privilege_entry(i)
                    == old(self).privilege_entry(i),
            forall|i: int|
                0 <= i < 7 ==> #[trigger] final(self).ist_entry(i) == old(self).ist_entry(i),
            final(self).iomap() == old(self).iomap(),
    {
        let i = privilege.as_u8() as usize;
        self.privilege_stack_table[i] = UnalignedAddr::new(stack);
    }

    /// Returns the stack pointer for the provided privilege level, which must not be ring 3.
    pub fn privilege_stack(&self, privilege: Ring) -> (r: VirtAddr)
        requires
            privilege != Ring::Three,
        ensures
            r == self.privilege_entry(privilege.level() as int),
    {
        let i = privilege.as_u8() as usize;
        self.privilege_stack_table[i].addr()
    }
}

/// The flags of the descriptor of a task state segment, without its base address.
pub open spec fn tss_descriptor_flags() -> u64 {
    SEGMENT_PRESENT | SEGMENT_AVAILABLE_TSS | limit_bits((TSS_SIZE - 1) as u64)
}

/// Creates a system segment descriptor for the task state segment stored at `tss`.
pub fn create_tss_segment(tss: VirtAddr) -> (r: [u64; 2])
    ensures
        r@[0] == tss_descriptor_flags() | base_bits((tss as u32) as u64),
        r@[1] == tss >> 32u64,
{
    let flags = SegmentFlags(SEGMENT_PRESENT).union(SegmentFlags(SEGMENT_AVAILABLE_TSS)).union(
        SegmentFlags::from_limit(TSS_SIZE - 1),
    );
    let base_low: u32 = (tss & 0xFFFF_FFFF) as u32;
    assert((tss & 0xFFFF_FFFF) as u32 == tss as u32) by (bit_vector);
    [flags.union(SegmentFlags::from_base(base_low)).bits(), tss >> 32u64]
}

} // verus!
