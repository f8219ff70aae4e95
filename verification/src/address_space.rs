//! Four-level address spaces, built on page tables that a context allocates and gives access to.
use vstd::prelude::*;
use crate::arch::{PhysAddr, VirtAddr};
use crate::memory::OutOfMemory;
use crate::paging::{lemma_storable, entry_address, present_bit, size_bit, storable_address, mapping_flags, lemma_entry_bits, lemma_level_index_bound, level_index, PAGE_PRESENT, PAGE_SIZE, PAGE_ADDRESS_MASK, PageTableEntry, PageTableIndex, FOUR_KIB, TWO_MIB, ONE_GIB, FOUR_GIB};

verus! {

/// An error that might occur while attempting to map some virtual memory to some physical memory.
#[derive(Debug, Clone, Copy, PartialEq, Eq, Structural)]
pub enum MappingError {
    /// A page could not be allocated.
    OutOfMemory,
    /// The virtual memory is already mapped.
    AlreadyMapped,
}

impl MappingError {
    /// Converts an allocation failure into a mapping error.
    pub fn from_out_of_memory(_value: OutOfMemory) -> (r: Self)
        ensures
            r == MappingError::OutOfMemory,
    {
        MappingError::OutOfMemory
    }
}

/// A possible mapping layer.
#[derive(Debug, Clone, Copy, PartialEq, Eq, Structural)]
pub enum MappingLayer {
    L4,
    L3,
    L2,
    L1,
}

/// A possible way to miss a mapping.
#[derive(Debug, Clone, Copy, PartialEq, Eq, Structural)]
pub struct PageMiss {
    /// The layer at which the miss occured.
    pub layer: MappingLayer,
    /// Whether the entry at that layer was present: then it maps a huge page (or, at level 4,
    /// has its size bit set); otherwise nothing is mapped there.
    pub mapping: bool,
}

/// The location of an entry within a page table.
#[derive(Debug, Clone, Copy, PartialEq, Eq, Structural)]
pub struct EntryLocation {
    /// The physical address of the page table.
    pub table: PhysAddr,
    /// The index of the entry within the table.
    pub index: usize,
}

/// The context of an [`AddressSpace`]: it allocates the pages that hold page tables and gives
/// access to the physical memory that holds them.
///
/// Physical memory is seen as pages of 512 words.
pub trait AddressSpaceContext: Sized {
    /// The word stored at index `index` of the physical page `page`.
    spec fn word(&self, page: PhysAddr, index: int) -> u64;

    /// The pages that this context has allocated for page tables and that it lets the caller
    /// write to.
    spec fn owned(&self) -> Set<PhysAddr>;

    /// Whether the system is out of memory, so that the context cannot give another page.
    spec fn exhausted(&self) -> bool;

    /// Allocates a new page of memory.
    ///
    /// The new page is not one that the context already owned; its content is unspecified.
    /// It fails exactly when the system is out of memory, and then stays out of memory.
    fn allocate_page(&mut self) -> (r: Result<PhysAddr, OutOfMemory>)
        ensures
            r is Err <==> old(self).exhausted(),
            match r {
                Ok(p) => {
                    &&& !old(self).owned().contains(p)
                    &&& final(self).owned() == old(self).owned().insert(p)
                    &&& storable_address(p)
                    &&& forall|q: PhysAddr, i: int|
                        q != p ==> #[trigger] final(self).word(q, i) == old(self).word(q, i)
                },
                Err(_) => {
                    &&& final(self).owned() == old(self).owned()
                    &&& final(self).exhausted()
                    &&& forall|q: PhysAddr, i: int|
                        #[trigger] final(self).word(q, i) == old(self).word(q, i)
                },
            },
    ;

    /// Gives back a page previously allocated by [`AddressSpaceContext::allocate_page`].
    fn deallocate_page(&mut self, addr: PhysAddr)
        requires
            old(self).owned().contains(addr),
        ensures
            final(self).owned() == old(self).owned().remove(addr),
            forall|q: PhysAddr, i: int|
                q != addr ==> #[trigger] final(self).word(q, i) == old(self).word(q, i),
    ;

    /// Reads a word of physical memory.
    fn read(&self, page: PhysAddr, index: usize) -> (r: u64)
        requires
            index < 512,
        ensures
            r == self.word(page, index as int),
    ;

    /// Writes a word of a page owned by the context.
    fn write(&mut self, page: PhysAddr, index: usize, value: u64)
        requires
            old(self).owned().contains(page),
            index < 512,
        ensures
            final(self).owned() == old(self).owned(),
            final(self).word(page, index as int) == value,
            forall|q: PhysAddr, i: int|
                !(q == page && i == index) ==> #[trigger] final(self).word(q, i) == old(
                    self,
                ).word(q, i),
    ;

    /// Fills a page owned by the context with zeros.
    fn zero_page(&mut self, page: PhysAddr)
        requires
            old(self).owned().contains(page),
        ensures
            final(self).owned() == old(self).owned(),
            forall|i: int| 0 <= i < 512 ==> #[trigger] final(self).word(page, i) == 0,
            forall|q: PhysAddr, i: int|
                q != page ==> #[trigger] final(self).word(q, i) == old(self).word(q, i),
    ;
}

/// The last virtual address of the user half of an address space.
pub const USERLAND_STOP: VirtAddr = 0x0000_7FFF_FFFF_FFFF;

/// A leaf of the page table: what a virtual page is mapped to, with the entry that maps it.
#[derive(Debug, Clone, Copy, PartialEq, Eq, Structural)]
pub enum Mapping {
    /// The page is part of a 4KiB mapping, made by this level 1 entry.
    Page4KiB(u64),
    /// The page is part of a 2MiB mapping, made by this level 2 entry.
    Page2MiB(u64),
    /// The page is part of a 1GiB mapping, made by this level 3 entry.
    Page1GiB(u64),
}

/// Whether an entry references a directory.
pub open spec fn is_dir(e: u64) -> bool {
    present_bit(e) && !size_bit(e)
}

/// The mapping that the page tables rooted at `root` give to the 4KiB page whose level 4, 3, 2
/// and 1 indices are `a`, `b`, `c` and `d`.
pub open spec fn lookup<C: AddressSpaceContext>(
    ctx: C,
    root: PhysAddr,
    a: int,
    b: int,
    c: int,
    d: int,
) -> Option<Mapping> {
    let x4 = ctx.word(root, a);
    if !is_dir(x4) {
        None
    } else {
        let x3 = ctx.word(entry_address(x4), b);
        if !present_bit(x3) {
            None
        } else if size_bit(x3) {
            Some(Mapping::Page1GiB(x3))
        } else {
            let x2 = ctx.word(entry_address(x3), c);
            if !present_bit(x2) {
                None
            } else if size_bit(x2) {
                Some(Mapping::Page2MiB(x2))
            } else {
                let x1 = ctx.word(entry_address(x2), d);
                if present_bit(x1) {
                    Some(Mapping::Page4KiB(x1))
                } else {
                    None
                }
            }
        }
    }
}

/// Whether the level 2 slot of the page `(a, b, c)` is reachable and occupied (by a directory
/// or a 2MiB mapping).
pub open spec fn slot2_present<C: AddressSpaceContext>(
    ctx: C,
    root: PhysAddr,
    a: int,
    b: int,
    c: int,
) -> bool {
    let x4 = ctx.word(root, a);
    let x3 = ctx.word(entry_address(x4), b);
    is_dir(x4) && is_dir(x3) && present_bit(ctx.word(entry_address(x3), c))
}

/// Whether the level 3 slot of the page `(a, b)` is reachable and occupied (by a directory or
/// a 1GiB mapping).
pub open spec fn slot3_present<C: AddressSpaceContext>(
    ctx: C,
    root: PhysAddr,
    a: int,
    b: int,
) -> bool {
    let x4 = ctx.word(root, a);
    is_dir(x4) && present_bit(ctx.word(entry_address(x4), b))
}

/// What looking up the level 1 entry of the page `(a, b, c, d)` finds: the entry's location,
/// or the layer at which the walk stops.
///
/// A miss reports, as `mapping`, whether the entry at which the walk stops is present.
pub open spec fn locate_4kib<C: AddressSpaceContext>(
    ctx: C,
    root: PhysAddr,
    a: int,
    b: int,
    c: int,
    d: int,
) -> Result<EntryLocation, PageMiss> {
    let x4 = ctx.word(root, a);
    if !present_bit(x4) || size_bit(x4) {
        Err(PageMiss { layer: MappingLayer::L4, mapping: present_bit(x4) })
    } else {
        let x3 = ctx.word(entry_address(x4), b);
        if !present_bit(x3) || size_bit(x3) {
            Err(PageMiss { layer: MappingLayer::L3, mapping: present_bit(x3) })
        } else {
            let x2 = ctx.word(entry_address(x3), c);
            if !present_bit(x2) || size_bit(x2) {
                Err(PageMiss { layer: MappingLayer::L2, mapping: present_bit(x2) })
            } else {
                let t1 = entry_address(x2);
                if !present_bit(ctx.word(t1, d)) {
                    Err(PageMiss { layer: MappingLayer::L1, mapping: false })
                } else {
                    Ok(EntryLocation { table: t1, index: d as usize })
                }
            }
        }
    }
}

/// The translation of `virt` by a walk that follows every present entry as a directory.
pub open spec fn translate_walk<C: AddressSpaceContext>(
    ctx: C,
    root: PhysAddr,
    virt: VirtAddr,
) -> Option<PhysAddr> {
    let x4 = ctx.word(root, level_index(virt, 4));
    let x3 = ctx.word(entry_address(x4), level_index(virt, 3));
    let x2 = ctx.word(entry_address(x3), level_index(virt, 2));
    let x1 = ctx.word(entry_address(x2), level_index(virt, 1));
    if !present_bit(x4) || !present_bit(x3) || !present_bit(x2) || !present_bit(x1) {
        None
    } else {
        Some((entry_address(x1) + (virt & 0xFFF)) as PhysAddr)
    }
}

/// The well-formedness of page tables rooted at `root`: `paths` gives, for the index path from
/// the root to each reachable table, the physical address of that table.
///
/// Reachable tables are owned by the context, each is reachable by exactly one path, and the
/// root table never maps huge pages.
pub open spec fn tables_wf<C: AddressSpaceContext>(
    ctx: C,
    root: PhysAddr,
    paths: Map<Seq<int>, PhysAddr>,
) -> bool {
    &&& paths.contains_key(Seq::<int>::empty())
    &&& paths[Seq::<int>::empty()] == root
    &&& forall|p: Seq<int>|
        #[trigger] paths.contains_key(p) ==> p.len() <= 3 && ctx.owned().contains(paths[p])
    &&& forall|p: Seq<int>, i: int|
        #[trigger] paths.contains_key(p.push(i)) ==> paths.contains_key(p) && 0 <= i < 512
    &&& forall|p: Seq<int>, i: int|
        paths.contains_key(p) && p.len() < 3 && 0 <= i < 512 ==> (is_dir(
            #[trigger] ctx.word(paths[p], i),
        ) <==> paths.contains_key(p.push(i)))
    &&& forall|p: Seq<int>, i: int|
        #[trigger] paths.contains_key(p.push(i)) ==> paths[p.push(i)] == entry_address(
            ctx.word(paths[p], i),
        )
    &&& forall|p: Seq<int>, q: Seq<int>|
        #[trigger] paths.contains_key(p) && #[trigger] paths.contains_key(q) && paths[p]
            == paths[q] ==> p == q
    &&& forall|i: int| 0 <= i < 512 ==> !size_bit(#[trigger] ctx.word(root, i))
}

/// Whether `path.push(i)` is a prefix of the page `(a, b, c, d)`.
pub open spec fn on_walk(path: Seq<int>, i: int, a: int, b: int, c: int, d: int) -> bool {
    if path.len() == 0 {
        i == a
    } else if path.len() == 1 {
        path[0] == a && i == b
    } else if path.len() == 2 {
        path[0] == a && path[1] == b && i == c
    } else {
        path.len() == 3 && path[0] == a && path[1] == b && path[2] == c && i == d
    }
}

/// The tables along the walk of a page are the ones that the well-formedness paths give.
pub proof fn lemma_walk_tables<C: AddressSpaceContext>(
    ctx: C,
    root: PhysAddr,
    paths: Map<Seq<int>, PhysAddr>,
    a: int,
    b: int,
    c: int,
)
    requires
        tables_wf(ctx, root, paths),
        0 <= a < 512,
        0 <= b < 512,
        0 <= c < 512,
    ensures
        ({
            let x4 = ctx.word(root, a);
            let x3 = ctx.word(entry_address(x4), b);
            let x2 = ctx.word(entry_address(x3), c);
            &&& is_dir(x4) <==> paths.contains_key(seq![a])
            &&& is_dir(x4) ==> paths[seq![a]] == entry_address(x4)
            &&& is_dir(x4) ==> (is_dir(x3) <==> paths.contains_key(seq![a, b]))
            &&& is_dir(x4) && is_dir(x3) ==> paths[seq![a, b]] == entry_address(x3)
            &&& is_dir(x4) && is_dir(x3) ==> (is_dir(x2) <==> paths.contains_key(seq![a, b, c]))
            &&& is_dir(x4) && is_dir(x3) && is_dir(x2) ==> paths[seq![a, b, c]] == entry_address(
                x2,
            )
        }),
{
    let e = Seq::<int>::empty();
    assert(e.push(a) =~= seq![a]);
    assert(seq![a].push(b) =~= seq![a, b]);
    assert(seq![a, b].push(c) =~= seq![a, b, c]);
    assert(paths.contains_key(e) && e.len() < 3);
    let x4 = ctx.word(root, a);
    assert(is_dir(ctx.word(paths[e], a)) <==> paths.contains_key(e.push(a)));
    if is_dir(x4) {
        assert(paths.contains_key(e.push(a)));
        assert(paths[e.push(a)] == entry_address(ctx.word(paths[e], a)));
        let s1 = seq![a];
        assert(s1.len() < 3);
        assert(is_dir(ctx.word(paths[s1], b)) <==> paths.contains_key(s1.push(b)));
        let x3 = ctx.word(entry_address(x4), b);
        if is_dir(x3) {
            assert(paths.contains_key(s1.push(b)));
            assert(paths[s1.push(b)] == entry_address(ctx.word(paths[s1], b)));
            let s2 = seq![a, b];
            assert(s2.len() < 3);
            assert(is_dir(ctx.word(paths[s2], c)) <==> paths.contains_key(s2.push(c)));
            let x2 = ctx.word(entry_address(x3), c);
            if is_dir(x2) {
                assert(paths.contains_key(s2.push(c)));
                assert(paths[s2.push(c)] == entry_address(ctx.word(paths[s2], c)));
            }
        }
    }
}


/// Whether two virtual addresses are translated by the same level 3 entry.
pub open spec fn same_1gib(v: VirtAddr, w: VirtAddr) -> bool {
    level_index(v, 4) == level_index(w, 4) && level_index(v, 3) == level_index(w, 3)
}

/// Whether two virtual addresses are translated by the same level 2 entry.
pub open spec fn same_2mib(v: VirtAddr, w: VirtAddr) -> bool {
    same_1gib(v, w) && level_index(v, 2) == level_index(w, 2)
}

/// Whether two virtual addresses are translated by the same level 1 entry.
pub open spec fn same_4kib(v: VirtAddr, w: VirtAddr) -> bool {
    same_2mib(v, w) && level_index(v, 1) == level_index(w, 1)
}

/// Whether all the addresses of a range share their top 16 bits (which paging ignores).
pub open spec fn same_half_range(virt: VirtAddr, length: u64) -> bool {
    length == 0 || (virt >> 48u64) == ((virt + length - 1) as u64 >> 48u64)
}

/// The page table entry that makes a mapping.
pub open spec fn entry_of(m: Mapping) -> u64 {
    match m {
        Mapping::Page4KiB(e) => e,
        Mapping::Page2MiB(e) => e,
        Mapping::Page1GiB(e) => e,
    }
}

/// The size of the page that a mapping belongs to.
pub open spec fn page_size_of(m: Mapping) -> u64 {
    match m {
        Mapping::Page4KiB(_) => FOUR_KIB,
        Mapping::Page2MiB(_) => TWO_MIB,
        Mapping::Page1GiB(_) => ONE_GIB,
    }
}

/// The page that a step of mapping `length` bytes from `virt` to `phys` takes: 1GiB when both
/// addresses are aligned to it and the length holds it, else 2MiB on the same terms, else 4KiB.
pub open spec fn step_size(virt: int, phys: int, length: int) -> u64 {
    if virt % (ONE_GIB as int) == 0 && phys % (ONE_GIB as int) == 0 && length >= ONE_GIB {
        ONE_GIB
    } else if virt % (TWO_MIB as int) == 0 && phys % (TWO_MIB as int) == 0 && length >= TWO_MIB {
        TWO_MIB
    } else {
        FOUR_KIB
    }
}

/// The size of the page by which mapping `length` bytes from `virt` to `phys`, one step after
/// the other, maps the address `k`.
#[verifier::opaque]
pub open spec fn page_size_at(virt: int, phys: int, length: int, k: int) -> u64
    decreases length,
{
    let step = step_size(virt, phys, length);
    if length <= step || k < virt + step {
        step
    } else {
        page_size_at(virt + step, phys + step, length - step, k)
    }
}

/// An entry made of an address, flags and the present (and size) bits carries the flags.
pub proof fn lemma_flags_kept(phys: u64, flags: u64, e: u64)
    ensures
        (phys | flags | PAGE_PRESENT) & flags == flags,
        (phys | flags | PAGE_PRESENT | PAGE_SIZE) & flags == flags,
        (e | flags) & flags == flags,
{
    assert((phys | flags | PAGE_PRESENT) & flags == flags && (phys | flags | PAGE_PRESENT
        | PAGE_SIZE) & flags == flags && (e | flags) & flags == flags) by (bit_vector);
}

/// The physical address that a mapping translates `virt` to.
pub open spec fn mapped_address(m: Mapping, virt: VirtAddr) -> int {
    match m {
        Mapping::Page4KiB(e) => entry_address(e) + virt % 0x1000,
        Mapping::Page2MiB(e) => entry_address(e) / 0x20_0000 * 0x20_0000 + virt % 0x20_0000,
        Mapping::Page1GiB(e) => entry_address(e) / 0x4000_0000 * 0x4000_0000 + virt % 0x4000_0000,
    }
}

/// Nine bits of an address, starting at bit `shift`.
pub open spec fn idx9(v: u64, shift: u64) -> u64 {
    (v >> shift) & 0x1ffu64
}

/// Within a 256TiB block, two addresses share a page exactly when one lies in the page that
/// starts at the other.
pub proof fn lemma_block(v: VirtAddr, w: VirtAddr)
    requires
        v >> 48u64 == w >> 48u64,
    ensures
        v % 0x1000 == 0 && v <= u64::MAX - 0x1000 ==> (same_4kib(v, w) <==> v <= w < v + 0x1000),
        v % 0x20_0000 == 0 && v <= u64::MAX - 0x20_0000 ==> (same_2mib(v, w) <==> v <= w < v
            + 0x20_0000),
        v % 0x4000_0000 == 0 && v <= u64::MAX - 0x4000_0000 ==> (same_1gib(v, w) <==> v <= w < v
            + 0x4000_0000),
{
    assert(v >> 48u64 == w >> 48u64 && v % 0x1000 == 0 && v <= 0xFFFF_FFFF_FFFF_EFFFu64 ==> (
    (idx9(v, 12) == idx9(w, 12) && idx9(v, 21) == idx9(w, 21) && idx9(v, 30) == idx9(w, 30)
        && idx9(v, 39) == idx9(w, 39)) <==> (v <= w && w < v + 0x1000))) by (bit_vector);
    assert(v >> 48u64 == w >> 48u64 && v % 0x20_0000 == 0 && v <= 0xFFFF_FFFF_FFDF_FFFFu64 ==> (
    (idx9(v, 21) == idx9(w, 21) && idx9(v, 30) == idx9(w, 30) && idx9(v, 39) == idx9(w, 39))
        <==> (v <= w && w < v + 0x20_0000))) by (bit_vector);
    assert(v >> 48u64 == w >> 48u64 && v % 0x4000_0000 == 0 && v <= 0xFFFF_FFFF_BFFF_FFFFu64 ==> (
    (idx9(v, 30) == idx9(w, 30) && idx9(v, 39) == idx9(w, 39)) <==> (v <= w && w < v
        + 0x4000_0000))) by (bit_vector);
}

/// Two addresses of the user half share their top 16 bits.
pub proof fn lemma_low_half(a: u64, b: u64)
    requires
        a < 0x8000_0000_0000,
        b < 0x8000_0000_0000,
    ensures
        a >> 48u64 == b >> 48u64,
        a >> 48u64 == 0,
{
    assert(a < 0x8000_0000_0000u64 && b < 0x8000_0000_0000u64 ==> a >> 48u64 == 0 && b >> 48u64 == 0)
        by (bit_vector);
}

/// Rounding an address down to a 4KiB, a 2MiB or a 1GiB boundary keeps its top 16 bits.
pub proof fn lemma_align_down_half(x: u64)
    by (bit_vector)
    ensures
        ((x - x % 0x1000u64) as u64) >> 48u64 == x >> 48u64,
        ((x - x % 0x20_0000u64) as u64) >> 48u64 == x >> 48u64,
        ((x - x % 0x4000_0000u64) as u64) >> 48u64 == x >> 48u64,
{
}

/// The top 16 bits of the addresses of a range that does not cross a 256TiB boundary.
pub proof fn lemma_same_half(virt: VirtAddr, length: u64, k: VirtAddr)
    requires
        same_half_range(virt, length),
        virt + length <= u64::MAX,
        virt <= k < virt + length,
    ensures
        k >> 48u64 == virt >> 48u64,
{
    let last = (virt + length - 1) as u64;
    assert(virt <= k && k <= last && virt >> 48u64 == last >> 48u64 ==> k >> 48u64 == virt
        >> 48u64) by (bit_vector);
}

/// Two entries lead the walk the same way: they are equal, or both reference the same directory.
pub open spec fn same_step(x: u64, y: u64) -> bool {
    x == y || (is_dir(x) && is_dir(y) && entry_address(x) == entry_address(y))
}

/// The walks of the page `(a, b, c, d)` in two memories read entries that lead the same way.
pub open spec fn walk_agree<C: AddressSpaceContext>(
    c1: C,
    c2: C,
    root: PhysAddr,
    a: int,
    b: int,
    c: int,
    d: int,
) -> bool {
    let x4 = c1.word(root, a);
    let x3 = c1.word(entry_address(x4), b);
    let x2 = c1.word(entry_address(x3), c);
    &&& same_step(x4, c2.word(root, a))
    &&& is_dir(x4) ==> same_step(x3, c2.word(entry_address(x4), b))
    &&& is_dir(x4) && is_dir(x3) ==> same_step(x2, c2.word(entry_address(x3), c))
    &&& is_dir(x4) && is_dir(x3) && is_dir(x2) ==> c1.word(entry_address(x2), d) == c2.word(
        entry_address(x2),
        d,
    )
}

/// Walks that agree find the same mapping and the same occupied slots.
pub proof fn lemma_agree<C: AddressSpaceContext>(
    c1: C,
    c2: C,
    root: PhysAddr,
    a: int,
    b: int,
    c: int,
    d: int,
)
    requires
        walk_agree(c1, c2, root, a, b, c, d),
    ensures
        lookup(c1, root, a, b, c, d) == lookup(c2, root, a, b, c, d),
        slot2_present(c1, root, a, b, c) == slot2_present(c2, root, a, b, c),
        slot3_present(c1, root, a, b) == slot3_present(c2, root, a, b),
{
}

/// Changing a single entry leaves the walk of a page unchanged, when the entry is not on that
/// walk or still leads the same way.
pub proof fn lemma_single_write<C: AddressSpaceContext>(
    c1: C,
    c2: C,
    root: PhysAddr,
    paths: Map<Seq<int>, PhysAddr>,
    path: Seq<int>,
    i: int,
    a: int,
    b: int,
    c: int,
    d: int,
)
    requires
        tables_wf(c1, root, paths),
        paths.contains_key(path),
        forall|q: PhysAddr, j: int|
            !(q == paths[path] && j == i) ==> #[trigger] c2.word(q, j) == c1.word(q, j),
        on_walk(path, i, a, b, c, d) ==> path.len() < 3 && same_step(
            c1.word(paths[path], i),
            c2.word(paths[path], i),
        ),
        0 <= a < 512,
        0 <= b < 512,
        0 <= c < 512,
    ensures
        walk_agree(c1, c2, root, a, b, c, d),
{
    lemma_walk_tables(c1, root, paths, a, b, c);
    let e = Seq::<int>::empty();
    let t = paths[path];
    assert(paths.contains_key(e));
    if root == t {
        assert(path == e);
    }
    assert(same_step(c1.word(root, a), c2.word(root, a)));
    let x4 = c1.word(root, a);
    if is_dir(x4) {
        let s1 = seq![a];
        assert(paths.contains_key(s1));
        if paths[s1] == t {
            assert(path == s1);
        }
        let x3 = c1.word(entry_address(x4), b);
        assert(same_step(x3, c2.word(entry_address(x4), b)));
        if is_dir(x3) {
            let s2 = seq![a, b];
            assert(paths.contains_key(s2));
            if paths[s2] == t {
                assert(path == s2);
            }
            let x2 = c1.word(entry_address(x3), c);
            assert(same_step(x2, c2.word(entry_address(x3), c)));
            if is_dir(x2) {
                let s3 = seq![a, b, c];
                assert(paths.contains_key(s3));
                if paths[s3] == t {
                    assert(path == s3);
                }
                assert(c2.word(entry_address(x2), d) == c1.word(entry_address(x2), d));
            }
        }
    }
}

/// Changing the content of a page that is not a reachable table leaves every walk unchanged.
pub proof fn lemma_fresh_page<C: AddressSpaceContext>(
    c1: C,
    c2: C,
    root: PhysAddr,
    paths: Map<Seq<int>, PhysAddr>,
    page: PhysAddr,
    a: int,
    b: int,
    c: int,
    d: int,
)
    requires
        tables_wf(c1, root, paths),
        forall|p: Seq<int>| #[trigger] paths.contains_key(p) ==> paths[p] != page,
        forall|q: PhysAddr, j: int| q != page ==> #[trigger] c2.word(q, j) == c1.word(q, j),
        0 <= a < 512,
        0 <= b < 512,
        0 <= c < 512,
    ensures
        walk_agree(c1, c2, root, a, b, c, d),
{
    lemma_walk_tables(c1, root, paths, a, b, c);
    let e = Seq::<int>::empty();
    assert(paths.contains_key(e));
    let x4 = c1.word(root, a);
    if is_dir(x4) {
        assert(paths.contains_key(seq![a]));
        let x3 = c1.word(entry_address(x4), b);
        if is_dir(x3) {
            assert(paths.contains_key(seq![a, b]));
            let x2 = c1.word(entry_address(x3), c);
            if is_dir(x2) {
                assert(paths.contains_key(seq![a, b, c]));
            }
        }
    }
}

/// Changing the content of a page that is not a reachable table keeps the tables well-formed.
pub proof fn lemma_fresh_page_wf<C: AddressSpaceContext>(
    c1: C,
    c2: C,
    root: PhysAddr,
    paths: Map<Seq<int>, PhysAddr>,
    page: PhysAddr,
)
    requires
        tables_wf(c1, root, paths),
        forall|p: Seq<int>| #[trigger] paths.contains_key(p) ==> paths[p] != page,
        forall|q: PhysAddr, j: int| q != page ==> #[trigger] c2.word(q, j) == c1.word(q, j),
        c1.owned().subset_of(c2.owned()),
    ensures
        tables_wf(c2, root, paths),
{
    assert forall|p: Seq<int>, i: int|
        paths.contains_key(p) && p.len() < 3 && 0 <= i < 512 implies (is_dir(
        #[trigger] c2.word(paths[p], i),
    ) <==> paths.contains_key(p.push(i))) by {
        assert(c2.word(paths[p], i) == c1.word(paths[p], i));
    }
    assert forall|p: Seq<int>, i: int| #[trigger]
        paths.contains_key(p.push(i)) implies paths[p.push(i)] == entry_address(
        c2.word(paths[p], i),
    ) by {
        assert(paths.contains_key(p));
        assert(c2.word(paths[p], i) == c1.word(paths[p], i));
    }
    assert forall|i: int| 0 <= i < 512 implies !size_bit(#[trigger] c2.word(root, i)) by {
        assert(paths.contains_key(Seq::<int>::empty()));
        assert(c2.word(root, i) == c1.word(root, i));
    }
    assert forall|p: Seq<int>| #[trigger] paths.contains_key(p) implies p.len() <= 3
        && c2.owned().contains(paths[p]) by {
    }
}


/// Changing a single entry keeps the tables well-formed when the entry keeps referencing the
/// same directory (or keeps referencing none), and the root never gains a huge mapping.
pub proof fn lemma_write_wf<C: AddressSpaceContext>(
    c1: C,
    c2: C,
    root: PhysAddr,
    paths: Map<Seq<int>, PhysAddr>,
    path: Seq<int>,
    i: int,
)
    requires
        tables_wf(c1, root, paths),
        paths.contains_key(path),
        0 <= i < 512,
        forall|q: PhysAddr, j: int|
            !(q == paths[path] && j == i) ==> #[trigger] c2.word(q, j) == c1.word(q, j),
        c1.owned() == c2.owned(),
        path.len() < 3 ==> is_dir(c1.word(paths[path], i)) == is_dir(c2.word(paths[path], i)),
        path.len() < 3 && is_dir(c1.word(paths[path], i)) ==> entry_address(
            c1.word(paths[path], i),
        ) == entry_address(c2.word(paths[path], i)),
        path.len() == 0 ==> !size_bit(c2.word(paths[path], i)),
    ensures
        tables_wf(c2, root, paths),
{
    let t = paths[path];
    let e = Seq::<int>::empty();
    assert(paths.contains_key(e));
    assert forall|p: Seq<int>, j: int|
        paths.contains_key(p) && p.len() < 3 && 0 <= j < 512 implies (is_dir(
        #[trigger] c2.word(paths[p], j),
    ) <==> paths.contains_key(p.push(j))) by {
        if paths[p] == t && j == i {
            assert(p == path);
        } else {
            assert(c2.word(paths[p], j) == c1.word(paths[p], j));
        }
    }
    assert forall|p: Seq<int>, j: int| #[trigger]
        paths.contains_key(p.push(j)) implies paths[p.push(j)] == entry_address(
        c2.word(paths[p], j),
    ) by {
        assert(paths.contains_key(p));
        if paths[p] == t && j == i {
            assert(p == path);
            assert(p.len() < 3);
            assert(is_dir(c1.word(paths[p], j)));
        } else {
            assert(c2.word(paths[p], j) == c1.word(paths[p], j));
        }
    }
    assert forall|j: int| 0 <= j < 512 implies !size_bit(#[trigger] c2.word(root, j)) by {
        if root == t && j == i {
            assert(path == e);
        } else {
            assert(c2.word(root, j) == c1.word(root, j));
        }
    }
    assert forall|p: Seq<int>| #[trigger] paths.contains_key(p) implies p.len() <= 3
        && c2.owned().contains(paths[p]) by {
    }
}

/// Two index paths extended by one index are equal only when the paths and indices are.
pub proof fn lemma_push_injective(p: Seq<int>, i: int, q: Seq<int>, j: int)
    requires
        p.push(i) == q.push(j),
    ensures
        p == q,
        i == j,
{
    assert(p =~= p.push(i).drop_last());
    assert(q =~= q.push(j).drop_last());
    assert(p.push(i)[p.len() as int] == i);
    assert(q.push(j)[q.len() as int] == j);
}

/// Installing a new, zeroed table in an empty slot keeps every mapping, and the tables stay
/// well-formed with the new table reachable at the slot's path.
pub proof fn lemma_install_table<C: AddressSpaceContext>(
    c1: C,
    c2: C,
    root: PhysAddr,
    paths: Map<Seq<int>, PhysAddr>,
    path: Seq<int>,
    i: int,
    page: PhysAddr,
)
    requires
        tables_wf(c1, root, paths),
        paths.contains_key(path),
        path.len() < 3,
        0 <= i < 512,
        !present_bit(c1.word(paths[path], i)),
        forall|p: Seq<int>| #[trigger] paths.contains_key(p) ==> paths[p] != page,
        c1.owned().contains(page),
        c2.owned() == c1.owned(),
        forall|j: int| 0 <= j < 512 ==> #[trigger] c1.word(page, j) == 0,
        forall|q: PhysAddr, j: int|
            !(q == paths[path] && j == i) ==> #[trigger] c2.word(q, j) == c1.word(q, j),
        is_dir(c2.word(paths[path], i)),
        entry_address(c2.word(paths[path], i)) == page,
    ensures
        tables_wf(c2, root, paths.insert(path.push(i), page)),
        forall|a: int, b: int, c: int, d: int|
            0 <= a < 512 && 0 <= b < 512 && 0 <= c < 512 && 0 <= d < 512 ==> lookup(
                c2,
                root,
                a,
                b,
                c,
                d,
            ) == #[trigger] lookup(c1, root, a, b, c, d),
        path.len() <= 1 ==> forall|a: int, b: int, c: int|
            0 <= a < 512 && 0 <= b < 512 && 0 <= c < 512 ==> slot2_present(c2, root, a, b, c)
                == #[trigger] slot2_present(c1, root, a, b, c),
        path.len() == 0 ==> forall|a: int, b: int|
            0 <= a < 512 && 0 <= b < 512 ==> slot3_present(c2, root, a, b)
                == #[trigger] slot3_present(c1, root, a, b),
        path.len() == 1 ==> forall|a: int, b: int|
            0 <= a < 512 && 0 <= b < 512 && !(a == path[0] && b == i) ==> slot3_present(
                c2,
                root,
                a,
                b,
            ) == #[trigger] slot3_present(c1, root, a, b),
        path.len() == 2 ==> forall|a: int, b: int|
            0 <= a < 512 && 0 <= b < 512 ==> slot3_present(c2, root, a, b)
                == #[trigger] slot3_present(c1, root, a, b),
        path.len() == 2 ==> forall|a: int, b: int, c: int|
            0 <= a < 512 && 0 <= b < 512 && 0 <= c < 512 && !(a == path[0] && b == path[1] && c
                == i) ==> slot2_present(c2, root, a, b, c) == #[trigger] slot2_present(
                c1,
                root,
                a,
                b,
                c,
            ),
{
    let t = paths[path];
    let e = Seq::<int>::empty();
    let np = path.push(i);
    let paths2 = paths.insert(np, page);
    lemma_entry_bits(0, 0, 0);
    assert(!is_dir(0));
    assert(paths.contains_key(e));
    assert(page != t);
    // The new path was not reachable before.
    assert(!is_dir(c1.word(t, i)));
    assert(!paths.contains_key(np));
    assert forall|j: int| !#[trigger] paths.contains_key(np.push(j)) by {
        if paths.contains_key(np.push(j)) {
            assert(paths.contains_key(np));
        }
    }
    // Well-formedness.
    assert(paths2.contains_key(e) && paths2[e] == root);
    assert forall|p: Seq<int>| #[trigger] paths2.contains_key(p) implies p.len() <= 3
        && c2.owned().contains(paths2[p]) by {
        if p != np {
            assert(paths.contains_key(p));
        }
    }
    assert forall|p: Seq<int>, j: int| #[trigger]
        paths2.contains_key(p.push(j)) implies paths2.contains_key(p) && 0 <= j < 512 by {
        if p.push(j) == np {
            lemma_push_injective(p, j, path, i);
        } else {
            assert(paths.contains_key(p.push(j)));
        }
    }
    assert forall|p: Seq<int>, j: int|
        paths2.contains_key(p) && p.len() < 3 && 0 <= j < 512 implies (is_dir(
        #[trigger] c2.word(paths2[p], j),
    ) <==> paths2.contains_key(p.push(j))) by {
        if p == np {
            assert(paths2[p] == page);
            assert(c2.word(page, j) == c1.word(page, j));
            assert(c2.word(paths2[p], j) == 0);
            assert(!paths.contains_key(np.push(j)));
            if np.push(j) == np {
                assert(np.push(j).len() == np.len() + 1);
            }
        } else {
            assert(paths.contains_key(p));
            if paths[p] == t && j == i {
                assert(p == path);
            } else {
                assert(c2.word(paths[p], j) == c1.word(paths[p], j));
                if p.push(j) == np {
                    lemma_push_injective(p, j, path, i);
                    assert(p == path);
                }
            }
        }
    }
    assert forall|p: Seq<int>, j: int| #[trigger]
        paths2.contains_key(p.push(j)) implies paths2[p.push(j)] == entry_address(
        c2.word(paths2[p], j),
    ) by {
        if p.push(j) == np {
            lemma_push_injective(p, j, path, i);
        } else {
            assert(paths.contains_key(p.push(j)));
            assert(paths.contains_key(p));
            if p == np {
                assert(false);
            }
            if paths[p] == t && j == i {
                assert(p == path);
            } else {
                assert(c2.word(paths[p], j) == c1.word(paths[p], j));
            }
        }
    }
    assert forall|p: Seq<int>, q: Seq<int>|
        #[trigger] paths2.contains_key(p) && #[trigger] paths2.contains_key(q) && paths2[p]
            == paths2[q] implies p == q by {
        if p != np && q != np {
            assert(paths.contains_key(p) && paths.contains_key(q));
        } else if p == np && q != np {
            assert(paths.contains_key(q));
        } else if p != np && q == np {
            assert(paths.contains_key(p));
        }
    }
    assert forall|j: int| 0 <= j < 512 implies !size_bit(#[trigger] c2.word(root, j)) by {
        if root == t && j == i {
        } else {
            assert(c2.word(root, j) == c1.word(root, j));
        }
    }
    assert(tables_wf(c2, root, paths2));
    // Mappings.
    assert forall|a: int, b: int, c: int, d: int|
        0 <= a < 512 && 0 <= b < 512 && 0 <= c < 512 && 0 <= d < 512 implies lookup(
        c2,
        root,
        a,
        b,
        c,
        d,
    ) == #[trigger] lookup(c1, root, a, b, c, d) && (path.len() <= 1 ==> slot2_present(
        c2,
        root,
        a,
        b,
        c,
    ) == slot2_present(c1, root, a, b, c)) && (path.len() == 0 ==> slot3_present(c2, root, a, b)
        == slot3_present(c1, root, a, b)) && ((path.len() == 2 || (path.len() == 1 && !(a
        == path[0] && b == i))) ==> slot3_present(c2, root, a, b) == slot3_present(c1, root, a, b))
        && ((path.len() == 2 && !(a == path[0] && b == path[1] && c == i)) ==> slot2_present(
        c2,
        root,
        a,
        b,
        c,
    ) == slot2_present(c1, root, a, b, c)) by {
        if !on_walk(path, i, a, b, c, d) {
            lemma_single_write(c1, c2, root, paths, path, i, a, b, c, d);
            lemma_agree(c1, c2, root, a, b, c, d);
        } else {
            lemma_walk_tables(c1, root, paths, a, b, c);
            assert(c2.word(page, b) == 0 && c2.word(page, c) == 0 && c2.word(page, d) == 0);
            if path.len() == 0 {
                assert(path == e);
                assert(t == root);
            } else if path.len() == 1 {
                assert(path =~= seq![a]);
                assert(paths.contains_key(seq![a]));
                if root == t {
                    assert(path == e);
                }
                assert(c2.word(root, a) == c1.word(root, a));
            } else {
                assert(path =~= seq![a, b]);
                assert(paths.contains_key(seq![a, b]));
                assert(seq![a].push(b) =~= seq![a, b]);
                assert(paths.contains_key(seq![a]));
                if root == t {
                    assert(path == e);
                }
                if paths[seq![a]] == t {
                    assert(path == seq![a]);
                }
                assert(c2.word(root, a) == c1.word(root, a));
                assert(c2.word(paths[seq![a]], b) == c1.word(paths[seq![a]], b));
            }
        }
    }
    assert forall|a: int, b: int, c: int|
        path.len() <= 1 && 0 <= a < 512 && 0 <= b < 512 && 0 <= c < 512 implies slot2_present(
        c2,
        root,
        a,
        b,
        c,
    ) == #[trigger] slot2_present(c1, root, a, b, c) by {
        assert(lookup(c2, root, a, b, c, 0) == lookup(c1, root, a, b, c, 0));
    }
    assert forall|a: int, b: int|
        path.len() == 0 && 0 <= a < 512 && 0 <= b < 512 implies slot3_present(c2, root, a, b)
        == #[trigger] slot3_present(c1, root, a, b) by {
        assert(lookup(c2, root, a, b, 0, 0) == lookup(c1, root, a, b, 0, 0));
    }
    assert forall|a: int, b: int|
        (path.len() == 2 || (path.len() == 1 && !(a == path[0] && b == i))) && 0 <= a < 512 && 0
            <= b < 512 implies slot3_present(c2, root, a, b) == #[trigger] slot3_present(
        c1,
        root,
        a,
        b,
    ) by {
        assert(lookup(c2, root, a, b, 0, 0) == lookup(c1, root, a, b, 0, 0));
    }
    assert forall|a: int, b: int, c: int|
        path.len() == 2 && 0 <= a < 512 && 0 <= b < 512 && 0 <= c < 512 && !(a == path[0] && b
            == path[1] && c == i) implies slot2_present(c2, root, a, b, c) == #[trigger] slot2_present(
        c1,
        root,
        a,
        b,
        c,
    ) by {
        assert(lookup(c2, root, a, b, c, 0) == lookup(c1, root, a, b, c, 0));
    }
}


/// Updates the flags of `parent` such that it keeps referencing the same directory, with the
/// flags of the child entry added.
pub fn update_parent(parent: &mut PageTableEntry, child: PageTableEntry)
    requires
        present_bit(old(parent).0),
        !size_bit(old(parent).0),
    ensures
        final(parent).0 == old(parent).0 | child.0,
{
    *parent = parent.union(child.0);
}

/// Represents an address space: a hierarchy of page tables rooted at a level 4 table.
pub struct AddressSpace<C> {
    /// The context used to allocate and access pages.
    context: C,
    /// The root page table of the address space.
    root: PhysAddr,
    /// The index path of every reachable table.
    paths: Ghost<Map<Seq<int>, PhysAddr>>,
}

impl<C: AddressSpaceContext> AddressSpace<C> {
    /// The page tables of this address space are well-formed.
    pub closed spec fn wf(&self) -> bool {
        tables_wf(self.context, self.root, self.paths@)
    }

    /// The pages that the context of this address space owns for its page tables.
    pub closed spec fn owned_pages(&self) -> Set<PhysAddr> {
        self.context.owned()
    }

    /// The level 4 entry that translates `virt`.
    pub closed spec fn root_entry(&self, virt: VirtAddr) -> u64 {
        self.context.word(self.root, level_index(virt, 4))
    }

    /// The directory entry of level `level` (4, 3 or 2) on the walk of `virt`.
    pub closed spec fn walk_entry(&self, virt: VirtAddr, level: int) -> u64 {
        if level == 4 {
            self.context.word(self.root, level_index(virt, 4))
        } else if level == 3 {
            self.context.word(self.paths@[seq![level_index(virt, 4)]], level_index(virt, 3))
        } else {
            self.context.word(
                self.paths@[seq![level_index(virt, 4), level_index(virt, 3)]],
                level_index(virt, 2),
            )
        }
    }

    /// The word at index `i` of the table at physical address `table`.
    pub closed spec fn table_word(&self, table: PhysAddr, i: int) -> u64 {
        self.context.word(table, i)
    }

    /// The physical address of the root (level 4) table.
    pub closed spec fn root_table(&self) -> PhysAddr {
        self.root
    }

    /// The mapping of the 4KiB virtual page that holds `virt`.
    pub closed spec fn mapping(&self, virt: VirtAddr) -> Option<Mapping> {
        lookup(
            self.context,
            self.root,
            level_index(virt, 4),
            level_index(virt, 3),
            level_index(virt, 2),
            level_index(virt, 1),
        )
    }

    /// Whether the level 2 slot that translates `virt` is reachable and occupied.
    pub closed spec fn occupied_2mib(&self, virt: VirtAddr) -> bool {
        slot2_present(
            self.context,
            self.root,
            level_index(virt, 4),
            level_index(virt, 3),
            level_index(virt, 2),
        )
    }

    /// Whether the level 3 slot that translates `virt` is reachable and occupied.
    pub closed spec fn occupied_1gib(&self, virt: VirtAddr) -> bool {
        slot3_present(self.context, self.root, level_index(virt, 4), level_index(virt, 3))
    }

    /// Whether the context of this address space is out of memory.
    pub closed spec fn out_of_memory(&self) -> bool {
        self.context.exhausted()
    }

    /// Creates a new, empty [`AddressSpace`] with the provided context; this fails exactly when
    /// the context is out of memory.
    pub fn new(mut context: C) -> (r: Result<Self, OutOfMemory>)
        ensures
            r is Err <==> context.exhausted(),
            match r {
                Ok(s) => {
                    &&& s.wf()
                    &&& forall|virt: VirtAddr| #[trigger] s.mapping(virt) is None
                    &&& forall|virt: VirtAddr| !#[trigger] s.occupied_1gib(virt)
                    &&& forall|virt: VirtAddr| !#[trigger] s.occupied_2mib(virt)
                },
                Err(_) => true,
            },
    {
        let root = match context.allocate_page() {
            Ok(p) => p,
            Err(e) => {
                return Err(e);
            },
        };
        context.zero_page(root);
        let ghost paths = Map::<Seq<int>, PhysAddr>::empty().insert(Seq::<int>::empty(), root);
        let s = Self { context, root, paths: Ghost(paths) };
        proof {
            lemma_entry_bits(0, 0, 0);
            let e = Seq::<int>::empty();
            assert forall|p: Seq<int>, i: int| #[trigger]
                paths.contains_key(p.push(i)) implies paths.contains_key(p) && 0 <= i < 512 by {
                assert(p.push(i).len() > 0);
                assert(p.push(i) == e);
            }
            assert forall|p: Seq<int>, i: int|
                paths.contains_key(p) && p.len() < 3 && 0 <= i < 512 implies (is_dir(
                #[trigger] s.context.word(paths[p], i),
            ) <==> paths.contains_key(p.push(i))) by {
                assert(p == e);
                assert(s.context.word(root, i) == 0);
                assert(p.push(i).len() > 0);
                if paths.contains_key(p.push(i)) {
                    assert(p.push(i) == e);
                }
            }
            assert forall|p: Seq<int>, i: int| #[trigger]
                paths.contains_key(p.push(i)) implies paths[p.push(i)] == entry_address(
                s.context.word(paths[p], i),
            ) by {
                assert(p.push(i).len() > 0);
                assert(p.push(i) == e);
            }
            assert forall|i: int| 0 <= i < 512 implies !size_bit(#[trigger] s.context.word(root, i)) by {
                assert(s.context.word(root, i) == 0);
            }
            assert(s.wf());
            assert forall|virt: VirtAddr| #[trigger] s.mapping(virt) is None by {
                lemma_level_index_bound(virt);
                assert(s.context.word(root, level_index(virt, 4)) == 0);
            }
            assert forall|virt: VirtAddr| !#[trigger] s.occupied_1gib(virt) by {
                lemma_level_index_bound(virt);
                assert(s.context.word(root, level_index(virt, 4)) == 0);
            }
            assert forall|virt: VirtAddr| !#[trigger] s.occupied_2mib(virt) by {
                lemma_level_index_bound(virt);
                assert(s.context.word(root, level_index(virt, 4)) == 0);
            }
        }
        Ok(s)
    }

    /// Returns the physical address of the L4 table of this address space.
    pub fn l4_table(&self) -> (r: PhysAddr)
        ensures
            r == self.root_table(),
    {
        self.root
    }

    /// Leaks this [`AddressSpace`], exposing the underlying root L4 page table.
    pub fn leak(self) -> (r: PhysAddr)
        ensures
            r == self.root_table(),
    {
        self.root
    }

    /// Returns the directory referenced by entry `index` of `table`; if the entry is empty, a
    /// new directory is allocated and installed there.
    fn make_directory(
        &mut self,
        table: PhysAddr,
        index: usize,
        flags: u64,
        Ghost(path): Ghost<Seq<int>>,
    ) -> (r: Result<PhysAddr, MappingError>)
        requires
            old(self).wf(),
            old(self).paths@.contains_key(path),
            path.len() < 3,
            table == old(self).paths@[path],
            index < 512,
            mapping_flags(flags),
        ensures
            final(self).wf(),
            final(self).root == old(self).root,
            forall|a: int, b: int, c: int, d: int|
                0 <= a < 512 && 0 <= b < 512 && 0 <= c < 512 && 0 <= d < 512 ==> lookup(
                    final(self).context,
                    final(self).root,
                    a,
                    b,
                    c,
                    d,
                ) == #[trigger] lookup(old(self).context, old(self).root, a, b, c, d),
            path.len() <= 1 ==> forall|a: int, b: int, c: int|
                0 <= a < 512 && 0 <= b < 512 && 0 <= c < 512 ==> slot2_present(
                    final(self).context,
                    final(self).root,
                    a,
                    b,
                    c,
                ) == #[trigger] slot2_present(old(self).context, old(self).root, a, b, c),
            path.len() == 0 ==> forall|a: int, b: int|
                0 <= a < 512 && 0 <= b < 512 ==> slot3_present(
                    final(self).context,
                    final(self).root,
                    a,
                    b,
                ) == #[trigger] slot3_present(old(self).context, old(self).root, a, b),
            path.len() >= 1 ==> forall|a: int, b: int|
                0 <= a < 512 && 0 <= b < 512 && !(path.len() == 1 && a == path[0] && b
                    == index) ==> slot3_present(final(self).context, final(self).root, a, b)
                    == #[trigger] slot3_present(old(self).context, old(self).root, a, b),
            path.len() == 2 ==> forall|a: int, b: int, c: int|
                0 <= a < 512 && 0 <= b < 512 && 0 <= c < 512 && !(a == path[0] && b == path[1]
                    && c == index) ==> slot2_present(final(self).context, final(self).root, a, b, c)
                    == #[trigger] slot2_present(old(self).context, old(self).root, a, b, c),
            (r == Err::<PhysAddr, MappingError>(MappingError::AlreadyMapped)) <==> (present_bit(
                old(self).context.word(table, index as int),
            ) && size_bit(old(self).context.word(table, index as int))),
            r == Err::<PhysAddr, MappingError>(MappingError::OutOfMemory) ==> !present_bit(
                old(self).context.word(table, index as int),
            ) && final(self).out_of_memory(),
            match r {
                Ok(child) => final(self).paths@.contains_key(path.push(index as int))
                    && final(self).paths@[path.push(index as int)] == child,
                Err(_) => true,
            },
            r is Err ==> final(self).context.owned() == old(self).context.owned(),
            r is Ok ==> final(self).context.word(table, index as int) & flags == flags,
            forall|q: PhysAddr, i: int|
                old(self).context.owned().contains(q) && !(q == table && i == index)
                    ==> #[trigger] final(self).context.word(q, i) == old(self).context.word(q, i),
            forall|p: Seq<int>|
                #[trigger] old(self).paths@.contains_key(p) ==> final(self).paths@.contains_key(p)
                    && final(self).paths@[p] == old(self).paths@[p],
            r == Err::<PhysAddr, MappingError>(MappingError::OutOfMemory) ==> old(
                self,
            ).context.exhausted(),
            !present_bit(old(self).context.word(table, index as int)) ==> (r is Err <==> old(
                self,
            ).context.exhausted()),
            match r {
                Ok(child) => if present_bit(old(self).context.word(table, index as int)) {
                    &&& final(self).context.owned() == old(self).context.owned()
                    &&& final(self).context.word(table, index as int) == old(self).context.word(
                        table,
                        index as int,
                    ) | flags
                } else {
                    &&& !old(self).context.owned().contains(child)
                    &&& final(self).context.owned() == old(self).context.owned().insert(child)
                    &&& final(self).context.word(table, index as int) == child | flags
                        | PAGE_PRESENT
                    &&& forall|i: int|
                        0 <= i < 512 ==> #[trigger] final(self).context.word(child, i) == 0
                },
                Err(_) => true,
            },
    {
        let ghost c0 = self.context;
        let ghost root = self.root;
        let ghost paths = self.paths@;
        let entry = PageTableEntry(self.context.read(table, index));
        if !entry.is_present() {
            let new_table = match self.context.allocate_page() {
                Ok(p) => p,
                Err(_) => {
                    return Err(MappingError::OutOfMemory);
                },
            };
            let ghost c1 = self.context;
            proof {
                assert forall|p: Seq<int>| #[trigger] paths.contains_key(p) implies paths[p]
                    != new_table by {
                    assert(c0.owned().contains(paths[p]));
                }
                lemma_fresh_page_wf(c0, c1, root, paths, new_table);
            }
            self.context.zero_page(new_table);
            let ghost c2 = self.context;
            proof {
                lemma_fresh_page_wf(c1, c2, root, paths, new_table);
                assert forall|a: int, b: int, c: int, d: int|
                    0 <= a < 512 && 0 <= b < 512 && 0 <= c < 512 && 0 <= d < 512 implies #[trigger] lookup(
                    c2,
                    root,
                    a,
                    b,
                    c,
                    d,
                ) == lookup(c0, root, a, b, c, d) && slot2_present(c2, root, a, b, c)
                    == slot2_present(c0, root, a, b, c) && slot3_present(c2, root, a, b)
                    == slot3_present(c0, root, a, b) by {
                    lemma_fresh_page(c0, c1, root, paths, new_table, a, b, c, d);
                    lemma_agree(c0, c1, root, a, b, c, d);
                    lemma_fresh_page(c1, c2, root, paths, new_table, a, b, c, d);
                    lemma_agree(c1, c2, root, a, b, c, d);
                }
            }
            let value = new_table | flags | PAGE_PRESENT;
            self.context.write(table, index, value);
            proof {
                let c3 = self.context;
                lemma_flags_kept(new_table, flags, 0);
                assert(!c0.owned().contains(new_table));
                lemma_entry_bits(new_table, flags, 0);
                lemma_install_table(c2, c3, root, paths, path, index as int, new_table);
                assert forall|a: int, b: int, c: int|
                    path.len() <= 1 && 0 <= a < 512 && 0 <= b < 512 && 0 <= c < 512 implies slot2_present(
                    c3,
                    root,
                    a,
                    b,
                    c,
                ) == #[trigger] slot2_present(c0, root, a, b, c) by {
                    assert(lookup(c2, root, a, b, c, 0) == lookup(c0, root, a, b, c, 0));
                }
                assert forall|a: int, b: int|
                    path.len() == 0 && 0 <= a < 512 && 0 <= b < 512 implies slot3_present(
                    c3,
                    root,
                    a,
                    b,
                ) == #[trigger] slot3_present(c0, root, a, b) by {
                    assert(lookup(c2, root, a, b, 0, 0) == lookup(c0, root, a, b, 0, 0));
                }
                assert forall|a: int, b: int|
                    path.len() >= 1 && 0 <= a < 512 && 0 <= b < 512 && !(path.len() == 1 && a
                        == path[0] && b == index) implies slot3_present(c3, root, a, b)
                    == #[trigger] slot3_present(c0, root, a, b) by {
                    assert(lookup(c2, root, a, b, 0, 0) == lookup(c0, root, a, b, 0, 0));
                }
                assert forall|a: int, b: int, c: int|
                    path.len() == 2 && 0 <= a < 512 && 0 <= b < 512 && 0 <= c < 512 && !(a
                        == path[0] && b == path[1] && c == index) implies slot2_present(
                    c3,
                    root,
                    a,
                    b,
                    c,
                ) == #[trigger] slot2_present(c0, root, a, b, c) by {
                    assert(lookup(c2, root, a, b, c, 0) == lookup(c0, root, a, b, c, 0));
                }
            }
            self.paths = Ghost(paths.insert(path.push(index as int), new_table));
            Ok(new_table)
        } else if entry.intersects(PAGE_SIZE) {
            Err(MappingError::AlreadyMapped)
        } else {
            let mut parent = entry;
            update_parent(&mut parent, PageTableEntry(flags));
            self.context.write(table, index, parent.0);
            proof {
                let c1 = self.context;
                lemma_flags_kept(0, flags, entry.0);
                lemma_entry_bits(0, flags, entry.0);
                lemma_write_wf(c0, c1, root, paths, path, index as int);
                assert forall|a: int, b: int, c: int, d: int|
                    0 <= a < 512 && 0 <= b < 512 && 0 <= c < 512 && 0 <= d < 512 implies #[trigger] lookup(
                    c1,
                    root,
                    a,
                    b,
                    c,
                    d,
                ) == lookup(c0, root, a, b, c, d) && slot2_present(c1, root, a, b, c)
                    == slot2_present(c0, root, a, b, c) && slot3_present(c1, root, a, b)
                    == slot3_present(c0, root, a, b) by {
                    lemma_single_write(c0, c1, root, paths, path, index as int, a, b, c, d);
                    lemma_agree(c0, c1, root, a, b, c, d);
                }
                assert(paths.contains_key(path.push(index as int)));
            }
            Ok(entry.address())
        }
    }

    /// What looking up the level 1 entry of `virt` finds.
    pub closed spec fn locate(&self, virt: VirtAddr) -> Result<EntryLocation, PageMiss> {
        locate_4kib(
            self.context,
            self.root,
            level_index(virt, 4),
            level_index(virt, 3),
            level_index(virt, 2),
            level_index(virt, 1),
        )
    }

    /// The translation of `virt`, by a walk that follows every present entry as a directory.
    pub closed spec fn translation(&self, virt: VirtAddr) -> Option<PhysAddr> {
        translate_walk(self.context, self.root, virt)
    }

    /// Whether a table is reachable at the given index path from the root.
    pub closed spec fn has_table(&self, path: Seq<int>) -> bool {
        self.paths@.contains_key(path)
    }

    /// The table reachable at the given index path from the root.
    pub closed spec fn table_at(&self, path: Seq<int>) -> PhysAddr {
        self.paths@[path]
    }

    /// Both address spaces map every page the same way.
    pub closed spec fn same_mappings(&self, other: &Self) -> bool {
        forall|a: int, b: int, c: int, d: int|
            0 <= a < 512 && 0 <= b < 512 && 0 <= c < 512 && 0 <= d < 512 ==> #[trigger] lookup(
                self.context,
                self.root,
                a,
                b,
                c,
                d,
            ) == lookup(other.context, other.root, a, b, c, d)
    }

    /// Both address spaces occupy the same level 2 slots.
    pub closed spec fn same_slot2(&self, other: &Self) -> bool {
        forall|a: int, b: int, c: int|
            0 <= a < 512 && 0 <= b < 512 && 0 <= c < 512 ==> #[trigger] slot2_present(
                self.context,
                self.root,
                a,
                b,
                c,
            ) == slot2_present(other.context, other.root, a, b, c)
    }

    /// Both address spaces occupy the same level 3 slots.
    pub closed spec fn same_slot3(&self, other: &Self) -> bool {
        forall|a: int, b: int|
            0 <= a < 512 && 0 <= b < 512 ==> #[trigger] slot3_present(self.context, self.root, a, b)
                == slot3_present(other.context, other.root, a, b)
    }

    /// Both address spaces occupy the same level 3 slots except perhaps `(a, b)`, and the same
    /// level 2 slots except perhaps `(a, b, c)`.
    #[verifier::opaque]
    pub closed spec fn slots_kept_at(&self, other: &Self, a: int, b: int, c: int) -> bool {
        &&& forall|x: int, y: int|
            0 <= x < 512 && 0 <= y < 512 && !(x == a && y == b) ==> #[trigger] slot3_present(
                self.context,
                self.root,
                x,
                y,
            ) == slot3_present(other.context, other.root, x, y)
        &&& forall|x: int, y: int, z: int|
            0 <= x < 512 && 0 <= y < 512 && 0 <= z < 512 && !(x == a && y == b && z == c)
                ==> #[trigger] slot2_present(self.context, self.root, x, y, z) == slot2_present(
                other.context,
                other.root,
                x,
                y,
                z,
            )
    }

    /// Equal mappings mean equal mappings for every virtual address.
    pub proof fn lemma_same_mappings(&self, other: &Self)
        requires
            self.same_mappings(other),
        ensures
            forall|virt: VirtAddr| #[trigger] self.mapping(virt) == other.mapping(virt),
            forall|virt: VirtAddr| #[trigger] self.occupied_2mib(virt) == other.occupied_2mib(virt)
                <== self.same_slot2(other),
            forall|virt: VirtAddr| #[trigger] self.occupied_1gib(virt) == other.occupied_1gib(virt)
                <== self.same_slot3(other),
    {
        assert forall|virt: VirtAddr| #[trigger] self.mapping(virt) == other.mapping(virt) by {
            lemma_level_index_bound(virt);
        }
        assert forall|virt: VirtAddr| self.same_slot2(other) implies #[trigger] self.occupied_2mib(
            virt,
        ) == other.occupied_2mib(virt) by {
            lemma_level_index_bound(virt);
        }
        assert forall|virt: VirtAddr| self.same_slot3(other) implies #[trigger] self.occupied_1gib(
            virt,
        ) == other.occupied_1gib(virt) by {
            lemma_level_index_bound(virt);
        }
    }

    /// Returns the location of the level 1 entry for the provided virtual address, creating the
    /// missing directories on the way with the provided flags.
    ///
    /// On success every directory entry on the way carries the flags.
    pub fn make_4kib_entry(&mut self, virt: VirtAddr, flags: u64) -> (r: Result<
        EntryLocation,
        MappingError,
    >)
        requires
            old(self).wf(),
            virt % 4096 == 0,
            mapping_flags(flags),
        ensures
            final(self).wf(),
            final(self).root_table() == old(self).root_table(),
            final(self).same_mappings(old(self)),
            final(self).slots_kept_at(
                old(self),
                level_index(virt, 4),
                level_index(virt, 3),
                level_index(virt, 2),
            ),
            (r == Err::<EntryLocation, MappingError>(MappingError::AlreadyMapped)) <==> (old(
                self,
            ).mapping(virt) matches Some(Mapping::Page1GiB(_)) || old(self).mapping(virt) matches Some(
                Mapping::Page2MiB(_),
            )),
            r == Err::<EntryLocation, MappingError>(MappingError::OutOfMemory) ==> old(
                self,
            ).mapping(virt) is None && final(self).out_of_memory(),
            match r {
                Ok(loc) => {
                    &&& final(self).has_table(
                        seq![level_index(virt, 4), level_index(virt, 3), level_index(virt, 2)],
                    )
                    &&& loc.table == final(self).table_at(
                        seq![level_index(virt, 4), level_index(virt, 3), level_index(virt, 2)],
                    )
                    &&& loc.index == level_index(virt, 1)
                },
                Err(_) => true,
            },
            r is Ok ==> final(self).walk_entry(virt, 4) & flags == flags && final(self).walk_entry(
                virt,
                3,
            ) & flags == flags && final(self).walk_entry(virt, 2) & flags == flags,
    {
        proof {
            reveal(AddressSpace::slots_kept_at);
        }
        let ghost s0 = *self;
        let idx = PageTableIndex::break_virtual_address(virt);
        let ghost a = level_index(virt, 4);
        let ghost b = level_index(virt, 3);
        let ghost c = level_index(virt, 2);
        proof {
            lemma_level_index_bound(virt);
            lemma_walk_tables(s0.context, s0.root, s0.paths@, a, b, c);
            assert(s0.paths@.contains_key(Seq::<int>::empty()));
        }
        let root = self.root;
        let l3 = match self.make_directory(root, idx[3].index(), flags, Ghost(Seq::<int>::empty())) {
            Ok(t) => t,
            Err(e) => {
                return Err(e);
            },
        };
        let ghost s1 = *self;
        proof {
            assert(Seq::<int>::empty().push(a) =~= seq![a]);
            lemma_walk_tables(s1.context, s1.root, s1.paths@, a, b, c);
            assert(s1.paths@.contains_key(Seq::<int>::empty()));
            assert(seq![a] != Seq::<int>::empty()) by {
                assert(seq![a].len() != Seq::<int>::empty().len());
            }
        }
        let ghost p1 = seq![a];
        let l2 = match self.make_directory(l3, idx[2].index(), flags, Ghost(p1)) {
            Ok(t) => t,
            Err(e) => {
                return Err(e);
            },
        };
        let ghost s2 = *self;
        proof {
            assert(seq![a].push(b) =~= seq![a, b]);
            lemma_walk_tables(s2.context, s2.root, s2.paths@, a, b, c);
            assert(s2.context.word(root, a) == s1.context.word(root, a));
            assert(seq![a, b] != Seq::<int>::empty()) by {
                assert(seq![a, b].len() != Seq::<int>::empty().len());
            }
            assert(seq![a, b] != seq![a]) by {
                assert(seq![a, b].len() != seq![a].len());
            }
        }
        let ghost p2 = seq![a, b];
        let l1 = match self.make_directory(l2, idx[1].index(), flags, Ghost(p2)) {
            Ok(t) => t,
            Err(e) => {
                return Err(e);
            },
        };
        proof {
            let s3 = *self;
            assert(seq![a, b].push(c) =~= seq![a, b, c]);
            assert(s3.context.word(root, a) == s2.context.word(root, a));
            assert(s3.context.word(l3, b) == s2.context.word(l3, b));
            assert(s3.paths@[seq![a]] == l3);
            assert(s3.paths@[seq![a, b]] == l2);
        }
        Ok(EntryLocation { table: l1, index: idx[0].index() })
    }

    /// Returns the location of the level 2 entry for the provided virtual address, creating the
    /// missing directories on the way with the provided flags.
    ///
    /// On success every directory entry on the way carries the flags.
    pub fn make_2mib_entry(&mut self, virt: VirtAddr, flags: u64) -> (r: Result<
        EntryLocation,
        MappingError,
    >)
        requires
            old(self).wf(),
            virt % TWO_MIB == 0,
            mapping_flags(flags),
        ensures
            final(self).wf(),
            final(self).root_table() == old(self).root_table(),
            final(self).same_mappings(old(self)),
            final(self).same_slot2(old(self)),
            final(self).slots_kept_at(
                old(self),
                level_index(virt, 4),
                level_index(virt, 3),
                level_index(virt, 2),
            ),
            (r == Err::<EntryLocation, MappingError>(MappingError::AlreadyMapped)) <==> (old(
                self,
            ).mapping(virt) matches Some(Mapping::Page1GiB(_))),
            r == Err::<EntryLocation, MappingError>(MappingError::OutOfMemory) ==> !old(
                self,
            ).occupied_1gib(virt) && final(self).out_of_memory(),
            match r {
                Ok(loc) => {
                    &&& final(self).has_table(seq![level_index(virt, 4), level_index(virt, 3)])
                    &&& loc.table == final(self).table_at(
                        seq![level_index(virt, 4), level_index(virt, 3)],
                    )
                    &&& loc.index == level_index(virt, 2)
                },
                Err(_) => true,
            },
            r is Ok ==> final(self).walk_entry(virt, 4) & flags == flags && final(self).walk_entry(
                virt,
                3,
            ) & flags == flags,
    {
        proof {
            reveal(AddressSpace::slots_kept_at);
        }
        let ghost s0 = *self;
        let idx = PageTableIndex::break_virtual_address(virt);
        let ghost a = level_index(virt, 4);
        let ghost b = level_index(virt, 3);
        let ghost c = level_index(virt, 2);
        proof {
            lemma_level_index_bound(virt);
            lemma_walk_tables(s0.context, s0.root, s0.paths@, a, b, c);
            assert(s0.paths@.contains_key(Seq::<int>::empty()));
        }
        let root = self.root;
        let l3 = match self.make_directory(root, idx[3].index(), flags, Ghost(Seq::<int>::empty())) {
            Ok(t) => t,
            Err(e) => {
                return Err(e);
            },
        };
        let ghost s1 = *self;
        proof {
            assert(Seq::<int>::empty().push(a) =~= seq![a]);
            lemma_walk_tables(s1.context, s1.root, s1.paths@, a, b, c);
            assert(s1.paths@.contains_key(Seq::<int>::empty()));
            assert(seq![a] != Seq::<int>::empty()) by {
                assert(seq![a].len() != Seq::<int>::empty().len());
            }
        }
        let ghost p1 = seq![a];
        let l2 = match self.make_directory(l3, idx[2].index(), flags, Ghost(p1)) {
            Ok(t) => t,
            Err(e) => {
                return Err(e);
            },
        };
        proof {
            let s2 = *self;
            assert(seq![a].push(b) =~= seq![a, b]);
            assert(s2.context.word(root, a) == s1.context.word(root, a));
            assert(s2.paths@[seq![a]] == l3);
        }
        Ok(EntryLocation { table: l2, index: idx[1].index() })
    }

    /// Returns the location of the level 3 entry for the provided virtual address, creating the
    /// missing directory on the way with the provided flags.
    pub fn make_1gib_entry(&mut self, virt: VirtAddr, flags: u64) -> (r: Result<
        EntryLocation,
        MappingError,
    >)
        requires
            old(self).wf(),
            virt % ONE_GIB == 0,
            mapping_flags(flags),
        ensures
            final(self).wf(),
            final(self).root_table() == old(self).root_table(),
            final(self).same_mappings(old(self)),
            final(self).same_slot2(old(self)),
            final(self).same_slot3(old(self)),
            r != Err::<EntryLocation, MappingError>(MappingError::AlreadyMapped),
            r == Err::<EntryLocation, MappingError>(MappingError::OutOfMemory) ==> !old(
                self,
            ).occupied_1gib(virt) && final(self).out_of_memory(),
            match r {
                Ok(loc) => {
                    &&& final(self).has_table(seq![level_index(virt, 4)])
                    &&& loc.table == final(self).table_at(seq![level_index(virt, 4)])
                    &&& loc.index == level_index(virt, 3)
                },
                Err(_) => true,
            },
            r is Err ==> final(self).owned_pages() == old(self).owned_pages(),
            r == Err::<EntryLocation, MappingError>(MappingError::OutOfMemory) ==> old(
                self,
            ).out_of_memory(),
            !present_bit(old(self).root_entry(virt)) ==> (r is Err <==> old(self).out_of_memory()),
            match r {
                Ok(loc) => if present_bit(old(self).root_entry(virt)) {
                    &&& final(self).owned_pages() == old(self).owned_pages()
                    &&& final(self).root_entry(virt) == old(self).root_entry(virt) | flags
                } else {
                    &&& !old(self).owned_pages().contains(loc.table)
                    &&& final(self).owned_pages() == old(self).owned_pages().insert(loc.table)
                    &&& final(self).root_entry(virt) == loc.table | flags | PAGE_PRESENT
                    &&& forall|i: int|
                        0 <= i < 512 ==> #[trigger] final(self).table_word(loc.table, i) == 0
                },
                Err(_) => true,
            },
    {
        let ghost s0 = *self;
        let idx = PageTableIndex::break_virtual_address(virt);
        let ghost a = level_index(virt, 4);
        proof {
            lemma_level_index_bound(virt);
            lemma_walk_tables(s0.context, s0.root, s0.paths@, a, 0, 0);
            assert(s0.paths@.contains_key(Seq::<int>::empty()));
        }
        let root = self.root;
        let l3 = match self.make_directory(root, idx[3].index(), flags, Ghost(Seq::<int>::empty())) {
            Ok(t) => t,
            Err(e) => {
                return Err(e);
            },
        };
        proof {
            assert(Seq::<int>::empty().push(a) =~= seq![a]);
        }
        Ok(EntryLocation { table: l3, index: idx[2].index() })
    }

    /// Maps a 4KiB page to the provided physical address.
    ///
    /// On success every directory entry on the walk of `virt` carries `flags`.
    pub fn map_4kib(&mut self, virt: VirtAddr, phys: PhysAddr, flags: u64) -> (r: Result<
        (),
        MappingError,
    >)
        requires
            old(self).wf(),
            virt % FOUR_KIB == 0,
            phys & !PAGE_ADDRESS_MASK == 0,
            mapping_flags(flags),
        ensures
            final(self).wf(),
            final(self).root_table() == old(self).root_table(),
            (r == Err::<(), MappingError>(MappingError::AlreadyMapped)) <==> old(self).mapping(
                virt,
            ) is Some,
            r == Err::<(), MappingError>(MappingError::OutOfMemory) ==> old(self).mapping(
                virt,
            ) is None && final(self).out_of_memory(),
            r is Err ==> final(self).same_mappings(old(self)),
            final(self).slots_kept_at(
                old(self),
                level_index(virt, 4),
                level_index(virt, 3),
                level_index(virt, 2),
            ),
            r is Ok ==> final(self).mapping(virt) == Some(
                Mapping::Page4KiB(phys | flags | PAGE_PRESENT),
            ),
            forall|w: VirtAddr| !same_4kib(virt, w) ==> #[trigger] final(self).mapping(w) == old(
                self,
            ).mapping(w),
            r is Ok ==> final(self).walk_entry(virt, 4) & flags == flags && final(self).walk_entry(
                virt,
                3,
            ) & flags == flags && final(self).walk_entry(virt, 2) & flags == flags,
    {
        proof {
            reveal(AddressSpace::slots_kept_at);
        }
        let ghost s0 = *self;
        let loc = match self.make_4kib_entry(virt, flags) {
            Ok(l) => l,
            Err(e) => {
                proof {
                    self.lemma_same_mappings(&s0);
                }
                return Err(e);
            },
        };
        let ghost s1 = *self;
        let ghost a = level_index(virt, 4);
        let ghost b = level_index(virt, 3);
        let ghost c = level_index(virt, 2);
        let ghost d = level_index(virt, 1);
        let ghost path = seq![a, b, c];
        proof {
            lemma_level_index_bound(virt);
            s1.lemma_same_mappings(&s0);
            assert(seq![a].push(b) =~= seq![a, b]);
            assert(seq![a, b].push(c) =~= seq![a, b, c]);
            assert(s1.paths@.contains_key(seq![a, b]));
            assert(s1.paths@.contains_key(seq![a]));
            lemma_walk_tables(s1.context, s1.root, s1.paths@, a, b, c);
        }
        let entry = PageTableEntry(self.context.read(loc.table, loc.index));
        if entry.is_present() {
            return Err(MappingError::AlreadyMapped);
        }
        let value = PageTableEntry::from_address(phys).union(flags).union(PAGE_PRESENT);
        self.context.write(loc.table, loc.index, value.0);
        proof {
            let c1 = s1.context;
            let c2 = self.context;
            let root = self.root;
            let paths = s1.paths@;
            lemma_entry_bits(0, 0, phys | flags);
            lemma_write_wf(c1, c2, root, paths, path, d);
            lemma_walk_tables(c2, root, paths, a, b, c);
            assert forall|w: VirtAddr| !same_4kib(virt, w) implies #[trigger] self.mapping(w)
                == s0.mapping(w) by {
                lemma_level_index_bound(w);
                lemma_single_write(
                    c1,
                    c2,
                    root,
                    paths,
                    path,
                    d,
                    level_index(w, 4),
                    level_index(w, 3),
                    level_index(w, 2),
                    level_index(w, 1),
                );
                lemma_agree(
                    c1,
                    c2,
                    root,
                    level_index(w, 4),
                    level_index(w, 3),
                    level_index(w, 2),
                    level_index(w, 1),
                );
            }
            let e: int = if d == 0 {
                1
            } else {
                0
            };
            assert forall|x: int, y: int, z: int|
                0 <= x < 512 && 0 <= y < 512 && 0 <= z < 512 implies #[trigger] slot2_present(
                c2,
                root,
                x,
                y,
                z,
            ) == slot2_present(c1, root, x, y, z) && slot3_present(c2, root, x, y) == slot3_present(
                c1,
                root,
                x,
                y,
            ) by {
                lemma_single_write(c1, c2, root, paths, path, d, x, y, z, e);
                lemma_agree(c1, c2, root, x, y, z, e);
            }
            assert forall|x: int, y: int|
                0 <= x < 512 && 0 <= y < 512 implies #[trigger] slot3_present(c2, root, x, y)
                == slot3_present(c1, root, x, y) by {
                assert(slot2_present(c2, root, x, y, 0) == slot2_present(c1, root, x, y, 0));
            }
            assert(self.slots_kept_at(&s0, a, b, c));
        }
        proof {
            assert(s1.paths@.contains_key(Seq::<int>::empty()));
            assert(seq![a, b, c] != Seq::<int>::empty()) by {
                assert(seq![a, b, c].len() != Seq::<int>::empty().len());
            }
            assert(seq![a, b, c] != seq![a]) by {
                assert(seq![a, b, c].len() != seq![a].len());
            }
            assert(seq![a, b, c] != seq![a, b]) by {
                assert(seq![a, b, c].len() != seq![a, b].len());
            }
            assert(self.walk_entry(virt, 4) == s1.walk_entry(virt, 4));
            assert(self.walk_entry(virt, 3) == s1.walk_entry(virt, 3));
            assert(self.walk_entry(virt, 2) == s1.walk_entry(virt, 2));
        }
        Ok(())
    }

    /// Maps a 2MiB page to the provided physical address.
    ///
    /// On success every directory entry on the walk of `virt` carries `flags`.
    pub fn map_2mib(&mut self, virt: VirtAddr, phys: PhysAddr, flags: u64) -> (r: Result<
        (),
        MappingError,
    >)
        requires
            old(self).wf(),
            virt % TWO_MIB == 0,
            phys % TWO_MIB == 0,
            phys & !PAGE_ADDRESS_MASK == 0,
            mapping_flags(flags),
        ensures
            final(self).wf(),
            final(self).root_table() == old(self).root_table(),
            (r == Err::<(), MappingError>(MappingError::AlreadyMapped)) <==> (old(self).mapping(
                virt,
            ) matches Some(Mapping::Page1GiB(_)) || old(self).occupied_2mib(virt)),
            r == Err::<(), MappingError>(MappingError::OutOfMemory) ==> !old(self).occupied_1gib(
                virt,
            ) && final(self).out_of_memory(),
            r == Err::<(), MappingError>(MappingError::AlreadyMapped) ==> (final(self).mapping(
                virt,
            ) matches Some(Mapping::Page1GiB(_)) || final(self).occupied_2mib(virt)),
            r is Err ==> final(self).same_mappings(old(self)),
            final(self).slots_kept_at(
                old(self),
                level_index(virt, 4),
                level_index(virt, 3),
                level_index(virt, 2),
            ),
            forall|w: VirtAddr|
                r is Ok && same_2mib(virt, w) ==> #[trigger] final(self).mapping(w) == Some(
                    Mapping::Page2MiB(phys | flags | PAGE_PRESENT | PAGE_SIZE),
                ),
            forall|w: VirtAddr| !same_2mib(virt, w) ==> #[trigger] final(self).mapping(w) == old(
                self,
            ).mapping(w),
            r is Ok ==> final(self).walk_entry(virt, 4) & flags == flags && final(self).walk_entry(
                virt,
                3,
            ) & flags == flags,
    {
        proof {
            reveal(AddressSpace::slots_kept_at);
        }
        let ghost s0 = *self;
        let loc = match self.make_2mib_entry(virt, flags) {
            Ok(l) => l,
            Err(e) => {
                proof {
                    self.lemma_same_mappings(&s0);
                }
                return Err(e);
            },
        };
        let ghost s1 = *self;
        let ghost a = level_index(virt, 4);
        let ghost b = level_index(virt, 3);
        let ghost c = level_index(virt, 2);
        let ghost path = seq![a, b];
        proof {
            lemma_level_index_bound(virt);
            s1.lemma_same_mappings(&s0);
            assert(seq![a].push(b) =~= seq![a, b]);
            assert(s1.paths@.contains_key(seq![a]));
            lemma_walk_tables(s1.context, s1.root, s1.paths@, a, b, c);
            assert(s1.occupied_2mib(virt) == s0.occupied_2mib(virt));
            assert(s1.mapping(virt) == s0.mapping(virt));
        }
        let entry = PageTableEntry(self.context.read(loc.table, loc.index));
        if entry.is_present() {
            return Err(MappingError::AlreadyMapped);
        }
        let value = PageTableEntry::from_address(phys).union(flags).union(PAGE_PRESENT).union(
            PAGE_SIZE,
        );
        self.context.write(loc.table, loc.index, value.0);
        proof {
            let c1 = s1.context;
            let c2 = self.context;
            let root = self.root;
            let paths = s1.paths@;
            lemma_entry_bits(0, 0, phys | flags);
            lemma_write_wf(c1, c2, root, paths, path, c);
            assert forall|w: VirtAddr| #[trigger] self.mapping(w) == (if same_2mib(virt, w) {
                Some(Mapping::Page2MiB(phys | flags | PAGE_PRESENT | PAGE_SIZE))
            } else {
                s0.mapping(w)
            }) by {
                lemma_level_index_bound(w);
                if same_2mib(virt, w) {
                    lemma_walk_tables(c2, root, paths, a, b, c);
                } else {
                    lemma_single_write(
                        c1,
                        c2,
                        root,
                        paths,
                        path,
                        c,
                        level_index(w, 4),
                        level_index(w, 3),
                        level_index(w, 2),
                        level_index(w, 1),
                    );
                    lemma_agree(
                        c1,
                        c2,
                        root,
                        level_index(w, 4),
                        level_index(w, 3),
                        level_index(w, 2),
                        level_index(w, 1),
                    );
                }
            }
            let e: int = if c == 0 {
                1
            } else {
                0
            };
            assert forall|x: int, y: int|
                0 <= x < 512 && 0 <= y < 512 implies #[trigger] slot3_present(c2, root, x, y)
                == slot3_present(c1, root, x, y) by {
                lemma_single_write(c1, c2, root, paths, path, c, x, y, e, 0);
                lemma_agree(c1, c2, root, x, y, e, 0);
            }
            assert forall|x: int, y: int, z: int|
                0 <= x < 512 && 0 <= y < 512 && 0 <= z < 512 && !(x == a && y == b && z == c)
                    implies #[trigger] slot2_present(c2, root, x, y, z) == slot2_present(
                c1,
                root,
                x,
                y,
                z,
            ) by {
                lemma_single_write(c1, c2, root, paths, path, c, x, y, z, 0);
                lemma_agree(c1, c2, root, x, y, z, 0);
            }
            assert(self.slots_kept_at(&s0, a, b, c));
        }
        proof {
            assert(s1.paths@.contains_key(Seq::<int>::empty()));
            assert(seq![a, b] != Seq::<int>::empty()) by {
                assert(seq![a, b].len() != Seq::<int>::empty().len());
            }
            assert(seq![a, b] != seq![a]) by {
                assert(seq![a, b].len() != seq![a].len());
            }
            assert(self.walk_entry(virt, 4) == s1.walk_entry(virt, 4));
            assert(self.walk_entry(virt, 3) == s1.walk_entry(virt, 3));
        }
        Ok(())
    }

    /// What mapping a 1GiB page at `virt` to `phys` with `flags`, from `before`, does to the
    /// level 4 entry of `virt` and to the pages that the context owns, `ok` telling whether it
    /// succeeded. Where that entry is present, no page is allocated and, on success, the entry
    /// gains `flags`. Where it is not, the step succeeds exactly when the context is not out of
    /// memory, and then exactly one page is allocated: a level 3 table, which the new level 4
    /// entry references with `flags` and the present bit, and whose only non-zero entry maps
    /// the 1GiB page.
    #[verifier::opaque]
    pub open spec fn root_step_1gib(
        &self,
        before: &Self,
        virt: VirtAddr,
        phys: PhysAddr,
        flags: u64,
        ok: bool,
    ) -> bool {
        &&& present_bit(before.root_entry(virt)) || !ok ==> self.owned_pages()
            == before.owned_pages()
        &&& present_bit(before.root_entry(virt)) && ok ==> self.root_entry(virt)
            == before.root_entry(virt) | flags
        &&& !present_bit(before.root_entry(virt)) ==> (ok <==> !before.out_of_memory())
        &&& !present_bit(before.root_entry(virt)) && ok ==> {
            let l3 = entry_address(self.root_entry(virt));
            &&& !before.owned_pages().contains(l3)
            &&& self.owned_pages() == before.owned_pages().insert(l3)
            &&& self.root_entry(virt) == l3 | flags | PAGE_PRESENT
            &&& self.table_word(l3, level_index(virt, 3)) == phys | flags | PAGE_PRESENT
                | PAGE_SIZE
            &&& forall|i: int|
                0 <= i < 512 && i != level_index(virt, 3) ==> #[trigger] self.table_word(l3, i)
                    == 0
        }
    }

    /// Maps a 1GiB page to the provided physical address.
    ///
    /// Where the level 4 entry of `virt` is not present, this allocates exactly one page, for
    /// the level 3 table, as [`AddressSpace::root_step_1gib`] states.
    pub fn map_1gib(&mut self, virt: VirtAddr, phys: PhysAddr, flags: u64) -> (r: Result<
        (),
        MappingError,
    >)
        requires
            old(self).wf(),
            virt % ONE_GIB == 0,
            phys % ONE_GIB == 0,
            phys & !PAGE_ADDRESS_MASK == 0,
            mapping_flags(flags),
        ensures
            final(self).wf(),
            final(self).root_table() == old(self).root_table(),
            (r == Err::<(), MappingError>(MappingError::AlreadyMapped)) <==> old(
                self,
            ).occupied_1gib(virt),
            r == Err::<(), MappingError>(MappingError::OutOfMemory) ==> final(self).out_of_memory(),
            r == Err::<(), MappingError>(MappingError::AlreadyMapped) ==> final(self).occupied_1gib(
                virt,
            ),
            r is Err ==> final(self).same_mappings(old(self)),
            final(self).slots_kept_at(old(self), level_index(virt, 4), level_index(virt, 3), -1),
            final(self).root_step_1gib(old(self), virt, phys, flags, r is Ok),
            forall|w: VirtAddr|
                r is Ok && same_1gib(virt, w) ==> #[trigger] final(self).mapping(w) == Some(
                    Mapping::Page1GiB(phys | flags | PAGE_PRESENT | PAGE_SIZE),
                ),
            forall|w: VirtAddr| !same_1gib(virt, w) ==> #[trigger] final(self).mapping(w) == old(
                self,
            ).mapping(w),
    {
        proof {
            reveal(AddressSpace::slots_kept_at);
            reveal(AddressSpace::root_step_1gib);
        }
        let ghost s0 = *self;
        let loc = match self.make_1gib_entry(virt, flags) {
            Ok(l) => l,
            Err(e) => {
                proof {
                    self.lemma_same_mappings(&s0);
                }
                return Err(e);
            },
        };
        let ghost s1 = *self;
        let ghost a = level_index(virt, 4);
        let ghost b = level_index(virt, 3);
        let ghost path = seq![a];
        proof {
            lemma_level_index_bound(virt);
            s1.lemma_same_mappings(&s0);
            lemma_walk_tables(s1.context, s1.root, s1.paths@, a, b, 0);
            assert(s1.occupied_1gib(virt) == s0.occupied_1gib(virt));
        }
        proof {
            assert(Seq::<int>::empty().push(a) =~= path);
            assert(loc.table != s1.root);
            if !present_bit(s0.root_entry(virt)) {
                lemma_entry_bits(0, 0, 0);
                assert(s1.table_word(loc.table, b) == 0);
            }
        }
        let entry = PageTableEntry(self.context.read(loc.table, loc.index));
        if entry.is_present() {
            return Err(MappingError::AlreadyMapped);
        }
        let value = PageTableEntry::from_address(phys).union(flags).union(PAGE_PRESENT).union(
            PAGE_SIZE,
        );
        self.context.write(loc.table, loc.index, value.0);
        proof {
            let c1 = s1.context;
            let c2 = self.context;
            let root = self.root;
            let paths = s1.paths@;
            lemma_entry_bits(0, 0, phys | flags);
            lemma_write_wf(c1, c2, root, paths, path, b);
            assert forall|w: VirtAddr| #[trigger] self.mapping(w) == (if same_1gib(virt, w) {
                Some(Mapping::Page1GiB(phys | flags | PAGE_PRESENT | PAGE_SIZE))
            } else {
                s0.mapping(w)
            }) by {
                lemma_level_index_bound(w);
                if same_1gib(virt, w) {
                    lemma_walk_tables(c2, root, paths, a, b, 0);
                } else {
                    lemma_single_write(
                        c1,
                        c2,
                        root,
                        paths,
                        path,
                        b,
                        level_index(w, 4),
                        level_index(w, 3),
                        level_index(w, 2),
                        level_index(w, 1),
                    );
                    lemma_agree(
                        c1,
                        c2,
                        root,
                        level_index(w, 4),
                        level_index(w, 3),
                        level_index(w, 2),
                        level_index(w, 1),
                    );
                }
            }
            assert forall|x: int, y: int|
                0 <= x < 512 && 0 <= y < 512 && !(x == a && y == b) implies #[trigger] slot3_present(
                c2,
                root,
                x,
                y,
            ) == slot3_present(c1, root, x, y) by {
                lemma_single_write(c1, c2, root, paths, path, b, x, y, 0, 0);
                lemma_agree(c1, c2, root, x, y, 0, 0);
            }
            assert forall|x: int, y: int, z: int|
                0 <= x < 512 && 0 <= y < 512 && 0 <= z < 512 implies #[trigger] slot2_present(
                c2,
                root,
                x,
                y,
                z,
            ) == slot2_present(c1, root, x, y, z) by {
                if x == a && y == b {
                    lemma_walk_tables(c1, root, paths, a, b, z);
                    lemma_walk_tables(c2, root, paths, a, b, z);
                    lemma_entry_bits(0, 0, phys | flags);
                    assert(!is_dir(c1.word(paths[seq![a]], b)));
                    assert(!is_dir(c2.word(paths[seq![a]], b)));
                } else {
                    lemma_single_write(c1, c2, root, paths, path, b, x, y, z, 0);
                    lemma_agree(c1, c2, root, x, y, z, 0);
                }
            }
            assert(self.slots_kept_at(&s0, a, b, -1));
            assert(self.root_entry(virt) == s1.root_entry(virt));
            assert(entry_address(self.root_entry(virt)) == paths[path]);
            assert forall|i: int| 0 <= i < 512 && i != b implies #[trigger] self.table_word(
                loc.table,
                i,
            ) == s1.table_word(loc.table, i) by {}
        }
        Ok(())
    }

    /// The level 1 entry of a page is found exactly when the page has a 4KiB mapping. A walk
    /// that stops at level 3 or 2 reports a present entry exactly when a 1GiB or a 2MiB page
    /// maps the address there; one that stops at level 1 reports no present entry, and one that
    /// stops at level 4 means the address is not mapped.
    pub proof fn lemma_locate_mapping(&self, virt: VirtAddr)
        ensures
            self.locate(virt) is Ok <==> self.mapping(virt) matches Some(Mapping::Page4KiB(_)),
            self.locate(virt) matches Err(m) ==> match m.layer {
                MappingLayer::L4 => self.mapping(virt) is None,
                MappingLayer::L3 => m.mapping <==> self.mapping(virt) matches Some(
                    Mapping::Page1GiB(_),
                ),
                MappingLayer::L2 => m.mapping <==> self.mapping(virt) matches Some(
                    Mapping::Page2MiB(_),
                ),
                MappingLayer::L1 => !m.mapping && self.mapping(virt) is None,
            },
    {
    }

    /// Whether something stands where a mapping of `v` would go: a mapping, or an occupied
    /// level 2 or level 3 slot.
    pub open spec fn in_use(&self, v: VirtAddr) -> bool {
        self.mapping(v) is Some || self.occupied_2mib(v) || self.occupied_1gib(v)
    }

    /// Whether every address from `virt` up to `stop` translates to the matching address from
    /// `phys`, by an entry that carries all of `flags`.
    pub open spec fn maps_prefix(
        &self,
        virt: VirtAddr,
        phys: PhysAddr,
        flags: u64,
        stop: VirtAddr,
    ) -> bool {
        forall|k: VirtAddr|
            virt <= k < stop ==> #[trigger] self.mapping(k) is Some && mapped_address(
                self.mapping(k)->0,
                k,
            ) == phys + (k - virt) && entry_of(self.mapping(k)->0) & flags == flags
    }

    /// Paging reads only the low 48 bits of an address: an address is mapped as the one made of
    /// its low 48 bits.
    pub proof fn lemma_low_bits_mapping(&self, w: VirtAddr)
        ensures
            self.mapping(w) == self.mapping(w & 0xFFFF_FFFF_FFFFu64),
            (w & 0xFFFF_FFFF_FFFFu64) >> 48u64 == 0,
            w >= 0xFFFF_8000_0000_0000u64 ==> (w & 0xFFFF_FFFF_FFFFu64) >= 0x8000_0000_0000u64,
    {
        let v = w & 0xFFFF_FFFF_FFFFu64;
        assert(v >> 48u64 == 0 && (w >= 0xFFFF_8000_0000_0000u64 ==> v >= 0x8000_0000_0000u64)
            && (w >> 12u64) & 0x1ffu64 == (v >> 12u64) & 0x1ffu64 && (w >> 21u64) & 0x1ffu64 == (v
            >> 21u64) & 0x1ffu64 && (w >> 30u64) & 0x1ffu64 == (v >> 30u64) & 0x1ffu64 && (w
            >> 39u64) & 0x1ffu64 == (v >> 39u64) & 0x1ffu64) by (bit_vector)
            requires
                v == w & 0xFFFF_FFFF_FFFFu64,
        ;
    }

    /// An unoccupied level 3 slot maps none of the addresses it translates.
    pub proof fn lemma_unoccupied_1gib(&self, v: VirtAddr, w: VirtAddr)
        requires
            !self.occupied_1gib(v),
            same_1gib(v, w),
        ensures
            self.mapping(w) is None,
    {
    }

    /// An unoccupied level 2 slot, under no 1GiB mapping, maps none of the addresses it
    /// translates.
    pub proof fn lemma_unoccupied_2mib(&self, v: VirtAddr, w: VirtAddr)
        requires
            !self.occupied_2mib(v),
            !(self.mapping(v) matches Some(Mapping::Page1GiB(_))),
            same_2mib(v, w),
        ensures
            self.mapping(w) is None,
    {
    }

    /// Whether no address from `virt` up to `stop` is mapped.
    #[verifier::opaque]
    pub open spec fn unmapped_between(&self, virt: VirtAddr, stop: int) -> bool {
        forall|k: VirtAddr| virt <= k < stop ==> #[trigger] self.mapping(k) is None
    }

    /// Whether the slot that a page of `size` bytes at `stop` needs is taken: a mapping for a
    /// 4KiB page; a 1GiB mapping or an occupied level 2 slot for a 2MiB page; an occupied level 3
    /// slot for a 1GiB page.
    pub open spec fn chunk_in_use(&self, stop: VirtAddr, size: u64) -> bool {
        if size == FOUR_KIB {
            self.mapping(stop) is Some
        } else if size == TWO_MIB {
            self.mapping(stop) matches Some(Mapping::Page1GiB(_)) || self.occupied_2mib(stop)
        } else {
            self.occupied_1gib(stop)
        }
    }

    /// The aligned level 2 and level 3 slots of the addresses of the block of `v0` from `from` on
    /// are occupied in `self` as in `other`.
    #[verifier::opaque]
    pub open spec fn slots_kept_from(&self, other: &Self, v0: VirtAddr, from: int) -> bool {
        forall|w: VirtAddr|
            w >> 48u64 == v0 >> 48u64 && w >= from ==> (w % TWO_MIB == 0 ==> #[trigger] self.occupied_2mib(w)
                == other.occupied_2mib(w)) && (w % ONE_GIB == 0 ==> self.occupied_1gib(w)
                == other.occupied_1gib(w))
    }

    /// Every slot occupied in `self` and not in `other` translates some address of
    /// `[v0, to)`.
    #[verifier::opaque]
    pub open spec fn slots_from_range(&self, other: &Self, v0: VirtAddr, to: int) -> bool {
        &&& forall|w: VirtAddr|
            #[trigger] self.occupied_1gib(w) ==> other.occupied_1gib(w) || exists|k: VirtAddr|
                v0 <= k < to && #[trigger] same_1gib(k, w)
        &&& forall|w: VirtAddr|
            #[trigger] self.occupied_2mib(w) ==> other.occupied_2mib(w) || exists|k: VirtAddr|
                v0 <= k < to && #[trigger] same_2mib(k, w)
    }

    /// What a step of [`AddressSpace::map_range`] that maps `size` bytes at `vv` does to the
    /// occupancy of the slots, given what the step keeps.
    #[verifier::spinoff_prover]
    proof fn lemma_chunk_slots(
        s0: Self,
        s1: Self,
        s2: Self,
        v0: VirtAddr,
        l0: u64,
        vv: VirtAddr,
        size: u64,
    )
        requires
            same_half_range(v0, l0),
            v0 + l0 <= u64::MAX,
            v0 <= vv,
            vv + size <= v0 + l0,
            size == FOUR_KIB || size == TWO_MIB || size == ONE_GIB,
            vv % size == 0,
            s1.slots_kept_from(&s0, v0, vv as int),
            s1.slots_from_range(&s0, v0, vv as int),
            s2.slots_kept_at(
                &s1,
                level_index(vv, 4),
                level_index(vv, 3),
                if size == ONE_GIB {
                    -1
                } else {
                    level_index(vv, 2) as int
                },
            ),
        ensures
            s2.slots_kept_from(&s0, v0, vv + size),
            s2.slots_from_range(&s0, v0, vv + size),
    {
        reveal(AddressSpace::slots_kept_at);
        reveal(AddressSpace::slots_kept_from);
        reveal(AddressSpace::slots_from_range);
        lemma_level_index_bound(vv);
        assert forall|w: VirtAddr|
            w >> 48u64 == v0 >> 48u64 && w >= vv + size implies (w % TWO_MIB == 0
            ==> #[trigger] s2.occupied_2mib(w) == s0.occupied_2mib(w)) && (w % ONE_GIB == 0
            ==> s2.occupied_1gib(w) == s0.occupied_1gib(w)) by {
            lemma_level_index_bound(w);
            if w % TWO_MIB == 0 {
                let b = (vv - vv % TWO_MIB) as u64;
                assert(w >= b + TWO_MIB);
                lemma_align_down_half(vv);
                lemma_same_half(v0, l0, vv);
                lemma_block(b, w);
                lemma_block(b, vv);
                assert(!same_2mib(vv, w));
                assert(s1.occupied_2mib(w) == s0.occupied_2mib(w));
            }
            if w % ONE_GIB == 0 {
                let b = (vv - vv % ONE_GIB) as u64;
                assert(w >= b + ONE_GIB);
                lemma_align_down_half(vv);
                lemma_same_half(v0, l0, vv);
                lemma_block(b, w);
                lemma_block(b, vv);
                assert(!same_1gib(vv, w));
                assert(s1.occupied_1gib(w) == s0.occupied_1gib(w));
            }
        }
        assert forall|w: VirtAddr| #[trigger] s2.occupied_1gib(w) implies s0.occupied_1gib(w)
            || exists|k: VirtAddr| v0 <= k < vv + size && #[trigger] same_1gib(k, w) by {
            lemma_level_index_bound(w);
            if same_1gib(vv, w) {
                assert(v0 <= vv < vv + size && same_1gib(vv, w));
            } else {
                assert(s1.occupied_1gib(w));
                if !s0.occupied_1gib(w) {
                    let k = choose|k: VirtAddr| v0 <= k < vv && #[trigger] same_1gib(k, w);
                    assert(v0 <= k < vv + size && same_1gib(k, w));
                }
            }
        }
        assert forall|w: VirtAddr| #[trigger] s2.occupied_2mib(w) implies s0.occupied_2mib(w)
            || exists|k: VirtAddr| v0 <= k < vv + size && #[trigger] same_2mib(k, w) by {
            lemma_level_index_bound(w);
            if size != ONE_GIB && same_2mib(vv, w) {
                assert(v0 <= vv < vv + size && same_2mib(vv, w));
            } else {
                assert(s1.occupied_2mib(w));
                if !s0.occupied_2mib(w) {
                    let k = choose|k: VirtAddr| v0 <= k < vv && #[trigger] same_2mib(k, w);
                    assert(v0 <= k < vv + size && same_2mib(k, w));
                }
            }
        }
    }

    /// The chunk of `size` bytes at `vv` of a range being mapped was unmapped at the start when
    /// its slot was free before the step that mapped it.
    proof fn lemma_chunk_was_free(s0: Self, s1: Self, v0: VirtAddr, l0: u64, vv: VirtAddr, size: u64)
        requires
            same_half_range(v0, l0),
            v0 + l0 <= u64::MAX,
            v0 <= vv,
            vv + size <= v0 + l0,
            size == FOUR_KIB || size == TWO_MIB || size == ONE_GIB,
            vv % size == 0,
            forall|w: VirtAddr|
                w >> 48u64 == v0 >> 48u64 && !(v0 <= w < vv) ==> #[trigger] s1.mapping(w)
                    == s0.mapping(w),
            size == FOUR_KIB ==> s1.mapping(vv) is None,
            size == TWO_MIB ==> !s1.occupied_2mib(vv) && !(s1.mapping(vv) matches Some(
                Mapping::Page1GiB(_),
            )),
            size == ONE_GIB ==> !s1.occupied_1gib(vv),
            s0.unmapped_between(v0, vv as int),
        ensures
            s0.unmapped_between(v0, vv + size),
    {
        reveal(AddressSpace::unmapped_between);
        assert forall|k: VirtAddr| vv <= k < vv + size implies #[trigger] s0.mapping(k) is None by {
            lemma_same_half(v0, l0, k);
            lemma_same_half(v0, l0, vv);
            lemma_block(vv, k);
            if size == FOUR_KIB {
                s1.lemma_same_page_mapping(vv, k);
            } else if size == TWO_MIB {
                s1.lemma_unoccupied_2mib(vv, k);
            } else {
                s1.lemma_unoccupied_1gib(vv, k);
            }
            assert(s1.mapping(k) == s0.mapping(k));
        }
    }

    /// A step of [`AddressSpace::map_range`] that fails leaves every newly occupied slot
    /// translating an address of the range, and, when it fails because the slot that its chunk
    /// needs is taken, that slot was taken before the range was started.
    #[verifier::spinoff_prover]
    proof fn lemma_chunk_failed(
        s0: Self,
        s1: Self,
        s2: Self,
        v0: VirtAddr,
        p0: PhysAddr,
        l0: u64,
        vv: VirtAddr,
        pp: PhysAddr,
        rem: u64,
        size: u64,
        taken: bool,
    )
        requires
            forall|k: int|
                vv <= k < v0 + l0 ==> #[trigger] page_size_at(v0 as int, p0 as int, l0 as int, k)
                    == page_size_at(vv as int, pp as int, rem as int, k),
            vv + rem == v0 + l0,
            size == step_size(vv as int, pp as int, rem as int),
            same_half_range(v0, l0),
            v0 + l0 <= u64::MAX,
            v0 <= vv,
            vv + size <= v0 + l0,
            size == FOUR_KIB || size == TWO_MIB || size == ONE_GIB,
            vv % size == 0,
            forall|w: VirtAddr|
                w >> 48u64 == v0 >> 48u64 && !(v0 <= w < vv) ==> #[trigger] s1.mapping(w)
                    == s0.mapping(w),
            s1.slots_kept_from(&s0, v0, vv as int),
            s1.slots_from_range(&s0, v0, vv as int),
            s2.slots_kept_at(
                &s1,
                level_index(vv, 4),
                level_index(vv, 3),
                if size == ONE_GIB {
                    -1
                } else {
                    level_index(vv, 2) as int
                },
            ),
            taken ==> s1.chunk_in_use(vv, size),
        ensures
            taken ==> s0.chunk_in_use(vv, size),
            size == page_size_at(v0 as int, p0 as int, l0 as int, vv as int),
            s2.slots_from_range(&s0, v0, v0 + l0),
    {
        Self::lemma_step_sizes(v0 as int, p0 as int, l0 as int, vv as int, pp as int, rem as int);
        Self::lemma_chunk_slots(s0, s1, s2, v0, l0, vv, size);
        lemma_same_half(v0, l0, vv);
        reveal(AddressSpace::slots_kept_from);
        assert(s1.mapping(vv) == s0.mapping(vv));
        s2.lemma_slots_from_range_grow(&s0, v0, vv + size, v0 + l0);
    }

    /// A slot that translates an address of a range translates one of every longer range.
    pub proof fn lemma_slots_from_range_grow(&self, other: &Self, v0: VirtAddr, to: int, to2: int)
        requires
            self.slots_from_range(other, v0, to),
            to <= to2,
        ensures
            self.slots_from_range(other, v0, to2),
    {
        reveal(AddressSpace::slots_from_range);
        assert forall|w: VirtAddr| #[trigger] self.occupied_1gib(w) implies other.occupied_1gib(w)
            || exists|k: VirtAddr| v0 <= k < to2 && #[trigger] same_1gib(k, w) by {
            if !other.occupied_1gib(w) {
                let k = choose|k: VirtAddr| v0 <= k < to && #[trigger] same_1gib(k, w);
                assert(v0 <= k < to2 && same_1gib(k, w));
            }
        }
        assert forall|w: VirtAddr| #[trigger] self.occupied_2mib(w) implies other.occupied_2mib(w)
            || exists|k: VirtAddr| v0 <= k < to2 && #[trigger] same_2mib(k, w) by {
            if !other.occupied_2mib(w) {
                let k = choose|k: VirtAddr| v0 <= k < to && #[trigger] same_2mib(k, w);
                assert(v0 <= k < to2 && same_2mib(k, w));
            }
        }
    }

    /// One step of mapping a range: the page size at the addresses that it maps, and the page
    /// sizes of the rest of the range, which the next steps map.
    proof fn lemma_step_sizes(v0: int, p0: int, l0: int, vv: int, pp: int, rem: int)
        requires
            forall|k: int|
                vv <= k < v0 + l0 ==> #[trigger] page_size_at(v0, p0, l0, k) == page_size_at(
                    vv,
                    pp,
                    rem,
                    k,
                ),
            vv + rem == v0 + l0,
            step_size(vv, pp, rem) <= rem,
        ensures
            forall|k: int|
                vv <= k < vv + step_size(vv, pp, rem) ==> #[trigger] page_size_at(v0, p0, l0, k)
                    == step_size(vv, pp, rem),
            forall|k: int|
                vv + step_size(vv, pp, rem) <= k < v0 + l0 ==> #[trigger] page_size_at(
                    v0,
                    p0,
                    l0,
                    k,
                ) == page_size_at(
                    vv + step_size(vv, pp, rem),
                    pp + step_size(vv, pp, rem),
                    rem - step_size(vv, pp, rem),
                    k,
                ),
    {
        reveal(page_size_at);
        let step = step_size(vv, pp, rem);
        assert forall|k: int| vv <= k < vv + step implies #[trigger] page_size_at(v0, p0, l0, k)
            == step by {
            assert(page_size_at(v0, p0, l0, k) == page_size_at(vv, pp, rem, k));
        }
        assert forall|k: int| vv + step <= k < v0 + l0 implies #[trigger] page_size_at(
            v0,
            p0,
            l0,
            k,
        ) == page_size_at(vv + step, pp + step, rem - step, k) by {
            assert(page_size_at(v0, p0, l0, k) == page_size_at(vv, pp, rem, k));
        }
    }

    /// Two addresses that the same level 1 entry translates have the same mapping.
    pub proof fn lemma_same_page_mapping(&self, v: VirtAddr, w: VirtAddr)
        requires
            same_4kib(v, w),
        ensures
            self.mapping(v) == self.mapping(w),
    {
    }

    /// Every address of a page that a 4KiB mapping maps to `phys` translates to the same offset
    /// in `phys`: what [`AddressSpace::map_4kib`] installs, [`AddressSpace::translate`] reads.
    pub proof fn lemma_map_then_translate(
        &self,
        virt: VirtAddr,
        phys: PhysAddr,
        flags: u64,
        off: u64,
    )
        requires
            virt % FOUR_KIB == 0,
            virt <= u64::MAX - 0x1000,
            off < FOUR_KIB,
            phys & !PAGE_ADDRESS_MASK == 0,
            mapping_flags(flags),
            self.mapping(virt) == Some(Mapping::Page4KiB(phys | flags | PAGE_PRESENT)),
        ensures
            self.translation((virt + off) as u64) == Some((phys + off) as u64),
    {
        let w: u64 = (virt + off) as u64;
        assert(virt >> 48u64 == w >> 48u64 && w & 0xFFF == off) by (bit_vector)
            requires
                w == virt + off,
                virt % 4096 == 0,
                off < 4096,
                virt <= 0xFFFF_FFFF_FFFF_EFFFu64,
        ;
        lemma_block(virt, w);
        assert(self.mapping(w) == self.mapping(virt));
        lemma_storable(phys, flags);
        lemma_entry_bits(phys, flags, 0);
    }

    /// Attempts to translate the provided virtual address to a physical address.
    ///
    /// The walk follows every present entry as a directory, huge mappings included.
    pub fn translate(&self, virt: VirtAddr) -> (r: Option<PhysAddr>)
        ensures
            r == self.translation(virt),
    {
        let idx = PageTableIndex::break_virtual_address(virt);
        proof {
            lemma_level_index_bound(virt);
        }
        let offset = virt & 0xFFF;
        let l4 = PageTableEntry(self.context.read(self.root, idx[3].index()));
        if !l4.is_present() {
            return None;
        }
        let l3 = PageTableEntry(self.context.read(l4.address(), idx[2].index()));
        if !l3.is_present() {
            return None;
        }
        let l2 = PageTableEntry(self.context.read(l3.address(), idx[1].index()));
        if !l2.is_present() {
            return None;
        }
        let l1 = PageTableEntry(self.context.read(l2.address(), idx[0].index()));
        if !l1.is_present() {
            return None;
        }
        proof {
            lemma_entry_bits(0, 0, l1.0);
            lemma_entry_bits(0, 0, virt);
        }
        Some(l1.address() + offset)
    }

    /// Returns the location of the 4KiB entry for the provided virtual address, or the layer at
    /// which the walk stopped.
    pub fn get_4kib_entry(&self, virt: VirtAddr) -> (r: Result<EntryLocation, PageMiss>)
        requires
            virt % FOUR_KIB == 0,
        ensures
            r == self.locate(virt),
    {
        let idx = PageTableIndex::break_virtual_address(virt);
        proof {
            lemma_level_index_bound(virt);
        }
        let l4 = PageTableEntry(self.context.read(self.root, idx[3].index()));
        if !l4.is_present() || l4.intersects(PAGE_SIZE) {
            return Err(PageMiss { layer: MappingLayer::L4, mapping: l4.is_present() });
        }
        let l3 = PageTableEntry(self.context.read(l4.address(), idx[2].index()));
        if !l3.is_present() || l3.intersects(PAGE_SIZE) {
            return Err(PageMiss { layer: MappingLayer::L3, mapping: l3.is_present() });
        }
        let l2 = PageTableEntry(self.context.read(l3.address(), idx[1].index()));
        if !l2.is_present() || l2.intersects(PAGE_SIZE) {
            return Err(PageMiss { layer: MappingLayer::L2, mapping: l2.is_present() });
        }
        let l1_table = l2.address();
        let l1 = PageTableEntry(self.context.read(l1_table, idx[0].index()));
        if !l1.is_present() {
            return Err(PageMiss { layer: MappingLayer::L1, mapping: false });
        }
        Ok(EntryLocation { table: l1_table, index: idx[0].index() })
    }

    /// Attempts to unmap the provided 4KiB page.
    pub fn unmap_4kib(&mut self, virt: VirtAddr) -> (r: Result<(), PageMiss>)
        requires
            old(self).wf(),
            virt % FOUR_KIB == 0,
        ensures
            final(self).wf(),
            final(self).root_table() == old(self).root_table(),
            r is Ok <==> old(self).mapping(virt) matches Some(Mapping::Page4KiB(_)),
            match r {
                Ok(()) => true,
                Err(m) => old(self).locate(virt) == Err::<EntryLocation, PageMiss>(m),
            },
            r is Ok ==> final(self).mapping(virt) is None,
            r is Ok ==> final(self).locate(virt) == Err::<EntryLocation, PageMiss>(
                PageMiss { layer: MappingLayer::L1, mapping: false },
            ),
            r is Err ==> *final(self) == *old(self),
            forall|w: VirtAddr| !same_4kib(virt, w) ==> #[trigger] final(self).mapping(w) == old(
                self,
            ).mapping(w),
            r is Err ==> final(self).same_mappings(old(self)),
    {
        let ghost s0 = *self;
        let loc = match self.get_4kib_entry(virt) {
            Ok(l) => l,
            Err(m) => {
                proof {
                    self.lemma_locate_mapping(virt);
                }
                return Err(m);
            },
        };
        let ghost a = level_index(virt, 4);
        let ghost b = level_index(virt, 3);
        let ghost c = level_index(virt, 2);
        let ghost d = level_index(virt, 1);
        let ghost path = seq![a, b, c];
        proof {
            lemma_level_index_bound(virt);
            self.lemma_locate_mapping(virt);
            lemma_walk_tables(s0.context, s0.root, s0.paths@, a, b, c);
            assert(s0.paths@.contains_key(path));
        }
        self.context.write(loc.table, loc.index, 0);
        proof {
            let c1 = s0.context;
            let c2 = self.context;
            let root = self.root;
            let paths = s0.paths@;
            lemma_entry_bits(0, 0, 0);
            lemma_write_wf(c1, c2, root, paths, path, d);
            lemma_walk_tables(c2, root, paths, a, b, c);
            assert forall|w: VirtAddr| !same_4kib(virt, w) implies #[trigger] self.mapping(w)
                == s0.mapping(w) by {
                lemma_level_index_bound(w);
                lemma_single_write(
                    c1,
                    c2,
                    root,
                    paths,
                    path,
                    d,
                    level_index(w, 4),
                    level_index(w, 3),
                    level_index(w, 2),
                    level_index(w, 1),
                );
                lemma_agree(
                    c1,
                    c2,
                    root,
                    level_index(w, 4),
                    level_index(w, 3),
                    level_index(w, 2),
                    level_index(w, 1),
                );
            }
        }
        Ok(())
    }

    /// Mapping a 4KiB page and unmapping it: the page that [`AddressSpace::map_4kib`] leaves
    /// mapped is one that [`AddressSpace::unmap_4kib`] finds (so that call succeeds), and once
    /// unmapped the walk stops at level 1 on an empty entry, so a second `unmap_4kib` fails with
    /// that miss, the page is no longer mapped and [`AddressSpace::translate`] finds nothing.
    pub proof fn lemma_map_then_unmap(
        mapped: &Self,
        unmapped: &Self,
        virt: VirtAddr,
        entry: u64,
    )
        requires
            mapped.mapping(virt) == Some(Mapping::Page4KiB(entry)),
            unmapped.locate(virt) == Err::<EntryLocation, PageMiss>(
                PageMiss { layer: MappingLayer::L1, mapping: false },
            ),
        ensures
            mapped.locate(virt) is Ok,
            mapped.has_4kib_mapping(virt),
            unmapped.mapping(virt) is None,
            !unmapped.has_4kib_mapping(virt),
            unmapped.translation(virt) is None,
    {
        mapped.lemma_locate_mapping(virt);
        unmapped.lemma_locate_mapping(virt);
    }

    /// Whether the 4KiB page that holds `virt` is mapped by a level 1 entry.
    pub open spec fn has_4kib_mapping(&self, virt: VirtAddr) -> bool {
        self.mapping(virt) matches Some(Mapping::Page4KiB(_))
    }

    /// Whether some address of `[u, u + count)` is mapped.
    pub open spec fn blocked(&self, u: VirtAddr, count: u64) -> bool {
        exists|m: VirtAddr| u <= m < u + count && #[trigger] self.mapping(m) is Some
    }

    /// Whether `[v, v + count)` starts at a page from the second one on and ends within the
    /// user half.
    pub open spec fn fits_user(v: VirtAddr, count: u64) -> bool {
        0x1000 <= v && v % FOUR_KIB == 0 && v + count <= USERLAND_STOP + 1
    }

    /// The start of the `size`-byte block (4KiB, 2MiB or 1GiB) that holds `virt`.
    pub open spec fn block_start(virt: VirtAddr, size: u64) -> int {
        if size == ONE_GIB {
            virt - virt % ONE_GIB
        } else if size == TWO_MIB {
            virt - virt % TWO_MIB
        } else {
            virt - virt % FOUR_KIB
        }
    }

    /// The pages of the `size`-byte block that holds `virt` are all unmapped, given what the walk
    /// of `virt` found: a miss at level 4, or a miss at level 3 or 2 on a non-present entry.
    #[verifier::spinoff_prover]
    proof fn lemma_free_block(&self, virt: VirtAddr, size: u64, k: VirtAddr)
        requires
            virt < USERLAND_STOP + 1,
            k < USERLAND_STOP + 1,
            size == FOUR_KIB || size == TWO_MIB || size == ONE_GIB,
            Self::block_start(virt, size) <= k < Self::block_start(virt, size) + size,
            size == ONE_GIB ==> (self.locate(virt) matches Err(m) && (m.layer == MappingLayer::L4
                || (m.layer == MappingLayer::L3 && !m.mapping))),
            size == TWO_MIB ==> (self.locate(virt) matches Err(m) && m.layer == MappingLayer::L2
                && !m.mapping),
            size == FOUR_KIB ==> self.mapping(virt) is None,
        ensures
            self.mapping(k) is None,
    {
        let b = Self::block_start(virt, size) as u64;
        lemma_low_half(b, k);
        lemma_low_half(b, virt);
        lemma_block(b, k);
        lemma_block(b, virt);
        lemma_level_index_bound(virt);
        if size == ONE_GIB {
            self.lemma_unoccupied_1gib(virt, k);
        } else if size == TWO_MIB {
            self.lemma_unoccupied_2mib(virt, k);
        } else {
            self.lemma_same_page_mapping(virt, k);
        }
    }

    /// The pages of the `size`-byte block that holds `virt` are all mapped when a huge page of
    /// that size maps `virt`.
    #[verifier::spinoff_prover]
    proof fn lemma_mapped_block(&self, virt: VirtAddr, size: u64, k: VirtAddr)
        requires
            virt < USERLAND_STOP + 1,
            k < USERLAND_STOP + 1,
            size == TWO_MIB || size == ONE_GIB,
            Self::block_start(virt, size) <= k < Self::block_start(virt, size) + size,
            size == ONE_GIB ==> self.mapping(virt) matches Some(Mapping::Page1GiB(_)),
            size == TWO_MIB ==> self.mapping(virt) matches Some(Mapping::Page2MiB(_)),
        ensures
            self.mapping(k) is Some,
    {
        let b = Self::block_start(virt, size) as u64;
        lemma_low_half(b, k);
        lemma_low_half(b, virt);
        lemma_block(b, k);
        lemma_block(b, virt);
    }

    /// Attempts to find a range of `count` bytes of unmapped virtual addresses in the user half
    /// of the address space, from the second page on.
    ///
    /// Returns the lowest page at which such a range starts, walking the tables once: a block
    /// that a missing directory leaves empty is skipped whole, and so is a huge mapping. When
    /// `count` is zero, the second page is returned.
    pub fn find_unmapped_range(&self, count: u64) -> (r: Option<VirtAddr>)
        requires
            self.wf(),
            count % FOUR_KIB == 0,
        ensures
            count == 0 ==> r == Some(0x1000u64),
            count > 0 ==> match r {
                Some(v) => {
                    &&& Self::fits_user(v, count)
                    &&& forall|k: VirtAddr| v <= k < v + count ==> #[trigger] self.mapping(k) is None
                    &&& forall|u: VirtAddr|
                        0x1000 <= u < v && u % FOUR_KIB == 0 ==> #[trigger] self.blocked(u, count)
                },
                None => forall|u: VirtAddr| #[trigger] Self::fits_user(u, count) ==> self.blocked(
                    u,
                    count,
                ),
            },
    {
        if count == 0 {
            return Some(0x1000);
        }
        let upper_bound: VirtAddr = USERLAND_STOP + 1;
        let mut start: VirtAddr = 0x1000;
        let mut virt: VirtAddr = 0x1000;
        while virt < upper_bound
            invariant
                self.wf(),
                count > 0,
                count % FOUR_KIB == 0,
                upper_bound == USERLAND_STOP + 1,
                0x1000 <= start <= virt <= upper_bound,
                start % FOUR_KIB == 0,
                virt % FOUR_KIB == 0,
                virt - start < count,
                forall|k: VirtAddr| start <= k < virt ==> #[trigger] self.mapping(k) is None,
                forall|u: VirtAddr|
                    0x1000 <= u < start && u % FOUR_KIB == 0 ==> #[trigger] self.blocked(u, count),
            decreases upper_bound - virt,
        {
            proof {
                self.lemma_locate_mapping(virt);
            }
            let ghost v0 = virt;
            let ghost s0 = start;
            let found_free: bool;
            let size: u64;
            match self.get_4kib_entry(virt) {
                Ok(_) => {
                    found_free = false;
                    size = FOUR_KIB;
                },
                Err(err) => {
                    match err.layer {
                        MappingLayer::L1 => {
                            found_free = true;
                            size = FOUR_KIB;
                        },
                        MappingLayer::L2 => {
                            found_free = !err.mapping;
                            size = TWO_MIB;
                        },
                        MappingLayer::L3 => {
                            found_free = !err.mapping;
                            size = ONE_GIB;
                        },
                        MappingLayer::L4 => {
                            found_free = true;
                            size = ONE_GIB;
                        },
                    }
                },
            }
            let next = if size == ONE_GIB {
                virt - virt % ONE_GIB + ONE_GIB
            } else if size == TWO_MIB {
                virt - virt % TWO_MIB + TWO_MIB
            } else {
                virt + FOUR_KIB
            };
            proof {
                assert(next <= upper_bound);
                assert(next % FOUR_KIB == 0);
                if found_free {
                    assert forall|k: VirtAddr| v0 <= k < next implies #[trigger] self.mapping(k)
                        is None by {
                        self.lemma_free_block(v0, size, k);
                    }
                } else {
                    assert(self.mapping(v0) is Some);
                    assert forall|u: VirtAddr|
                        0x1000 <= u < next && u % FOUR_KIB == 0 implies #[trigger] self.blocked(
                        u,
                        count,
                    ) by {
                        if u < s0 {
                        } else if u < v0 {
                            assert(u <= v0 < u + count && self.mapping(v0) is Some);
                        } else {
                            if size != FOUR_KIB {
                                self.lemma_mapped_block(v0, size, u);
                            } else {
                                assert(u == v0);
                            }
                            assert(u <= u < u + count && self.mapping(u) is Some);
                        }
                    }
                }
            }
            if found_free {
                virt = next;
                if virt - start >= count {
                    return Some(start);
                }
            } else {
                start = next;
                virt = next;
            }
        }
        proof {
            assert forall|u: VirtAddr| #[trigger] Self::fits_user(u, count) implies self.blocked(
                u,
                count,
            ) by {
                if u >= start {
                    assert(u + count > upper_bound);
                }
            }
        }
        None
    }

    /// Maps the first page of what is left of a range: the largest of a 1GiB, a 2MiB and a 4KiB
    /// page to which both addresses are aligned and that the remaining length holds. Returns the
    /// size of that page.
    fn map_step(&mut self, virt: VirtAddr, phys: PhysAddr, remaining: u64, flags: u64) -> (r:
        Result<u64, MappingError>)
        requires
            old(self).wf(),
            virt % FOUR_KIB == 0,
            phys % FOUR_KIB == 0,
            remaining % FOUR_KIB == 0,
            remaining != 0,
            virt + remaining <= u64::MAX,
            phys + remaining <= 0x0010_0000_0000_0000,
            mapping_flags(flags),
        ensures
            final(self).wf(),
            final(self).root_table() == old(self).root_table(),
            final(self).slots_kept_at(
                old(self),
                level_index(virt, 4),
                level_index(virt, 3),
                if step_size(virt as int, phys as int, remaining as int) == ONE_GIB {
                    -1
                } else {
                    level_index(virt, 2) as int
                },
            ),
            (r == Err::<u64, MappingError>(MappingError::AlreadyMapped)) <==> old(
                self,
            ).chunk_in_use(virt, step_size(virt as int, phys as int, remaining as int)),
            r == Err::<u64, MappingError>(MappingError::AlreadyMapped) ==> final(self).chunk_in_use(
                virt,
                step_size(virt as int, phys as int, remaining as int),
            ),
            r == Err::<u64, MappingError>(MappingError::OutOfMemory) ==> final(self).out_of_memory(),
            r is Err ==> final(self).same_mappings(old(self)),
            r is Ok ==> r == Ok::<u64, MappingError>(
                step_size(virt as int, phys as int, remaining as int),
            ),
            forall|w: VirtAddr|
                w >> 48u64 == virt >> 48u64 && !(virt <= w < virt + step_size(
                    virt as int,
                    phys as int,
                    remaining as int,
                )) ==> #[trigger] final(self).mapping(w) == old(self).mapping(w),
            r is Ok ==> forall|k: VirtAddr|
                virt <= k < virt + step_size(virt as int, phys as int, remaining as int)
                    ==> #[trigger] final(self).mapping(k) is Some && mapped_address(
                    final(self).mapping(k)->0,
                    k,
                ) == phys + (k - virt) && entry_of(final(self).mapping(k)->0) & flags == flags
                    && page_size_of(final(self).mapping(k)->0) == step_size(
                    virt as int,
                    phys as int,
                    remaining as int,
                ),
    {
        let ghost s1 = *self;
        let ghost size = step_size(virt as int, phys as int, remaining as int);
        proof {
            lemma_storable(phys, flags);
        }
        let step = if virt % ONE_GIB == 0 && phys % ONE_GIB == 0 && remaining >= ONE_GIB {
            match self.map_1gib(virt, phys, flags) {
                Ok(()) => {},
                Err(e) => {
                    proof {
                        self.lemma_same_mappings(&s1);
                    }
                    return Err(e);
                },
            }
            ONE_GIB
        } else if virt % TWO_MIB == 0 && phys % TWO_MIB == 0 && remaining >= TWO_MIB {
            match self.map_2mib(virt, phys, flags) {
                Ok(()) => {},
                Err(e) => {
                    proof {
                        self.lemma_same_mappings(&s1);
                    }
                    return Err(e);
                },
            }
            TWO_MIB
        } else {
            match self.map_4kib(virt, phys, flags) {
                Ok(()) => {},
                Err(e) => {
                    proof {
                        self.lemma_same_mappings(&s1);
                        assert(self.mapping(virt) == s1.mapping(virt));
                    }
                    return Err(e);
                },
            }
            FOUR_KIB
        };
        proof {
            assert(step == size);
            assert forall|w: VirtAddr|
                w >> 48u64 == virt >> 48u64 && !(virt <= w < virt + size) implies #[trigger] self.mapping(
                w,
            ) == s1.mapping(w) by {
                lemma_block(virt, w);
            }
            lemma_flags_kept(phys, flags, 0);
            assert forall|k: VirtAddr| virt <= k < virt + size implies #[trigger] self.mapping(k)
                is Some && mapped_address(self.mapping(k)->0, k) == phys + (k - virt) && entry_of(
                self.mapping(k)->0,
            ) & flags == flags && page_size_of(self.mapping(k)->0) == size by {
                lemma_align_down_half(k);
                if size == ONE_GIB {
                    assert(k - k % ONE_GIB == virt);
                } else if size == TWO_MIB {
                    assert(k - k % TWO_MIB == virt);
                } else {
                    assert(k - k % FOUR_KIB == virt);
                }
                lemma_block(virt, k);
                lemma_storable(phys, flags);
                lemma_entry_bits(phys, flags, phys | flags);
            }
        }
        Ok(step)
    }

    /// Maps the provided range of virtual addresses to the provided range of physical addresses,
    /// using the largest pages that the alignment of both addresses and the remaining length
    /// allow.
    ///
    /// When the range does not cross a 256TiB boundary, the pages outside of it keep their
    /// mappings and, on success, every address of the range translates to the matching physical
    /// address, by a page of the size that [`page_size_at`] gives. The call fails with
    /// [`MappingError::AlreadyMapped`] only where the slot that one of its pages needs was taken
    /// before the call, and with [`MappingError::OutOfMemory`] only where the context ran out of
    /// memory; the slots that it occupies translate addresses of the range.
    #[verifier::spinoff_prover]
    #[verifier::rlimit(60)]
    pub fn map_range(&mut self, virt: VirtAddr, phys: PhysAddr, length: u64, flags: u64) -> (r:
        Result<(), MappingError>)
        requires
            old(self).wf(),
            virt % FOUR_KIB == 0,
            phys % FOUR_KIB == 0,
            length % FOUR_KIB == 0,
            virt + length <= u64::MAX,
            phys + length <= 0x0010_0000_0000_0000,
            mapping_flags(flags),
        ensures
            final(self).wf(),
            final(self).root_table() == old(self).root_table(),
            same_half_range(virt, length) ==> forall|w: VirtAddr|
                w >> 48u64 == virt >> 48u64 && !(virt <= w < virt + length)
                    ==> #[trigger] final(self).mapping(w) == old(self).mapping(w),
            same_half_range(virt, length) && r is Ok ==> forall|k: VirtAddr|
                virt <= k < virt + length ==> #[trigger] final(self).mapping(k) is Some
                    && mapped_address(final(self).mapping(k)->0, k) == phys + (k - virt),
            same_half_range(virt, length) && r is Ok ==> forall|k: VirtAddr|
                virt <= k < virt + length ==> #[trigger] old(self).mapping(k) is None,
            same_half_range(virt, length) && r is Ok ==> forall|k: VirtAddr|
                virt <= k < virt + length ==> page_size_of(#[trigger] final(self).mapping(k)->0)
                    == page_size_at(virt as int, phys as int, length as int, k as int),
            same_half_range(virt, length) && r is Ok ==> final(self).maps_prefix(
                virt,
                phys,
                flags,
                (virt + length) as u64,
            ),
            r == Err::<(), MappingError>(MappingError::OutOfMemory) ==> final(self).out_of_memory(),
            same_half_range(virt, length) && r is Err ==> exists|stop: VirtAddr|
                #![trigger final(self).maps_prefix(virt, phys, flags, stop)]
                virt <= stop < virt + length && final(self).maps_prefix(virt, phys, flags, stop)
                    && (r == Err::<(), MappingError>(MappingError::AlreadyMapped)
                    ==> final(self).in_use(stop)),
            same_half_range(virt, length) && r == Err::<(), MappingError>(
                MappingError::AlreadyMapped,
            ) ==> exists|stop: VirtAddr, size: u64|
                #![trigger old(self).chunk_in_use(stop, size)]
                virt <= stop && stop + size <= virt + length && (size == FOUR_KIB || size
                    == TWO_MIB || size == ONE_GIB) && stop % size == 0 && size == page_size_at(
                    virt as int,
                    phys as int,
                    length as int,
                    stop as int,
                ) && old(self).chunk_in_use(stop, size),
            same_half_range(virt, length) && !final(self).out_of_memory() && (forall|stop: VirtAddr|
                virt <= stop < virt + length ==> !old(self).chunk_in_use(
                    stop,
                    #[trigger] page_size_at(virt as int, phys as int, length as int, stop as int),
                )) ==> r is Ok,
            same_half_range(virt, length) ==> final(self).slots_from_range(
                old(self),
                virt,
                virt + length,
            ),
    {
        let ghost s0 = *self;
        let ghost v0 = virt;
        let ghost p0 = phys;
        let ghost l0 = length;
        let mut cur_virt = virt;
        let mut cur_phys = phys;
        let mut remaining = length;
        proof {
            reveal(AddressSpace::unmapped_between);
            reveal(AddressSpace::slots_kept_from);
            reveal(AddressSpace::slots_from_range);
        }
        while remaining != 0
            invariant
                s0 == *old(self),
                v0 == virt,
                p0 == phys,
                l0 == length,
                self.wf(),
                self.root_table() == s0.root_table(),
                cur_virt % FOUR_KIB == 0,
                cur_phys % FOUR_KIB == 0,
                remaining % FOUR_KIB == 0,
                cur_virt + remaining == v0 + l0,
                cur_phys + remaining == p0 + l0,
                v0 <= cur_virt,
                v0 + l0 <= u64::MAX,
                p0 + l0 <= 0x0010_0000_0000_0000,
                mapping_flags(flags),
                same_half_range(v0, l0) ==> forall|w: VirtAddr|
                    w >> 48u64 == v0 >> 48u64 && !(v0 <= w < cur_virt) ==> #[trigger] self.mapping(w)
                        == s0.mapping(w),
                same_half_range(v0, l0) ==> self.maps_prefix(v0, p0, flags, cur_virt),
                same_half_range(v0, l0) ==> s0.unmapped_between(v0, cur_virt as int),
                same_half_range(v0, l0) ==> forall|k: VirtAddr|
                    v0 <= k < cur_virt ==> page_size_of(#[trigger] self.mapping(k)->0)
                        == page_size_at(v0 as int, p0 as int, l0 as int, k as int),
                forall|k: int|
                    cur_virt <= k < v0 + l0 ==> #[trigger] page_size_at(v0 as int, p0 as int, l0 as int, k)
                        == page_size_at(cur_virt as int, cur_phys as int, remaining as int, k),
                same_half_range(v0, l0) ==> self.slots_kept_from(&s0, v0, cur_virt as int),
                same_half_range(v0, l0) ==> self.slots_from_range(&s0, v0, cur_virt as int),
            decreases remaining,
        {
            let ghost s1 = *self;
            let ghost vv = cur_virt;
            let ghost pp = cur_phys;
            let ghost rem = remaining;
            let ghost size = step_size(vv as int, pp as int, rem as int);
            proof {
                if same_half_range(v0, l0) {
                    assert(s1.maps_prefix(v0, p0, flags, vv));
                    lemma_same_half(v0, l0, vv);
                }
            }
            let step = match self.map_step(cur_virt, cur_phys, remaining, flags) {
                Ok(step) => step,
                Err(e) => {
                    proof {
                        self.lemma_same_mappings(&s1);
                        if same_half_range(v0, l0) {
                            assert(self.maps_prefix(v0, p0, flags, vv));
                            Self::lemma_chunk_failed(
                                s0,
                                s1,
                                *self,
                                v0,
                                p0,
                                l0,
                                vv,
                                pp,
                                rem,
                                size,
                                e == MappingError::AlreadyMapped,
                            );
                            if e == MappingError::AlreadyMapped {
                                assert(s0.chunk_in_use(vv, size));
                                assert(self.in_use(vv));
                            }
                        }
                    }
                    return Err(e);
                },
            };
            proof {
                Self::lemma_step_sizes(
                    v0 as int,
                    p0 as int,
                    l0 as int,
                    vv as int,
                    pp as int,
                    rem as int,
                );
                if same_half_range(v0, l0) {
                    Self::lemma_chunk_slots(s0, s1, *self, v0, l0, vv, size);
                    Self::lemma_chunk_was_free(s0, s1, v0, l0, vv, size);
                }
            }
            cur_virt = cur_virt + step;
            cur_phys = cur_phys + step;
            remaining = remaining - step;
            proof {
                if same_half_range(v0, l0) {
                    assert forall|k: VirtAddr| v0 <= k < cur_virt implies #[trigger] self.mapping(k)
                        is Some && mapped_address(self.mapping(k)->0, k) == p0 + (k - v0)
                        && entry_of(self.mapping(k)->0) & flags == flags && page_size_of(
                        self.mapping(k)->0,
                    ) == page_size_at(v0 as int, p0 as int, l0 as int, k as int) by {
                        if k < vv {
                            lemma_same_half(v0, l0, k);
                            assert(self.mapping(k) == s1.mapping(k));
                        }
                    }
                    assert(self.maps_prefix(v0, p0, flags, cur_virt));
                }
            }
        }
        proof {
            reveal(AddressSpace::unmapped_between);
        }
        Ok(())
    }

    /// Unmaps the provided range of virtual addresses, one 4KiB page at a time.
    ///
    /// When the range does not cross a 256TiB boundary, the pages outside of it keep their
    /// mappings, the call succeeds exactly when every page of the range had a 4KiB mapping, and
    /// on success none of them is mapped anymore. On failure, at the first page `stop` without a
    /// 4KiB mapping, the pages before it have been unmapped, it and the pages after it are as
    /// they were, and the error is the miss that the walk of `stop` finds.
    pub fn unmap_range(&mut self, virt: VirtAddr, length: u64) -> (r: Result<(), PageMiss>)
        requires
            old(self).wf(),
            virt % FOUR_KIB == 0,
            length % FOUR_KIB == 0,
            virt + length <= u64::MAX,
        ensures
            final(self).wf(),
            final(self).root_table() == old(self).root_table(),
            same_half_range(virt, length) ==> forall|w: VirtAddr|
                w >> 48u64 == virt >> 48u64 && !(virt <= w < virt + length)
                    ==> #[trigger] final(self).mapping(w) == old(self).mapping(w),
            same_half_range(virt, length) ==> (r is Ok <==> forall|k: VirtAddr|
                virt <= k < virt + length ==> #[trigger] old(self).has_4kib_mapping(k)),
            same_half_range(virt, length) && r is Ok ==> forall|k: VirtAddr|
                virt <= k < virt + length ==> #[trigger] final(self).mapping(k) is None,
            same_half_range(virt, length) && r is Err ==> exists|stop: VirtAddr|
                #![trigger final(self).locate(stop)]
                virt <= stop < virt + length && stop % FOUR_KIB == 0
                    && !old(self).has_4kib_mapping(stop)
                    && r == Err::<(), PageMiss>(final(self).locate(stop)->Err_0)
                    && final(self).unmapped_between(virt, stop as int)
                    && (forall|k: VirtAddr|
                    virt <= k < stop ==> #[trigger] old(self).has_4kib_mapping(k))
                    && forall|k: VirtAddr|
                    stop <= k < virt + length ==> #[trigger] final(self).mapping(k) == old(
                        self,
                    ).mapping(k),
    {
        let ghost s0 = *self;
        let mut cur_virt = virt;
        let mut remaining = length;
        while remaining != 0
            invariant
                s0 == *old(self),
                self.wf(),
                self.root_table() == s0.root_table(),
                cur_virt % FOUR_KIB == 0,
                remaining % FOUR_KIB == 0,
                cur_virt + remaining == virt + length,
                virt <= cur_virt,
                virt + length <= u64::MAX,
                same_half_range(virt, length) ==> forall|w: VirtAddr|
                    w >> 48u64 == virt >> 48u64 && !(virt <= w < cur_virt)
                        ==> #[trigger] self.mapping(w) == s0.mapping(w),
                same_half_range(virt, length) ==> forall|k: VirtAddr|
                    virt <= k < cur_virt ==> #[trigger] self.mapping(k) is None
                        && s0.has_4kib_mapping(k),
            decreases remaining,
        {
            let ghost s1 = *self;
            let ghost vv = cur_virt;
            match self.unmap_4kib(cur_virt) {
                Ok(()) => {},
                Err(m) => {
                    proof {
                        self.lemma_same_mappings(&s1);
                        if same_half_range(virt, length) {
                            lemma_same_half(virt, length, vv);
                            assert(!s0.has_4kib_mapping(vv));
                            reveal(AddressSpace::unmapped_between);
                            assert forall|k: VirtAddr| virt <= k < vv implies #[trigger] s0.has_4kib_mapping(
                                k,
                            ) by {
                                assert(s1.mapping(k) is None);
                            }
                            assert forall|k: VirtAddr| vv <= k < virt + length implies #[trigger] self.mapping(
                                k,
                            ) == s0.mapping(k) by {
                                lemma_same_half(virt, length, k);
                            }
                        }
                    }
                    return Err(m);
                },
            }
            cur_virt = cur_virt + FOUR_KIB;
            remaining = remaining - FOUR_KIB;
            proof {
                if same_half_range(virt, length) {
                    lemma_same_half(virt, length, vv);
                    assert forall|w: VirtAddr|
                        w >> 48u64 == virt >> 48u64 && !(vv <= w < vv + FOUR_KIB) implies #[trigger] self.mapping(
                        w,
                    ) == s1.mapping(w) by {
                        lemma_block(vv, w);
                    }
                    assert forall|k: VirtAddr| virt <= k < cur_virt implies #[trigger] self.mapping(
                        k,
                    ) is None && s0.has_4kib_mapping(k) by {
                        lemma_same_half(virt, length, k);
                        lemma_block(vv, k);
                        if k < vv {
                            assert(self.mapping(k) == s1.mapping(k));
                        } else {
                            assert(s1.mapping(k) == s1.mapping(vv));
                            assert(s0.mapping(k) == s0.mapping(vv));
                        }
                    }
                }
            }
        }
        proof {
            if same_half_range(virt, length) {
                assert forall|k: VirtAddr| virt <= k < virt + length implies #[trigger] s0.has_4kib_mapping(
                    k,
                ) by {
                    assert(self.mapping(k) is None);
                }
            }
        }
        Ok(())
    }

    /// Allocates pages for the requested range of virtual addresses and maps them there.
    ///
    /// Returns, for each page of the range in order, its virtual address and the physical page
    /// that now backs it, so that the caller can initialize it.
    pub fn allocate_range(&mut self, virt: VirtAddr, length: u64, flags: u64) -> (r: Result<
        Vec<(VirtAddr, PhysAddr)>,
        MappingError,
    >)
        requires
            old(self).wf(),
            virt % FOUR_KIB == 0,
            length % FOUR_KIB == 0,
            virt + length <= u64::MAX,
            mapping_flags(flags),
        ensures
            final(self).wf(),
            final(self).root_table() == old(self).root_table(),
            same_half_range(virt, length) ==> forall|w: VirtAddr|
                w >> 48u64 == virt >> 48u64 && !(virt <= w < virt + length)
                    ==> #[trigger] final(self).mapping(w) == old(self).mapping(w),
            match r {
                Ok(pages) => {
                    &&& pages.len() * FOUR_KIB == length
                    &&& forall|i: int|
                        0 <= i < pages.len() ==> (#[trigger] pages[i]).0 == virt + i * FOUR_KIB
                    &&& forall|i: int|
                        0 <= i < pages.len() ==> final(self).mapping((#[trigger] pages[i]).0)
                            == Some(Mapping::Page4KiB(pages[i].1 | flags | PAGE_PRESENT))
                            && storable_address(pages[i].1)
                    &&& forall|i: int|
                        0 <= i < pages.len() ==> old(self).mapping((#[trigger] pages[i]).0) is None
                    &&& forall|w: VirtAddr|
                        (forall|i: int| 0 <= i < pages.len() ==> !same_4kib(#[trigger] pages[i].0, w))
                            ==> #[trigger] final(self).mapping(w) == old(self).mapping(w)
                },
                Err(MappingError::OutOfMemory) => final(self).out_of_memory(),
                Err(MappingError::AlreadyMapped) => same_half_range(virt, length) ==> exists|k: VirtAddr|
                    virt <= k < virt + length && #[trigger] old(self).mapping(k) is Some,
            },
    {
        let ghost s0 = *self;
        let mut pages: Vec<(VirtAddr, PhysAddr)> = Vec::new();
        let mut cur_virt = virt;
        let mut remaining = length;
        while remaining != 0
            invariant
                s0 == *old(self),
                self.wf(),
                self.root_table() == s0.root_table(),
                mapping_flags(flags),
                cur_virt % FOUR_KIB == 0,
                remaining % FOUR_KIB == 0,
                cur_virt + remaining == virt + length,
                virt + length <= u64::MAX,
                pages.len() * FOUR_KIB == cur_virt - virt,
                forall|i: int| 0 <= i < pages.len() ==> (#[trigger] pages[i]).0 == virt + i * FOUR_KIB,
                same_half_range(virt, length) ==> forall|w: VirtAddr|
                    w >> 48u64 == virt >> 48u64 && !(virt <= w < cur_virt)
                        ==> #[trigger] self.mapping(w) == s0.mapping(w),
                same_half_range(virt, length) ==> forall|i: int|
                    0 <= i < pages.len() ==> (#[trigger] pages[i]).0 == virt + i * FOUR_KIB
                        && self.mapping(pages[i].0) == Some(
                        Mapping::Page4KiB(pages[i].1 | flags | PAGE_PRESENT),
                    ) && storable_address(pages[i].1),
                forall|i: int|
                    0 <= i < pages.len() ==> self.mapping((#[trigger] pages[i]).0) == Some(
                        Mapping::Page4KiB(pages[i].1 | flags | PAGE_PRESENT),
                    ) && storable_address(pages[i].1),
                forall|i: int| 0 <= i < pages.len() ==> s0.mapping((#[trigger] pages[i]).0) is None,
                forall|w: VirtAddr|
                    (forall|i: int| 0 <= i < pages.len() ==> !same_4kib(#[trigger] pages[i].0, w))
                        ==> #[trigger] self.mapping(w) == s0.mapping(w),
            decreases remaining,
        {
            let ghost s1 = *self;
            let ghost vv = cur_virt;
            let phys = match self.context.allocate_page() {
                Ok(p) => p,
                Err(_) => {
                    proof {
                        assert forall|w: VirtAddr| #[trigger] self.mapping(w) == s1.mapping(w) by {
                            lemma_level_index_bound(w);
                        }
                    }
                    return Err(MappingError::OutOfMemory);
                },
            };
            proof {
                let c0 = s1.context;
                let c1 = self.context;
                let root = self.root;
                let paths = self.paths@;
                assert forall|p: Seq<int>| #[trigger] paths.contains_key(p) implies paths[p] != phys by {
                    assert(c0.owned().contains(paths[p]));
                }
                lemma_fresh_page_wf(c0, c1, root, paths, phys);
                assert forall|w: VirtAddr| #[trigger] self.mapping(w) == s1.mapping(w) by {
                    lemma_level_index_bound(w);
                    lemma_fresh_page(
                        c0,
                        c1,
                        root,
                        paths,
                        phys,
                        level_index(w, 4),
                        level_index(w, 3),
                        level_index(w, 2),
                        level_index(w, 1),
                    );
                    lemma_agree(
                        c0,
                        c1,
                        root,
                        level_index(w, 4),
                        level_index(w, 3),
                        level_index(w, 2),
                        level_index(w, 1),
                    );
                }
                lemma_storable(phys, 0);
                lemma_entry_bits(phys, 0, phys);
            }
            let ghost s2 = *self;
            match self.map_4kib(cur_virt, phys, flags) {
                Ok(()) => {},
                Err(e) => {
                    proof {
                        self.lemma_same_mappings(&s2);
                        if same_half_range(virt, length) && e == MappingError::AlreadyMapped {
                            lemma_same_half(virt, length, vv);
                            assert(s1.mapping(vv) == s0.mapping(vv));
                            assert(s0.mapping(vv) is Some);
                        }
                    }
                    return Err(e);
                },
            }
            let ghost old_pages = pages@;
            pages.push((cur_virt, phys));
            cur_virt = cur_virt + FOUR_KIB;
            remaining = remaining - FOUR_KIB;
            proof {
                if same_half_range(virt, length) {
                    lemma_same_half(virt, length, vv);
                    assert forall|w: VirtAddr|
                        w >> 48u64 == virt >> 48u64 && !(vv <= w < vv + FOUR_KIB) implies #[trigger] self.mapping(
                        w,
                    ) == s2.mapping(w) by {
                        lemma_block(vv, w);
                    }
                    assert forall|i: int| 0 <= i < pages.len() implies (#[trigger] pages[i]).0
                        == virt + i * FOUR_KIB && self.mapping(pages[i].0) == Some(
                        Mapping::Page4KiB(pages[i].1 | flags | PAGE_PRESENT),
                    ) && storable_address(pages[i].1) by {
                        if i < old_pages.len() {
                            assert(pages[i] == old_pages[i]);
                            lemma_same_half(virt, length, pages[i].0);
                            lemma_block(vv, pages[i].0);
                        }
                    }
                }
                assert forall|i: int| 0 <= i < old_pages.len() implies !same_4kib(
                    #[trigger] old_pages[i].0,
                    vv,
                ) by {
                    if same_4kib(old_pages[i].0, vv) {
                        s1.lemma_same_page_mapping(old_pages[i].0, vv);
                    }
                }
                assert(s1.mapping(vv) == s0.mapping(vv));
                assert forall|i: int| 0 <= i < pages.len() implies self.mapping(
                    (#[trigger] pages[i]).0,
                ) == Some(Mapping::Page4KiB(pages[i].1 | flags | PAGE_PRESENT)) && storable_address(
                    pages[i].1,
                ) by {
                    if i < old_pages.len() {
                        assert(pages[i] == old_pages[i]);
                        assert(!same_4kib(vv, pages[i].0));
                    }
                }
                assert forall|i: int| 0 <= i < pages.len() implies s0.mapping(
                    (#[trigger] pages[i]).0,
                ) is None by {
                    if i < old_pages.len() {
                        assert(pages[i] == old_pages[i]);
                    }
                }
                assert forall|w: VirtAddr|
                    (forall|i: int| 0 <= i < pages.len() ==> !same_4kib(#[trigger] pages[i].0, w))
                        implies #[trigger] self.mapping(w) == s0.mapping(w) by {
                    assert(pages[old_pages.len() as int].0 == vv);
                    assert(!same_4kib(vv, w));
                    assert forall|i: int| 0 <= i < old_pages.len() implies !same_4kib(
                        #[trigger] old_pages[i].0,
                        w,
                    ) by {
                        assert(pages[i] == old_pages[i]);
                    }
                }
            }
        }
        Ok(pages)
    }
}

} // verus!
