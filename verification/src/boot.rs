//! What the kernel makes of the answers of the bootloader: the memory map, the framebuffers and
//! the modules.
use vstd::prelude::*;
use crate::limine::{
    MemmapEntry, MemmapType, LimineFramebuffer, MEMMAP_USABLE, MEMMAP_BOOTLOADER_RECLAIMABLE,
    FRAMEBUFFER_MEMORY_MODEL_RGB,
};
use crate::address_space::{
    AddressSpace, AddressSpaceContext, MappingError, entry_of, mapped_address, same_half_range,
    lemma_block, lemma_same_half,
};
use crate::paging::{FOUR_KIB, TWO_MIB, ONE_GIB};
use crate::arch::VirtAddr;
use crate::paging::{
    PAGE_WRITABLE, PAGE_GLOBAL, PAGE_OS_BIT_9, PAGE_OS_BIT_10, mapping_flags, page_align_up,
    page_align_down,
};
use crate::sys::{
    Framebuffer, FramebufferFormat, FORMAT_BGR24, FORMAT_BGR32, FORMAT_RGB24, FORMAT_RGB32,
    format_bytes_per_pixel, format_red_first,
};

verus! {

/// The maximum number of usable memory segments that the kernel keeps track of.
pub const MAX_USABLE_SEGMENTS: usize = 8;

/// The maximum number of framebuffers that the kernel keeps track of.
pub const MAX_FRAMEBUFFERS: usize = 4;

/// The virtual address at which the kernel maps all of physical memory.
pub const HHDM_OFFSET: u64 = 0xFFFF_8000_0000_0000;

/// Whether a region of memory can be used once the kernel has booted.
pub open spec fn is_usable(e: MemmapEntry) -> bool {
    e.ty.0 == MEMMAP_USABLE || e.ty.0 == MEMMAP_BOOTLOADER_RECLAIMABLE
}

/// A way in which the memory map breaks the rules of the protocol.
#[derive(Debug, Clone, Copy, PartialEq, Eq, Structural)]
pub enum MemmapError {
    /// The entries are not sorted by base address.
    NotSorted,
    /// An entry has a length of 0.
    EmptyEntry,
    /// A usable entry is not page-aligned.
    MisalignedUsable,
    /// A usable entry overlaps another entry.
    OverlappingUsable,
}

/// The state of the scan of the memory map after some entries: the usable segments found so
/// far (adjacent ones merged), whether some had to be dropped, and the total usable memory.
pub type ScanState = (Seq<MemmapEntry>, bool, int);

/// The end of the region that an entry describes.
pub open spec fn end_of(e: MemmapEntry) -> int {
    e.base + e.length
}

/// Whether two entries describe regions that share an address.
pub open spec fn entries_overlap(a: MemmapEntry, b: MemmapEntry) -> bool {
    a.base < end_of(b) && b.base < end_of(a)
}

/// The largest end among the first `n` entries (0 when there are none).
pub open spec fn max_end(entries: Seq<MemmapEntry>, n: nat) -> int
    decreases n,
{
    if n == 0 {
        0
    } else if max_end(entries, (n - 1) as nat) < end_of(entries[n - 1]) {
        end_of(entries[n - 1])
    } else {
        max_end(entries, (n - 1) as nat)
    }
}

/// The largest end among the usable entries of the first `n` ones (0 when there are none).
pub open spec fn usable_end(entries: Seq<MemmapEntry>, n: nat) -> int
    decreases n,
{
    if n == 0 {
        0
    } else if is_usable(entries[n - 1]) && usable_end(entries, (n - 1) as nat) < end_of(
        entries[n - 1],
    ) {
        end_of(entries[n - 1])
    } else {
        usable_end(entries, (n - 1) as nat)
    }
}

/// One step of the scan of the memory map: `last` is the entry before `e`, if any; `ends` is
/// the largest end among the entries before `e` and the largest among the usable ones.
///
/// In a sorted map, `e` overlaps an earlier entry exactly when it starts before that entry's
/// end: a usable `e` must start at or after every earlier end, and any `e` at or after every
/// earlier usable end.
pub open spec fn scan_step(
    st: ScanState,
    last: Option<MemmapEntry>,
    ends: (int, int),
    e: MemmapEntry,
) -> Result<ScanState, MemmapError> {
    if last is Some && last->0.base > e.base {
        Err(MemmapError::NotSorted)
    } else if e.length == 0 {
        Err(MemmapError::EmptyEntry)
    } else if !is_usable(e) {
        if e.base < ends.1 {
            Err(MemmapError::OverlappingUsable)
        } else {
            Ok(st)
        }
    } else if e.base % 4096 != 0 || e.length % 4096 != 0 {
        Err(MemmapError::MisalignedUsable)
    } else if e.base < ends.0 {
        Err(MemmapError::OverlappingUsable)
    } else {
        let segs = st.0;
        if segs.len() > 0 && segs.last().base + segs.last().length == e.base {
            let merged = MemmapEntry {
                base: segs.last().base,
                length: (segs.last().length + e.length) as u64,
                ty: segs.last().ty,
            };
            Ok((segs.update(segs.len() - 1, merged), st.1, st.2 + e.length))
        } else if segs.len() < MAX_USABLE_SEGMENTS {
            Ok((segs.push(e), st.1, st.2 + e.length))
        } else {
            Ok((segs, true, st.2 + e.length))
        }
    }
}

/// The scan of the first `n` entries of the memory map.
pub open spec fn scan(entries: Seq<MemmapEntry>, n: nat) -> Result<ScanState, MemmapError>
    decreases n,
{
    if n == 0 {
        Ok((Seq::empty(), false, 0))
    } else {
        match scan(entries, (n - 1) as nat) {
            Err(e) => Err(e),
            Ok(st) => scan_step(
                st,
                if n >= 2 {
                    Some(entries[n - 2])
                } else {
                    None
                },
                (max_end(entries, (n - 1) as nat), usable_end(entries, (n - 1) as nat)),
                entries[n - 1],
            ),
        }
    }
}

/// A scan of the first `n` entries that succeeds has found them sorted, non-empty, and with no
/// usable entry overlapping another one; the largest ends bound the ends of those entries.
proof fn lemma_scan_ok(entries: Seq<MemmapEntry>, n: nat)
    requires
        n <= entries.len(),
        scan(entries, n) is Ok,
    ensures
        forall|i: int| 0 <= i < n ==> end_of(#[trigger] entries[i]) <= max_end(entries, n),
        forall|i: int|
            0 <= i < n && is_usable(#[trigger] entries[i]) ==> end_of(entries[i]) <= usable_end(
                entries,
                n,
            ),
        forall|i: int, j: int| 0 <= i < j < n ==> #[trigger] entries[i].base <= #[trigger] entries[j].base,
        forall|i: int| 0 <= i < n ==> (#[trigger] entries[i]).length > 0,
        forall|i: int, j: int|
            0 <= i < n && 0 <= j < n && i != j && is_usable(#[trigger] entries[i])
                ==> !entries_overlap(entries[i], #[trigger] entries[j]),
    decreases n,
{
    if n > 0 {
        let m = (n - 1) as nat;
        if scan(entries, m) is Err {
            assert(scan(entries, n) is Err);
        }
        lemma_scan_ok(entries, m);
        let e = entries[n - 1];
        assert forall|i: int, j: int|
            0 <= i < n && 0 <= j < n && i != j && is_usable(#[trigger] entries[i])
                implies !entries_overlap(entries[i], #[trigger] entries[j]) by {
            if i == n - 1 {
                assert(end_of(entries[j]) <= max_end(entries, m));
            } else if j == n - 1 {
                assert(end_of(entries[i]) <= usable_end(entries, m));
            }
        }
    }
}

/// Once the scan fails, it keeps failing with the same error.
proof fn lemma_scan_err_stays(entries: Seq<MemmapEntry>, a: nat, b: nat)
    requires
        a <= b,
        scan(entries, a) is Err,
    ensures
        scan(entries, b) == scan(entries, a),
    decreases b,
{
    if a < b {
        lemma_scan_err_stays(entries, a, (b - 1) as nat);
    }
}

/// The total length of the usable entries among the first `n` ones.
pub open spec fn usable_total(entries: Seq<MemmapEntry>, n: nat) -> int
    decreases n,
{
    if n == 0 {
        0
    } else {
        usable_total(entries, (n - 1) as nat) + if is_usable(entries[n - 1]) {
            entries[n - 1].length as int
        } else {
            0
        }
    }
}

/// The usable total only grows with the number of entries counted.
proof fn lemma_usable_total_monotonic(entries: Seq<MemmapEntry>, a: nat, b: nat)
    requires
        a <= b,
    ensures
        usable_total(entries, a) <= usable_total(entries, b),
    decreases b,
{
    if a < b {
        lemma_usable_total_monotonic(entries, a, (b - 1) as nat);
    }
}

/// The usable memory found in the memory map.
#[derive(Debug)]
pub struct UsableMemory {
    /// The usable segments, adjacent ones merged, at most [`MAX_USABLE_SEGMENTS`] of them.
    pub segments: Vec<MemmapEntry>,
    /// Whether some segments were dropped because there were too many of them.
    pub too_many_segments: bool,
    /// The total amount of usable memory, dropped segments included.
    pub total_usable_memory: u64,
}

/// Validates the memory map provided by the bootloader and collects its usable segments.
///
/// The entries must be sorted by base address and have a non-zero length; usable entries
/// (usable or bootloader-reclaimable memory) must be page-aligned and must not overlap any other
/// entry. Adjacent usable entries are merged.
pub fn validate_and_find_usable_segments(memory_map: &[MemmapEntry]) -> (r: Result<
    UsableMemory,
    MemmapError,
>)
    requires
        forall|i: int|
            0 <= i < memory_map@.len() ==> #[trigger] memory_map@[i].base + memory_map@[i].length
                <= u64::MAX,
        usable_total(memory_map@, memory_map@.len()) <= u64::MAX,
    ensures
        match r {
            Ok(u) => scan(memory_map@, memory_map@.len()) == Ok::<ScanState, MemmapError>(
                (u.segments@, u.too_many_segments, u.total_usable_memory as int),
            ),
            Err(e) => scan(memory_map@, memory_map@.len()) == Err::<ScanState, MemmapError>(e),
        },
        r is Ok ==> forall|i: int, j: int|
            0 <= i < memory_map@.len() && 0 <= j < memory_map@.len() && i != j && is_usable(
                #[trigger] memory_map@[i],
            ) ==> !entries_overlap(memory_map@[i], #[trigger] memory_map@[j]),
        r is Ok ==> forall|i: int, j: int|
            0 <= i < j < memory_map@.len() ==> #[trigger] memory_map@[i].base
                <= #[trigger] memory_map@[j].base,
        r is Ok ==> forall|i: int| 0 <= i < memory_map@.len() ==> (#[trigger] memory_map@[i]).length > 0,
{
    let ghost entries = memory_map@;
    let mut segments: Vec<MemmapEntry> = Vec::new();
    let mut too_many: bool = false;
    let mut total: u64 = 0;
    let mut all_end: u64 = 0;
    let mut usable_stop: u64 = 0;
    let mut i: usize = 0;
    assert(memory_map@.len() == memory_map.len());
    while i < memory_map.len()
        invariant
            entries == memory_map@,
            all_end == max_end(entries, i as nat),
            usable_stop == usable_end(entries, i as nat),
            entries.len() == memory_map.len(),
            i <= entries.len(),
            forall|k: int|
                0 <= k < entries.len() ==> #[trigger] entries[k].base + entries[k].length
                    <= u64::MAX,
            usable_total(entries, entries.len()) <= u64::MAX,
            scan(entries, i as nat) == Ok::<ScanState, MemmapError>(
                (segments@, too_many, total as int),
            ),
            total == usable_total(entries, i as nat),
            segments@.len() <= MAX_USABLE_SEGMENTS,
            forall|k: int|
                0 <= k < segments@.len() ==> #[trigger] segments@[k].base + segments@[k].length
                    <= u64::MAX,
        decreases entries.len() - i,
    {
        let entry = memory_map[i];
        let ghost st: ScanState = (segments@, too_many, total as int);
        let ghost last: Option<MemmapEntry> = if i >= 1 {
            Some(entries[i - 1])
        } else {
            None
        };
        proof {
            lemma_usable_total_monotonic(entries, (i + 1) as nat, entries.len());
            assert(scan(entries, (i + 1) as nat) == scan_step(
                st,
                last,
                (all_end as int, usable_stop as int),
                entry,
            ));
            if scan(entries, (i + 1) as nat) is Err {
                lemma_scan_err_stays(entries, (i + 1) as nat, entries.len());
            }
        }
        if i > 0 {
            let prev = memory_map[i - 1];
            if prev.base > entry.base {
                return Err(MemmapError::NotSorted);
            }
        }
        if entry.length == 0 {
            return Err(MemmapError::EmptyEntry);
        }
        let usable = entry.ty.0 == MEMMAP_USABLE || entry.ty.0 == MEMMAP_BOOTLOADER_RECLAIMABLE;
        if !usable && entry.base < usable_stop {
            return Err(MemmapError::OverlappingUsable);
        }
        if usable {
            let b: u64 = entry.base;
            let l: u64 = entry.length;
            if b & 0xFFF != 0 || l & 0xFFF != 0 {
                assert(b & 0xFFF != 0 || l & 0xFFF != 0 ==> b % 4096 != 0 || l % 4096 != 0)
                    by (bit_vector);
                return Err(MemmapError::MisalignedUsable);
            }
            assert(b & 0xFFF == 0 && l & 0xFFF == 0 ==> b % 4096 == 0 && l % 4096 == 0)
                by (bit_vector);
            if entry.base < all_end {
                return Err(MemmapError::OverlappingUsable);
            }
            let n = segments.len();
            if n > 0 && segments[n - 1].base + segments[n - 1].length == entry.base {
                let last_seg = segments[n - 1];
                let merged = MemmapEntry {
                    base: last_seg.base,
                    length: last_seg.length + entry.length,
                    ty: last_seg.ty,
                };
                segments.set(n - 1, merged);
            } else if n < MAX_USABLE_SEGMENTS {
                segments.push(entry);
            } else {
                too_many = true;
            }
            total = total + entry.length;
            if usable_stop < entry.base + entry.length {
                usable_stop = entry.base + entry.length;
            }
        }
        if all_end < entry.base + entry.length {
            all_end = entry.base + entry.length;
        }
        i = i + 1;
    }
    proof {
        lemma_scan_ok(entries, entries.len());
    }
    Ok(UsableMemory { segments, too_many_segments: too_many, total_usable_memory: total })
}

/// Finds the largest usable memory segment (of type usable only) in the memory map; among
/// segments of the same length, the last one.
///
/// The memory map must hold at least one usable segment.
pub fn find_largest_usable_segment(memory_map: &[MemmapEntry]) -> (r: MemmapEntry)
    requires
        exists|i: int| 0 <= i < memory_map@.len() && (#[trigger] memory_map@[i]).ty.0 == MEMMAP_USABLE,
    ensures
        exists|i: int|
            0 <= i < memory_map@.len() && memory_map@[i] == r && r.ty.0 == MEMMAP_USABLE && (
            forall|j: int|
                0 <= j < memory_map@.len() && (#[trigger] memory_map@[j]).ty.0 == MEMMAP_USABLE
                    ==> memory_map@[j].length <= r.length && (j > i ==> memory_map@[j].length
                    < r.length)),
{
    let mut best: Option<usize> = None;
    let mut i: usize = 0;
    assert(memory_map@.len() == memory_map.len());
    while i < memory_map.len()
        invariant
            i <= memory_map@.len(),
            memory_map@.len() == memory_map.len(),
            match best {
                Some(b) => {
                    &&& b < i
                    &&& memory_map@[b as int].ty.0 == MEMMAP_USABLE
                    &&& forall|j: int|
                        0 <= j < i && (#[trigger] memory_map@[j]).ty.0 == MEMMAP_USABLE
                            ==> memory_map@[j].length <= memory_map@[b as int].length && (j > b
                            ==> memory_map@[j].length < memory_map@[b as int].length)
                },
                None => forall|j: int|
                    0 <= j < i ==> (#[trigger] memory_map@[j]).ty.0 != MEMMAP_USABLE,
            },
        decreases memory_map@.len() - i,
    {
        let e = memory_map[i];
        if e.ty.0 == MEMMAP_USABLE {
            match best {
                None => {
                    best = Some(i);
                },
                Some(b) => {
                    if e.length >= memory_map[b].length {
                        best = Some(i);
                    }
                },
            }
        }
        i = i + 1;
    }
    match best {
        Some(b) => memory_map[b],
        None => {
            proof {
                let k = choose|k: int|
                    0 <= k < memory_map@.len() && (#[trigger] memory_map@[k]).ty.0
                        == MEMMAP_USABLE;
                assert(memory_map@[k].ty.0 != MEMMAP_USABLE);
            }
            memory_map[0]
        },
    }
}

/// Returns the upper bound of the memory available on the system: the highest end of a usable
/// or bootloader-reclaimable entry.
///
/// The memory map must hold at least one such entry.
pub fn find_memory_upper_bound(memory_map: &[MemmapEntry]) -> (r: u64)
    requires
        exists|i: int| 0 <= i < memory_map@.len() && is_usable(#[trigger] memory_map@[i]),
        forall|i: int|
            0 <= i < memory_map@.len() ==> #[trigger] memory_map@[i].base + memory_map@[i].length
                <= u64::MAX,
    ensures
        exists|i: int|
            0 <= i < memory_map@.len() && is_usable(#[trigger] memory_map@[i]) && r
                == memory_map@[i].base + memory_map@[i].length,
        forall|i: int|
            0 <= i < memory_map@.len() && is_usable(#[trigger] memory_map@[i]) ==> memory_map@[i].base
                + memory_map@[i].length <= r,
{
    let mut best: Option<u64> = None;
    let mut i: usize = 0;
    assert(memory_map@.len() == memory_map.len());
    while i < memory_map.len()
        invariant
            i <= memory_map@.len(),
            memory_map@.len() == memory_map.len(),
            forall|k: int|
                0 <= k < memory_map@.len() ==> #[trigger] memory_map@[k].base + memory_map@[k].length
                    <= u64::MAX,
            match best {
                Some(m) => {
                    &&& exists|k: int|
                        0 <= k < i && is_usable(#[trigger] memory_map@[k]) && m
                            == memory_map@[k].base + memory_map@[k].length
                    &&& forall|k: int|
                        0 <= k < i && is_usable(#[trigger] memory_map@[k]) ==> memory_map@[k].base
                            + memory_map@[k].length <= m
                },
                None => forall|k: int| 0 <= k < i ==> !is_usable(#[trigger] memory_map@[k]),
            },
        decreases memory_map@.len() - i,
    {
        let e = memory_map[i];
        proof {
            assert(memory_map@[i as int] == e);
        }
        if e.ty.0 == MEMMAP_USABLE || e.ty.0 == MEMMAP_BOOTLOADER_RECLAIMABLE {
            let end = e.base + e.length;
            match best {
                None => {
                    best = Some(end);
                },
                Some(m) => {
                    if end > m {
                        best = Some(end);
                    }
                },
            }
        }
        i = i + 1;
    }
    match best {
        Some(m) => m,
        None => {
            proof {
                let k = choose|k: int|
                    0 <= k < memory_map@.len() && is_usable(#[trigger] memory_map@[k]);
                assert(!is_usable(memory_map@[k]));
            }
            0
        },
    }
}

/// Returns the basename of the provided path: the part after its last `/`, or the whole path
/// if it has none.
pub fn basename(path: &[u8]) -> (r: &[u8])
    ensures
        r@ == basename_of(path@),
{
    let mut k: usize = path.len();
    assert(path@.len() == path.len());
    while k > 0
        invariant
            k <= path@.len(),
            path@.len() == path.len(),
            forall|j: int| k <= j < path@.len() ==> #[trigger] path@[j] != 0x2f,
        decreases k,
    {
        if path[k - 1] == 0x2f {
            proof {
                lemma_last_slash_at(path@, path@.len() as int, k - 1);
            }
            return vstd::slice::slice_subrange(path, k, path.len());
        }
        k = k - 1;
    }
    proof {
        lemma_last_slash_at(path@, path@.len() as int, -1);
    }
    vstd::slice::slice_subrange(path, 0, path.len())
}

/// The name of the module holding the init program.
pub open spec fn init_program_name() -> Seq<u8> {
    seq![0x61u8, 0x6cu8, 0x69u8, 0x62u8, 0x65u8, 0x72u8, 0x74u8]
}

/// Whether a byte string is the name of the init program, `alibert`.
fn is_init_program_name(name: &[u8]) -> (r: bool)
    ensures
        r == (name@ == init_program_name()),
{
    if name.len() != 7 {
        assert(name@.len() == name.len());
        return false;
    }
    let r = name[0] == 0x61 && name[1] == 0x6c && name[2] == 0x69 && name[3] == 0x62 && name[4]
        == 0x65 && name[5] == 0x72 && name[6] == 0x74;
    proof {
        if r {
            assert(name@ =~= init_program_name());
        } else {
            assert(name@ != init_program_name()) by {
                if name@ == init_program_name() {
                    assert(name@[0] == 0x61);
                }
            }
        }
    }
    r
}

/// Finds the init program among the modules, given by their paths: the first one whose
/// basename is `alibert`.
pub fn find_init_program(module_paths: &Vec<Vec<u8>>) -> (r: Option<usize>)
    ensures
        match r {
            Some(i) => i < module_paths@.len() && basename_of(module_paths@[i as int]@)
                == init_program_name() && forall|j: int|
                0 <= j < i ==> basename_of(#[trigger] module_paths@[j]@) != init_program_name(),
            None => forall|j: int|
                0 <= j < module_paths@.len() ==> basename_of(#[trigger] module_paths@[j]@)
                    != init_program_name(),
        },
{
    let mut found: Option<usize> = None;
    let mut i: usize = 0;
    while i < module_paths.len()
        invariant
            i <= module_paths@.len(),
            match found {
                Some(f) => f < i && basename_of(module_paths@[f as int]@) == init_program_name()
                    && forall|j: int|
                    0 <= j < f ==> basename_of(#[trigger] module_paths@[j]@)
                        != init_program_name(),
                None => forall|j: int|
                    0 <= j < i ==> basename_of(#[trigger] module_paths@[j]@)
                        != init_program_name(),
            },
        decreases module_paths@.len() - i,
    {
        let name = basename(module_paths[i].as_slice());
        if is_init_program_name(name) && found.is_none() {
            found = Some(i);
        }
        i = i + 1;
    }
    found
}

/// The basename of a path, as a function of the path.
pub open spec fn basename_of(path: Seq<u8>) -> Seq<u8> {
    let i = last_slash(path, path.len() as int);
    path.subrange(i + 1, path.len() as int)
}

/// The index of the last `/` before `end`, or -1.
pub open spec fn last_slash(path: Seq<u8>, end: int) -> int
    decreases end,
{
    if end <= 0 {
        -1
    } else if path[end - 1] == 0x2f {
        end - 1
    } else {
        last_slash(path, end - 1)
    }
}

/// The last slash before `end` is the slash at `i` when none follows it (or -1 when there is
/// none at all).
proof fn lemma_last_slash_at(path: Seq<u8>, end: int, i: int)
    requires
        -1 <= i < end <= path.len(),
        i >= 0 ==> path[i] == 0x2f,
        forall|j: int| i < j < end ==> #[trigger] path[j] != 0x2f,
    ensures
        last_slash(path, end) == i,
    decreases end,
{
    if end - 1 > i {
        assert(path[end - 1] != 0x2f);
        lemma_last_slash_at(path, end - 1, i);
    }
}

/// The format of a framebuffer with the provided memory model, bits per pixel and channel
/// masks, if the kernel supports it.
pub open spec fn framebuffer_format(fb: LimineFramebuffer) -> Option<u32> {
    if fb.memory_model != FRAMEBUFFER_MEMORY_MODEL_RGB || fb.red_mask_size != 8
        || fb.green_mask_size != 8 || fb.green_mask_shift != 8 || fb.blue_mask_size != 8 {
        None
    } else if fb.bpp == 32 && fb.red_mask_shift == 16 && fb.blue_mask_shift == 0 {
        Some(FORMAT_BGR32)
    } else if fb.bpp == 32 && fb.red_mask_shift == 0 && fb.blue_mask_shift == 16 {
        Some(FORMAT_RGB32)
    } else if fb.bpp == 24 && fb.red_mask_shift == 16 && fb.blue_mask_shift == 0 {
        Some(FORMAT_BGR24)
    } else if fb.bpp == 24 && fb.red_mask_shift == 0 && fb.blue_mask_shift == 16 {
        Some(FORMAT_RGB24)
    } else {
        None
    }
}

/// Whether the kernel keeps a framebuffer: its format is supported and its dimensions fit in 32
/// bits.
pub open spec fn framebuffer_kept(fb: LimineFramebuffer) -> bool {
    framebuffer_format(fb) is Some && fb.width <= u32::MAX && fb.height <= u32::MAX
}

/// Tells whether the kernel keeps a framebuffer, and so needs its address to lie in the
/// bootloader's direct map.
pub fn keeps_framebuffer(fb: &LimineFramebuffer) -> (r: bool)
    ensures
        r == framebuffer_kept(*fb),
{
    let supported = fb.memory_model == FRAMEBUFFER_MEMORY_MODEL_RGB && fb.red_mask_size == 8
        && fb.green_mask_size == 8 && fb.green_mask_shift == 8 && fb.blue_mask_size == 8 && (
    (fb.bpp == 32 || fb.bpp == 24) && ((fb.red_mask_shift == 16 && fb.blue_mask_shift == 0) || (
    fb.red_mask_shift == 0 && fb.blue_mask_shift == 16)));
    supported && fb.width <= 0xFFFF_FFFF && fb.height <= 0xFFFF_FFFF
}

/// What the kernel makes of a framebuffer described by the bootloader, whose higher half
/// direct map starts at `hhdm`.
pub open spec fn parsed_framebuffer(fb: LimineFramebuffer, hhdm: u64) -> Option<Framebuffer> {
    match framebuffer_format(fb) {
        None => None,
        Some(f) => if fb.width > u32::MAX || fb.height > u32::MAX {
            None
        } else {
            Some(
                Framebuffer {
                    address: (fb.address - hhdm + HHDM_OFFSET) as u64,
                    bytes_per_lines: fb.pitch as usize,
                    width: fb.width as u32,
                    height: fb.height as u32,
                    format: FramebufferFormat(f),
                },
            )
        },
    }
}

/// A framebuffer is kept exactly when it is an RGB one with 8-bit channels, green in the middle
/// byte (shift 8), red and blue at the two ends (shifts 0 and 16, either way round), and 24 or 32
/// bits per pixel, of dimensions that fit in 32 bits. The format given to it stores red first
/// exactly when red is at shift 0, and has `bpp / 8` bytes per pixel; its address moves from the
/// bootloader's direct map to the kernel's, and its dimensions are kept.
pub proof fn lemma_parsed_format_follows_masks(fb: LimineFramebuffer, hhdm: u64)
    ensures
        parsed_framebuffer(fb, hhdm) is Some <==> {
            &&& fb.memory_model == 1
            &&& fb.red_mask_size == 8 && fb.green_mask_size == 8 && fb.blue_mask_size == 8
            &&& fb.green_mask_shift == 8
            &&& (fb.red_mask_shift == 0 && fb.blue_mask_shift == 16) || (fb.red_mask_shift == 16
                && fb.blue_mask_shift == 0)
            &&& fb.bpp == 24 || fb.bpp == 32
            &&& fb.width <= u32::MAX && fb.height <= u32::MAX
        },
        parsed_framebuffer(fb, hhdm) matches Some(p) ==> {
            &&& format_red_first(p.format.0) <==> fb.red_mask_shift == 0
            &&& format_bytes_per_pixel(p.format.0) * 8 == fb.bpp
            &&& p.address == (fb.address - hhdm + HHDM_OFFSET) as u64
            &&& p.width == fb.width && p.height == fb.height
            &&& p.bytes_per_lines == fb.pitch as usize
        },
{
}

/// Parses the framebuffer information provided by the bootloader.
///
/// Returns `None` for a framebuffer whose format the kernel does not support or whose
/// dimensions do not fit in 32 bits. Its address, in the bootloader's direct map (which starts
/// at `hhdm`), is moved into the kernel's.
pub fn parse_framebuffer(framebuffer: &LimineFramebuffer, hhdm: u64) -> (r: Option<Framebuffer>)
    requires
        framebuffer_kept(*framebuffer) ==> hhdm <= framebuffer.address
            && framebuffer.address - hhdm + HHDM_OFFSET <= u64::MAX,
    ensures
        r == parsed_framebuffer(*framebuffer, hhdm),
{
    let fb = framebuffer;
    if fb.memory_model != FRAMEBUFFER_MEMORY_MODEL_RGB || fb.red_mask_size != 8
        || fb.green_mask_size != 8 || fb.green_mask_shift != 8 || fb.blue_mask_size != 8 {
        return None;
    }
    let format: u32 = if fb.bpp == 32 && fb.red_mask_shift == 16 && fb.blue_mask_shift == 0 {
        FORMAT_BGR32
    } else if fb.bpp == 32 && fb.red_mask_shift == 0 && fb.blue_mask_shift == 16 {
        FORMAT_RGB32
    } else if fb.bpp == 24 && fb.red_mask_shift == 16 && fb.blue_mask_shift == 0 {
        FORMAT_BGR24
    } else if fb.bpp == 24 && fb.red_mask_shift == 0 && fb.blue_mask_shift == 16 {
        FORMAT_RGB24
    } else {
        return None;
    };
    if fb.width > 0xFFFF_FFFF || fb.height > 0xFFFF_FFFF {
        return None;
    }
    Some(
        Framebuffer {
            address: fb.address - hhdm + HHDM_OFFSET,
            bytes_per_lines: fb.pitch as usize,
            width: fb.width as u32,
            height: fb.height as u32,
            format: FramebufferFormat(format),
        },
    )
}

/// The framebuffers kept out of the first `n` described by the bootloader, and whether some
/// were dropped because there were too many.
pub open spec fn parsed_framebuffers(fbs: Seq<LimineFramebuffer>, hhdm: u64, n: nat) -> (Seq<
    Framebuffer,
>, bool)
    decreases n,
{
    if n == 0 {
        (Seq::empty(), false)
    } else {
        let (prev, dropped) = parsed_framebuffers(fbs, hhdm, (n - 1) as nat);
        if dropped {
            (prev, true)
        } else {
            match parsed_framebuffer(fbs[n - 1], hhdm) {
                None => (prev, false),
                Some(f) => if prev.len() < MAX_FRAMEBUFFERS {
                    (prev.push(f), false)
                } else {
                    (prev, true)
                },
            }
        }
    }
}

/// Parses the framebuffers provided by the bootloader, keeping the supported ones, at most
/// [`MAX_FRAMEBUFFERS`] of them: parsing stops at the first one that does not fit.
///
/// Returns the framebuffers and whether some were dropped.
pub fn parse_framebuffers(framebuffers: &[LimineFramebuffer], hhdm: u64) -> (r: (
    Vec<Framebuffer>,
    bool,
))
    requires
        forall|i: int|
            0 <= i < framebuffers@.len() && framebuffer_kept(#[trigger] framebuffers@[i]) ==> hhdm
                <= framebuffers@[i].address && framebuffers@[i].address - hhdm + HHDM_OFFSET
                <= u64::MAX,
    ensures
        (r.0@, r.1) == parsed_framebuffers(framebuffers@, hhdm, framebuffers@.len()),
{
    let mut out: Vec<Framebuffer> = Vec::new();
    let mut dropped: bool = false;
    let mut i: usize = 0;
    assert(framebuffers@.len() == framebuffers.len());
    while i < framebuffers.len()
        invariant_except_break
            i <= framebuffers@.len(),
            framebuffers@.len() == framebuffers.len(),
            !dropped,
            (out@, dropped) == parsed_framebuffers(framebuffers@, hhdm, i as nat),
        invariant
            forall|k: int|
                0 <= k < framebuffers@.len() && framebuffer_kept(#[trigger] framebuffers@[k])
                    ==> hhdm <= framebuffers@[k].address && framebuffers@[k].address - hhdm
                    + HHDM_OFFSET <= u64::MAX,
        ensures
            (out@, dropped) == parsed_framebuffers(framebuffers@, hhdm, framebuffers@.len()),
        decreases framebuffers@.len() - i,
    {
        let fb = &framebuffers[i];
        proof {
            assert(framebuffers@[i as int] == *fb);
        }
        match parse_framebuffer(fb, hhdm) {
            None => {},
            Some(f) => {
                if out.len() < MAX_FRAMEBUFFERS {
                    out.push(f);
                } else {
                    dropped = true;
                    proof {
                        lemma_dropped_stays(framebuffers@, hhdm, (i + 1) as nat, framebuffers@.len());
                    }
                    break;
                }
            },
        }
        i = i + 1;
    }
    (out, dropped)
}

/// Once a framebuffer was dropped, parsing more changes nothing.
proof fn lemma_dropped_stays(fbs: Seq<LimineFramebuffer>, hhdm: u64, a: nat, b: nat)
    requires
        a <= b,
        parsed_framebuffers(fbs, hhdm, a).1,
    ensures
        parsed_framebuffers(fbs, hhdm, b) == parsed_framebuffers(fbs, hhdm, a),
    decreases b,
{
    if a < b {
        lemma_dropped_stays(fbs, hhdm, a, (b - 1) as nat);
    }
}

/// The pages of a usable segment that the global allocator receives: those outside the range
/// `[used_start, used_stop)` that the bootstrap allocator used, in increasing order.
pub open spec fn free_pages_of(e: MemmapEntry, used_start: u64, used_stop: u64, n: nat) -> Seq<
    u64,
>
    decreases n,
{
    if n == 0 {
        Seq::empty()
    } else {
        let prev = free_pages_of(e, used_start, used_stop, (n - 1) as nat);
        let page = e.base + (n - 1) * 4096;
        if page < used_start || page >= used_stop {
            prev.push(page as u64)
        } else {
            prev
        }
    }
}

/// The pages of the first `n` usable segments that the global allocator receives.
pub open spec fn free_pages(
    segments: Seq<MemmapEntry>,
    used_start: u64,
    used_stop: u64,
    n: nat,
) -> Seq<u64>
    decreases n,
{
    if n == 0 {
        Seq::empty()
    } else {
        let e = segments[n - 1];
        free_pages(segments, used_start, used_stop, (n - 1) as nat) + free_pages_of(
            e,
            used_start,
            used_stop,
            (e.length / 4096) as nat,
        )
    }
}

/// Lists the pages of the usable segments that the global allocator receives: every page but
/// those in `[used_start, used_stop)`, which the bootstrap allocator handed out.
///
/// The segments must be page-aligned (as validated) and end within the address space.
pub fn initialize_global_allocator(
    usable_memory: &[MemmapEntry],
    used_start: u64,
    used_stop: u64,
) -> (r: Vec<u64>)
    requires
        forall|i: int|
            0 <= i < usable_memory@.len() ==> (#[trigger] usable_memory@[i]).length % 4096 == 0
                && usable_memory@[i].base + usable_memory@[i].length <= u64::MAX,
    ensures
        r@ == free_pages(usable_memory@, used_start, used_stop, usable_memory@.len()),
{
    let mut out: Vec<u64> = Vec::new();
    let mut i: usize = 0;
    assert(usable_memory@.len() == usable_memory.len());
    while i < usable_memory.len()
        invariant
            i <= usable_memory@.len(),
            usable_memory@.len() == usable_memory.len(),
            forall|k: int|
                0 <= k < usable_memory@.len() ==> (#[trigger] usable_memory@[k]).length % 4096
                    == 0 && usable_memory@[k].base + usable_memory@[k].length <= u64::MAX,
            out@ == free_pages(usable_memory@, used_start, used_stop, i as nat),
        decreases usable_memory@.len() - i,
    {
        let e = usable_memory[i];
        proof {
            assert(usable_memory@[i as int] == e);
        }
        let ghost before = out@;
        let mut base: u64 = e.base;
        let mut length: u64 = e.length;
        let ghost total: nat = (e.length / 4096) as nat;
        while length != 0
            invariant
                e.length % 4096 == 0,
                e.base + e.length <= u64::MAX,
                length % 4096 == 0,
                length <= e.length,
                base == e.base + (e.length - length),
                out@ == before + free_pages_of(
                    e,
                    used_start,
                    used_stop,
                    ((e.length - length) / 4096) as nat,
                ),
            decreases length,
        {
            let ghost done: nat = ((e.length - length) / 4096) as nat;
            proof {
                assert((e.length - length + 4096) / 4096 == done + 1) by (nonlinear_arith)
                    requires
                        (e.length - length) % 4096 == 0,
                        done == (e.length - length) / 4096,
                ;
                assert(e.base + done * 4096 == base) by (nonlinear_arith)
                    requires
                        (e.length - length) % 4096 == 0,
                        done == (e.length - length) / 4096,
                        base == e.base + (e.length - length),
                ;
            }
            if base < used_start || base >= used_stop {
                out.push(base);
            }
            proof {
                assert(out@ =~= before + free_pages_of(e, used_start, used_stop, done + 1));
            }
            base = base + 4096;
            length = length - 4096;
        }
        proof {
            assert(((e.length - 0) / 4096) as nat == (e.length / 4096) as nat);
            assert(out@ =~= free_pages(usable_memory@, used_start, used_stop, (i + 1) as nat));
        }
        i = i + 1;
    }
    out
}

/// Marks the pages that belong to the kernel.
pub const KERNEL_BIT: u64 = PAGE_OS_BIT_9;
/// Marks the pages whose physical memory the address space does not own.
pub const NOT_OWNED_BIT: u64 = PAGE_OS_BIT_10;
/// The flags of the kernel's mappings.
pub const KERNEL_MAPPING_FLAGS: u64 = PAGE_WRITABLE | PAGE_GLOBAL | NOT_OWNED_BIT | KERNEL_BIT;

/// Whether the pages of the kernel image, `[kernel_begin, kernel_end)` rounded out to pages,
/// meet the mapping of physical memory at [`HHDM_OFFSET`].
pub open spec fn kernel_overlaps_hhdm(kernel_begin: u64, kernel_end: u64, memory_upper_bound: u64) -> bool {
    let start = kernel_begin - kernel_begin % 4096;
    let stop = kernel_end + 0xFFF - (kernel_end + 0xFFF) % 4096;
    0 < memory_upper_bound && start < stop && start < HHDM_OFFSET + memory_upper_bound
        && HHDM_OFFSET < stop
}

/// Whether the kernel image, `[kernel_begin, kernel_end)` rounded out to pages, lies in the
/// upper half of the address space (its addresses have their top 16 bits set) or in the lower
/// half.
pub open spec fn kernel_in_one_half(kernel_begin: u64, kernel_end: u64) -> bool {
    (kernel_begin >> 48u64 == 0xFFFF && kernel_end >> 48u64 == 0xFFFF) || kernel_end + 0xFFF
        < 0x8000_0000_0000
}

/// A page of the kernel image whose slot is taken in an address space that maps physical memory
/// at [`HHDM_OFFSET`], and nothing else, lies where the two meet.
proof fn lemma_taken_slot_overlaps<C: AddressSpaceContext>(
    s0: AddressSpace<C>,
    s1: AddressSpace<C>,
    memory_upper_bound: u64,
    start: u64,
    stop_page: u64,
    stop: u64,
    size: u64,
)
    requires
        forall|w: VirtAddr| #[trigger] s0.mapping(w) is None,
        forall|w: VirtAddr| !#[trigger] s0.occupied_1gib(w),
        forall|w: VirtAddr| !#[trigger] s0.occupied_2mib(w),
        HHDM_OFFSET >> 48u64 == 0xFFFF,
        same_half_range(HHDM_OFFSET, memory_upper_bound),
        HHDM_OFFSET + memory_upper_bound <= u64::MAX,
        forall|w: VirtAddr|
            w >> 48u64 == HHDM_OFFSET >> 48u64 && !(HHDM_OFFSET <= w < HHDM_OFFSET
                + memory_upper_bound) ==> #[trigger] s1.mapping(w) == s0.mapping(w),
        s1.slots_from_range(&s0, HHDM_OFFSET, HHDM_OFFSET + memory_upper_bound),
        start <= stop,
        stop + size <= stop_page,
        stop_page <= u64::MAX,
        stop >> 48u64 == 0xFFFF,
        size == FOUR_KIB || size == TWO_MIB || size == ONE_GIB,
        stop % size == 0,
        s1.chunk_in_use(stop, size),
    ensures
        0 < memory_upper_bound,
        start < stop_page,
        start < HHDM_OFFSET + memory_upper_bound,
        HHDM_OFFSET < stop_page,
{
    reveal(AddressSpace::slots_from_range);
    let h = HHDM_OFFSET;
    let top = HHDM_OFFSET + memory_upper_bound;
    if s1.mapping(stop) is Some {
        assert(s0.mapping(stop) is None);
        assert(h <= stop < top);
    } else if size == TWO_MIB {
        assert(s1.occupied_2mib(stop));
        assert(!s0.occupied_2mib(stop));
        let k = choose|k: VirtAddr| h <= k < top && #[trigger] crate::address_space::same_2mib(k, stop);
        lemma_same_half(h, memory_upper_bound, k);
        lemma_block(stop, k);
        assert(stop <= k < stop + TWO_MIB);
    } else {
        assert(size == ONE_GIB);
        assert(s1.occupied_1gib(stop));
        assert(!s0.occupied_1gib(stop));
        let k = choose|k: VirtAddr| h <= k < top && #[trigger] crate::address_space::same_1gib(k, stop);
        lemma_same_half(h, memory_upper_bound, k);
        lemma_block(stop, k);
        assert(stop <= k < stop + ONE_GIB);
    }
}

/// Creates the address space of the kernel: all of physical memory, up to
/// `memory_upper_bound`, mapped at [`HHDM_OFFSET`], and the kernel image, whose virtual range
/// is `[kernel_begin, kernel_end)`, mapped to where it was loaded, `kernel_physical_base`.
///
/// On failure the error comes with the partly built address space, except when not even the
/// root table could be allocated. For a kernel in the top half, the call fails when the
/// kernel's pages meet the mapping of physical memory, and fails with
/// [`MappingError::AlreadyMapped`] only then; any other failure is the context running out of
/// memory.
#[verifier::spinoff_prover]
#[verifier::rlimit(40)]
pub fn create_kernel_address_space<C: AddressSpaceContext>(
    context: C,
    kernel_physical_base: u64,
    memory_upper_bound: u64,
    kernel_begin: u64,
    kernel_end: u64,
) -> (r: Result<AddressSpace<C>, (MappingError, Option<AddressSpace<C>>)>)
    requires
        memory_upper_bound % 4096 == 0,
        memory_upper_bound < 0x0000_8000_0000_0000,
        kernel_begin <= kernel_end,
        kernel_end + 0xFFF <= u64::MAX,
        kernel_physical_base - kernel_physical_base % 4096 + (kernel_end + 0xFFF - (kernel_end
            + 0xFFF) % 4096) - (kernel_begin - kernel_begin % 4096) <= 0x0010_0000_0000_0000,
    ensures
        match r {
            Ok(s) => {
                &&& s.wf()
                &&& kernel_in_one_half(kernel_begin, kernel_end) ==> forall|k: u64|
                    kernel_begin - kernel_begin % 4096 <= k < kernel_end ==> #[trigger] s.mapping(k) is Some
                        && mapped_address(s.mapping(k)->0, k) == kernel_physical_base
                        - kernel_physical_base % 4096 + (k - (kernel_begin - kernel_begin % 4096))
                        && entry_of(s.mapping(k)->0) & KERNEL_MAPPING_FLAGS == KERNEL_MAPPING_FLAGS
                &&& kernel_in_one_half(kernel_begin, kernel_end) ==> forall|k: u64|
                    HHDM_OFFSET <= k < HHDM_OFFSET + memory_upper_bound && !(kernel_begin
                        - kernel_begin % 4096 <= k < kernel_end + 0xFFF - (kernel_end + 0xFFF)
                        % 4096) ==> #[trigger] s.mapping(k) is Some && mapped_address(
                        s.mapping(k)->0,
                        k,
                    ) == k - HHDM_OFFSET
                        && entry_of(s.mapping(k)->0) & KERNEL_MAPPING_FLAGS == KERNEL_MAPPING_FLAGS
            },
            Err((e, None)) => e == MappingError::OutOfMemory && context.exhausted(),
            Err((e, Some(s))) => s.wf() && (e == MappingError::OutOfMemory ==> s.out_of_memory()),
        },
        context.exhausted() <==> r matches Err((_, None)),
        kernel_begin >> 48u64 == 0xFFFF && kernel_end >> 48u64 == 0xFFFF && kernel_overlaps_hhdm(
            kernel_begin,
            kernel_end,
            memory_upper_bound,
        ) ==> r is Err,
        kernel_begin >> 48u64 == 0xFFFF && kernel_end >> 48u64 == 0xFFFF && (r matches Err(
            (MappingError::AlreadyMapped, _),
        )) ==> kernel_overlaps_hhdm(kernel_begin, kernel_end, memory_upper_bound),
{
    let mut space = match AddressSpace::new(context) {
        Ok(s) => s,
        Err(_) => {
            return Err((MappingError::OutOfMemory, None));
        },
    };
    let ghost s0 = space;
    assert(mapping_flags(KERNEL_MAPPING_FLAGS)) by (bit_vector);
    proof {
        let v = HHDM_OFFSET;
        let l = memory_upper_bound;
        assert(v >> 48u64 == 0xFFFF && (l == 0 || (v >> 48u64) == ((v + l - 1) as u64 >> 48u64)))
            by (bit_vector)
            requires
                v == 0xFFFF_8000_0000_0000u64,
                l < 0x0000_8000_0000_0000u64,
        ;
    }
    match space.map_range(HHDM_OFFSET, 0, memory_upper_bound, KERNEL_MAPPING_FLAGS) {
        Ok(()) => {},
        Err(e) => {
            proof {
                if e == MappingError::AlreadyMapped {
                    let (stop, size) = choose|stop: VirtAddr, size: u64|
                        HHDM_OFFSET <= stop && stop + size <= HHDM_OFFSET + memory_upper_bound
                            && (size == FOUR_KIB || size == TWO_MIB || size == ONE_GIB) && stop
                            % size == 0 && #[trigger] s0.chunk_in_use(stop, size);
                    assert(s0.mapping(stop) is None);
                    assert(!s0.occupied_1gib(stop));
                    assert(!s0.occupied_2mib(stop));
                }
            }
            return Err((e, Some(space)));
        },
    }
    let ghost s1 = space;
    let start_page = page_align_down(kernel_begin);
    let stop_page = page_align_up(kernel_end);
    let phys_start = page_align_down(kernel_physical_base);
    proof {
        assert(start_page == kernel_begin - kernel_begin % 4096);
        assert(stop_page == kernel_end + 0xFFF - (kernel_end + 0xFFF) % 4096);
        if kernel_begin >> 48u64 == 0xFFFF && kernel_end >> 48u64 == 0xFFFF {
            let a = start_page;
            let b = stop_page;
            let e = kernel_end;
            let kb = kernel_begin;
            assert(a >> 48u64 == 0xFFFF && (b == 0 || a == b || (a >> 48u64) == ((a + (b - a) - 1)
                as u64 >> 48u64))) by (bit_vector)
                requires
                    kb >> 48u64 == 0xFFFF,
                    a <= kb,
                    kb < a + 4096,
                    a % 4096 == 0,
                    kb <= e,
                    e >> 48u64 == 0xFFFF,
                    a <= b,
                    e <= b,
                    b <= e + 0xFFF,
                    e + 0xFFF <= 0xFFFF_FFFF_FFFF_FFFFu64,
            ;
        }
        if kernel_end + 0xFFF < 0x8000_0000_0000 && start_page < stop_page {
            crate::address_space::lemma_low_half(start_page, (stop_page - 1) as u64);
        }
    }
    match space.map_range(start_page, phys_start, stop_page - start_page, KERNEL_MAPPING_FLAGS) {
        Ok(()) => {},
        Err(e) => {
            proof {
                if kernel_begin >> 48u64 == 0xFFFF && kernel_end >> 48u64 == 0xFFFF && e
                    == MappingError::AlreadyMapped {
                    let (stop, size) = choose|stop: VirtAddr, size: u64|
                        start_page <= stop && stop + size <= start_page + (stop_page - start_page)
                            && (size == FOUR_KIB || size == TWO_MIB || size == ONE_GIB) && stop
                            % size == 0 && #[trigger] s1.chunk_in_use(stop, size);
                    lemma_same_half(start_page, (stop_page - start_page) as u64, stop);
                    lemma_taken_slot_overlaps(
                        s0,
                        s1,
                        memory_upper_bound,
                        start_page,
                        stop_page,
                        stop,
                        size,
                    );
                }
            }
            return Err((e, Some(space)));
        },
    }
    proof {
        if kernel_begin >> 48u64 == 0xFFFF && kernel_end >> 48u64 == 0xFFFF && kernel_overlaps_hhdm(
            kernel_begin,
            kernel_end,
            memory_upper_bound,
        ) {
            let k: u64 = if start_page < HHDM_OFFSET {
                HHDM_OFFSET
            } else {
                start_page
            };
            assert(start_page <= k < stop_page);
            assert(HHDM_OFFSET <= k < HHDM_OFFSET + memory_upper_bound);
            assert(s1.mapping(k) is Some);
            assert(s1.mapping(k) is None);
        }
    }
    proof {
        if kernel_end + 0xFFF < 0x8000_0000_0000 && !(kernel_begin >> 48u64 == 0xFFFF
            && kernel_end >> 48u64 == 0xFFFF) {
            crate::address_space::lemma_low_half(start_page, start_page);
            assert(same_half_range(start_page, (stop_page - start_page) as u64));
            assert forall|k: u64|
                HHDM_OFFSET <= k < HHDM_OFFSET + memory_upper_bound && !(start_page <= k < stop_page)
                    implies #[trigger] space.mapping(k) is Some && mapped_address(
                    space.mapping(k)->0,
                    k,
                ) == k - HHDM_OFFSET && entry_of(space.mapping(k)->0) & KERNEL_MAPPING_FLAGS
                    == KERNEL_MAPPING_FLAGS by {
                assert(s1.mapping(k) is Some);
                let low = k & 0xFFFF_FFFF_FFFFu64;
                space.lemma_low_bits_mapping(k);
                s1.lemma_low_bits_mapping(k);
                assert(space.mapping(low) == s1.mapping(low));
            }
        }
        if kernel_begin >> 48u64 == 0xFFFF && kernel_end >> 48u64 == 0xFFFF {
            assert forall|k: u64|
                HHDM_OFFSET <= k < HHDM_OFFSET + memory_upper_bound && !(start_page <= k < stop_page)
                    implies #[trigger] space.mapping(k) is Some && mapped_address(
                    space.mapping(k)->0,
                    k,
                ) == k - HHDM_OFFSET && entry_of(space.mapping(k)->0) & KERNEL_MAPPING_FLAGS
                    == KERNEL_MAPPING_FLAGS by {
                assert(s1.mapping(k) is Some);
                let h = HHDM_OFFSET;
                let a = start_page;
                assert(k >> 48u64 == a >> 48u64) by (bit_vector)
                    requires
                        h == 0xFFFF_8000_0000_0000u64,
                        h <= k,
                        a >> 48u64 == 0xFFFF,
                ;
            }
        }
    }
    Ok(space)
}

} // verus!
