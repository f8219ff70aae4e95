//! The kernel's descriptor tables and the registers that configure system calls.
use vstd::prelude::*;
use crate::gdt::{
    TaskStateSegment, IstIndex, SEGMENT_ACCESSED, SEGMENT_PRESENT, SEGMENT_NON_SYSTEM,
    SEGMENT_EXECUTABLE, SEGMENT_READABLE, SEGMENT_WRITABLE, SEGMENT_LONG_MODE_CODE,
    SEGMENT_GRANULARITY_4KIB, SEGMENT_SIZE_32BIT, SEGMENT_MAX_LIMIT, SEGMENT_AVAILABLE_TSS,
};
use crate::arch::{Ring, VirtAddr};

verus! {

/// The bits of a segment selector built from an index, a table indicator and a privilege level.
pub open spec fn make_selector_spec(index: u16, local: bool, ring: u16) -> u16 {
    (index << 3u16) | ((if local {
        1u16
    } else {
        0u16
    }) << 2u16) | ring
}

/// Builds a segment selector; the privilege level must be at most 3.
pub fn make_selector(index: u16, local: bool, ring: u16) -> (r: u16)
    requires
        ring <= 3,
    ensures
        r == make_selector_spec(index, local, ring),
{
    let l: u16 = if local {
        1
    } else {
        0
    };
    (index << 3u16) | (l << 2u16) | ring
}

/// The selector of the kernel code segment (entry 1, ring 0).
pub const KERNEL_CODE_SELECTOR: u16 = 8;
/// The selector of the kernel data segment (entry 2, ring 0).
pub const KERNEL_DATA_SELECTOR: u16 = 16;
/// The selector of the user data segment (entry 3, ring 3).
pub const USER_DATA_SELECTOR: u16 = 27;
/// The selector of the user code segment (entry 4, ring 3).
pub const USER_CODE_SELECTOR: u16 = 35;
/// The selector of the Task State Segment (entry 5, ring 0).
pub const TSS_SELECTOR: u16 = 40;

/// The selectors of the kernel's GDT are the ones its layout gives.
pub proof fn lemma_selectors()
    ensures
        KERNEL_CODE_SELECTOR == make_selector_spec(1, false, 0),
        KERNEL_DATA_SELECTOR == make_selector_spec(2, false, 0),
        USER_DATA_SELECTOR == make_selector_spec(3, false, 3),
        USER_CODE_SELECTOR == make_selector_spec(4, false, 3),
        TSS_SELECTOR == make_selector_spec(5, false, 0),
{
    assert(((1u16 << 3u16) | (0u16 << 2u16) | 0u16) == 8u16 && ((2u16 << 3u16) | (0u16 << 2u16)
        | 0u16) == 16u16 && ((3u16 << 3u16) | (0u16 << 2u16) | 3u16) == 27u16 && ((4u16 << 3u16)
        | (0u16 << 2u16) | 3u16) == 35u16 && ((5u16 << 3u16) | (0u16 << 2u16) | 0u16) == 40u16)
        by (bit_vector);
}

/// The descriptor privilege level of ring 3.
pub const SEGMENT_DPL_RING3: u64 = 3u64 << 45u64;

/// The kernel code segment value in the GDT.
pub const KERNEL_CODE_SEGMENT: u64 = SEGMENT_ACCESSED | SEGMENT_PRESENT | SEGMENT_NON_SYSTEM
    | SEGMENT_EXECUTABLE | SEGMENT_READABLE | SEGMENT_LONG_MODE_CODE | SEGMENT_GRANULARITY_4KIB
    | SEGMENT_MAX_LIMIT;
/// The kernel data segment value in the GDT.
pub const KERNEL_DATA_SEGMENT: u64 = SEGMENT_ACCESSED | SEGMENT_PRESENT | SEGMENT_NON_SYSTEM
    | SEGMENT_WRITABLE | SEGMENT_GRANULARITY_4KIB | SEGMENT_SIZE_32BIT | SEGMENT_MAX_LIMIT;
/// The user data segment value in the GDT.
pub const USER_DATA_SEGMENT: u64 = KERNEL_DATA_SEGMENT | SEGMENT_DPL_RING3;
/// The user code segment value in the GDT.
pub const USER_CODE_SEGMENT: u64 = KERNEL_CODE_SEGMENT | SEGMENT_DPL_RING3;

/// The size of the kernel's Task State Segment in memory.
pub const KERNEL_TSS_SIZE: u64 = 104;

/// The low word of the descriptor of a task state segment stored at `addr`.
pub open spec fn tss_descriptor_low(addr: u64) -> u64 {
    SEGMENT_PRESENT | SEGMENT_AVAILABLE_TSS | (KERNEL_TSS_SIZE - 1) as u64 | ((addr & 0xFF_FFFF)
        << 16u64) | ((addr & 0xFF00_0000) << 32u64)
}

/// Creates the two words of the system segment descriptor of the task state segment stored at
/// `addr`.
pub fn make_tss_segment(addr: u64) -> (r: [u64; 2])
    ensures
        r@[0] == tss_descriptor_low(addr),
        r@[1] == addr >> 32u64,
{
    let limit: u64 = KERNEL_TSS_SIZE - 1;
    let low = SEGMENT_PRESENT | SEGMENT_AVAILABLE_TSS | limit | ((addr & 0xFF_FFFF) << 16u64) | ((
    addr & 0xFF00_0000) << 32u64);
    [low, addr >> 32u64]
}

/// The global descriptor table of the kernel, whose task state segment is stored at `tss`.
pub fn gdt_entries(tss: u64) -> (r: [u64; 7])
    ensures
        r@ == seq![
            0u64,
            KERNEL_CODE_SEGMENT,
            KERNEL_DATA_SEGMENT,
            USER_DATA_SEGMENT,
            USER_CODE_SEGMENT,
            tss_descriptor_low(tss),
            tss >> 32u64,
        ],
{
    let t = make_tss_segment(tss);
    let r = [
        0u64,
        KERNEL_CODE_SEGMENT,
        KERNEL_DATA_SEGMENT,
        USER_DATA_SEGMENT,
        USER_CODE_SEGMENT,
        t[0],
        t[1],
    ];
    assert(r@ =~= seq![
        0u64,
        KERNEL_CODE_SEGMENT,
        KERNEL_DATA_SEGMENT,
        USER_DATA_SEGMENT,
        USER_CODE_SEGMENT,
        tss_descriptor_low(tss),
        tss >> 32u64,
    ]);
    r
}

/// The entry of the interrupt stack table that holds the double fault stack.
pub const DOUBLE_FAULT_IST_INDEX: u16 = 0;
/// The size of the double fault stack.
pub const DOUBLE_FAULT_STACK_SIZE: u64 = 0x8000;

/// The task state segment of the kernel: the double fault handler runs on its own stack, and
/// the switch to ring 0 uses the kernel stack.
pub fn kernel_tss(double_fault_stack_top: VirtAddr, kernel_stack_top: VirtAddr) -> (r:
    TaskStateSegment)
    ensures
        r.ist_entry(0) == double_fault_stack_top,
        forall|i: int| 1 <= i < 7 ==> #[trigger] r.ist_entry(i) == 0,
        r.privilege_entry(0) == kernel_stack_top,
        r.privilege_entry(1) == 0 && r.privilege_entry(2) == 0,
        r.iomap() == crate::gdt::TSS_SIZE,
{
    let mut tss = TaskStateSegment::empty();
    tss.set_ist(IstIndex::Index0, double_fault_stack_top);
    tss.set_privilege_stack(Ring::Zero, kernel_stack_top);
    tss
}

/// A pointer to a descriptor table, as the `lgdt` and `lidt` instructions expect it.
#[derive(Debug, Clone, Copy, PartialEq, Eq, Structural)]
pub struct TablePtr {
    /// The size of the table minus one, in bytes.
    pub limit: u16,
    /// The address of the table.
    pub base: u64,
}

/// The pointer to the kernel's GDT stored at `base`.
pub fn gdt_pointer(base: u64) -> (r: TablePtr)
    ensures
        r == (TablePtr { limit: 55, base }),
{
    TablePtr { limit: 7 * 8 - 1, base }
}

/// The pointer to an IDT of 256 gates stored at `base`.
pub fn idt_pointer(base: u64) -> (r: TablePtr)
    ensures
        r == (TablePtr { limit: 4095, base }),
{
    TablePtr { limit: 256 * 16 - 1, base }
}

/// The Extended Feature Enable Register.
pub const EFER: u32 = 0xC000_0080;
/// The MSR that holds the address of the system call routine.
pub const LSTAR: u32 = 0xC000_0082;
/// The MSR that holds the segments used by system calls.
pub const STAR: u32 = 0xC000_0081;
/// The EFER bit that enables the `syscall` and `sysret` instructions.
pub const EFER_SYSCALL: u64 = 1;
/// The EFER bit that enables the no-execute bit of page tables.
pub const EFER_NO_EXECUTE: u64 = 1u64 << 11u64;
/// The EFER bit that indicates long mode.
pub const EFER_LONG_MODE: u64 = 1u64 << 8u64;

/// The selector from which `sysret` derives the user segments: the code segment is 16 above it,
/// the stack segment 8 above it.
pub const SYSRET_BASE: u16 = 19;
/// The selector from which `syscall` derives the kernel segments: the code segment is this one,
/// the stack segment 8 above it.
pub const SYSCALL_BASE: u16 = 8;

/// The segment selectors derived from the system call bases are the kernel's and the user's.
pub proof fn lemma_syscall_segments()
    ensures
        USER_CODE_SELECTOR == SYSRET_BASE + 16,
        USER_DATA_SELECTOR == SYSRET_BASE + 8,
        KERNEL_CODE_SELECTOR == SYSCALL_BASE,
        KERNEL_DATA_SELECTOR == SYSCALL_BASE + 8,
        USER_CODE_SELECTOR & 3 == 3 && USER_DATA_SELECTOR & 3 == 3,
        KERNEL_CODE_SELECTOR & 3 == 0 && KERNEL_DATA_SELECTOR & 3 == 0,
{
    assert(35u16 & 3u16 == 3u16 && 27u16 & 3u16 == 3u16 && 8u16 & 3u16 == 0u16 && 16u16 & 3u16
        == 0u16) by (bit_vector);
}

/// The value of the STAR register for the provided system call bases.
pub fn star_value(syscall: u16, sysret: u16) -> (r: u64)
    ensures
        r == ((syscall as u64) << 32u64) | ((sysret as u64) << 48u64),
{
    ((syscall as u64) << 32u64) | ((sysret as u64) << 48u64)
}

/// The value that EFER takes to enable system calls, from its current value.
pub fn efer_with_syscalls(efer: u64) -> (r: u64)
    ensures
        r == efer | EFER_SYSCALL,
{
    efer | EFER_SYSCALL
}

/// The value that EFER takes to enable the no-execute bit, from its current value.
pub fn efer_with_no_execute(efer: u64) -> (r: u64)
    ensures
        r == efer | EFER_NO_EXECUTE,
{
    efer | EFER_NO_EXECUTE
}

} // verus!
