use ruel::arch::Ring;
use ruel::cpu::{
    gdt_entries, gdt_pointer, idt_pointer, kernel_tss, make_selector, make_tss_segment,
    star_value, efer_with_no_execute, efer_with_syscalls, KERNEL_CODE_SEGMENT,
    KERNEL_CODE_SELECTOR, KERNEL_DATA_SEGMENT, KERNEL_DATA_SELECTOR, SYSCALL_BASE, SYSRET_BASE,
    TSS_SELECTOR, USER_CODE_SEGMENT, USER_CODE_SELECTOR, USER_DATA_SEGMENT, USER_DATA_SELECTOR,
};
use ruel::gdt::{
    create_tss_segment, IstIndex, SegmentFlags, SegmentSelector, TaskStateSegment, UnalignedAddr,
    SEGMENT_MAX_LIMIT,
};
use ruel::idt::{double_fault_gate, int_gate, trap_gate, Exception, GateDesc, Idt};

#[test]
fn selector_round_trip() {
    let s = SegmentSelector::new(5, false, Ring::Zero);
    assert_eq!(s.bits(), 40);
    assert_eq!(s.index(), 5);
    assert!(s.is_global());
    assert!(!s.is_local());
    assert_eq!(s.privilege(), Ring::Zero);

    let s = SegmentSelector::new(1, true, Ring::Two);
    assert_eq!(s.bits(), 14);
    assert_eq!(s.index(), 1);
    assert!(s.is_local());
    assert_eq!(s.privilege(), Ring::Two);

    let s = SegmentSelector::from_bits(35);
    assert_eq!(s.index(), 4);
    assert_eq!(s.privilege(), Ring::Three);
}

#[test]
fn segment_flags() {
    assert_eq!(SegmentFlags::from_limit(0xFFFFF).bits(), SEGMENT_MAX_LIMIT);
    assert_eq!(SegmentFlags::from_base(0x1234_5678).bits(), 0x1200_0034_5678_0000);
    assert_eq!(SegmentFlags::from_dpl(Ring::Three).bits(), 0x6000_0000_0000);
    assert_eq!(SegmentFlags::from_dpl(Ring::Zero).bits(), 0);
}

#[test]
fn unaligned_address_round_trip() {
    let a = UnalignedAddr::new(0x1234_5678_9abc_def0);
    assert_eq!(a.addr(), 0x1234_5678_9abc_def0);
    assert_eq!(UnalignedAddr::null().addr(), 0);
}

#[test]
fn task_state_segment_stacks() {
    let mut tss = TaskStateSegment::empty();
    assert_eq!(tss.ist(IstIndex::Index3), 0);
    tss.set_ist(IstIndex::Index3, 0xdead_0000);
    assert_eq!(tss.ist(IstIndex::Index3), 0xdead_0000);
    assert_eq!(tss.ist(IstIndex::Index0), 0);
    tss.set_privilege_stack(Ring::One, 0xbeef_0000);
    assert_eq!(tss.privilege_stack(Ring::One), 0xbeef_0000);
    assert_eq!(tss.privilege_stack(Ring::Zero), 0);
}

#[test]
fn tss_descriptor() {
    let d = create_tss_segment(0xFFFF_8000_1234_5678);
    assert_eq!(d, [0x1200_8934_5678_0067, 0xFFFF_8000]);
    assert_eq!(make_tss_segment(0xFFFF_8000_1234_5678), d);
}

#[test]
fn gate_descriptors() {
    let base = 0x1234_5678_9abc_def0;
    let g = GateDesc::new(base, true, None, 0, 8, true);
    assert_eq!((g.low, g.high), (0x9abc_8e00_0008_def0, 0x1234_5678));
    let g = GateDesc::new(base, true, Some(IstIndex::Index0), 0, 8, true);
    assert_eq!(g.low, 0x9abc_8e01_0008_def0);
    let g = GateDesc::new(base, false, None, 3, 8, false);
    assert_eq!(g.low, 0x9abc_6f00_0008_def0);
    assert_eq!(trap_gate(base).low, 0x9abc_8f00_0008_def0);
    assert_eq!(int_gate(base).low, 0x9abc_8e00_0008_def0);
    assert_eq!(double_fault_gate(base).low, 0x9abc_8e01_0008_def0);
}

#[test]
fn interrupt_table() {
    let mut idt = Idt::empty();
    let g = trap_gate(0xffff_ffff_8000_1000);
    idt.set(Exception::PageFault.vector(), g);
    assert_eq!(idt.get(14), g);
    assert_eq!(idt.get(13), GateDesc::missing());
    assert_eq!(Exception::DivisionError.vector(), 0);
    assert_eq!(Exception::InvalidTss.vector(), 10);
    assert_eq!(Exception::SecurityException.vector(), 30);
}

#[test]
fn kernel_selectors() {
    assert_eq!(make_selector(1, false, 0), KERNEL_CODE_SELECTOR);
    assert_eq!(make_selector(2, false, 0), KERNEL_DATA_SELECTOR);
    assert_eq!(make_selector(3, false, 3), USER_DATA_SELECTOR);
    assert_eq!(make_selector(4, false, 3), USER_CODE_SELECTOR);
    assert_eq!(make_selector(5, false, 0), TSS_SELECTOR);
    assert_eq!(USER_CODE_SELECTOR, SYSRET_BASE + 16);
    assert_eq!(KERNEL_DATA_SELECTOR, SYSCALL_BASE + 8);
}

#[test]
fn kernel_gdt() {
    assert_eq!(KERNEL_CODE_SEGMENT, 0x00AF_9B00_0000_FFFF);
    assert_eq!(KERNEL_DATA_SEGMENT, 0x00CF_9300_0000_FFFF);
    assert_eq!(USER_DATA_SEGMENT, 0x00CF_F300_0000_FFFF);
    assert_eq!(USER_CODE_SEGMENT, 0x00AF_FB00_0000_FFFF);
    let gdt = gdt_entries(0xFFFF_8000_1234_5678);
    assert_eq!(gdt[0], 0);
    assert_eq!(gdt[1], KERNEL_CODE_SEGMENT);
    assert_eq!(gdt[5], 0x1200_8934_5678_0067);
    assert_eq!(gdt[6], 0xFFFF_8000);
    assert_eq!(gdt_pointer(0x1000).limit, 55);
    assert_eq!(idt_pointer(0x1000).limit, 4095);
}

#[test]
fn kernel_task_state_segment() {
    let tss = kernel_tss(0xFFFF_8000_0001_0000, 0xFFFF_8000_0002_0000);
    assert_eq!(tss.ist(IstIndex::Index0), 0xFFFF_8000_0001_0000);
    assert_eq!(tss.ist(IstIndex::Index1), 0);
    assert_eq!(tss.privilege_stack(Ring::Zero), 0xFFFF_8000_0002_0000);
}

#[test]
fn system_call_registers() {
    assert_eq!(star_value(SYSCALL_BASE, SYSRET_BASE), 0x0013_0008_0000_0000);
    assert_eq!(efer_with_syscalls(0x500), 0x501);
    assert_eq!(efer_with_no_execute(0x501), 0xD01);
}
