//! The Interrupt Descriptor Table and its gate descriptors.
use vstd::prelude::*;
use crate::gdt::IstIndex;

verus! {

/// Whether a gate descriptor is actually present in its IDT.
pub const GATE_PRESENT: u64 = 1u64 << 47u64;
/// The type bits of a trap gate.
pub const GATE_TRAP: u64 = 0b1111u64 << 40u64;
/// The type bits of an interrupt gate.
pub const GATE_INTERRUPT: u64 = 0b1110u64 << 40u64;

/// The low word of a gate descriptor.
///
/// `ist` is the raw stack table field: zero means no IST, otherwise indices are one-based.
pub open spec fn gate_low(
    base: u64,
    without_interrupts: bool,
    ist: u8,
    dpl: u8,
    selector: u16,
    present: bool,
) -> u64 {
    (if present {
        GATE_PRESENT
    } else {
        0u64
    }) | (if without_interrupts {
        GATE_INTERRUPT
    } else {
        GATE_TRAP
    }) | (((base & 0xFFFF_0000) << 32u64) | (base & 0xFFFF)) | ((ist as u64) << 32u64) | ((
    dpl as u64) << 45u64) | ((selector as u64) << 16u64)
}

/// The raw stack table field that an optional IST index is encoded as.
pub open spec fn ist_field(ist: Option<IstIndex>) -> u8 {
    match ist {
        Some(i) => (i.position() + 1) as u8,
        None => 0,
    }
}

/// An entry within an [`Idt`], commonly called a "gate descriptor".
#[derive(Debug, Clone, Copy, PartialEq, Eq, Structural)]
pub struct GateDesc {
    /// The low 64 bits of the descriptor.
    pub low: u64,
    /// The high 64 bits of the descriptor.
    pub high: u64,
}

impl GateDesc {
    /// A descriptor that is not present, made of zeros.
    pub fn missing() -> (r: Self)
        ensures
            r.low == 0 && r.high == 0,
    {
        GateDesc { low: 0, high: 0 }
    }

    /// Creates a gate descriptor whose IST field is given as a raw value (zero for none,
    /// otherwise the one-based index), which must be below 8.
    pub fn with_raw_ist(
        base: u64,
        without_interrupts: bool,
        ist: u8,
        dpl: u8,
        selector: u16,
        present: bool,
    ) -> (r: Self)
        requires
            ist < 8,
            dpl <= 3,
        ensures
            r.low == gate_low(base, without_interrupts, ist, dpl, selector, present),
            r.high == base >> 32u64,
    {
        let p: u64 = if present {
            GATE_PRESENT
        } else {
            0u64
        };
        let t: u64 = if without_interrupts {
            GATE_INTERRUPT
        } else {
            GATE_TRAP
        };
        let b: u64 = ((base & 0xFFFF_0000) << 32u64) | (base & 0xFFFF);
        let i: u64 = (ist as u64) << 32u64;
        let d: u64 = (dpl as u64) << 45u64;
        let s: u64 = (selector as u64) << 16u64;
        let low: u64 = p | t | b | i | d | s;
        GateDesc { low, high: base >> 32u64 }
    }

    /// Creates a new gate descriptor with the provided base address.
    ///
    /// - `base`: The base address of the interrupt handler.
    /// - `without_interrupts`: Whether the interrupt handler should be called with interrupts
    ///   disabled.
    /// - `ist`: The index of the interrupt stack table to use, if any.
    /// - `dpl`: The highest privilege level that can call the interrupt handler (at most 3).
    /// - `selector`: The code segment selector to use for the interrupt handler.
    /// - `present`: Whether a gate descriptor is actually present in its IDT.
    pub fn new(
        base: u64,
        without_interrupts: bool,
        ist: Option<IstIndex>,
        dpl: u8,
        selector: u16,
        present: bool,
    ) -> (r: Self)
        requires
            dpl <= 3,
        ensures
            r.low == gate_low(base, without_interrupts, ist_field(ist), dpl, selector, present),
            r.high == base >> 32u64,
    {
        let raw: u8 = match ist {
            Some(i) => i.as_u8() + 1,
            None => 0,
        };
        Self::with_raw_ist(base, without_interrupts, raw, dpl, selector, present)
    }
}

/// An Interrupt Descriptor Table.
#[derive(Clone, Copy)]
pub struct Idt {
    entries: [GateDesc; 256],
}

impl Idt {
    /// The descriptors of the table, by vector number.
    pub closed spec fn gates(self) -> Seq<GateDesc> {
        self.entries@
    }

    /// A table whose gates are all missing.
    pub fn empty() -> (r: Self)
        ensures
            r.gates().len() == 256,
            forall|i: int| 0 <= i < 256 ==> #[trigger] r.gates()[i] == GateDesc::missing_spec(),
    {
        let entries: [GateDesc; 256] = [GateDesc::missing();256];
        Idt { entries }
    }

    /// Returns the descriptor of the provided vector.
    pub fn get(&self, index: u8) -> (r: GateDesc)
        ensures
            r == self.gates()[index as int],
    {
        self.entries[index as usize]
    }

    /// Replaces the descriptor of the provided vector.
    pub fn set(&mut self, index: u8, gate: GateDesc)
        ensures
            final(self).gates() == old(self).gates().update(index as int, gate),
    {
        self.entries[index as usize] = gate;
    }
}

impl GateDesc {
    /// The descriptor that is not present, made of zeros.
    pub open spec fn missing_spec() -> GateDesc {
        GateDesc { low: 0, high: 0 }
    }
}

/// An exception that can occur on the CPU.
#[derive(Debug, Clone, Copy, PartialEq, Eq, Structural)]
pub enum Exception {
    DivisionError,
    Debug,
    NonMaskableInterrupt,
    Breakpoint,
    Overflow,
    BoundRangeExceeded,
    InvalidOpcode,
    DeviceNotAvailable,
    DoubleFault,
    InvalidTss,
    SegmentNotPresent,
    StackSegmentFault,
    GeneralProtectionFault,
    PageFault,
    X87FloatingPoint,
    AlignmentCheck,
    MachineCheck,
    SimdFloatingPoint,
    VirtualizationException,
    ControlProtection,
    HypervisorInjection,
    VmmCommunication,
    SecurityException,
}

impl Exception {
    /// The interrupt vector at which the CPU reports an exception.
    pub open spec fn vector_spec(self) -> u8 {
        match self {
            Exception::DivisionError => 0,
            Exception::Debug => 1,
            Exception::NonMaskableInterrupt => 2,
            Exception::Breakpoint => 3,
            Exception::Overflow => 4,
            Exception::BoundRangeExceeded => 5,
            Exception::InvalidOpcode => 6,
            Exception::DeviceNotAvailable => 7,
            Exception::DoubleFault => 8,
            Exception::InvalidTss => 10,
            Exception::SegmentNotPresent => 11,
            Exception::StackSegmentFault => 12,
            Exception::GeneralProtectionFault => 13,
            Exception::PageFault => 14,
            Exception::X87FloatingPoint => 16,
            Exception::AlignmentCheck => 17,
            Exception::MachineCheck => 18,
            Exception::SimdFloatingPoint => 19,
            Exception::VirtualizationException => 20,
            Exception::ControlProtection => 21,
            Exception::HypervisorInjection => 28,
            Exception::VmmCommunication => 29,
            Exception::SecurityException => 30,
        }
    }

    /// Returns the interrupt vector at which the CPU reports this exception.
    pub fn vector(self) -> (r: u8)
        ensures
            r == self.vector_spec(),
    {
        match self {
            Exception::DivisionError => 0,
            Exception::Debug => 1,
            Exception::NonMaskableInterrupt => 2,
            Exception::Breakpoint => 3,
            Exception::Overflow => 4,
            Exception::BoundRangeExceeded => 5,
            Exception::InvalidOpcode => 6,
            Exception::DeviceNotAvailable => 7,
            Exception::DoubleFault => 8,
            Exception::InvalidTss => 10,
            Exception::SegmentNotPresent => 11,
            Exception::StackSegmentFault => 12,
            Exception::GeneralProtectionFault => 13,
            Exception::PageFault => 14,
            Exception::X87FloatingPoint => 16,
            Exception::AlignmentCheck => 17,
            Exception::MachineCheck => 18,
            Exception::SimdFloatingPoint => 19,
            Exception::VirtualizationException => 20,
            Exception::ControlProtection => 21,
            Exception::HypervisorInjection => 28,
            Exception::VmmCommunication => 29,
            Exception::SecurityException => 30,
        }
    }
}

/// The stack frame pushed by the CPU when an interrupt occurs.
#[derive(Debug, Clone, Copy, PartialEq, Eq, Structural)]
pub struct InterruptStackFrame {
    /// The instruction pointer at which the Interrupt Service Routine will return to.
    pub ip: u64,
    /// The code segment that the CPU switched from.
    pub cs: u64,
    /// The flags to restore when returning from the interrupt.
    pub flags: u64,
    /// The stack pointer to restore when returning from the interrupt.
    pub sp: u64,
    /// The stack segment to restore when returning from the interrupt.
    pub ss: u64,
}

/// The page fault was caused by an access violation (otherwise by a non-present page).
pub const PAGE_FAULT_PRESENT: u32 = 1;
/// The page fault was caused by a write operation (otherwise by a read).
pub const PAGE_FAULT_WRITE: u32 = 2;
/// The page fault was caused by a write to a reserved bit.
pub const PAGE_FAULT_RESERVED_WRITE: u32 = 4;
/// The page fault was caused in userland.
pub const PAGE_FAULT_USER: u32 = 8;
/// The page fault was caused by an instruction fetch on a non-executable page.
pub const PAGE_FAULT_INSTRUCTION_FETCH: u32 = 16;

/// The error code pushed by the CPU when a page fault occurs.
#[derive(Debug, Clone, Copy, PartialEq, Eq, Structural)]
pub struct PageFaultError(pub u32);

impl PageFaultError {
    /// Whether any of the bits of `flags` is set in the error code.
    pub fn intersects(self, flags: u32) -> (r: bool)
        ensures
            r == (self.0 & flags != 0),
    {
        self.0 & flags != 0
    }
}

/// The interrupt vector of the first line of the programmable interrupt controller.
pub const PIC_OFFSET: u8 = 32;

/// The selector of the kernel code segment, as the interrupt gates use it.
pub const KERNEL_CODE_SELECTOR: u16 = 8;

/// A gate to a trap handler, run with interrupts enabled in ring 0.
pub fn trap_gate(handler: u64) -> (r: GateDesc)
    ensures
        r.low == gate_low(handler, false, 0, 0, KERNEL_CODE_SELECTOR, true),
        r.high == handler >> 32u64,
{
    GateDesc::new(handler, false, None, 0, KERNEL_CODE_SELECTOR, true)
}

/// A gate to an interrupt handler, run with interrupts disabled in ring 0.
pub fn int_gate(handler: u64) -> (r: GateDesc)
    ensures
        r.low == gate_low(handler, true, 0, 0, KERNEL_CODE_SELECTOR, true),
        r.high == handler >> 32u64,
{
    GateDesc::new(handler, true, None, 0, KERNEL_CODE_SELECTOR, true)
}

/// A gate to the double fault handler, which runs on its own stack (the first IST entry).
pub fn double_fault_gate(handler: u64) -> (r: GateDesc)
    ensures
        r.low == gate_low(handler, true, 1, 0, KERNEL_CODE_SELECTOR, true),
        r.high == handler >> 32u64,
{
    GateDesc::new(handler, true, Some(IstIndex::Index0), 0, KERNEL_CODE_SELECTOR, true)
}

} // verus!
