//! The Programmable Interrupt Controllers (a master and a slave, in cascade).
use vstd::prelude::*;
use super::{PortWrite, WAIT_PORT};

verus! {

/// The command port of the master PIC.
pub const MASTER_COMMAND: u16 = 0x20;
/// The data port of the master PIC.
pub const MASTER_DATA: u16 = 0x21;
/// The command port of the slave PIC.
pub const SLAVE_COMMAND: u16 = 0xA0;
/// The data port of the slave PIC.
pub const SLAVE_DATA: u16 = 0xA1;
/// The interrupt vector of the first line of the master PIC; the slave's follow at +8.
pub const PIC_OFFSET: u8 = 32;
/// The end-of-interrupt command.
pub const END_OF_INTERRUPT: u8 = 0x20;

/// An interrupt line of the PICs.
#[derive(Debug, Clone, Copy, PartialEq, Eq, Structural)]
pub enum Irq {
    Timer,
    PS2Keyboard,
    Two,
    Three,
    Four,
    Five,
    Six,
    Seven,
    Eight,
    Nine,
    Ten,
    Eleven,
    PS2Mouse,
    Thirteen,
    Fourteen,
    Fifteen,
}

impl Irq {
    /// The number of the line.
    pub open spec fn line(self) -> u8 {
        match self {
            Irq::Timer => 0,
            Irq::PS2Keyboard => 1,
            Irq::Two => 2,
            Irq::Three => 3,
            Irq::Four => 4,
            Irq::Five => 5,
            Irq::Six => 6,
            Irq::Seven => 7,
            Irq::Eight => 8,
            Irq::Nine => 9,
            Irq::Ten => 10,
            Irq::Eleven => 11,
            Irq::PS2Mouse => 12,
            Irq::Thirteen => 13,
            Irq::Fourteen => 14,
            Irq::Fifteen => 15,
        }
    }

    /// Returns the number of the line.
    pub fn as_u8(self) -> (r: u8)
        ensures
            r == self.line(),
    {
        match self {
            Irq::Timer => 0,
            Irq::PS2Keyboard => 1,
            Irq::Two => 2,
            Irq::Three => 3,
            Irq::Four => 4,
            Irq::Five => 5,
            Irq::Six => 6,
            Irq::Seven => 7,
            Irq::Eight => 8,
            Irq::Nine => 9,
            Irq::Ten => 10,
            Irq::Eleven => 11,
            Irq::PS2Mouse => 12,
            Irq::Thirteen => 13,
            Irq::Fourteen => 14,
            Irq::Fifteen => 15,
        }
    }

    /// Returns the interrupt vector at which the line is delivered.
    pub fn vector(self) -> (r: u8)
        ensures
            r == PIC_OFFSET + self.line(),
    {
        PIC_OFFSET + self.as_u8()
    }
}

/// The mask bit of the timer line.
pub const IRQS_TIMER: u16 = 1;
/// The mask bit of the PS/2 keyboard line.
pub const IRQS_PS2_KEYBOARD: u16 = 2;
/// The mask bit of the PS/2 mouse line.
pub const IRQS_PS2_MOUSE: u16 = 0x1000;
/// Every line.
pub const IRQS_ALL: u16 = 0xFFFF;

/// The writes that initialize the PICs, each followed by a write to the waiting port: both
/// start their initialization, then receive their vector offset, their cascade identity and the
/// 8086 mode.
pub open spec fn init_sequence() -> Seq<PortWrite> {
    seq![
        PortWrite { port: MASTER_COMMAND, value: 0x11 },
        PortWrite { port: WAIT_PORT, value: 0 },
        PortWrite { port: SLAVE_COMMAND, value: 0x11 },
        PortWrite { port: WAIT_PORT, value: 0 },
        PortWrite { port: MASTER_DATA, value: PIC_OFFSET },
        PortWrite { port: WAIT_PORT, value: 0 },
        PortWrite { port: SLAVE_DATA, value: (PIC_OFFSET + 8) as u8 },
        PortWrite { port: WAIT_PORT, value: 0 },
        PortWrite { port: MASTER_DATA, value: 4 },
        PortWrite { port: WAIT_PORT, value: 0 },
        PortWrite { port: SLAVE_DATA, value: 2 },
        PortWrite { port: WAIT_PORT, value: 0 },
        PortWrite { port: MASTER_DATA, value: 1 },
        PortWrite { port: WAIT_PORT, value: 0 },
        PortWrite { port: SLAVE_DATA, value: 1 },
        PortWrite { port: WAIT_PORT, value: 0 },
    ]
}

/// Appends a write followed by a write to the waiting port.
fn push_and_wait(out: &mut Vec<PortWrite>, port: u16, value: u8)
    ensures
        final(out)@ == old(out)@.push(PortWrite { port, value }).push(
            PortWrite { port: WAIT_PORT, value: 0 },
        ),
{
    out.push(PortWrite { port, value });
    out.push(PortWrite { port: WAIT_PORT, value: 0 });
}

/// Returns the writes that initialize the PICs.
pub fn init() -> (r: Vec<PortWrite>)
    ensures
        r@ == init_sequence(),
{
    let mut out: Vec<PortWrite> = Vec::new();
    push_and_wait(&mut out, MASTER_COMMAND, 0x11);
    push_and_wait(&mut out, SLAVE_COMMAND, 0x11);
    push_and_wait(&mut out, MASTER_DATA, PIC_OFFSET);
    push_and_wait(&mut out, SLAVE_DATA, PIC_OFFSET + 8);
    push_and_wait(&mut out, MASTER_DATA, 4);
    push_and_wait(&mut out, SLAVE_DATA, 2);
    push_and_wait(&mut out, MASTER_DATA, 1);
    push_and_wait(&mut out, SLAVE_DATA, 1);
    assert(out@ =~= init_sequence());
    out
}

/// Returns the writes that acknowledge an interrupt of the provided line: the slave PIC is
/// acknowledged first when the line is one of its own, then the master.
pub fn end_of_interrupt(irq: Irq) -> (r: Vec<PortWrite>)
    ensures
        irq.line() >= 8 ==> r@ == seq![
            PortWrite { port: SLAVE_COMMAND, value: END_OF_INTERRUPT },
            PortWrite { port: MASTER_COMMAND, value: END_OF_INTERRUPT },
        ],
        irq.line() < 8 ==> r@ == seq![PortWrite { port: MASTER_COMMAND, value: END_OF_INTERRUPT }],
{
    let mut out: Vec<PortWrite> = Vec::new();
    if irq.as_u8() >= 8 {
        out.push(PortWrite { port: SLAVE_COMMAND, value: END_OF_INTERRUPT });
    }
    out.push(PortWrite { port: MASTER_COMMAND, value: END_OF_INTERRUPT });
    proof {
        if irq.line() >= 8 {
            assert(out@ =~= seq![
                PortWrite { port: SLAVE_COMMAND, value: END_OF_INTERRUPT },
                PortWrite { port: MASTER_COMMAND, value: END_OF_INTERRUPT },
            ]);
        } else {
            assert(out@ =~= seq![PortWrite { port: MASTER_COMMAND, value: END_OF_INTERRUPT }]);
        }
    }
    out
}

/// Returns the writes that mask the provided lines (a set bit masks its line): the low byte
/// goes to the master, the high byte to the slave.
pub fn set_irq_mask(masked_irqs: u16) -> (r: [PortWrite; 2])
    ensures
        r@[0] == (PortWrite { port: MASTER_DATA, value: (masked_irqs & 0xFF) as u8 }),
        r@[1] == (PortWrite { port: SLAVE_DATA, value: (masked_irqs >> 8u16) as u8 }),
{
    let low: u8 = (masked_irqs & 0xFF) as u8;
    let high: u8 = (masked_irqs >> 8u16) as u8;
    [PortWrite { port: MASTER_DATA, value: low }, PortWrite { port: SLAVE_DATA, value: high }]
}

/// The lines that the kernel masks: all but the timer, the keyboard and the mouse.
pub fn kernel_irq_mask() -> (r: u16)
    ensures
        r == IRQS_ALL & !(IRQS_PS2_KEYBOARD | IRQS_TIMER | IRQS_PS2_MOUSE),
{
    IRQS_ALL & !(IRQS_PS2_KEYBOARD | IRQS_TIMER | IRQS_PS2_MOUSE)
}

} // verus!
