//! The first serial port, used to log messages.
use vstd::prelude::*;
use super::PortWrite;

verus! {

/// The data port of the serial port.
pub const PORT: u16 = 0x3F8;
/// The interrupt enable register.
pub const INTERRUPT_ENABLE: u16 = 0x3F9;
/// The line control register.
pub const LINE_CONTROL: u16 = 0x3FB;
/// The modem control register.
pub const MODEM_CONTROL: u16 = 0x3FC;
/// The line status register.
pub const LINE_STATUS: u16 = 0x3FD;
/// The line control bit that gives access to the baud rate divisor.
pub const DLAB: u8 = 0x80;
/// No parity, 8-bit data, one stop bit.
pub const DEFAULT_LINE_CONTROL: u8 = 0x03;
/// The modem control bits that finish the handshake: data terminal ready, request to send.
pub const HANDSHAKE: u8 = 0x03;
/// The line status bit that says the transmitter can take a byte.
pub const TRANSMITTER_EMPTY: u8 = 0x20;
/// The baud rate divisor the kernel uses (38400 bauds).
pub const BAUD_RATE_DIVISOR: u16 = 3;

/// The serial port, once initialized.
#[derive(Debug, Clone, Copy, PartialEq, Eq, Structural)]
pub struct Serial;

/// The writes that select the provided baud rate divisor.
pub open spec fn baud_rate_writes(divisor: u16) -> Seq<PortWrite> {
    seq![
        PortWrite { port: LINE_CONTROL, value: DLAB },
        PortWrite { port: PORT, value: (divisor & 0xFF) as u8 },
        PortWrite { port: (PORT + 1) as u16, value: (divisor >> 8u16) as u8 },
    ]
}

/// Returns the writes that select the provided baud rate divisor: its low byte goes to the data
/// port, its high byte to the next one, while the divisor is accessible.
pub fn set_baud_rate_divisor(divisor: u16) -> (r: Vec<PortWrite>)
    ensures
        r@ == baud_rate_writes(divisor),
{
    let mut out: Vec<PortWrite> = Vec::new();
    out.push(PortWrite { port: LINE_CONTROL, value: DLAB });
    out.push(PortWrite { port: PORT, value: (divisor & 0xFF) as u8 });
    out.push(PortWrite { port: PORT + 1, value: (divisor >> 8u16) as u8 });
    assert(out@ =~= baud_rate_writes(divisor));
    out
}

impl Serial {
    /// The writes that initialize the serial port: interrupts off, baud rate, line settings,
    /// FIFO, handshake.
    pub open spec fn init_writes() -> Seq<PortWrite> {
        seq![PortWrite { port: INTERRUPT_ENABLE, value: 0 }] + baud_rate_writes(BAUD_RATE_DIVISOR)
            + seq![
            PortWrite { port: LINE_CONTROL, value: DEFAULT_LINE_CONTROL },
            PortWrite { port: MODEM_CONTROL, value: 0xC7 },
            PortWrite { port: MODEM_CONTROL, value: HANDSHAKE },
        ]
    }

    /// Returns the writes that initialize the serial port.
    pub fn init_unchecked() -> (r: Vec<PortWrite>)
        ensures
            r@ == Self::init_writes(),
    {
        let mut out: Vec<PortWrite> = Vec::new();
        out.push(PortWrite { port: INTERRUPT_ENABLE, value: 0 });
        let mut baud = set_baud_rate_divisor(BAUD_RATE_DIVISOR);
        out.append(&mut baud);
        out.push(PortWrite { port: LINE_CONTROL, value: DEFAULT_LINE_CONTROL });
        out.push(PortWrite { port: MODEM_CONTROL, value: 0xC7 });
        out.push(PortWrite { port: MODEM_CONTROL, value: HANDSHAKE });
        assert(out@ =~= Self::init_writes());
        out
    }

    /// Whether the port can take a byte, from its line status.
    pub fn ready_to_send(line_status: u8) -> (r: bool)
        ensures
            r == (line_status & TRANSMITTER_EMPTY != 0),
    {
        line_status & TRANSMITTER_EMPTY != 0
    }

    /// Returns the writes that send the provided bytes, in order, each to the data port; each
    /// one is to be made once the port is ready to send.
    pub fn write_bytes(bytes: &[u8]) -> (r: Vec<PortWrite>)
        ensures
            r@.len() == bytes@.len(),
            forall|i: int|
                0 <= i < bytes@.len() ==> #[trigger] r@[i] == (PortWrite { port: PORT, value: bytes@[i] }),
    {
        let mut out: Vec<PortWrite> = Vec::new();
        let mut i: usize = 0;
        while i < bytes.len()
            invariant
                i <= bytes@.len(),
                out@.len() == i,
                forall|k: int| 0 <= k < i ==> #[trigger] out@[k] == (PortWrite { port: PORT, value: bytes@[k] }),
            decreases bytes@.len() - i,
        {
            out.push(PortWrite { port: PORT, value: bytes[i] });
            i = i + 1;
        }
        out
    }
}

} // verus!
