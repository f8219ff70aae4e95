//! The devices that the kernel drives through I/O ports.
//!
//! The functions here decide what to write to the ports and what to make of what is read from
//! them; the port accesses themselves are made by the caller.
use vstd::prelude::*;

pub mod pic;
pub mod pit;
pub mod pci;
pub mod ps2;
pub mod serial;

verus! {

/// A byte to write to an I/O port.
#[derive(Debug, Clone, Copy, PartialEq, Eq, Structural)]
pub struct PortWrite {
    /// The port.
    pub port: u16,
    /// The byte.
    pub value: u8,
}

/// The port written to between the steps of a slow device's initialization, which gives it time
/// to process them.
pub const WAIT_PORT: u16 = 0x80;

} // verus!
