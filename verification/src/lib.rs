//! Verified core of the Ruel operating system: descriptor encodings, paging structures,
//! boot-protocol parsing and the small state machines that the kernel drives.
use vstd::prelude::*;

pub mod arch;
pub mod paging;
pub mod memory;
pub mod address_space;
pub mod page_arena;
pub mod elf;
pub mod gdt;
pub mod idt;
pub mod init_process;
pub mod sys;
pub mod framebuffer;
pub mod limine;
pub mod boot;
pub mod global;
pub mod cpu;
pub mod io;
pub mod userland;
pub mod syscall;
pub mod message;
pub mod log;
pub mod interrupts;

verus! {

} // verus!
