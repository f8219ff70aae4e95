# ruel

The verified core of the Ruel operating system kernel, its boot path and its userland library,
written in Verus.

`src/` holds the library. Every function of it is verified except two small trusted items that
call the standard library: `elf::slice_address` (the address of a slice) and
`message::check_utf8` (`core::str::from_utf8`), whose contracts state what std documents.

- `arch`, `paging`, `address_space`, `page_arena`: 4-level paging, the address spaces built on
  it, and a page arena that keeps page tables in ordinary memory.
- `gdt`, `idt`, `cpu`: segment selectors and descriptors, the Task State Segment, gate
  descriptors and the interrupt table, the kernel's descriptor tables and system call registers.
- `elf`, `init_process`: the ELF parser and the loader of the init process.
- `limine`, `boot`: the structures of the Limine boot protocol and what the kernel makes of the
  bootloader's answers (memory map, framebuffers, modules, the kernel's address space).
- `memory`, `global`, `syscall`, `message`, `log`: the page allocator, the shared kernel state,
  the system calls and their table, the text the kernel logs for a process's bytes, and the
  colored, aligned form in which log messages are written.
- `io`, `interrupts`: the decisions behind the PIC, PIT, PCI, PS/2 and serial drivers, and
  what the PS/2 interrupts hand to every process; the port accesses are made by the caller.
- `sys`, `userland`, `framebuffer`: the system call interface and the userland library.

`tests/` exercises the library on concrete values. `app/` is a host program that loads an init
program the way the kernel does, or, with `--boot`, runs the kernel's whole boot sequence on a
simulated machine; `app/kernel.rs` is the glue that performs the privileged operations.
