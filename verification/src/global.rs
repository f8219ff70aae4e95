//! The global state of the kernel: the framebuffers and who owns them, the pending inputs.
use vstd::prelude::*;
use crate::sys::Framebuffer;
use crate::memory::MemoryAllocator;
use crate::io::pci::PciDevice;

verus! {

/// The process identifier that stands for no process (and, in system calls, for the caller).
pub const NO_PROCESS: usize = usize::MAX;

/// Where a framebuffer was mapped in the address space of its owner.
#[derive(Debug, Clone, Copy, PartialEq, Eq, Structural)]
pub struct FramebufferMeta {
    /// The virtual address of the mapping.
    pub virt_address: usize,
    /// The size of the mapping.
    pub virt_size: usize,
}

impl FramebufferMeta {
    /// A framebuffer that is not mapped anywhere.
    pub fn unmapped() -> (r: Self)
        ensures
            r.virt_address == 0 && r.virt_size == 0,
    {
        FramebufferMeta { virt_address: 0, virt_size: 0 }
    }
}

/// The framebuffers of the system, which one process at a time may own.
pub struct Framebuffers {
    owner: usize,
    framebuffers: Vec<Framebuffer>,
    metadata: Vec<FramebufferMeta>,
}

impl Framebuffers {
    /// The process that owns the framebuffers, or [`NO_PROCESS`].
    pub closed spec fn owner_id(&self) -> usize {
        self.owner
    }

    /// The framebuffers.
    pub closed spec fn framebuffers_view(&self) -> Seq<Framebuffer> {
        self.framebuffers@
    }

    /// The metadata of the framebuffers.
    pub closed spec fn metadata_view(&self) -> Seq<FramebufferMeta> {
        self.metadata@
    }

    /// Creates the set of framebuffers, owned by no process, none of them mapped.
    pub fn new(framebuffers: Vec<Framebuffer>) -> (r: Self)
        ensures
            r.owner_id() == NO_PROCESS,
            r.framebuffers_view() == framebuffers@,
            r.metadata_view().len() == 4,
            forall|i: int| 0 <= i < 4 ==> #[trigger] r.metadata_view()[i] == (FramebufferMeta { virt_address: 0, virt_size: 0 }),
    {
        let m = FramebufferMeta::unmapped();
        let metadata = vec![m, m, m, m];
        Framebuffers { owner: NO_PROCESS, framebuffers, metadata }
    }

    /// Gives the framebuffers to the process `id`, if no other process owns them.
    ///
    /// Returns whether `id` owns the framebuffers afterwards.
    pub fn acquire(&mut self, id: usize) -> (r: bool)
        ensures
            r == (old(self).owner_id() == NO_PROCESS || old(self).owner_id() == id),
            final(self).owner_id() == (if old(self).owner_id() == NO_PROCESS {
                id
            } else {
                old(self).owner_id()
            }),
            final(self).framebuffers_view() == old(self).framebuffers_view(),
            final(self).metadata_view() == old(self).metadata_view(),
    {
        if self.owner == NO_PROCESS {
            self.owner = id;
            true
        } else {
            self.owner == id
        }
    }

    /// Takes the framebuffers back from the process `id`, if it owns them.
    ///
    /// Returns whether it did.
    pub fn release(&mut self, id: usize) -> (r: bool)
        ensures
            r == (old(self).owner_id() == id),
            final(self).owner_id() == (if old(self).owner_id() == id {
                NO_PROCESS
            } else {
                old(self).owner_id()
            }),
            final(self).framebuffers_view() == old(self).framebuffers_view(),
            final(self).metadata_view() == old(self).metadata_view(),
    {
        if self.owner == id {
            self.owner = NO_PROCESS;
            true
        } else {
            false
        }
    }

    /// Returns the framebuffers.
    pub fn as_slice(&self) -> (r: &[Framebuffer])
        ensures
            r@ == self.framebuffers_view(),
    {
        self.framebuffers.as_slice()
    }

    /// Records where the framebuffer at `index` was mapped.
    pub fn set_metadata(&mut self, index: usize, meta: FramebufferMeta)
        requires
            index < old(self).metadata_view().len(),
        ensures
            final(self).metadata_view() == old(self).metadata_view().update(index as int, meta),
            final(self).owner_id() == old(self).owner_id(),
            final(self).framebuffers_view() == old(self).framebuffers_view(),
    {
        self.metadata.set(index, meta);
    }
}

/// The owner of the framebuffers after `acquire`, as a function of the owner before.
pub open spec fn owner_after_acquire(owner: usize, id: usize) -> usize {
    if owner == NO_PROCESS {
        id
    } else {
        owner
    }
}

/// The owner of the framebuffers after `release`, as a function of the owner before.
pub open spec fn owner_after_release(owner: usize, id: usize) -> usize {
    if owner == id {
        NO_PROCESS
    } else {
        owner
    }
}

/// A process that acquired free framebuffers and then released them leaves them free; while it
/// owns them, no other process can acquire or release them.
pub proof fn lemma_framebuffer_ownership(owner: usize, a: usize, b: usize)
    requires
        a != b,
        a != NO_PROCESS,
        b != NO_PROCESS,
    ensures
        owner == NO_PROCESS ==> owner_after_release(owner_after_acquire(owner, a), a)
            == NO_PROCESS,
        owner == a ==> owner_after_acquire(owner, b) == a && owner_after_release(owner, b) == a,
{
}

/// The capacity of the buffer of scan-codes received from the PS/2 keyboard.
pub const PS2_KEYBOARD_BUFFER_SIZE: usize = 16;

/// The inputs received since they were last read.
pub struct Inputs {
    ps2_keyboard: Vec<u8>,
}

impl Inputs {
    /// The scan-codes received from the PS/2 keyboard, oldest first.
    pub closed spec fn keyboard(&self) -> Seq<u8> {
        self.ps2_keyboard@
    }

    /// No input.
    pub fn empty() -> (r: Self)
        ensures
            r.keyboard() == Seq::<u8>::empty(),
    {
        Inputs { ps2_keyboard: Vec::new() }
    }

    /// Forgets the inputs received so far.
    pub fn clear(&mut self)
        ensures
            final(self).keyboard() == Seq::<u8>::empty(),
    {
        self.ps2_keyboard.clear();
    }

    /// Records a scan-code received from the keyboard, unless the buffer is full.
    ///
    /// Returns whether it was recorded.
    pub fn push_keyboard(&mut self, scancode: u8) -> (r: bool)
        ensures
            r == (old(self).keyboard().len() < PS2_KEYBOARD_BUFFER_SIZE),
            final(self).keyboard() == (if r {
                old(self).keyboard().push(scancode)
            } else {
                old(self).keyboard()
            }),
    {
        if self.ps2_keyboard.len() < PS2_KEYBOARD_BUFFER_SIZE {
            self.ps2_keyboard.push(scancode);
            true
        } else {
            false
        }
    }

    /// Returns the scan-codes received from the keyboard, oldest first.
    pub fn keyboard_bytes(&self) -> (r: &[u8])
        ensures
            r@ == self.keyboard(),
    {
        self.ps2_keyboard.as_slice()
    }
}

/// The global state of the kernel.
pub struct Global<P> {
    /// The allocator of physical pages.
    pub allocator: MemoryAllocator,
    /// The physical address at which the kernel was loaded.
    pub kernel_physical_base: u64,
    /// The physical address of the kernel's level 4 page table.
    pub address_space: u64,
    /// The processes.
    pub processes: Processes<P>,
    /// The framebuffers.
    pub framebuffers: Framebuffers,
    /// The number of timer ticks since boot.
    pub upticks: u64,
    /// The devices found on the PCI bus.
    pub pci_devices: Vec<PciDevice>,
}

/// The process referenced by a system call does not exist.
#[derive(Debug, Clone, Copy, PartialEq, Eq, Structural)]
pub struct ProcessNotFound;

/// No more processes can be spawned.
#[derive(Debug, Clone, Copy, PartialEq, Eq, Structural)]
pub struct TooManyProcesses;

/// The table of processes and the one running on the CPU.
///
/// A process keeps its identifier, its position in the table, for as long as the table lives.
pub struct Processes<P> {
    list: Vec<P>,
    capacity: usize,
    current_process: usize,
}

impl<P> Processes<P> {
    /// The processes, by identifier.
    pub closed spec fn processes(&self) -> Seq<P> {
        self.list@
    }

    /// The maximum number of processes.
    pub closed spec fn max_processes(&self) -> nat {
        self.capacity as nat
    }

    /// The identifier of the process running on the CPU, or [`NO_PROCESS`].
    pub closed spec fn current_process_id(&self) -> usize {
        self.current_process
    }

    /// Whether the table holds no more processes than its capacity.
    pub closed spec fn wf(&self) -> bool {
        self.list@.len() <= self.capacity
    }

    /// Creates an empty table that can hold up to `capacity` processes; none is running.
    pub fn new(capacity: usize) -> (r: Self)
        ensures
            r.wf(),
            r.processes() == Seq::<P>::empty(),
            r.max_processes() == capacity,
            r.current_process_id() == NO_PROCESS,
    {
        Processes { list: Vec::new(), capacity, current_process: NO_PROCESS }
    }

    /// Adds a process to the table, unless it is full, and returns its identifier.
    pub fn spawn_process(&mut self, process: P) -> (r: Result<usize, TooManyProcesses>)
        requires
            old(self).wf(),
        ensures
            final(self).wf(),
            final(self).max_processes() == old(self).max_processes(),
            final(self).current_process_id() == old(self).current_process_id(),
            old(self).processes().len() < old(self).max_processes() ==> r == Ok::<
                usize,
                TooManyProcesses,
            >(old(self).processes().len() as usize) && final(self).processes() == old(
                self,
            ).processes().push(process),
            old(self).processes().len() >= old(self).max_processes() ==> r == Err::<
                usize,
                TooManyProcesses,
            >(TooManyProcesses) && final(self).processes() == old(self).processes(),
    {
        if self.list.len() < self.capacity {
            let id = self.list.len();
            self.list.push(process);
            Ok(id)
        } else {
            Err(TooManyProcesses)
        }
    }

    /// Makes the process `id` the one running on the CPU, without checking that it exists.
    pub fn schedule_unchecked(&mut self, id: usize)
        ensures
            final(self).current_process_id() == id,
            final(self).processes() == old(self).processes(),
            final(self).max_processes() == old(self).max_processes(),
    {
        self.current_process = id;
    }

    /// Makes the process `id` the one running on the CPU, if it exists.
    pub fn schedule(&mut self, id: usize) -> (r: Result<(), ProcessNotFound>)
        ensures
            r is Ok <==> id < old(self).processes().len(),
            final(self).current_process_id() == (if id < old(self).processes().len() {
                id
            } else {
                old(self).current_process_id()
            }),
            final(self).processes() == old(self).processes(),
            final(self).max_processes() == old(self).max_processes(),
    {
        if id < self.list.len() {
            self.schedule_unchecked(id);
            Ok(())
        } else {
            Err(ProcessNotFound)
        }
    }

    /// Returns the identifier of the process running on the CPU; one must be.
    pub fn current_id(&self) -> (r: usize)
        requires
            self.current_process_id() != NO_PROCESS,
        ensures
            r == self.current_process_id(),
    {
        self.current_process
    }

    /// Returns the process running on the CPU; one must be.
    pub fn current(&self) -> (r: &P)
        requires
            self.current_process_id() < self.processes().len(),
        ensures
            *r == self.processes()[self.current_process_id() as int],
    {
        &self.list[self.current_process]
    }

    /// Returns the process `id`, if it exists; [`NO_PROCESS`] designates the one running on the
    /// CPU, which must exist.
    pub fn get(&self, id: usize) -> (r: Option<&P>)
        requires
            id == NO_PROCESS ==> self.current_process_id() < self.processes().len(),
        ensures
            id == NO_PROCESS ==> r == Some(&self.processes()[self.current_process_id() as int]),
            id != NO_PROCESS && id < self.processes().len() ==> r == Some(
                &self.processes()[id as int],
            ),
            id != NO_PROCESS && id >= self.processes().len() ==> r is None,
    {
        if id == NO_PROCESS {
            Some(&self.list[self.current_process])
        } else if id < self.list.len() {
            Some(&self.list[id])
        } else {
            None
        }
    }
}

/// A process that was just spawned can be scheduled, and is then the one `get` gives for the
/// caller.
pub proof fn lemma_spawn_then_schedule<P>(before: Seq<P>, process: P, capacity: nat)
    requires
        before.len() < capacity,
    ensures
        (before.len() as int) < before.push(process).len(),
        before.push(process)[before.len() as int] == process,
{
}

} // verus!
