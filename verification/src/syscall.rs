//! What the kernel does to answer the system calls that manage shared resources.
use vstd::prelude::*;
use crate::address_space::{
    AddressSpace, AddressSpaceContext, MappingError, mapped_address, page_size_at,
};
use crate::arch::VirtAddr;
use crate::boot::HHDM_OFFSET;
use crate::global::{FramebufferMeta, Framebuffers, NO_PROCESS};
use crate::paging::{PAGE_USER_ACCESSIBLE, PAGE_WRITABLE, mapping_flags};
use crate::message::{lossy_text, lossy_utf8};
use crate::sys::{
    Sysno, Duration, Framebuffer, SysResult, Value, Verbosity, SYS_INVALID_VALUE, VALUE_NANOSECONDS_PER_TICK,
    VALUE_UPTICKS, VALUE_UPTIME, uptime_from_ticks, uptime_of,
};

verus! {

/// The virtual address at which a process sees the framebuffer it acquired.
pub const FRAMEBUFFER_USER_ADDRESS: u64 = 0x100_0000;

/// Why a request about the framebuffers was refused.
#[derive(Debug, Clone, Copy, PartialEq, Eq, Structural)]
pub enum FramebufferRequestError {
    /// Another process owns the framebuffers.
    ResourceBusy,
    /// The calling process does not own the framebuffers.
    MissingCapability,
    /// The framebuffer could not be mapped for lack of memory.
    OutOfMemory,
    /// The place where the framebuffer goes is already mapped in the calling process.
    AlreadyMapped,
}

/// The framebuffer as the process sees it once mapped.
pub open spec fn user_framebuffer(f: Framebuffer) -> Framebuffer {
    Framebuffer { address: FRAMEBUFFER_USER_ADDRESS, ..f }
}

/// Answers a request of the process `current` to acquire the framebuffers of the system, of
/// which there must be one. When `wants_description` is set, the framebuffer is mapped at
/// [`FRAMEBUFFER_USER_ADDRESS`] in the address space of the process, and its description (at
/// that address) is returned along with the number of framebuffers.
///
/// The request is refused as busy exactly when another process owns the framebuffers. Otherwise
/// it succeeds unless the mapping fails: for lack of memory, or because a slot that the mapping
/// needs was already taken in the process's address space; on failure the metadata of the
/// framebuffers is unchanged.
pub fn acquire_framebuffers<C: AddressSpaceContext>(
    framebuffers: &mut Framebuffers,
    space: &mut AddressSpace<C>,
    current: usize,
    wants_description: bool,
) -> (r: Result<(Option<Framebuffer>, usize), FramebufferRequestError>)
    requires
        old(space).wf(),
        old(framebuffers).framebuffers_view().len() == 1,
        old(framebuffers).metadata_view().len() >= 1,
        wants_description ==> {
            let f = old(framebuffers).framebuffers_view()[0];
            &&& f.bytes_per_lines * f.height <= usize::MAX
            &&& HHDM_OFFSET <= f.address
            &&& (f.address - HHDM_OFFSET) % 4096 == 0
            &&& (f.bytes_per_lines * f.height) % 4096 == 0
            &&& f.address - HHDM_OFFSET + f.bytes_per_lines * f.height <= 0x0010_0000_0000_0000
            &&& FRAMEBUFFER_USER_ADDRESS + f.bytes_per_lines * f.height <= 0x0000_8000_0000_0000
        },
    ensures
        final(space).wf(),
        final(framebuffers).framebuffers_view() == old(framebuffers).framebuffers_view(),
        old(framebuffers).owner_id() != NO_PROCESS && old(framebuffers).owner_id() != current
            ==> r == Err::<(Option<Framebuffer>, usize), FramebufferRequestError>(
            FramebufferRequestError::ResourceBusy,
        ) && final(framebuffers).owner_id() == old(framebuffers).owner_id()
            && final(framebuffers).metadata_view() == old(framebuffers).metadata_view()
            && *final(space) == *old(space),
        old(framebuffers).owner_id() == NO_PROCESS || old(framebuffers).owner_id() == current
            ==> final(framebuffers).owner_id() == (if old(framebuffers).owner_id() == NO_PROCESS {
            current
        } else {
            old(framebuffers).owner_id()
        }),
        match r {
            Ok((description, count)) => {
                let f = old(framebuffers).framebuffers_view()[0];
                &&& count == 1
                &&& wants_description ==> {
                    &&& description == Some(user_framebuffer(f))
                    &&& final(framebuffers).metadata_view() == old(
                        framebuffers,
                    ).metadata_view().update(
                        0,
                        FramebufferMeta {
                            virt_address: f.address as usize,
                            virt_size: (f.bytes_per_lines * f.height) as usize,
                        },
                    )
                    &&& forall|k: u64|
                        FRAMEBUFFER_USER_ADDRESS <= k < FRAMEBUFFER_USER_ADDRESS + f.bytes_per_lines
                            * f.height ==> #[trigger] final(space).mapping(k) is Some
                            && mapped_address(final(space).mapping(k)->0, k) == f.address
                            - HHDM_OFFSET + (k - FRAMEBUFFER_USER_ADDRESS)
                }
                &&& !wants_description ==> description is None && *final(space) == *old(space)
            },
            Err(e) => e != FramebufferRequestError::MissingCapability,
        },
        r is Err ==> final(framebuffers).metadata_view() == old(framebuffers).metadata_view(),
        (old(framebuffers).owner_id() == NO_PROCESS || old(framebuffers).owner_id() == current)
            && !wants_description ==> r is Ok,
        (old(framebuffers).owner_id() == NO_PROCESS || old(framebuffers).owner_id() == current)
            ==> r != Err::<(Option<Framebuffer>, usize), FramebufferRequestError>(
            FramebufferRequestError::ResourceBusy,
        ),
        r == Err::<(Option<Framebuffer>, usize), FramebufferRequestError>(
            FramebufferRequestError::OutOfMemory,
        ) ==> final(space).out_of_memory(),
        r == Err::<(Option<Framebuffer>, usize), FramebufferRequestError>(
            FramebufferRequestError::AlreadyMapped,
        ) ==> {
            let f = old(framebuffers).framebuffers_view()[0];
            exists|stop: VirtAddr, size: u64|
                #![trigger old(space).chunk_in_use(stop, size)]
                FRAMEBUFFER_USER_ADDRESS <= stop && stop + size <= FRAMEBUFFER_USER_ADDRESS
                    + f.bytes_per_lines * f.height && old(space).chunk_in_use(stop, size)
        },
        ({
            let f = old(framebuffers).framebuffers_view()[0];
            &&& old(framebuffers).owner_id() == NO_PROCESS || old(framebuffers).owner_id()
                == current
            &&& !final(space).out_of_memory()
            &&& forall|stop: VirtAddr|
                FRAMEBUFFER_USER_ADDRESS <= stop < FRAMEBUFFER_USER_ADDRESS + f.bytes_per_lines
                    * f.height ==> !old(space).chunk_in_use(
                    stop,
                    #[trigger] page_size_at(
                        FRAMEBUFFER_USER_ADDRESS as int,
                        f.address - HHDM_OFFSET,
                        f.bytes_per_lines * f.height,
                        stop as int,
                    ),
                )
        }) ==> r is Ok,
{
    if !framebuffers.acquire(current) {
        return Err(FramebufferRequestError::ResourceBusy);
    }
    let count = framebuffers.as_slice().len();
    if !wants_description {
        return Ok((None, count));
    }
    let f = framebuffers.as_slice()[0];
    let size = f.size();
    assert(mapping_flags(PAGE_WRITABLE | PAGE_USER_ACCESSIBLE)) by (bit_vector);
    let ghost s0 = *space;
    proof {
        let v = FRAMEBUFFER_USER_ADDRESS;
        let l = size as u64;
        assert(l == 0 || (v >> 48u64) == ((v + l - 1) as u64 >> 48u64)) by (bit_vector)
            requires
                v == 0x100_0000u64,
                v + l <= 0x0000_8000_0000_0000u64,
        ;
    }
    match space.map_range(
        FRAMEBUFFER_USER_ADDRESS,
        f.address - HHDM_OFFSET,
        size as u64,
        PAGE_WRITABLE | PAGE_USER_ACCESSIBLE,
    ) {
        Ok(()) => {},
        Err(MappingError::OutOfMemory) => {
            return Err(FramebufferRequestError::OutOfMemory);
        },
        Err(MappingError::AlreadyMapped) => {
            return Err(FramebufferRequestError::AlreadyMapped);
        },
    }
    framebuffers.set_metadata(0, FramebufferMeta { virt_address: f.address as usize, virt_size: size });
    Ok((Some(Framebuffer { address: FRAMEBUFFER_USER_ADDRESS, ..f }), count))
}

/// Answers a request of the process `current` to release the framebuffers, which it must own.
pub fn release_framebuffers(framebuffers: &mut Framebuffers, current: usize) -> (r: Result<
    (),
    FramebufferRequestError,
>)
    ensures
        r is Ok <==> old(framebuffers).owner_id() == current,
        r is Err ==> r == Err::<(), FramebufferRequestError>(
            FramebufferRequestError::MissingCapability,
        ),
        final(framebuffers).owner_id() == (if old(framebuffers).owner_id() == current {
            NO_PROCESS
        } else {
            old(framebuffers).owner_id()
        }),
{
    if framebuffers.release(current) {
        Ok(())
    } else {
        Err(FramebufferRequestError::MissingCapability)
    }
}

/// The system calls that the kernel answers, in the order of its table of handlers: a system
/// call is made with its position in that table.
#[derive(Debug, Clone, Copy, PartialEq, Eq, Structural)]
pub enum SystemCall {
    /// Despawns a process.
    DespawnProcess,
    /// Puts the calling process to sleep.
    Sleep,
    /// Acquires the framebuffers.
    AcquireFramebuffers,
    /// Releases the framebuffers.
    ReleaseFramebuffers,
    /// Reads a value maintained by the kernel.
    ReadValue,
    /// Logs a message.
    KernelLog,
}

/// The number of system calls that the kernel answers.
pub const SYSTEM_CALL_COUNT: usize = 6;

/// The system call at position `number` of the kernel's table, if there is one.
pub open spec fn system_call_at(number: usize) -> Option<SystemCall> {
    if number == 0 {
        Some(SystemCall::DespawnProcess)
    } else if number == 1 {
        Some(SystemCall::Sleep)
    } else if number == 2 {
        Some(SystemCall::AcquireFramebuffers)
    } else if number == 3 {
        Some(SystemCall::ReleaseFramebuffers)
    } else if number == 4 {
        Some(SystemCall::ReadValue)
    } else if number == 5 {
        Some(SystemCall::KernelLog)
    } else {
        None
    }
}

/// The kernel's table agrees with the numbers of the system call interface: the system calls
/// that userland numbers 0 to 4 (despawn, sleep, acquire and release the framebuffers, read a
/// value) sit at those positions, and the kernel log, the last one, closes the table.
pub proof fn lemma_table_follows_interface_numbers()
    ensures
        system_call_at(Sysno::DespawnProcess.number()) == Some(SystemCall::DespawnProcess),
        system_call_at(Sysno::Sleep.number()) == Some(SystemCall::Sleep),
        system_call_at(Sysno::AcquireFramebuffers.number()) == Some(
            SystemCall::AcquireFramebuffers,
        ),
        system_call_at(Sysno::ReleaseFramebuffers.number()) == Some(
            SystemCall::ReleaseFramebuffers,
        ),
        system_call_at(Sysno::ReadValue.number()) == Some(SystemCall::ReadValue),
        system_call_at((SYSTEM_CALL_COUNT - 1) as usize) == Some(SystemCall::KernelLog),
        forall|n: usize| #[trigger] system_call_at(n) is Some <==> n < SYSTEM_CALL_COUNT,
        forall|m: usize, n: usize|
            #[trigger] system_call_at(m) is Some && #[trigger] system_call_at(n) == system_call_at(m)
                ==> m == n,
{
}

/// Selects the handler of the system call `number`; a number past the table is answered with
/// `INVALID_VALUE` without calling any handler.
pub fn select_system_call(number: usize) -> (r: Result<SystemCall, SysResult>)
    ensures
        r is Ok <==> number < SYSTEM_CALL_COUNT,
        r matches Ok(c) ==> system_call_at(number) == Some(c),
        r matches Err(e) ==> e.code() == SYS_INVALID_VALUE,
        number == 0 ==> r == Ok::<SystemCall, SysResult>(SystemCall::DespawnProcess),
        number == 1 ==> r == Ok::<SystemCall, SysResult>(SystemCall::Sleep),
        number == 2 ==> r == Ok::<SystemCall, SysResult>(SystemCall::AcquireFramebuffers),
        number == 3 ==> r == Ok::<SystemCall, SysResult>(SystemCall::ReleaseFramebuffers),
        number == 4 ==> r == Ok::<SystemCall, SysResult>(SystemCall::ReadValue),
        number == 5 ==> r == Ok::<SystemCall, SysResult>(SystemCall::KernelLog),
{
    if number >= SYSTEM_CALL_COUNT {
        return Err(SysResult::invalid_value());
    }
    if number == 0 {
        Ok(SystemCall::DespawnProcess)
    } else if number == 1 {
        Ok(SystemCall::Sleep)
    } else if number == 2 {
        Ok(SystemCall::AcquireFramebuffers)
    } else if number == 3 {
        Ok(SystemCall::ReleaseFramebuffers)
    } else if number == 4 {
        Ok(SystemCall::ReadValue)
    } else {
        Ok(SystemCall::KernelLog)
    }
}

/// What the kernel writes back to a process that reads a value.
#[derive(Debug, Clone, Copy, PartialEq, Eq, Structural)]
pub enum ValueReading {
    /// The number of timer ticks since boot.
    Upticks(u64),
    /// The time elapsed since boot.
    Uptime(Duration),
    /// The number of nanoseconds that a timer tick spans.
    NanosecondsPerTick(u32),
}

/// Answers a request to read `value`, the timer having ticked `upticks` times since boot at
/// `ns_per_tick` nanoseconds a tick; an unknown value is answered with `INVALID_VALUE`.
pub fn read_value(value: Value, upticks: u64, ns_per_tick: u32) -> (r: Result<
    ValueReading,
    SysResult,
>)
    ensures
        value.0 == VALUE_UPTICKS ==> r == Ok::<ValueReading, SysResult>(
            ValueReading::Upticks(upticks),
        ),
        value.0 == VALUE_UPTIME ==> r == Ok::<ValueReading, SysResult>(
            ValueReading::Uptime(uptime_of(upticks, ns_per_tick)),
        ),
        value.0 == VALUE_NANOSECONDS_PER_TICK ==> r == Ok::<ValueReading, SysResult>(
            ValueReading::NanosecondsPerTick(ns_per_tick),
        ),
        r is Err <==> value.0 > VALUE_NANOSECONDS_PER_TICK,
        r matches Err(e) ==> e.code() == SYS_INVALID_VALUE,
{
    let raw = value.as_raw();
    if raw == VALUE_UPTICKS {
        Ok(ValueReading::Upticks(upticks))
    } else if raw == VALUE_UPTIME {
        Ok(ValueReading::Uptime(uptime_from_ticks(upticks, ns_per_tick)))
    } else if raw == VALUE_NANOSECONDS_PER_TICK {
        Ok(ValueReading::NanosecondsPerTick(ns_per_tick))
    } else {
        Err(SysResult::invalid_value())
    }
}

/// Answers a request of a process to log the bytes `data` at the raw verbosity level
/// `verbosity`: an unknown level is answered with `INVALID_VALUE`; otherwise the level and the
/// text to log are returned, each sequence of `data` that is not UTF-8 shown as U+FFFD.
pub fn kernel_log(verbosity: usize, data: &[u8]) -> (r: Result<(Verbosity, Vec<u8>), SysResult>)
    ensures
        r is Ok <==> verbosity < 4,
        r matches Ok((v, text)) ==> v.level() == verbosity && text@ == lossy_utf8(data@),
        r matches Err(e) ==> e.code() == SYS_INVALID_VALUE,
{
    match Verbosity::from_raw(verbosity) {
        Some(v) => Ok((v, lossy_text(data))),
        None => Err(SysResult::invalid_value()),
    }
}

} // verus!
