//! The types shared by the kernel and the programs that run on it: the system call interface.
use vstd::prelude::*;

verus! {

/// The raw value of the `false` [`Bool`].
pub const BOOL_FALSE: u8 = 0;
/// The raw value of the `true` [`Bool`].
pub const BOOL_TRUE: u8 = 1;

/// A boolean value with the layout of a `u8`, usable across the system call interface.
///
/// Every value other than [`BOOL_FALSE`] is considered true.
#[derive(Debug, Clone, Copy, PartialEq, Eq, Structural)]
pub struct Bool(pub u8);

impl Bool {
    /// Whether a [`Bool`] stands for `true`.
    pub open spec fn truth(self) -> bool {
        self.0 != BOOL_FALSE
    }

    /// Returns the boolean value this [`Bool`] stands for.
    pub fn as_bool(self) -> (r: bool)
        ensures
            r == self.truth(),
    {
        self.0 != BOOL_FALSE
    }

    /// Creates a new [`Bool`] from the provided boolean value.
    pub fn from_bool(b: bool) -> (r: Self)
        ensures
            r.0 == (if b {
                BOOL_TRUE
            } else {
                BOOL_FALSE
            }),
    {
        if b {
            Bool(BOOL_TRUE)
        } else {
            Bool(BOOL_FALSE)
        }
    }
}

impl From<bool> for Bool {
    fn from(b: bool) -> (r: Self) {
        Self::from_bool(b)
    }
}

impl vstd::std_specs::convert::FromSpecImpl<bool> for Bool {
    open spec fn obeys_from_spec() -> bool {
        true
    }

    open spec fn from_spec(b: bool) -> Self {
        Bool(
            if b {
                BOOL_TRUE
            } else {
                BOOL_FALSE
            },
        )
    }
}

/// Converting a boolean to a [`Bool`] and back gives the boolean back.
pub proof fn lemma_bool_round_trip(b: bool)
    ensures
        Bool(
            if b {
                BOOL_TRUE
            } else {
                BOOL_FALSE
            },
        ).truth() == b,
{
}

/// The raw tag of a wake-up condition waiting for the PS/2 keyboard.
pub const WAKE_UP_PS2_KEYBOARD: u8 = 0;

/// A tag that describes which condition a wake-up is waiting on.
#[derive(Debug, Clone, Copy, PartialEq, Eq, Structural)]
pub struct WakeUpTag(pub u8);

/// The maximum number of bytes that can be read from the PS/2 port during a single quantum.
pub const WAKE_UP_PS2_MAX_DATA_LENGTH: usize = 5;

/// A wake-up condition: the process waits for data from the PS/2 keyboard.
#[derive(Debug, Clone, Copy)]
pub struct WakeUpPS2 {
    /// The tag of the wake-up condition, always [`WAKE_UP_PS2_KEYBOARD`] for this one.
    pub tag: WakeUpTag,
    /// The bytes that were read from the PS/2 port.
    pub data: [u8; 5],
    /// The number of bytes that were read from the PS/2 port.
    pub count: u8,
}

impl WakeUpPS2 {
    /// A wake-up condition on the PS/2 keyboard that has not received any byte yet.
    pub fn new() -> (r: Self)
        ensures
            r.tag.0 == WAKE_UP_PS2_KEYBOARD,
            r.count == 0,
            r.data@ == Seq::new(5, |i: int| 0u8),
    {
        let r = WakeUpPS2 { tag: WakeUpTag(WAKE_UP_PS2_KEYBOARD), data: [0u8;5], count: 0 };
        assert(r.data@ =~= Seq::new(5, |i: int| 0u8));
        r
    }
}

/// A slice of memory in the address space of a process.
#[derive(Debug, Clone, Copy, PartialEq, Eq, Structural)]
pub struct Slice {
    /// The address of the pointed memory.
    pub address: u64,
    /// The number of bytes in the slice.
    pub length: usize,
}

/// The maximum number of bytes that a [`PS2Buffer`] holds.
pub const PS2_BUFFER_SIZE: usize = 7;

/// A buffer that can hold PS/2 scan-codes.
///
/// `length` may be larger than the size of the buffer: the difference is the number of bytes
/// that were dropped since the buffer was last read.
#[derive(Debug, Clone, Copy)]
pub struct PS2Buffer {
    /// The number of bytes that have been written to the buffer.
    pub length: u8,
    /// The buffer.
    pub buffer: [u8; 7],
}

impl PS2Buffer {
    /// An empty [`PS2Buffer`].
    pub fn empty() -> (r: Self)
        ensures
            r.length == 0,
            forall|i: int| 0 <= i < 7 ==> #[trigger] r.buffer@[i] == 0,
    {
        PS2Buffer { length: 0, buffer: [0u8;7] }
    }
}

/// Whether the process wants system calls that could block to return at once instead.
pub const PROCESS_CONFIG_DONT_BLOCK: usize = 1;

/// Some flags used to configure a running process instance.
#[derive(Debug, Clone, Copy, PartialEq, Eq, Structural)]
pub struct ProcessConfig(pub usize);

impl ProcessConfig {
    /// Whether every flag of `flags` is set.
    pub fn contains(self, flags: usize) -> (r: bool)
        ensures
            r == (self.0 & flags == flags),
    {
        self.0 & flags == flags
    }
}

/// The verbosity level of a message logged through the logging system of the kernel.
///
/// Messages that are more verbose have a greater level.
#[derive(Debug, Clone, Copy, PartialEq, Eq, Structural)]
pub enum Verbosity {
    /// An error that occurred in the kernel, generally not recoverable.
    Error,
    /// An error the kernel managed to recover from.
    Warn,
    /// Something that happened in the kernel and that is good to know.
    Info,
    /// Verbose information about the kernel's current state and execution.
    Trace,
}

impl Verbosity {
    /// The raw value of a verbosity level.
    pub open spec fn level(self) -> usize {
        match self {
            Verbosity::Error => 0,
            Verbosity::Warn => 1,
            Verbosity::Info => 2,
            Verbosity::Trace => 3,
        }
    }

    /// Returns the raw value of this verbosity level.
    pub fn as_raw(self) -> (r: usize)
        ensures
            r == self.level(),
    {
        match self {
            Verbosity::Error => 0,
            Verbosity::Warn => 1,
            Verbosity::Info => 2,
            Verbosity::Trace => 3,
        }
    }

    /// Creates a new [`Verbosity`] from the provided raw value, if it is valid (below 4).
    pub fn from_raw(n: usize) -> (r: Option<Self>)
        ensures
            match r {
                Some(v) => v.level() == n,
                None => n >= 4,
            },
    {
        if n == 0 {
            Some(Verbosity::Error)
        } else if n == 1 {
            Some(Verbosity::Warn)
        } else if n == 2 {
            Some(Verbosity::Info)
        } else if n == 3 {
            Some(Verbosity::Trace)
        } else {
            None
        }
    }
}

/// Two verbosity levels with the same raw value are the same.
pub proof fn lemma_verbosity_level_injective(a: Verbosity, b: Verbosity)
    ensures
        a.level() == b.level() ==> a == b,
{
}

/// The raw value of the RGB24 framebuffer format.
pub const FORMAT_RGB24: u32 = 0;
/// The raw value of the RGB32 framebuffer format.
pub const FORMAT_RGB32: u32 = 1;
/// The raw value of the BGR24 framebuffer format.
pub const FORMAT_BGR24: u32 = 2;
/// The raw value of the BGR32 framebuffer format.
pub const FORMAT_BGR32: u32 = 3;

/// Whether a format stores the red channel of a pixel in its first byte: RGB24 and RGB32 do
/// (red, green, blue), BGR24 and BGR32 store blue first.
pub open spec fn format_red_first(f: u32) -> bool {
    f == FORMAT_RGB24 || f == FORMAT_RGB32
}

/// The video mode of a [`Framebuffer`].
///
/// In the 24-bit formats, each pixel takes three bytes; in the 32-bit formats four, the last of
/// which is unused.
#[derive(Debug, Clone, Copy, PartialEq, Eq, Structural)]
pub struct FramebufferFormat(pub u32);

/// The number of bytes per pixel of a format, zero for an unknown one.
pub open spec fn format_bytes_per_pixel(f: u32) -> u32 {
    if f == FORMAT_RGB24 || f == FORMAT_BGR24 {
        3
    } else if f == FORMAT_RGB32 || f == FORMAT_BGR32 {
        4
    } else {
        0
    }
}

impl FramebufferFormat {
    /// Returns the number of bytes per pixel of the framebuffer, or 0 if the format is not known.
    pub fn bytes_per_pixel(self) -> (r: u32)
        ensures
            r == format_bytes_per_pixel(self.0),
    {
        if self.0 == FORMAT_RGB24 || self.0 == FORMAT_BGR24 {
            3
        } else if self.0 == FORMAT_RGB32 || self.0 == FORMAT_BGR32 {
            4
        } else {
            0
        }
    }
}

/// Information about an available framebuffer.
#[derive(Debug, Clone, Copy, PartialEq, Eq, Structural)]
pub struct Framebuffer {
    /// The virtual address of the framebuffer.
    pub address: u64,
    /// The number of bytes between the start of one row of pixels and the start of the next.
    pub bytes_per_lines: usize,
    /// The width of the framebuffer.
    pub width: u32,
    /// The height of the framebuffer.
    pub height: u32,
    /// The format of the framebuffer.
    pub format: FramebufferFormat,
}

impl Framebuffer {
    /// Returns the size of the framebuffer, in bytes.
    pub fn size(&self) -> (r: usize)
        requires
            self.bytes_per_lines * self.height <= usize::MAX,
        ensures
            r == self.bytes_per_lines * self.height,
    {
        self.bytes_per_lines * self.height as usize
    }
}

/// The system calls supported by the kernel.
#[derive(Debug, Clone, Copy, PartialEq, Eq, Structural)]
pub enum Sysno {
    /// Despawns a process.
    DespawnProcess,
    /// Puts the current process to sleep until a condition is met.
    Sleep,
    /// Acquires the framebuffers of the system.
    AcquireFramebuffers,
    /// Releases the framebuffers of the system.
    ReleaseFramebuffers,
    /// Reads a value maintained by the kernel.
    ReadValue,
    /// Enumerates the PCI devices of the system.
    EnumeratePciDevices,
    /// Maps memory into the address space of the process.
    MapMemory,
    /// Unmaps memory from the address space of the process.
    UnmapMemory,
    /// Logs a message through the kernel.
    KernelLog,
}

impl Sysno {
    /// The number of a system call.
    pub open spec fn number(self) -> usize {
        match self {
            Sysno::DespawnProcess => 0,
            Sysno::Sleep => 1,
            Sysno::AcquireFramebuffers => 2,
            Sysno::ReleaseFramebuffers => 3,
            Sysno::ReadValue => 4,
            Sysno::EnumeratePciDevices => 5,
            Sysno::MapMemory => 6,
            Sysno::UnmapMemory => 7,
            Sysno::KernelLog => 8,
        }
    }

    /// Returns the number of this system call.
    pub fn as_raw(self) -> (r: usize)
        ensures
            r == self.number(),
    {
        match self {
            Sysno::DespawnProcess => 0,
            Sysno::Sleep => 1,
            Sysno::AcquireFramebuffers => 2,
            Sysno::ReleaseFramebuffers => 3,
            Sysno::ReadValue => 4,
            Sysno::EnumeratePciDevices => 5,
            Sysno::MapMemory => 6,
            Sysno::UnmapMemory => 7,
            Sysno::KernelLog => 8,
        }
    }
}

/// A duration, as the kernel reports it.
#[derive(Debug, Clone, Copy, PartialEq, Eq, Structural)]
pub struct Duration {
    /// The whole seconds.
    pub seconds: u64,
    /// The nanoseconds past the seconds.
    pub nanoseconds: u64,
}

/// The time elapsed after `ticks` ticks of `ns_per_tick` nanoseconds, split in seconds and
/// nanoseconds (the seconds truncated to 64 bits).
pub open spec fn uptime_of(ticks: u64, ns_per_tick: u32) -> Duration {
    Duration {
        seconds: ((ticks * ns_per_tick) / 1_000_000_000) as u64,
        nanoseconds: ((ticks * ns_per_tick) % 1_000_000_000) as u64,
    }
}

/// Computes the time elapsed after `ticks` ticks of `ns_per_tick` nanoseconds, as the kernel
/// answers a request for the uptime.
pub fn uptime_from_ticks(ticks: u64, ns_per_tick: u32) -> (r: Duration)
    ensures
        r == uptime_of(ticks, ns_per_tick),
{
    assert(ticks * ns_per_tick <= 0xFFFF_FFFF_FFFF_FFFF * 0xFFFF_FFFF) by (nonlinear_arith);
    let total_ns: u128 = ticks as u128 * ns_per_tick as u128;
    let seconds: u64 = (total_ns / 1_000_000_000) as u64;
    let nanoseconds: u64 = (total_ns % 1_000_000_000) as u64;
    Duration { seconds, nanoseconds }
}

/// A value that a process can read from the kernel.
#[derive(Debug, Clone, Copy, PartialEq, Eq, Structural)]
pub struct Value(pub usize);

/// The number of timer ticks since the system booted (a `u64`).
pub const VALUE_UPTICKS: usize = 0;
/// The time elapsed since the system booted (a [`Duration`]).
pub const VALUE_UPTIME: usize = 1;
/// The number of nanoseconds that a timer tick spans (a `u32`).
pub const VALUE_NANOSECONDS_PER_TICK: usize = 2;

impl Value {
    /// Creates a [`Value`] from its raw number.
    pub fn from_raw(raw: usize) -> (r: Self)
        ensures
            r.0 == raw,
    {
        Value(raw)
    }

    /// Returns the raw number of this [`Value`].
    pub fn as_raw(self) -> (r: usize)
        ensures
            r == self.0,
    {
        self.0
    }
}

/// The uptime the kernel reports is the number of ticks times the duration of a tick, split in
/// whole seconds and the nanoseconds past them (as long as the seconds fit in 64 bits).
pub proof fn lemma_uptime_is_ticks_times_tick(ticks: u64, ns_per_tick: u32)
    requires
        ticks * ns_per_tick < 0x1_0000_0000_0000_0000 * 1_000_000_000,
    ensures
        uptime_of(ticks, ns_per_tick).seconds * 1_000_000_000 + uptime_of(
            ticks,
            ns_per_tick,
        ).nanoseconds == ticks * ns_per_tick,
        uptime_of(ticks, ns_per_tick).nanoseconds < 1_000_000_000,
{
    let t: int = ticks * ns_per_tick;
    assert(0 <= t / 1_000_000_000 < 0x1_0000_0000_0000_0000 && 0 <= t % 1_000_000_000
        < 1_000_000_000 && (t / 1_000_000_000) * 1_000_000_000 + t % 1_000_000_000 == t)
        by (nonlinear_arith)
        requires
            0 <= t < 0x1_0000_0000_0000_0000 * 1_000_000_000,
    ;
}

/// The operation succeeded.
pub const SYS_SUCCESS: usize = 0;
/// One of the arguments passed to the system call was invalid.
pub const SYS_INVALID_VALUE: usize = 1;
/// A process used as an argument to a system call does not exist or has exited.
pub const SYS_PROCESS_NOT_FOUND: usize = 2;

/// The return-type of system calls.
#[derive(Debug, Clone, Copy, PartialEq, Eq, Structural)]
pub struct SysResult(usize);

/// A result made from the raw value of another is that result: `SysResult::from_raw(s.as_raw())`
/// gives `s` back, since two results with the same raw value are equal.
pub proof fn lemma_sysresult_round_trip(s: SysResult, t: SysResult)
    requires
        t.code() == s.code(),
    ensures
        t == s,
{
}

/// The description of an error code.
pub open spec fn sys_description(code: usize) -> Seq<char> {
    if code == SYS_SUCCESS {
        "success"@
    } else if code == SYS_INVALID_VALUE {
        "invalid value"@
    } else if code == SYS_PROCESS_NOT_FOUND {
        "process not found"@
    } else {
        "unknown SysResult"@
    }
}

impl SysResult {
    /// The raw value of the result.
    pub closed spec fn code(self) -> usize {
        self.0
    }

    /// Creates a new [`SysResult`] from the provided raw value.
    pub fn from_raw(raw: usize) -> (r: Self)
        ensures
            r.code() == raw,
    {
        SysResult(raw)
    }

    /// Returns the raw value of this [`SysResult`].
    pub fn as_raw(self) -> (r: usize)
        ensures
            r == self.code(),
    {
        self.0
    }

    /// The result of a successful operation.
    pub fn success() -> (r: Self)
        ensures
            r.code() == SYS_SUCCESS,
    {
        SysResult(SYS_SUCCESS)
    }

    /// The result of a system call that received an invalid argument.
    pub fn invalid_value() -> (r: Self)
        ensures
            r.code() == SYS_INVALID_VALUE,
    {
        SysResult(SYS_INVALID_VALUE)
    }

    /// The result of a system call that referenced a process that does not exist.
    pub fn process_not_found() -> (r: Self)
        ensures
            r.code() == SYS_PROCESS_NOT_FOUND,
    {
        SysResult(SYS_PROCESS_NOT_FOUND)
    }

    /// Whether the result reports a success.
    pub fn is_success(self) -> (r: bool)
        ensures
            r == (self.code() == SYS_SUCCESS),
    {
        self.0 == SYS_SUCCESS
    }

    /// Checks that this [`SysResult`] reports a success; calling it on an error is a bug.
    pub fn unwrap(self)
        requires
            self.code() == SYS_SUCCESS,
    {
    }

    /// Returns a short description of the error.
    pub fn description(self) -> (r: &'static str)
        ensures
            r@ == sys_description(self.code()),
    {
        if self.0 == SYS_SUCCESS {
            "success"
        } else if self.0 == SYS_INVALID_VALUE {
            "invalid value"
        } else if self.0 == SYS_PROCESS_NOT_FOUND {
            "process not found"
        } else {
            "unknown SysResult"
        }
    }
}

} // verus!
