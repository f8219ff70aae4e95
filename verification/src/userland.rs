//! The standard library of the programs that run on the kernel: what they make of the answers
//! of the system calls.
use vstd::prelude::*;
use crate::sys;
use crate::sys::{SysResult, SYS_SUCCESS, PS2_BUFFER_SIZE, ProcessConfig, WakeUpTag};

verus! {

/// The result of an operation that may fail with the error code of a system call.
pub type SysOutcome<T> = Result<T, SysResult>;

/// What a system call that returns nothing gives: `Ok` on success, its error otherwise.
pub open spec fn outcome_of(status: SysResult) -> SysOutcome<()> {
    if status.code() == SYS_SUCCESS {
        Ok(())
    } else {
        Err(status)
    }
}

/// Turns the status of a system call into a result.
pub fn check(status: SysResult) -> (r: SysOutcome<()>)
    ensures
        r == outcome_of(status),
{
    if status.is_success() {
        Ok(())
    } else {
        Err(status)
    }
}

/// The bytes a buffer of scan-codes holds: its first `length` ones, at most all of them.
pub open spec fn received(buffer: Seq<u8>, length: int) -> Seq<u8> {
    if length < buffer.len() {
        buffer.subrange(0, length)
    } else {
        buffer
    }
}

/// Copies the bytes a buffer of scan-codes holds.
fn received_bytes(buffer: &[u8], length: usize) -> (r: Vec<u8>)
    ensures
        r@ == received(buffer@, length as int),
{
    let n: usize = if length < buffer.len() {
        length
    } else {
        buffer.len()
    };
    let mut out: Vec<u8> = Vec::new();
    let mut i: usize = 0;
    assert(buffer@.len() == buffer.len());
    while i < n
        invariant
            n <= buffer@.len(),
            n == (if length < buffer@.len() {
                length as int
            } else {
                buffer@.len() as int
            }),
            i <= n,
            out@ == buffer@.subrange(0, i as int),
        decreases n - i,
    {
        out.push(buffer[i]);
        i = i + 1;
        assert(out@ =~= buffer@.subrange(0, i as int));
    }
    assert(out@ =~= received(buffer@, length as int));
    out
}

/// A buffer that receives the scan-codes of the PS/2 keyboard.
#[derive(Debug, Clone, Copy)]
pub struct PS2Buffer(pub sys::PS2Buffer);

impl PS2Buffer {
    /// An empty buffer.
    pub fn empty() -> (r: Self)
        ensures
            r.0.length == 0,
    {
        PS2Buffer(sys::PS2Buffer::empty())
    }

    /// Returns the number of bytes the kernel wrote, those that were dropped included.
    pub fn total_length(&self) -> (r: usize)
        ensures
            r == self.0.length,
    {
        self.0.length as usize
    }

    /// Returns the number of bytes that were dropped because the buffer was full.
    pub fn dropped_bytes(&self) -> (r: usize)
        ensures
            r == (if self.0.length > PS2_BUFFER_SIZE {
                self.0.length - PS2_BUFFER_SIZE
            } else {
                0
            }),
    {
        self.total_length().saturating_sub(PS2_BUFFER_SIZE)
    }

    /// Returns whether some bytes were dropped.
    pub fn has_dropped_bytes(&self) -> (r: bool)
        ensures
            r == (self.0.length > PS2_BUFFER_SIZE),
    {
        self.total_length() > PS2_BUFFER_SIZE
    }

    /// Returns the bytes that the buffer holds.
    pub fn iter(&self) -> (r: Vec<u8>)
        ensures
            r@ == received(self.0.buffer@, self.0.length as int),
    {
        received_bytes(self.0.buffer.as_slice(), self.0.length as usize)
    }

    /// Returns whether the buffer holds no byte.
    pub fn is_empty(&self) -> (r: bool)
        ensures
            r == (self.0.length == 0),
    {
        self.total_length() == 0
    }

    /// Takes the answer of the kernel to a request to fill this buffer.
    pub fn read(&mut self, status: SysResult, filled: sys::PS2Buffer) -> (r: SysOutcome<()>)
        ensures
            r == outcome_of(status),
            r is Ok ==> final(self).0 == filled,
            r is Err ==> final(self).0 == old(self).0,
    {
        let r = check(status);
        if r.is_ok() {
            self.0 = filled;
        }
        r
    }
}

/// The number of scan-codes a wake-up on the PS/2 keyboard can hold.
pub const PS2_KEYBOARD_SIZE: usize = 5;

/// The raw tag of a wake-up condition that is met at once.
pub const WAKE_UP_NOW: u8 = 1;
/// The raw tag of a wake-up condition waiting for the PS/2 mouse.
pub const WAKE_UP_PS2_MOUSE: u8 = 2;

/// A condition that a process can wait on, with the value it hands to the kernel.
pub trait WakeUp: Sized {
    /// The condition, as the process hands it to the kernel before it goes to sleep.
    fn default_value() -> Self;
}

impl WakeUp for Now {
    fn default_value() -> (r: Self)
        ensures
            r.tag.0 == WAKE_UP_NOW,
    {
        Now::default_value()
    }
}

impl WakeUp for PS2Keyboard {
    fn default_value() -> (r: Self)
        ensures
            r.tag.0 == sys::WAKE_UP_PS2_KEYBOARD,
            r.length == 0,
            r.scancodes@ == Seq::new(5, |i: int| 0u8),
    {
        PS2Keyboard::default_value()
    }
}

impl WakeUp for PS2Mouse {
    fn default_value() -> (r: Self)
        ensures
            r.tag.0 == WAKE_UP_PS2_MOUSE,
            r.dx == 0 && r.dy == 0 && r.flags == 0,
    {
        PS2Mouse::default_value()
    }
}

/// A condition that wakes a process up at once.
#[derive(Debug, Clone, Copy)]
pub struct Now {
    /// The tag of the condition.
    pub tag: WakeUpTag,
}

impl Now {
    /// The condition, as the process hands it to the kernel.
    pub fn default_value() -> (r: Self)
        ensures
            r.tag.0 == WAKE_UP_NOW,
    {
        Now { tag: WakeUpTag(WAKE_UP_NOW) }
    }
}

/// A condition that wakes a process up when the PS/2 keyboard sends scan-codes.
#[derive(Debug, Clone, Copy)]
pub struct PS2Keyboard {
    /// The tag of the condition.
    pub tag: WakeUpTag,
    /// The number of scan-codes received, those that were dropped included.
    pub length: u8,
    /// The scan-codes received.
    pub scancodes: [u8; 5],
}

impl PS2Keyboard {
    /// The condition, as the process hands it to the kernel: nothing received yet.
    pub fn default_value() -> (r: Self)
        ensures
            r.tag.0 == sys::WAKE_UP_PS2_KEYBOARD,
            r.length == 0,
            r.scancodes@ == Seq::new(5, |i: int| 0u8),
    {
        let r = PS2Keyboard { tag: WakeUpTag(sys::WAKE_UP_PS2_KEYBOARD), length: 0, scancodes: [0u8;5] };
        assert(r.scancodes@ =~= Seq::new(5, |i: int| 0u8));
        r
    }

    /// Returns the number of scan-codes received, those that were dropped included.
    pub fn total_length(&self) -> (r: usize)
        ensures
            r == self.length,
    {
        self.length as usize
    }

    /// Returns the number of scan-codes that were dropped.
    pub fn dropped_bytes(&self) -> (r: usize)
        ensures
            r == (if self.length > PS2_KEYBOARD_SIZE {
                self.length - PS2_KEYBOARD_SIZE
            } else {
                0
            }),
    {
        self.total_length().saturating_sub(PS2_KEYBOARD_SIZE)
    }

    /// Returns whether some scan-codes were dropped.
    pub fn has_dropped_bytes(&self) -> (r: bool)
        ensures
            r == (self.length > PS2_KEYBOARD_SIZE),
    {
        self.total_length() > PS2_KEYBOARD_SIZE
    }

    /// Returns the scan-codes received.
    pub fn iter(&self) -> (r: Vec<u8>)
        ensures
            r@ == received(self.scancodes@, self.length as int),
    {
        received_bytes(self.scancodes.as_slice(), self.length as usize)
    }

    /// Returns whether no scan-code was received.
    pub fn is_empty(&self) -> (r: bool)
        ensures
            r == (self.length == 0),
    {
        self.total_length() == 0
    }
}

/// A condition that wakes a process up when the PS/2 mouse reports something.
#[derive(Debug, Clone, Copy)]
pub struct PS2Mouse {
    /// The tag of the condition.
    pub tag: WakeUpTag,
    /// The horizontal movement.
    pub dx: i8,
    /// The vertical movement.
    pub dy: i8,
    /// The buttons that are pressed, and whether the state changed.
    pub flags: u8,
}

impl PS2Mouse {
    /// The condition, as the process hands it to the kernel: no movement, no button.
    pub fn default_value() -> (r: Self)
        ensures
            r.tag.0 == WAKE_UP_PS2_MOUSE,
            r.dx == 0 && r.dy == 0 && r.flags == 0,
    {
        PS2Mouse { tag: WakeUpTag(WAKE_UP_PS2_MOUSE), dx: 0, dy: 0, flags: 0 }
    }

    /// Returns whether the left button is pressed.
    pub fn left_pressed(&self) -> (r: bool)
        ensures
            r == (self.flags & crate::io::ps2::MOUSE_LEFT_BUTTON != 0),
    {
        self.flags & crate::io::ps2::MOUSE_LEFT_BUTTON != 0
    }

    /// Returns whether the right button is pressed.
    pub fn right_pressed(&self) -> (r: bool)
        ensures
            r == (self.flags & crate::io::ps2::MOUSE_RIGHT_BUTTON != 0),
    {
        self.flags & crate::io::ps2::MOUSE_RIGHT_BUTTON != 0
    }

    /// Returns whether the middle button is pressed.
    pub fn middle_pressed(&self) -> (r: bool)
        ensures
            r == (self.flags & crate::io::ps2::MOUSE_MIDDLE_BUTTON != 0),
    {
        self.flags & crate::io::ps2::MOUSE_MIDDLE_BUTTON != 0
    }

    /// Returns whether the fourth button is pressed.
    pub fn fourth_pressed(&self) -> (r: bool)
        ensures
            r == (self.flags & crate::io::ps2::MOUSE_FOURTH_BUTTON != 0),
    {
        self.flags & crate::io::ps2::MOUSE_FOURTH_BUTTON != 0
    }

    /// Returns whether the fifth button is pressed.
    pub fn fifth_pressed(&self) -> (r: bool)
        ensures
            r == (self.flags & crate::io::ps2::MOUSE_FIFTH_BUTTON != 0),
    {
        self.flags & crate::io::ps2::MOUSE_FIFTH_BUTTON != 0
    }

    /// Returns whether the mouse moved.
    pub fn mouse_moved(&self) -> (r: bool)
        ensures
            r == (self.dx != 0 || self.dy != 0),
    {
        self.dx != 0 || self.dy != 0
    }

    /// Returns the horizontal movement.
    pub fn delta_x(&self) -> (r: i8)
        ensures
            r == self.dx,
    {
        self.dx
    }

    /// Returns the vertical movement.
    pub fn delta_y(&self) -> (r: i8)
        ensures
            r == self.dy,
    {
        self.dy
    }

    /// Returns whether the state of the mouse changed.
    pub fn changed(&self) -> (r: bool)
        ensures
            r == (self.flags & crate::io::ps2::MOUSE_CHANGED != 0),
    {
        self.flags & crate::io::ps2::MOUSE_CHANGED != 0
    }
}

/// The identifier of a process.
#[derive(Debug, Clone, Copy, PartialEq, Eq, Structural)]
pub struct ProcessId(pub usize);

impl ProcessId {
    /// The identifier that designates the calling process.
    pub fn current() -> (r: Self)
        ensures
            r.0 == usize::MAX,
    {
        ProcessId(usize::MAX)
    }

    /// Takes the answer of the kernel to a request to despawn this process.
    pub fn despawn(self, status: SysResult) -> (r: SysOutcome<()>)
        ensures
            r == outcome_of(status),
    {
        check(status)
    }

    /// Takes the answer of the kernel to a request for the configuration of this process,
    /// which it wrote in `ret`.
    pub fn config(self, status: SysResult, ret: ProcessConfig) -> (r: SysOutcome<ProcessConfig>)
        ensures
            status.code() == SYS_SUCCESS ==> r == Ok::<ProcessConfig, SysResult>(ret),
            status.code() != SYS_SUCCESS ==> r == Err::<ProcessConfig, SysResult>(status),
    {
        match check(status) {
            Ok(()) => Ok(ret),
            Err(e) => Err(e),
        }
    }

    /// Takes the answer of the kernel to a request to change the configuration of this
    /// process.
    pub fn set_config(self, status: SysResult) -> (r: SysOutcome<()>)
        ensures
            r == outcome_of(status),
    {
        check(status)
    }
}

/// The number of nanoseconds in a second.
pub const NANOS_PER_SEC: u64 = 1_000_000_000;

/// A span of time.
#[derive(Debug, Clone, Copy, PartialEq, Eq, Structural)]
pub struct Duration {
    /// The whole seconds.
    pub secs: u64,
    /// The nanoseconds past the seconds, below a billion.
    pub nanos: u32,
}

impl Duration {
    /// The duration in nanoseconds.
    pub open spec fn total_nanos(self) -> int {
        self.secs * NANOS_PER_SEC + self.nanos
    }

    /// The duration of the provided number of nanoseconds.
    pub fn from_nanos(nanos: u64) -> (r: Self)
        ensures
            r.total_nanos() == nanos,
            r.nanos < NANOS_PER_SEC,
    {
        Duration { secs: nanos / NANOS_PER_SEC, nanos: (nanos % NANOS_PER_SEC) as u32 }
    }

    /// The duration of `secs` seconds and `nanos` nanoseconds; nanoseconds past a billion are
    /// carried into the seconds, which must not overflow.
    pub fn new(secs: u64, nanos: u32) -> (r: Self)
        requires
            secs + (nanos as int) / (NANOS_PER_SEC as int) <= u64::MAX,
        ensures
            r.total_nanos() == secs * NANOS_PER_SEC + nanos,
            r.nanos < NANOS_PER_SEC,
    {
        let extra: u64 = nanos as u64 / NANOS_PER_SEC;
        Duration { secs: secs + extra, nanos: (nanos as u64 % NANOS_PER_SEC) as u32 }
    }
}

/// Takes the answer of the kernel to a request for the uptime in nanoseconds, which must
/// succeed.
pub fn raw_uptime(status: SysResult, value: u64) -> (r: u64)
    requires
        status.code() == SYS_SUCCESS,
    ensures
        r == value,
{
    value
}

/// The uptime, from the answer of the kernel to a request for it in nanoseconds.
pub fn uptime(status: SysResult, value: u64) -> (r: Duration)
    requires
        status.code() == SYS_SUCCESS,
    ensures
        r.total_nanos() == value,
        r.nanos < NANOS_PER_SEC,
{
    Duration::from_nanos(raw_uptime(status, value))
}

/// Takes the answer of the kernel to a request for the number of ticks since boot, which must
/// succeed.
pub fn upticks(status: SysResult, value: u64) -> (r: u64)
    requires
        status.code() == SYS_SUCCESS,
    ensures
        r == value,
{
    value
}

/// Takes the answer of the kernel to a request for the duration of a tick, in nanoseconds,
/// which must succeed.
pub fn tick_duration_ns(status: SysResult, value: u32) -> (r: u32)
    requires
        status.code() == SYS_SUCCESS,
    ensures
        r == value,
{
    value
}

/// The duration of a tick, from the answer of the kernel to a request for it.
pub fn tick_duration(status: SysResult, value: u32) -> (r: Duration)
    requires
        status.code() == SYS_SUCCESS,
    ensures
        r.total_nanos() == value,
        r.nanos < NANOS_PER_SEC,
{
    Duration::from_nanos(tick_duration_ns(status, value) as u64)
}

/// The uptime, from the answer of the kernel to a request for it as seconds and nanoseconds
/// (the nanoseconds truncated to 32 bits, then carried).
pub fn uptime_of_duration(status: SysResult, value: sys::Duration) -> (r: Duration)
    requires
        status.code() == SYS_SUCCESS,
        value.seconds + ((value.nanoseconds as u32) as int) / (NANOS_PER_SEC as int) <= u64::MAX,
    ensures
        r.total_nanos() == value.seconds * NANOS_PER_SEC + (value.nanoseconds as u32),
        r.nanos < NANOS_PER_SEC,
{
    Duration::new(value.seconds, value.nanoseconds as u32)
}

} // verus!
