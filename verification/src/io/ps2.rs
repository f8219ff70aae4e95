//! The PS/2 controller, its keyboard and its mouse.
use vstd::prelude::*;

verus! {

/// The data port of the controller.
pub const DATA_PORT: u16 = 0x60;
/// The status and command port of the controller.
pub const STATUS_PORT: u16 = 0x64;

/// The output buffer holds a byte for the kernel to read.
pub const STATUS_OUTPUT_BUFFER_FULL: u8 = 1;
/// The input buffer holds a byte the controller has not taken yet.
pub const STATUS_INPUT_BUFFER_FULL: u8 = 2;
/// The system flag.
pub const STATUS_SYSTEM: u8 = 4;
/// The last byte written was a command.
pub const STATUS_COMMAND: u8 = 8;
/// The byte in the output buffer comes from the auxiliary device (the mouse).
pub const STATUS_AUX_OUTPUT_BUFFER_FULL: u8 = 0x20;
/// A time-out error occurred.
pub const STATUS_TIMEOUT_ERROR: u8 = 0x40;
/// A parity error occurred.
pub const STATUS_PARITY_ERROR: u8 = 0x80;

/// The number of times the status is polled before a wait times out.
pub const WAIT_ITERATIONS: u64 = 10000;

/// An error that the PS/2 controller may report.
#[derive(Debug, Clone, Copy, PartialEq, Eq, Structural)]
pub enum PS2Error {
    /// The controller did not answer in time.
    Timeout,
}

impl PS2Error {
    /// A description of the error.
    pub fn message(self) -> (r: &'static str)
        ensures
            r@ == "PS/2 controlled timed out"@,
    {
        "PS/2 controlled timed out"
    }
}

/// One operation of a conversation with the controller.
#[derive(Debug, Clone, Copy, PartialEq, Eq, Structural)]
pub enum PS2Op {
    /// Polls the status until the controller can take a byte, or times out.
    WaitInputBufferEmpty,
    /// Polls the status until the controller has a byte for the kernel, or times out.
    WaitOutputBufferFull,
    /// Writes a command to the status port.
    Command(u8),
    /// Writes a byte to the data port.
    WriteData(u8),
    /// Reads a byte from the data port and forgets it.
    ReadData,
    /// Reads the configuration byte from the data port and remembers it.
    ReadConfig,
    /// Writes the remembered configuration byte, with the auxiliary interrupt enabled.
    WriteConfigWithAuxInterrupt,
}

/// Whether a wait is over, given the status just read.
pub open spec fn wait_over(op: PS2Op, status: u8) -> bool {
    match op {
        PS2Op::WaitInputBufferEmpty => status & STATUS_INPUT_BUFFER_FULL == 0,
        PS2Op::WaitOutputBufferFull => status & STATUS_OUTPUT_BUFFER_FULL != 0,
        _ => true,
    }
}

/// Decides whether a wait is over, given the status just read.
pub fn is_wait_over(op: PS2Op, status: u8) -> (r: bool)
    ensures
        r == wait_over(op, status),
{
    match op {
        PS2Op::WaitInputBufferEmpty => status & STATUS_INPUT_BUFFER_FULL == 0,
        PS2Op::WaitOutputBufferFull => status & STATUS_OUTPUT_BUFFER_FULL != 0,
        _ => true,
    }
}

/// The operations that send a byte to the auxiliary device.
pub open spec fn aux_write_ops(val: u8) -> Seq<PS2Op> {
    seq![
        PS2Op::WaitInputBufferEmpty,
        PS2Op::Command(0xD4),
        PS2Op::WaitInputBufferEmpty,
        PS2Op::WriteData(val),
    ]
}

/// The operations that read a byte from the auxiliary device.
pub open spec fn aux_read_ops() -> Seq<PS2Op> {
    seq![PS2Op::WaitOutputBufferFull, PS2Op::ReadData]
}

/// The operations that initialize the auxiliary device: enable it, enable its interrupt in the
/// configuration byte, then tell the mouse to use its default settings and to report, reading
/// each acknowledgement.
pub open spec fn init_aux_ops() -> Seq<PS2Op> {
    seq![
        PS2Op::WaitInputBufferEmpty,
        PS2Op::Command(0xA8),
        PS2Op::WaitInputBufferEmpty,
        PS2Op::Command(0x20),
        PS2Op::WaitOutputBufferFull,
        PS2Op::ReadConfig,
        PS2Op::WaitInputBufferEmpty,
        PS2Op::Command(0x60),
        PS2Op::WaitInputBufferEmpty,
        PS2Op::WriteConfigWithAuxInterrupt,
    ] + aux_write_ops(0xF6) + aux_read_ops() + aux_write_ops(0xF4) + aux_read_ops()
}

/// Appends the operations that send a byte to the auxiliary device.
fn aux_write_data(out: &mut Vec<PS2Op>, val: u8)
    ensures
        final(out)@ == old(out)@ + aux_write_ops(val),
{
    out.push(PS2Op::WaitInputBufferEmpty);
    out.push(PS2Op::Command(0xD4));
    out.push(PS2Op::WaitInputBufferEmpty);
    out.push(PS2Op::WriteData(val));
    assert(final(out)@ =~= old(out)@ + aux_write_ops(val));
}

/// Appends the operations that read a byte from the auxiliary device.
fn aux_read_data(out: &mut Vec<PS2Op>)
    ensures
        final(out)@ == old(out)@ + aux_read_ops(),
{
    out.push(PS2Op::WaitOutputBufferFull);
    out.push(PS2Op::ReadData);
    assert(final(out)@ =~= old(out)@ + aux_read_ops());
}

/// Returns the operations that initialize the auxiliary device.
pub fn init_aux_device() -> (r: Vec<PS2Op>)
    ensures
        r@ == init_aux_ops(),
{
    let mut out: Vec<PS2Op> = Vec::new();
    out.push(PS2Op::WaitInputBufferEmpty);
    out.push(PS2Op::Command(0xA8));
    out.push(PS2Op::WaitInputBufferEmpty);
    out.push(PS2Op::Command(0x20));
    out.push(PS2Op::WaitOutputBufferFull);
    out.push(PS2Op::ReadConfig);
    out.push(PS2Op::WaitInputBufferEmpty);
    out.push(PS2Op::Command(0x60));
    out.push(PS2Op::WaitInputBufferEmpty);
    out.push(PS2Op::WriteConfigWithAuxInterrupt);
    aux_write_data(&mut out, 0xF6);
    aux_read_data(&mut out);
    aux_write_data(&mut out, 0xF4);
    aux_read_data(&mut out);
    assert(out@ =~= init_aux_ops());
    out
}

/// Returns the operations that initialize the controller.
pub fn init() -> (r: Vec<PS2Op>)
    ensures
        r@ == init_aux_ops(),
{
    init_aux_device()
}

/// The configuration byte with the interrupt of the auxiliary device enabled.
pub fn config_with_aux_interrupt(config: u8) -> (r: u8)
    ensures
        r == config | 2,
{
    config | 2
}

/// The mouse's left button is pressed.
pub const MOUSE_LEFT_BUTTON: u8 = 1;
/// The mouse's right button is pressed.
pub const MOUSE_RIGHT_BUTTON: u8 = 2;
/// The mouse's middle button is pressed.
pub const MOUSE_MIDDLE_BUTTON: u8 = 4;
/// The mouse's fourth button is pressed.
pub const MOUSE_FOURTH_BUTTON: u8 = 8;
/// The mouse's fifth button is pressed.
pub const MOUSE_FIFTH_BUTTON: u8 = 16;
/// The state of the mouse changed since it was last read.
pub const MOUSE_CHANGED: u8 = 0x80;

/// Converts a movement byte to a signed one, clamping it to `i8::MAX`.
pub fn u8_to_i8(value: u8) -> (r: i8)
    ensures
        r == (if value > 127 {
            127
        } else {
            value as int
        }),
{
    if value > 127 {
        127
    } else {
        value as i8
    }
}

/// What a packet of the mouse reports.
#[derive(Debug, Clone, Copy, PartialEq, Eq, Structural)]
pub struct MouseEvent {
    /// The buttons that are pressed, and [`MOUSE_CHANGED`].
    pub flags: u8,
    /// The horizontal movement.
    pub dx: i8,
    /// The vertical movement.
    pub dy: i8,
}

/// The movement along an axis, from its byte and whether its sign bit is set.
pub open spec fn movement(value: u8, negative: bool) -> int {
    let m = if value > 127 {
        127int
    } else {
        value as int
    };
    if negative {
        -m
    } else {
        m
    }
}

/// The flags of the event reported by a packet with the provided first byte.
pub open spec fn mouse_flags(flags: u8) -> u8 {
    MOUSE_CHANGED | (if flags & 1 != 0 {
        MOUSE_LEFT_BUTTON
    } else {
        0
    }) | (if flags & 2 != 0 {
        MOUSE_RIGHT_BUTTON
    } else {
        0
    }) | (if flags & 4 != 0 {
        MOUSE_MIDDLE_BUTTON
    } else {
        0
    })
}

/// The flags of a mouse event are the changed bit and the three button bits of the packet's first
/// byte as they are: bit 0 the left button, bit 1 the right one, bit 2 the middle one. The other
/// bits of that byte (bit 3, always set, the sign and overflow bits) play no part.
pub proof fn lemma_mouse_flags_are_the_button_bits(first: u8)
    ensures
        mouse_flags(first) == 0x80u8 | (first & 0x07u8),
        (mouse_flags(first) & 0x01u8 != 0) == (first & 0x01u8 != 0),
        (mouse_flags(first) & 0x02u8 != 0) == (first & 0x02u8 != 0),
        (mouse_flags(first) & 0x04u8 != 0) == (first & 0x04u8 != 0),
        mouse_flags(first) == mouse_flags(first & 0x07u8),
{
    assert({
        let f = first;
        let m = 0x80u8 | (if f & 1 != 0 {
            1u8
        } else {
            0u8
        }) | (if f & 2 != 0 {
            2u8
        } else {
            0u8
        }) | (if f & 4 != 0 {
            4u8
        } else {
            0u8
        });
        let g = f & 0x07u8;
        let mg = 0x80u8 | (if g & 1 != 0 {
            1u8
        } else {
            0u8
        }) | (if g & 2 != 0 {
            2u8
        } else {
            0u8
        }) | (if g & 4 != 0 {
            4u8
        } else {
            0u8
        });
        &&& m == 0x80u8 | (f & 0x07u8)
        &&& mg == m
        &&& (m & 0x01u8 != 0) == (f & 0x01u8 != 0)
        &&& (m & 0x02u8 != 0) == (f & 0x02u8 != 0)
        &&& (m & 0x04u8 != 0) == (f & 0x04u8 != 0)
    }) by (bit_vector);
}

/// Decodes the three bytes of a packet of the mouse.
///
/// A packet whose overflow bits are set is discarded. The movement bytes are clamped to 127
/// and negated when their sign bit (bit 4 for x, bit 5 for y) is set.
pub fn pic_ps2_mouse(flags: u8, x_movement: u8, y_movement: u8) -> (r: Option<MouseEvent>)
    ensures
        flags & 0xC0 != 0 ==> r is None,
        flags & 0xC0 == 0 ==> r == Some(
            MouseEvent {
                flags: mouse_flags(flags),
                dx: movement(x_movement, flags & 0x10 != 0) as i8,
                dy: movement(y_movement, flags & 0x20 != 0) as i8,
            },
        ),
        flags & 0xC0 == 0 ==> r->0.flags == 0x80u8 | (flags & 0x07u8),
{
    proof {
        lemma_mouse_flags_are_the_button_bits(flags);
    }
    if flags & 0xC0 != 0 {
        return None;
    }
    let mut dx = u8_to_i8(x_movement);
    let mut dy = u8_to_i8(y_movement);
    if flags & 0x10 != 0 {
        dx = -dx;
    }
    if flags & 0x20 != 0 {
        dy = -dy;
    }
    let l: u8 = if flags & 1 != 0 {
        MOUSE_LEFT_BUTTON
    } else {
        0
    };
    let rr: u8 = if flags & 2 != 0 {
        MOUSE_RIGHT_BUTTON
    } else {
        0
    };
    let m: u8 = if flags & 4 != 0 {
        MOUSE_MIDDLE_BUTTON
    } else {
        0
    };
    let mouse_flags: u8 = MOUSE_CHANGED | l | rr | m;
    Some(MouseEvent { flags: mouse_flags, dx, dy })
}

/// The mouse state that a process sees: the last flags and the accumulated movement.
#[derive(Debug, Clone, Copy, PartialEq, Eq, Structural)]
pub struct MouseState {
    /// The flags of the last event.
    pub flags: u8,
    /// The accumulated horizontal movement.
    pub dx: i8,
    /// The accumulated vertical movement.
    pub dy: i8,
}

/// Adds two movements, clamping the sum to the range of `i8`.
pub open spec fn saturating_sum(a: i8, b: i8) -> i8 {
    if a + b > 127 {
        127
    } else if a + b < -128 {
        -128i8
    } else {
        (a + b) as i8
    }
}

/// Records a mouse event in the state a process sees: the flags are replaced and the movement
/// accumulates, saturating.
pub fn apply_mouse_event(state: &mut MouseState, event: MouseEvent)
    ensures
        final(state).flags == event.flags,
        final(state).dx == saturating_sum(old(state).dx, event.dx),
        final(state).dy == saturating_sum(old(state).dy, event.dy),
{
    state.flags = event.flags;
    state.dx = saturating_add_i8(state.dx, event.dx);
    state.dy = saturating_add_i8(state.dy, event.dy);
}

/// Adds two movements, clamping the sum to the range of `i8`.
fn saturating_add_i8(a: i8, b: i8) -> (r: i8)
    ensures
        r == saturating_sum(a, b),
{
    let s: i16 = a as i16 + b as i16;
    if s > 127 {
        127
    } else if s < -128 {
        -128
    } else {
        s as i8
    }
}

} // verus!
