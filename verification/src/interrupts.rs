//! What the kernel does when the PS/2 devices interrupt it: the input is handed to every
//! process, then the interrupt is acknowledged.
use vstd::prelude::*;
use crate::global::Inputs;
use crate::io::PortWrite;
use crate::io::pic::{end_of_interrupt, Irq, MASTER_COMMAND, SLAVE_COMMAND, END_OF_INTERRUPT};
use crate::io::ps2::{
    apply_mouse_event, mouse_flags, movement, pic_ps2_mouse, saturating_sum, MouseState,
};

verus! {

/// The writes that acknowledge an interrupt of the mouse, whose line is on the slave PIC.
pub open spec fn mouse_acknowledgement() -> Seq<PortWrite> {
    seq![
        PortWrite { port: SLAVE_COMMAND, value: END_OF_INTERRUPT },
        PortWrite { port: MASTER_COMMAND, value: END_OF_INTERRUPT },
    ]
}

/// Handles a packet of the PS/2 mouse, of which `flags`, `x_movement` and `y_movement` are the
/// three bytes: a packet whose overflow bits are set changes nothing; otherwise each process
/// (whose mouse states are `states`) gets the flags of the packet and adds its movement to its
/// own, saturating. Returns the writes that acknowledge the interrupt.
pub fn on_ps2_mouse_packet(
    states: &mut Vec<MouseState>,
    flags: u8,
    x_movement: u8,
    y_movement: u8,
) -> (r: Vec<PortWrite>)
    ensures
        r@ == mouse_acknowledgement(),
        final(states)@.len() == old(states)@.len(),
        flags & 0xC0 != 0 ==> final(states)@ == old(states)@,
        flags & 0xC0 == 0 ==> forall|i: int|
            0 <= i < old(states)@.len() ==> (#[trigger] final(states)@[i]).flags == mouse_flags(
                flags,
            ) && final(states)@[i].dx == saturating_sum(
                old(states)@[i].dx,
                movement(x_movement, flags & 0x10 != 0) as i8,
            ) && final(states)@[i].dy == saturating_sum(
                old(states)@[i].dy,
                movement(y_movement, flags & 0x20 != 0) as i8,
            ),
{
    match pic_ps2_mouse(flags, x_movement, y_movement) {
        Some(event) => {
            let mut i: usize = 0;
            while i < states.len()
                invariant
                    i <= states@.len(),
                    states@.len() == old(states)@.len(),
                    forall|j: int| i <= j < states@.len() ==> states@[j] == old(states)@[j],
                    forall|j: int|
                        0 <= j < i ==> (#[trigger] states@[j]).flags == event.flags
                            && states@[j].dx == saturating_sum(old(states)@[j].dx, event.dx)
                            && states@[j].dy == saturating_sum(old(states)@[j].dy, event.dy),
                decreases states@.len() - i,
            {
                let mut s = states[i];
                apply_mouse_event(&mut s, event);
                states.set(i, s);
                i = i + 1;
            }
        },
        None => {},
    }
    end_of_interrupt(Irq::PS2Mouse)
}

/// Handles a scan-code sent by the PS/2 keyboard: each process (whose inputs are `inputs`)
/// records it, unless its buffer is full. Returns the writes that acknowledge the interrupt.
pub fn on_ps2_keyboard_byte(inputs: &mut Vec<Inputs>, scancode: u8) -> (r: Vec<PortWrite>)
    ensures
        r@ == seq![PortWrite { port: MASTER_COMMAND, value: END_OF_INTERRUPT }],
        final(inputs)@.len() == old(inputs)@.len(),
        forall|i: int|
            0 <= i < old(inputs)@.len() ==> (#[trigger] final(inputs)@[i]).keyboard() == (if old(
                inputs,
            )@[i].keyboard().len() < crate::global::PS2_KEYBOARD_BUFFER_SIZE {
                old(inputs)@[i].keyboard().push(scancode)
            } else {
                old(inputs)@[i].keyboard()
            }),
{
    let mut i: usize = 0;
    while i < inputs.len()
        invariant
            i <= inputs@.len(),
            inputs@.len() == old(inputs)@.len(),
            forall|j: int| i <= j < inputs@.len() ==> inputs@[j] == old(inputs)@[j],
            forall|j: int|
                0 <= j < i ==> (#[trigger] inputs@[j]).keyboard() == (if old(
                    inputs,
                )@[j].keyboard().len() < crate::global::PS2_KEYBOARD_BUFFER_SIZE {
                    old(inputs)@[j].keyboard().push(scancode)
                } else {
                    old(inputs)@[j].keyboard()
                }),
        decreases inputs@.len() - i,
    {
        inputs[i].push_keyboard(scancode);
        i = i + 1;
    }
    end_of_interrupt(Irq::PS2Keyboard)
}

} // verus!
