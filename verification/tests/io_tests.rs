use ruel::global::Inputs;
use ruel::interrupts::{on_ps2_keyboard_byte, on_ps2_mouse_packet};
use ruel::io::pci::{
    enumerate_pci_devices, has_multiple_functions, is_present, pci_address, CommonHeader,
    PciAction, PciDevice, PciScan,
};
use ruel::io::pic::{
    end_of_interrupt, init as pic_init, kernel_irq_mask, set_irq_mask, Irq, MASTER_COMMAND,
    MASTER_DATA, SLAVE_COMMAND, SLAVE_DATA,
};
use ruel::io::pit::{
    divide_rounded, freq_to_reload_value, init as pit_init, reload_value_to_ns, PIT_CHANNEL_0,
    PIT_COMMAND,
};
use ruel::io::ps2::{
    apply_mouse_event, config_with_aux_interrupt, init as ps2_init, is_wait_over, pic_ps2_mouse,
    u8_to_i8, MouseEvent, MouseState, PS2Error, PS2Op, MOUSE_CHANGED, MOUSE_LEFT_BUTTON,
    MOUSE_MIDDLE_BUTTON,
};
use ruel::io::serial::{set_baud_rate_divisor, Serial, PORT};
use ruel::io::{PortWrite, WAIT_PORT};

fn w(port: u16, value: u8) -> PortWrite {
    PortWrite { port, value }
}

#[test]
fn pic_initialization() {
    let seq = pic_init();
    assert_eq!(seq.len(), 16);
    assert_eq!(seq[0], w(MASTER_COMMAND, 0x11));
    assert_eq!(seq[1], w(WAIT_PORT, 0));
    assert_eq!(seq[4], w(MASTER_DATA, 32));
    assert_eq!(seq[6], w(SLAVE_DATA, 40));
    assert_eq!(seq[8], w(MASTER_DATA, 4));
    assert_eq!(seq[10], w(SLAVE_DATA, 2));
    assert_eq!(seq[14], w(SLAVE_DATA, 1));
}

#[test]
fn pic_end_of_interrupt() {
    assert_eq!(end_of_interrupt(Irq::Timer), vec![w(MASTER_COMMAND, 0x20)]);
    assert_eq!(end_of_interrupt(Irq::PS2Mouse), vec![w(SLAVE_COMMAND, 0x20), w(MASTER_COMMAND, 0x20)]);
    assert_eq!(Irq::PS2Mouse.vector(), 44);
    assert_eq!(Irq::Timer.vector(), 32);
}

#[test]
fn pic_masks() {
    let mask = kernel_irq_mask();
    assert_eq!(mask, 0xEFFC);
    assert_eq!(set_irq_mask(mask), [w(MASTER_DATA, 0xFC), w(SLAVE_DATA, 0xEF)]);
}

#[test]
fn pit_reload_values() {
    assert_eq!(divide_rounded(7, 2), 4);
    assert_eq!(divide_rounded(5, 3), 2);
    assert_eq!(freq_to_reload_value(1000), 1193);
    assert_eq!(freq_to_reload_value(18), 0x10000);
    assert_eq!(freq_to_reload_value(2_000_000), 1);
    assert_eq!(freq_to_reload_value(100), 11932);
    assert_eq!(reload_value_to_ns(1193), 999848);
    assert_eq!(reload_value_to_ns(0x10000), 54925416);
}

#[test]
fn pit_initialization() {
    let setup = pit_init();
    assert_eq!(setup.interval_ns, 999848);
    assert_eq!(setup.writes, vec![w(PIT_COMMAND, 0x34), w(PIT_CHANNEL_0, 0xA9), w(PIT_CHANNEL_0, 0x04)]);
}

#[test]
fn pci_addresses() {
    assert_eq!(pci_address(0, 0, 0), 0x8000_0000);
    assert_eq!(pci_address(1, 2, 3), 0x8001_1300);
    assert_eq!(pci_address(255, 31, 7), 0x80FF_FF00);
}

#[test]
fn pci_header() {
    assert_eq!(CommonHeader::read([0xFFFF_FFFF, 0, 0, 0]), None);
    let h = CommonHeader::read([0x1234_8086, 0x0010_0007, 0x0C03_3001, 0x0080_4010]).unwrap();
    assert_eq!(h.vendor_id, 0x8086);
    assert_eq!(h.device_id, 0x1234);
    assert_eq!(h.command, 0x0007);
    assert_eq!(h.status, 0x0010);
    assert_eq!(h.revision_id, 0x01);
    assert_eq!(h.prog_if, 0x30);
    assert_eq!(h.subclass, 0x03);
    assert_eq!(h.class_code, 0x0C);
    assert_eq!(h.cache_line_size, 0x10);
    assert_eq!(h.latency_timer, 0x40);
    assert_eq!(h.header_type, 0x80);
    assert_eq!(h.bist, 0x00);
    assert!(is_present(0x1234_8086));
    assert!(!is_present(0xFFFF_FFFF));
    assert!(has_multiple_functions(0x0080_4010));
    assert!(!has_multiple_functions(0x0000_4010));
}

#[test]
fn pci_enumeration_answer() {
    let devices = [
        PciDevice { address: 0x8000_0000, id: 1, vendor: 2 },
        PciDevice { address: 0x8000_0800, id: 3, vendor: 4 },
    ];
    let (copied, count) = enumerate_pci_devices(&devices, 1);
    assert_eq!(count, 2);
    assert_eq!(copied, vec![devices[0]]);
    let (copied, count) = enumerate_pci_devices(&devices, 5);
    assert_eq!((copied.len(), count), (2, 2));
}

#[test]
fn mouse_packets() {
    assert_eq!(pic_ps2_mouse(0x40, 1, 1), None);
    assert_eq!(pic_ps2_mouse(0x80, 1, 1), None);
    assert_eq!(
        pic_ps2_mouse(0x01, 5, 200),
        Some(MouseEvent { flags: MOUSE_CHANGED | MOUSE_LEFT_BUTTON, dx: 5, dy: 127 })
    );
    assert_eq!(
        pic_ps2_mouse(0x34, 5, 7),
        Some(MouseEvent { flags: MOUSE_CHANGED | MOUSE_MIDDLE_BUTTON, dx: -5, dy: -7 })
    );
    assert_eq!(u8_to_i8(128), 127);
    assert_eq!(u8_to_i8(12), 12);
}

#[test]
fn mouse_state_accumulates() {
    let mut state = MouseState { flags: 0, dx: 120, dy: -120 };
    apply_mouse_event(&mut state, MouseEvent { flags: MOUSE_CHANGED, dx: 20, dy: -20 });
    assert_eq!(state, MouseState { flags: MOUSE_CHANGED, dx: 127, dy: -128 });
    apply_mouse_event(&mut state, MouseEvent { flags: 0x81, dx: -7, dy: 8 });
    assert_eq!(state, MouseState { flags: 0x81, dx: 120, dy: -120 });
}

#[test]
fn ps2_initialization() {
    let ops = ps2_init();
    assert_eq!(ops.len(), 22);
    assert_eq!(ops[1], PS2Op::Command(0xA8));
    assert_eq!(ops[5], PS2Op::ReadConfig);
    assert_eq!(ops[9], PS2Op::WriteConfigWithAuxInterrupt);
    assert_eq!(ops[11], PS2Op::Command(0xD4));
    assert_eq!(ops[13], PS2Op::WriteData(0xF6));
    assert_eq!(ops[19], PS2Op::WriteData(0xF4));
    assert_eq!(ops[21], PS2Op::ReadData);
    assert!(is_wait_over(PS2Op::WaitInputBufferEmpty, 0x1C));
    assert!(!is_wait_over(PS2Op::WaitInputBufferEmpty, 0x02));
    assert!(is_wait_over(PS2Op::WaitOutputBufferFull, 0x01));
    assert!(!is_wait_over(PS2Op::WaitOutputBufferFull, 0x20));
    assert_eq!(config_with_aux_interrupt(0x45), 0x47);
    assert_eq!(PS2Error::Timeout.message(), "PS/2 controlled timed out");
}

#[test]
fn serial_port() {
    let init = Serial::init_unchecked();
    assert_eq!(
        init,
        vec![w(0x3F9, 0), w(0x3FB, 0x80), w(0x3F8, 3), w(0x3F9, 0), w(0x3FB, 0x03), w(0x3FC, 0xC7), w(0x3FC, 0x03)]
    );
    assert_eq!(set_baud_rate_divisor(0x0102), vec![w(0x3FB, 0x80), w(0x3F8, 0x02), w(0x3F9, 0x01)]);
    assert!(Serial::ready_to_send(0x60));
    assert!(!Serial::ready_to_send(0x01));
    assert_eq!(Serial::write_bytes(b"ok"), vec![w(PORT, b'o'), w(PORT, b'k')]);
}

#[test]
fn pci_scan_visits_present_functions() {
    // Device 0 of bus 0 has functions 0 and 2; device 3 of bus 0 has a single function.
    let config = |address: u32| -> u32 {
        let dev = (address >> 11) & 0x1f;
        let bus = (address >> 16) & 0xff;
        let func = (address >> 8) & 0x7;
        let offset = address & 0xff;
        if bus != 0 {
            return 0xFFFF_FFFF;
        }
        match (dev, func, offset) {
            (0, 0, 12) => 0x0080_0000,
            (0, 0, 0) | (0, 2, 0) => 0x1234_8086,
            (3, 0, 12) => 0,
            (3, 0, 0) => 0x5678_10EC,
            _ => 0xFFFF_FFFF,
        }
    };
    let mut scan = PciScan::new();
    let mut found = Vec::new();
    let mut reads = 0;
    loop {
        let word = match scan.next_action() {
            PciAction::Finished => break,
            PciAction::ReadVendor(a) | PciAction::ReadHeaderType(a) => config(a),
        };
        reads += 1;
        if let Some(a) = scan.on_answer(word) {
            found.push(a);
        }
    }
    assert_eq!(found, vec![0x8000_0000, 0x8000_0200, 0x8000_1800]);
    assert_eq!(reads, 256 * 32 + 2 + 7);
}

#[test]
fn mouse_packets_reach_every_process() {
    let mut states = vec![MouseState { flags: 0, dx: 0, dy: 0 }, MouseState { flags: 0, dx: 120, dy: -5 }];
    let writes = on_ps2_mouse_packet(&mut states, 0b0001_0001, 10, 3);
    assert_eq!(writes.len(), 2);
    assert_eq!((writes[0].port, writes[0].value), (0xA0, 0x20));
    assert_eq!((writes[1].port, writes[1].value), (0x20, 0x20));
    assert_eq!(states[0].dx, -10);
    assert_eq!(states[0].dy, 3);
    assert_eq!(states[1].dx, 110);
    assert_eq!(states[0].flags, states[1].flags);
    let before = states.clone();
    let writes = on_ps2_mouse_packet(&mut states, 0x40, 1, 1);
    assert_eq!(writes.len(), 2);
    assert_eq!(states, before);
}

#[test]
fn keyboard_bytes_reach_every_process() {
    let mut inputs = vec![Inputs::empty(), Inputs::empty()];
    let writes = on_ps2_keyboard_byte(&mut inputs, 0x1C);
    assert_eq!(writes.len(), 1);
    assert_eq!((writes[0].port, writes[0].value), (0x20, 0x20));
    assert_eq!(inputs[0].keyboard_bytes(), &[0x1C]);
    assert_eq!(inputs[1].keyboard_bytes(), &[0x1C]);
}
