use ruel::framebuffer::{Bgr24, Bgr32, Framebuffer, FramebufferFormat, Rgb, Rgb24, Rgb32};
use ruel::global::{Framebuffers, Inputs, Processes, ProcessNotFound, TooManyProcesses, NO_PROCESS};
use ruel::memory::{MemoryAllocator, OutOfMemory};
use ruel::sys::{
    uptime_from_ticks, Bool, Duration as KernelDuration, Framebuffer as RawFramebuffer,
    FramebufferFormat as RawFormat, ProcessConfig, Sysno, SysResult, Verbosity, FORMAT_BGR24,
    FORMAT_BGR32, FORMAT_RGB32, PROCESS_CONFIG_DONT_BLOCK, SYS_INVALID_VALUE, SYS_SUCCESS,
};
use ruel::userland::{
    raw_uptime, tick_duration, uptime, uptime_of_duration, upticks, Duration, PS2Buffer,
    PS2Keyboard, PS2Mouse, ProcessId,
};

#[test]
fn bools() {
    assert!(Bool::from(true).as_bool());
    assert!(!Bool::from(false).as_bool());
    assert!(Bool(7).as_bool());
    assert_eq!(Bool::from(true), Bool(1));
}

#[test]
fn verbosity_levels() {
    assert_eq!(Verbosity::from_raw(0), Some(Verbosity::Error));
    assert_eq!(Verbosity::from_raw(3), Some(Verbosity::Trace));
    assert_eq!(Verbosity::from_raw(4), None);
    for v in [Verbosity::Error, Verbosity::Warn, Verbosity::Info, Verbosity::Trace] {
        assert_eq!(Verbosity::from_raw(v.as_raw()), Some(v));
    }
}

#[test]
fn system_call_results() {
    let r = SysResult::from_raw(2);
    assert_eq!(r.as_raw(), 2);
    assert_eq!(SysResult::from_raw(r.as_raw()), r);
    assert_eq!(r.description(), "process not found");
    assert_eq!(SysResult::success().description(), "success");
    assert_eq!(SysResult::invalid_value().as_raw(), SYS_INVALID_VALUE);
    assert_eq!(SysResult::from_raw(99).description(), "unknown SysResult");
    SysResult::success().unwrap();
    assert!(SysResult::from_raw(SYS_SUCCESS).is_success());
    assert_eq!(Sysno::KernelLog.as_raw(), 8);
    assert_eq!(Sysno::DespawnProcess.as_raw(), 0);
}

#[test]
fn framebuffer_formats() {
    assert_eq!(RawFormat(0).bytes_per_pixel(), 3);
    assert_eq!(RawFormat(1).bytes_per_pixel(), 4);
    assert_eq!(RawFormat(FORMAT_BGR24).bytes_per_pixel(), 3);
    assert_eq!(RawFormat(FORMAT_BGR32).bytes_per_pixel(), 4);
    assert_eq!(RawFormat(9).bytes_per_pixel(), 0);
    let fb = RawFramebuffer { address: 0, bytes_per_lines: 4096, width: 1024, height: 768, format: RawFormat(3) };
    assert_eq!(fb.size(), 4096 * 768);
}

#[test]
fn kernel_uptime() {
    assert_eq!(uptime_from_ticks(123456789, 999848), KernelDuration { seconds: 123438, nanoseconds: 23568072 });
    assert_eq!(uptime_from_ticks(0, 5), KernelDuration { seconds: 0, nanoseconds: 0 });
}

#[test]
fn process_config_flags() {
    assert!(ProcessConfig(PROCESS_CONFIG_DONT_BLOCK).contains(PROCESS_CONFIG_DONT_BLOCK));
    assert!(!ProcessConfig(0).contains(PROCESS_CONFIG_DONT_BLOCK));
}

#[test]
fn typed_framebuffer_pixels() {
    let raw = RawFramebuffer { address: 0, bytes_per_lines: 16, width: 4, height: 2, format: RawFormat(FORMAT_BGR32) };
    let fb = Framebuffer(raw);
    assert_eq!(fb.width(), 4);
    assert_eq!(fb.height(), 2);
    assert_eq!(fb.bytes_per_pixels(), 4);
    assert_eq!(fb.bytes_per_line(), 16);
    assert_eq!(fb.size_in_bytes(), 32);
    assert_eq!(fb.index_of(3, 1), 28);
    assert!(fb.into_typed::<Rgb32>().is_none());
    let typed = fb.into_typed::<Bgr32>().unwrap();
    let mut memory = vec![0u8; 32];
    typed.set_pixel(&mut memory, 1, 1, Bgr32(Rgb::new(10, 20, 30)));
    assert_eq!(&memory[20..23], &[30, 20, 10]);
    assert_eq!(typed.pixel(&memory, 1, 1), Bgr32(Rgb::new(10, 20, 30)));
    assert_eq!(typed.pixel(&memory, 0, 1), Bgr32(Rgb::black()));
}

#[test]
fn pixel_encodings() {
    let mut mem = [0u8; 4];
    Rgb24(Rgb::white()).encode(&mut mem, 1);
    assert_eq!(mem, [0, 255, 255, 255]);
    Rgb24(Rgb::new(1, 2, 3)).encode(&mut mem, 0);
    assert_eq!(mem, [1, 2, 3, 255]);
    assert_eq!(Rgb24::decode(&[1, 2, 3], 0), Rgb24(Rgb::new(1, 2, 3)));
    Bgr24(Rgb::new(1, 2, 3)).encode(&mut mem, 0);
    assert_eq!(mem, [3, 2, 1, 255]);
    assert_eq!(Bgr24::decode(&[1, 2, 3], 0), Bgr24(Rgb::new(3, 2, 1)));
    assert_eq!(Rgb32::format(), RawFormat(FORMAT_RGB32));
    let mut wide = [0u8; 8];
    Rgb32(Rgb::new(1, 2, 3)).encode(&mut wide, 4);
    assert_eq!(wide, [0, 0, 0, 0, 1, 2, 3, 0]);
    assert_eq!(Rgb32::decode(&[1, 2, 3, 0], 0), Rgb32(Rgb::new(1, 2, 3)));
    Bgr32(Rgb::new(1, 2, 3)).encode(&mut wide, 0);
    assert_eq!(wide, [3, 2, 1, 0, 1, 2, 3, 0]);
}

#[test]
fn ps2_buffers() {
    let mut b = PS2Buffer::empty();
    assert!(b.is_empty());
    let mut filled = b.0;
    filled.length = 9;
    filled.buffer = [1, 2, 3, 4, 5, 6, 7];
    assert!(b.read(SysResult::from_raw(1), filled).is_err());
    assert!(b.is_empty());
    b.read(SysResult::success(), filled).unwrap();
    assert_eq!(b.total_length(), 9);
    assert_eq!(b.dropped_bytes(), 2);
    assert!(b.has_dropped_bytes());
    assert_eq!(b.iter(), vec![1, 2, 3, 4, 5, 6, 7]);
    filled.length = 3;
    b.read(SysResult::success(), filled).unwrap();
    assert_eq!(b.iter(), vec![1, 2, 3]);
    assert_eq!(b.dropped_bytes(), 0);
}

#[test]
fn wake_up_conditions() {
    let mut k = PS2Keyboard::default_value();
    assert!(k.is_empty());
    k.length = 2;
    k.scancodes = [0x1e, 0x9e, 0, 0, 0];
    assert_eq!(k.iter(), vec![0x1e, 0x9e]);
    assert!(!k.has_dropped_bytes());
    k.length = 8;
    assert_eq!(k.dropped_bytes(), 3);
    let mut m = PS2Mouse::default_value();
    assert!(!m.mouse_moved());
    assert!(!m.changed());
    m.flags = 0x80 | 1 | 4;
    m.dx = -3;
    assert!(m.left_pressed() && m.middle_pressed() && !m.right_pressed());
    assert!(!m.fourth_pressed() && !m.fifth_pressed());
    assert!(m.changed() && m.mouse_moved());
    assert_eq!((m.delta_x(), m.delta_y()), (-3, 0));
}

#[test]
fn process_requests() {
    let me = ProcessId::current();
    assert_eq!(me.0, usize::MAX);
    assert_eq!(me.despawn(SysResult::success()), Ok(()));
    assert_eq!(me.despawn(SysResult::process_not_found()), Err(SysResult::process_not_found()));
    assert_eq!(me.config(SysResult::success(), ProcessConfig(1)), Ok(ProcessConfig(1)));
    assert_eq!(me.set_config(SysResult::invalid_value()), Err(SysResult::invalid_value()));
}

#[test]
fn durations() {
    let d = Duration::from_nanos(3_000_000_123);
    assert_eq!((d.secs, d.nanos), (3, 123));
    let d = Duration::new(1, 2_500_000_000);
    assert_eq!((d.secs, d.nanos), (3, 500_000_000));
    assert_eq!(raw_uptime(SysResult::success(), 42), 42);
    assert_eq!(upticks(SysResult::success(), 7), 7);
    assert_eq!(uptime(SysResult::success(), 1_500_000_000), Duration { secs: 1, nanos: 500_000_000 });
    assert_eq!(tick_duration(SysResult::success(), 999848), Duration { secs: 0, nanos: 999848 });
    let k = KernelDuration { seconds: 5, nanoseconds: 7 };
    assert_eq!(uptime_of_duration(SysResult::success(), k), Duration { secs: 5, nanos: 7 });
}

#[test]
fn page_allocator_is_last_in_first_out() {
    let mut a = MemoryAllocator::empty(4);
    assert_eq!(a.allocate(), Err(OutOfMemory));
    a.assume_available(0x1000);
    a.assume_available(0x2000);
    assert_eq!(a.free_count(), 2);
    assert_eq!(a.allocate(), Ok(0x2000));
    a.deallocate(0x5000);
    assert_eq!(a.allocate(), Ok(0x5000));
    assert_eq!(a.allocate(), Ok(0x1000));
    assert_eq!(a.allocate(), Err(OutOfMemory));
}

#[test]
fn framebuffer_ownership() {
    let raw = RawFramebuffer { address: 0, bytes_per_lines: 16, width: 4, height: 2, format: RawFormat(3) };
    let mut fbs = Framebuffers::new(vec![raw]);
    assert!(fbs.acquire(3));
    assert!(fbs.acquire(3));
    assert!(!fbs.acquire(4));
    assert!(!fbs.release(4));
    assert!(fbs.release(3));
    assert!(!fbs.release(3));
    assert!(fbs.acquire(4));
    assert_eq!(fbs.as_slice().len(), 1);
}

#[test]
fn keyboard_inputs() {
    let mut inputs = Inputs::empty();
    for i in 0..20u8 {
        assert_eq!(inputs.push_keyboard(i), i < 16);
    }
    assert_eq!(inputs.keyboard_bytes().len(), 16);
    assert_eq!(inputs.keyboard_bytes()[15], 15);
    inputs.clear();
    assert!(inputs.keyboard_bytes().is_empty());
}

#[test]
fn process_table() {
    let mut p: Processes<&str> = Processes::new(2);
    assert_eq!(p.schedule(0), Err(ProcessNotFound));
    assert_eq!(p.spawn_process("init"), Ok(0));
    assert_eq!(p.spawn_process("shell"), Ok(1));
    assert_eq!(p.spawn_process("extra"), Err(TooManyProcesses));
    p.schedule(1).unwrap();
    assert_eq!(p.current_id(), 1);
    assert_eq!(*p.current(), "shell");
    assert_eq!(p.get(NO_PROCESS), Some(&"shell"));
    assert_eq!(p.get(0), Some(&"init"));
    assert_eq!(p.get(5), None);
}
