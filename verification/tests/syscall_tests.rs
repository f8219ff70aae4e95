use ruel::address_space::AddressSpace;
use ruel::global::Framebuffers;
use ruel::page_arena::PageArena;
use ruel::message::{lossy_step, lossy_text, Utf8Break};
use ruel::sys::{
    Duration, Framebuffer, FramebufferFormat, Value, Verbosity, SYS_INVALID_VALUE,
    VALUE_NANOSECONDS_PER_TICK, VALUE_UPTICKS, VALUE_UPTIME,
};
use ruel::syscall::{
    acquire_framebuffers, kernel_log, read_value, release_framebuffers, select_system_call,
    FramebufferRequestError, SystemCall, ValueReading, FRAMEBUFFER_USER_ADDRESS,
};

fn framebuffer() -> Framebuffer {
    Framebuffer {
        address: 0xFFFF_8000_FD00_0000,
        bytes_per_lines: 0x1000,
        width: 1024,
        height: 4,
        format: FramebufferFormat(3),
    }
}

#[test]
fn acquiring_maps_the_framebuffer() {
    let mut fbs = Framebuffers::new(vec![framebuffer()]);
    let mut space = AddressSpace::new(PageArena::new(0x100_0000, 32)).unwrap();
    let (desc, count) = acquire_framebuffers(&mut fbs, &mut space, 7, true).unwrap();
    assert_eq!(count, 1);
    let desc = desc.unwrap();
    assert_eq!(desc.address, FRAMEBUFFER_USER_ADDRESS);
    assert_eq!(desc.width, 1024);
    assert_eq!(space.translate(FRAMEBUFFER_USER_ADDRESS + 0x1234), Some(0xFD00_1234));
    assert_eq!(space.translate(FRAMEBUFFER_USER_ADDRESS + 0x4000), None);

    let mut other = AddressSpace::new(PageArena::new(0x200_0000, 32)).unwrap();
    assert_eq!(
        acquire_framebuffers(&mut fbs, &mut other, 8, true).unwrap_err(),
        FramebufferRequestError::ResourceBusy
    );
    assert_eq!(release_framebuffers(&mut fbs, 8), Err(FramebufferRequestError::MissingCapability));
    assert_eq!(release_framebuffers(&mut fbs, 7), Ok(()));
    let (desc, count) = acquire_framebuffers(&mut fbs, &mut other, 8, false).unwrap();
    assert_eq!((desc, count), (None, 1));
}

#[test]
fn acquiring_reports_why_the_mapping_failed() {
    let mut fbs = Framebuffers::new(vec![framebuffer()]);
    let mut space = AddressSpace::new(PageArena::new(0x100_0000, 32)).unwrap();
    space.map_4kib(FRAMEBUFFER_USER_ADDRESS + 0x2000, 0x5000, 0).unwrap();
    assert_eq!(
        acquire_framebuffers(&mut fbs, &mut space, 7, true).unwrap_err(),
        FramebufferRequestError::AlreadyMapped
    );
    assert_eq!(space.translate(FRAMEBUFFER_USER_ADDRESS + 0x2000), Some(0x5000));
    let mut small = AddressSpace::new(PageArena::new(0x200_0000, 2)).unwrap();
    assert_eq!(
        acquire_framebuffers(&mut fbs, &mut small, 7, true).unwrap_err(),
        FramebufferRequestError::OutOfMemory
    );
    let (desc, count) = acquire_framebuffers(&mut fbs, &mut small, 7, false).unwrap();
    assert_eq!((desc, count), (None, 1));
}

#[test]
fn valid_text_is_logged_as_is() {
    assert_eq!(lossy_text(b"hello"), b"hello".to_vec());
    assert_eq!(lossy_text("caf\u{e9} \u{1F600}".as_bytes()), "caf\u{e9} \u{1F600}".as_bytes().to_vec());
    assert_eq!(lossy_text(b""), Vec::<u8>::new());
}

#[test]
fn invalid_sequences_become_replacement_characters() {
    let data = b"ab\xFFcd\xC3";
    let text = lossy_text(data);
    assert_eq!(text, b"ab\xEF\xBF\xBDcd\xEF\xBF\xBD".to_vec());
    assert_eq!(text, String::from_utf8_lossy(data).as_bytes().to_vec());
    assert!(String::from_utf8(text).is_ok());

    let data = b"\xE2\x82x\xF0\x9F\x98\x80\xED\xA0\x80z";
    assert_eq!(lossy_text(data), String::from_utf8_lossy(data).as_bytes().to_vec());
}

#[test]
fn lossy_step_appends_the_valid_prefix() {
    let mut out = b"<".to_vec();
    let next = lossy_step(&mut out, b"ok\xFFrest", Some(Utf8Break { valid_up_to: 2, error_len: Some(1) }));
    assert_eq!(out, b"<ok\xEF\xBF\xBD".to_vec());
    assert_eq!(next, Some(3));

    let mut out = Vec::new();
    assert_eq!(lossy_step(&mut out, b"all", None), None);
    assert_eq!(out, b"all".to_vec());

    let mut out = Vec::new();
    let next = lossy_step(&mut out, b"x\xE2\x82", Some(Utf8Break { valid_up_to: 1, error_len: None }));
    assert_eq!(next, None);
    assert_eq!(out, b"x\xEF\xBF\xBD".to_vec());
}

#[test]
fn kernel_log_checks_the_verbosity() {
    let (v, text) = kernel_log(2, b"boot \xFF").unwrap();
    assert_eq!(v, Verbosity::Info);
    assert_eq!(text, "boot \u{FFFD}".as_bytes().to_vec());
    assert_eq!(kernel_log(4, b"x").unwrap_err().as_raw(), SYS_INVALID_VALUE);
}

#[test]
fn read_value_answers_each_value() {
    assert_eq!(read_value(Value(VALUE_UPTICKS), 42, 1_000_000), Ok(ValueReading::Upticks(42)));
    assert_eq!(
        read_value(Value(VALUE_UPTIME), 2_500, 1_000_000),
        Ok(ValueReading::Uptime(Duration { seconds: 2, nanoseconds: 500_000_000 }))
    );
    assert_eq!(
        read_value(Value(VALUE_NANOSECONDS_PER_TICK), 7, 999_847),
        Ok(ValueReading::NanosecondsPerTick(999_847))
    );
    assert_eq!(read_value(Value(3), 7, 1).unwrap_err().as_raw(), SYS_INVALID_VALUE);
}

#[test]
fn system_calls_follow_the_table() {
    assert_eq!(select_system_call(0), Ok(SystemCall::DespawnProcess));
    assert_eq!(select_system_call(4), Ok(SystemCall::ReadValue));
    assert_eq!(select_system_call(5), Ok(SystemCall::KernelLog));
    assert_eq!(select_system_call(6).unwrap_err().as_raw(), SYS_INVALID_VALUE);
    assert_eq!(select_system_call(usize::MAX).unwrap_err().as_raw(), SYS_INVALID_VALUE);
}
