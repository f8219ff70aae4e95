use ruel::limine::{
    base_revision_supported, media_type_is_known, Id, LiminePtr, MemmapEntry, MemmapType,
    ResponsePtr, COMMON_MAGIC_0, COMMON_MAGIC_1, MEMMAP_FRAMEBUFFER, MEMMAP_USABLE,
};

#[test]
fn id_common_matches_documented_example() {
    let id = Id::common(1, 2);
    assert_eq!(id, Id([0xc7b1dd30df4c8b88, 0x0a82e883a194f07b, 1, 2]));
    assert_eq!(id.0[0], COMMON_MAGIC_0);
    assert_eq!(id.0[1], COMMON_MAGIC_1);
}

#[test]
fn memmap_request_id() {
    let id = Id::common(0x67cf3d9d378a806f, 0xe304acdfc50c3c62);
    assert_eq!(id.0, [0xc7b1dd30df4c8b88, 0x0a82e883a194f07b, 0x67cf3d9d378a806f, 0xe304acdfc50c3c62]);
}

#[test]
fn base_revision_is_supported_when_last_word_is_cleared() {
    assert!(base_revision_supported(&[0xf9562b2d5c95a6c8, 0x6a7b384944536bdc, 0]));
    assert!(!base_revision_supported(&[0xf9562b2d5c95a6c8, 0x6a7b384944536bdc, 1]));
}

#[test]
fn limine_pointers() {
    let p: LiminePtr<u8> = LiminePtr::null();
    assert!(p.is_null());
    let q: LiminePtr<u64> = LiminePtr::<u8>::from_addr(0x1000).cast();
    assert!(!q.is_null());
    assert_eq!(q.addr, 0x1000);
}

#[test]
fn response_pointers() {
    let r: ResponsePtr<u64> = ResponsePtr::null();
    assert!(r.read().is_none());
    let r: ResponsePtr<u64> = ResponsePtr(LiminePtr::from_addr(0xdead_0000));
    assert_eq!(r.read().unwrap().addr, 0xdead_0000);
}

#[test]
fn memmap_type_names() {
    assert_eq!(MemmapType(MEMMAP_USABLE).name(), Some("USABLE"));
    assert_eq!(MemmapType(5).name(), Some("BOOTLOADER_RECLAIMABLE"));
    assert_eq!(MemmapType(MEMMAP_FRAMEBUFFER).name(), Some("FRAMEBUFFER"));
    assert_eq!(MemmapType(42).name(), None);
    let e = MemmapEntry { base: 0, length: 0x1000, ty: MemmapType(MEMMAP_USABLE) };
    assert_eq!(e.ty, MemmapType(0));
}

#[test]
fn media_types() {
    assert!(media_type_is_known(0));
    assert!(media_type_is_known(2));
    assert!(!media_type_is_known(3));
}
