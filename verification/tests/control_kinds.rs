use hibana_mgmt::control_kinds::{
    decode_route_handle, encode_route_handle, LoadBeginKind, LoadCommitKind, MgmtRouteKind,
    CAP_HANDLE_LEN,
};

#[test]
fn route_handle_is_arm_then_little_endian_scope() {
    let data = encode_route_handle((3, 0x0102_0304_0506_0708));
    assert_eq!(data.len(), CAP_HANDLE_LEN);
    assert_eq!(&data[..9], &[3, 8, 7, 6, 5, 4, 3, 2, 1]);
    assert!(data[9..].iter().all(|b| *b == 0));
    assert_eq!(decode_route_handle(data), (3, 0x0102_0304_0506_0708));
}

#[test]
fn route_kind_mints_its_arm() {
    type Kind = MgmtRouteKind<64, 1>;
    assert_eq!(Kind::label(), 64);
    let h = Kind::mint_handle(0xFEED);
    assert_eq!(h, (1, 0xFEED));
    let data = Kind::encode_handle(&h);
    assert_eq!(Kind::decode_handle(data), h);
    let mut h2 = h;
    Kind::zeroize(&mut h2);
    assert_eq!(h2, (0, 0));
}

#[test]
fn load_kinds_encode_their_handles() {
    assert_eq!(LoadBeginKind::encode_handle(&()), [0u8; CAP_HANDLE_LEN]);
    assert_eq!(LoadBeginKind::TAG, 0x50);
    assert_eq!(LoadCommitKind::TAG, 0x51);
    let h = LoadCommitKind::mint_handle(0xA1B2_C3D4, 0x0001_0203);
    assert_eq!(h, (0xA1B2_C3D4, 0x0203));
    let data = LoadCommitKind::encode_handle(&h);
    assert_eq!(&data[..6], &[0xD4, 0xC3, 0xB2, 0xA1, 0x03, 0x02]);
    assert!(data[6..].iter().all(|b| *b == 0));
    assert_eq!(LoadCommitKind::decode_handle(data), h);
}
