use wutengine::util::combine_uuid;

#[test]
fn combined_uuid_is_bytewise_product_with_version_and_variant() {
    let a = [2u8; 16];
    let mut b = [3u8; 16];
    b[15] = 200;
    let c = combine_uuid(a, b);
    assert_eq!(6, c[0]);
    assert_eq!(144, c[15]); // 400 wraps to 144
    assert_eq!(0x86, c[6]); // version 8
    assert_eq!(0x86, c[8]); // RFC 4122 variant
    let expected = uuid::Builder::from_custom_bytes({
        let mut p = [0u8; 16];
        for i in 0..16 {
            p[i] = a[i].wrapping_mul(b[i]);
        }
        p
    })
    .into_uuid();
    assert_eq!(expected.into_bytes(), c);
}

#[test]
fn combined_uuid_is_never_nil() {
    let c = combine_uuid([0u8; 16], [0u8; 16]);
    assert!(uuid::NonNilUuid::new(uuid::Uuid::from_bytes(c)).is_some());
    assert_eq!(0x80, c[8]);
}
