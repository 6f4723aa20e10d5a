use tbx::uuid::Variant::RFC4122;
use tbx::uuid::Version::{Version1, Version3, Version4, Version5, Version6Draft, Version7Draft, Version8Draft};
use tbx::uuid::{new, new_str, new_with_rand, Layout, ParseError, Variant, Version, UUID};
use tbx::random::Random;

#[test]
fn test_nil() {
    let n = UUID::nil_uuid();
    assert!(n.is_nil());
    assert_eq!("00000000-0000-0000-0000-000000000000", n.uuid_lower());
    assert_eq!("00000000-0000-0000-0000-000000000000", n.uuid_upper());
    assert_eq!("urn:uuid:00000000-0000-0000-0000-000000000000", n.urn());
}

#[test]
fn test_max() {
    let m = UUID::max_uuid();
    assert!(m.is_max());
    assert_eq!("ffffffff-ffff-ffff-ffff-ffffffffffff", m.uuid_lower());
    assert_eq!("FFFFFFFF-FFFF-FFFF-FFFF-FFFFFFFFFFFF", m.uuid_upper());
}

#[test]
fn uuid_test_parse() {
    let u0 = UUID::parse("00000000-0000-0000-0000-000000000000").unwrap();
    assert!(u0.is_nil());

    let v1 = UUID::parse("{C232AB00-9414-11EC-B3C8-9E6BDECED846}").unwrap();
    assert_eq!(v1.version(), Version1);
    assert_eq!(v1.variant(), RFC4122);
    assert_eq!("C232AB00-9414-11EC-B3C8-9E6BDECED846", v1.uuid_upper());

    let v3 = UUID::parse("375dde34-fc9b-3822-8191-6b2199358695").unwrap();
    assert_eq!("375dde34-fc9b-3822-8191-6b2199358695", v3.uuid_lower());
    assert_eq!(v3.version(), Version3);
    assert_eq!(v3.variant(), RFC4122);

    let v4 = UUID::parse("urn:uuid:f07535d3-228a-4ac3-a900-57081609572e").unwrap();
    assert_eq!("f07535d3-228a-4ac3-a900-57081609572e", v4.uuid_lower());
    assert_eq!(v4.version(), Version4);
    assert_eq!(v4.variant(), RFC4122);

    let v5 = UUID::parse("6063c8c3-aaf6-5e9e-837e-468182f5f55a").unwrap();
    assert_eq!("6063c8c3-aaf6-5e9e-837e-468182f5f55a", v5.uuid_lower());
    assert_eq!(v5.version(), Version5);
    assert_eq!(v5.variant(), RFC4122);

    let v6 = UUID::parse("1EC9414C-232A-6B00-B3C8-9E6BDECED846").unwrap();
    assert_eq!(v6.version(), Version6Draft);
    assert_eq!(v6.variant(), RFC4122);
    assert_eq!("1EC9414C-232A-6B00-B3C8-9E6BDECED846", v6.uuid_upper());

    let v7 = UUID::parse("017F22E2-79B0-7CC3-98C4-DC0C0C07398F").unwrap();
    assert_eq!(v7.version(), Version7Draft);
    assert_eq!(v7.variant(), RFC4122);
    assert_eq!("017F22E2-79B0-7CC3-98C4-DC0C0C07398F", v7.uuid_upper());

    let v8 = UUID::parse("320C3D4D-CC00-875B-8EC9-32D5F69181C0").unwrap();
    assert_eq!(v8.version(), Version8Draft);
    assert_eq!(v8.variant(), RFC4122);
    assert_eq!("320C3D4D-CC00-875B-8EC9-32D5F69181C0", v8.uuid_upper());
}

#[test]
fn test_versions() {}

#[test]
fn uuid_plain_digits_and_rejections() {
    let u = UUID::parse("C232AB00941411ECB3C89E6BDECED846").unwrap();
    assert_eq!("c232ab00-9414-11ec-b3c8-9e6bdeced846", u.uuid_lower());
    assert_eq!("{c232ab00-9414-11ec-b3c8-9e6bdeced846}", u.uuid_with_brace());
    assert_eq!(Err(ParseError::InvalidPattern), UUID::parse("not a uuid"));
    assert_eq!(Err(ParseError::InvalidPattern), UUID::parse("C232AB00-9414-11EC-B3C8-9E6BDECED84"));
    let d = [0x12u8, 0x34, 0x56, 0x78, 0x9a, 0xbc, 0xde, 0xf0, 0x0f, 0xed, 0xcb, 0xa9, 0x87, 0x65, 0x43, 0x21];
    assert_eq!("12345678-9abc-def0-0fed-cba987654321", UUID::new(d).uuid_lower());
    assert_eq!(Variant::NCS, UUID::new(d).variant());
    assert_eq!(Version::Undefined, UUID::new(d).version());
}

#[test]
fn test_v4() {
    let v4 = new();

    assert_eq!(v4.variant(), Variant::RFC4122);
    assert_eq!(v4.version(), Version::Version4);

    let v4b = new();

    assert_ne!(v4, v4b);

    let v4s = new_str();
    let v4p = UUID::parse(&v4s).unwrap();

    assert_eq!(v4s, v4p.uuid_lower());
    assert_eq!(v4p.variant(), Variant::RFC4122);
    assert_eq!(v4p.version(), Version::Version4);

    let mut r = Random::new_thread_local();
    let v = new_with_rand(&mut r);
    assert_eq!(v.version(), Version::Version4);
}

#[test]
fn v4_sets_version_and_variant_bits_only() {
    let data = [0xffu8; 16];
    let u = tbx::uuid::v4_from_bytes(data);
    assert_eq!("ffffffff-ffff-4fff-bfff-ffffffffffff", u.uuid_lower());
    let u = tbx::uuid::v4_from_bytes([0u8; 16]);
    assert_eq!("00000000-0000-4000-8000-000000000000", u.uuid_lower());
    assert_eq!(Version::Version4, u.version());
    assert_eq!(Variant::RFC4122, u.variant());
}
