use foodbasket::cache_keys::{session, tenant_slug, tenant_uuid};
use foodbasket::fold::to_ascii_lower;
use foodbasket::ids::Uuid;
use foodbasket::random::generate_token;

#[test]
fn test_cache_key_formats_are_exact() {
    assert_eq!(session("abc123"), "foodbasket:sess:abc123");
    assert_eq!(tenant_slug("acme"), "foodbasket:tenants:slug:acme");
    assert_eq!(
        tenant_uuid("00112233-4455-6677-8899-aabbccddeeff"),
        "foodbasket:tenants:uuid:00112233-4455-6677-8899-aabbccddeeff"
    );
}

#[test]
fn test_uuid_to_hyphenated_exact() {
    let u = Uuid {
        value: 0x0123456789abcdef0123456789abcdefu128,
    };
    assert_eq!(u.to_hyphenated(), "01234567-89ab-cdef-0123-456789abcdef");
    assert_eq!(
        Uuid { value: 0 }.to_hyphenated(),
        "00000000-0000-0000-0000-000000000000"
    );
    assert_eq!(
        Uuid { value: u128::MAX }.to_hyphenated(),
        "ffffffff-ffff-ffff-ffff-ffffffffffff"
    );
}

#[test]
fn test_uuid_parse_round_trip() {
    for v in [0u128, 1, 0xdeadbeef, u128::MAX / 3, u128::MAX] {
        let u = Uuid { value: v };
        assert_eq!(Uuid::parse_hyphenated(&u.to_hyphenated()), Some(u));
    }
}

#[test]
fn test_uuid_parse_accepts_uppercase_hex() {
    let parsed = Uuid::parse_hyphenated("00112233-4455-6677-8899-AABBCCDDEEFF").unwrap();
    assert_eq!(parsed.value, 0x00112233445566778899aabbccddeeffu128);
}

#[test]
fn test_uuid_parse_rejects_malformed() {
    for bad in [
        "",
        "0123456789abcdef0123456789abcdef",
        "01234567-89ab-cdef-0123-456789abcde",
        "01234567-89ab-cdef-0123-456789abcdeff",
        "01234567x89ab-cdef-0123-456789abcdef",
        "01234567-89ab-cdef-0123-456789abcdeg",
    ] {
        assert!(Uuid::parse_hyphenated(bad).is_none(), "accepted: {bad}");
    }
}

#[test]
fn test_generate_token_shape() {
    let t1 = generate_token(64);
    let t2 = generate_token(64);
    assert_eq!(t1.len(), 86);
    assert_eq!(t2.len(), 86);
    assert_ne!(t1, t2);
    assert!(t1
        .chars()
        .all(|c| c.is_ascii_alphanumeric() || c == '-' || c == '_'));
    assert_eq!(generate_token(0), "");
    assert_eq!(generate_token(1).len(), 2);
    assert_eq!(generate_token(3).len(), 4);
}

#[test]
fn test_to_ascii_lower() {
    assert_eq!(to_ascii_lower("AcMe-42_Ž"), "acme-42_Ž");
    assert_eq!(to_ascii_lower(""), "");
}
