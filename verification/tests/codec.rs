use foodbasket::codec::{decode_session, encode_session};
use foodbasket::ids::Uuid;
use foodbasket::sessions::Session;

#[test]
fn test_encode_exact_value() {
    let sess = Session {
        user_id: Some(Uuid {
            value: 0x0123456789abcdef0123456789abcdefu128,
        }),
        user_email: Some(String::from("a@example.com")),
        created_at: 1700000000000,
    };
    assert_eq!(
        encode_session(&sess),
        "{\"userId\":\"01234567-89ab-cdef-0123-456789abcdef\",\"userEmail\":\"a@example.com\",\"createdAt\":1700000000000}"
    );
}

#[test]
fn test_encode_exact_value_nulls_and_negative() {
    let sess = Session {
        user_id: None,
        user_email: None,
        created_at: -42,
    };
    assert_eq!(
        encode_session(&sess),
        "{\"userId\":null,\"userEmail\":null,\"createdAt\":-42}"
    );
}

#[test]
fn test_decode_round_trip() {
    let sess = Session {
        user_id: Some(Uuid { value: u128::MAX }),
        user_email: Some(String::from("weird \"quoted\" \\ and\ncontrol\tchars")),
        created_at: i64::MIN,
    };
    let encoded = encode_session(&sess);
    let decoded = decode_session(&encoded).unwrap();
    assert_eq!(decoded, sess);
}

#[test]
fn test_decode_round_trip_extremes() {
    for created_at in [i64::MIN, -1, 0, 1, i64::MAX] {
        for user_id in [None, Some(Uuid { value: 0 }), Some(Uuid { value: u128::MAX })] {
            let sess = Session {
                user_id,
                user_email: Some(String::from("")),
                created_at,
            };
            assert_eq!(decode_session(&encode_session(&sess)).unwrap(), sess);
        }
    }
}

#[test]
fn test_escape_round_trip_all_controls() {
    let mut email = String::new();
    for b in 0u8..32u8 {
        email.push(b as char);
    }
    email.push('"');
    email.push('\\');
    email.push('é');
    let sess = Session {
        user_id: None,
        user_email: Some(email),
        created_at: 0,
    };
    let encoded = encode_session(&sess);
    assert_eq!(decode_session(&encoded).unwrap(), sess);
}

#[test]
fn test_decode_rejects_malformed_values() {
    for bad in [
        "",
        "{}",
        "junk",
        "{\"userId\":null,\"userEmail\":null,\"createdAt\":}",
        "{\"userId\":null,\"userEmail\":null,\"createdAt\":12",
        "{\"userId\":null,\"userEmail\":null,\"createdAt\":12}x",
        "{\"userId\":\"0123\",\"userEmail\":null,\"createdAt\":12}",
        "{\"userId\":null,\"userEmail\":\"unterminated,\"createdAt\":12}",
        "{\"userId\":null,\"userEmail\":null,\"createdAt\":99999999999999999999}",
    ] {
        assert!(decode_session(bad).is_none(), "accepted: {bad}");
    }
}

#[test]
fn test_decode_timestamp_range_boundaries() {
    let max = "{\"userId\":null,\"userEmail\":null,\"createdAt\":9223372036854775807}";
    assert_eq!(decode_session(max).unwrap().created_at, i64::MAX);
    let min = "{\"userId\":null,\"userEmail\":null,\"createdAt\":-9223372036854775808}";
    assert_eq!(decode_session(min).unwrap().created_at, i64::MIN);
    let over = "{\"userId\":null,\"userEmail\":null,\"createdAt\":9223372036854775808}";
    assert!(decode_session(over).is_none());
    let under = "{\"userId\":null,\"userEmail\":null,\"createdAt\":-9223372036854775809}";
    assert!(decode_session(under).is_none());
}
