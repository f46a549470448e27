use foodbasket::cache::CacheStore;
use foodbasket::ids::Uuid;
use foodbasket::sessions::{
    session_read_outcome, CacheReadEvent, Session, SessionService, SessionServiceError,
    SESS_CACHE_TTL,
};

fn sample_session() -> Session {
    Session {
        user_id: Some(Uuid {
            value: 0x0123456789abcdef0123456789abcdefu128,
        }),
        user_email: Some(String::from("a@example.com")),
        created_at: 1700000000000,
    }
}

#[test]
fn test_create_then_get_round_trips() {
    let mut svc = SessionService::new(CacheStore::new());
    let sess = sample_session();
    let token = svc.create(&sess, 1000);
    assert_eq!(token.len(), 86);
    let got = svc.get(&token, 1000).unwrap();
    assert_eq!(got, sess);
}

#[test]
fn test_create_get_delete_scenario() {
    let mut svc = SessionService::new(CacheStore::new());
    let sess = Session {
        user_id: Some(Uuid { value: 42 }),
        user_email: Some(String::from("a@example.com")),
        created_at: 123456789,
    };
    let token = svc.create(&sess, 0);
    let got = svc.get(&token, 0).unwrap();
    assert_eq!(got.user_id, Some(Uuid { value: 42 }));
    assert_eq!(got.user_email.as_deref(), Some("a@example.com"));
    assert_eq!(got.created_at, 123456789);
    svc.delete(&token);
    assert!(matches!(
        svc.get(&token, 0),
        Err(SessionServiceError::NotFound)
    ));
}

#[test]
fn test_delete_twice_is_not_an_error() {
    let mut svc = SessionService::new(CacheStore::new());
    let sess = sample_session();
    let token = svc.create(&sess, 0);
    svc.delete(&token);
    svc.delete(&token);
    assert!(matches!(
        svc.get(&token, 0),
        Err(SessionServiceError::NotFound)
    ));
}

#[test]
fn test_get_unknown_token_is_not_found() {
    let svc = SessionService::new(CacheStore::new());
    assert!(matches!(
        svc.get("no-such-token", 5),
        Err(SessionServiceError::NotFound)
    ));
}

#[test]
fn test_session_expires_exactly_at_ttl() {
    let mut svc = SessionService::new(CacheStore::new());
    let sess = sample_session();
    svc.set("tok", &sess, 100);
    assert!(svc.get("tok", 100 + SESS_CACHE_TTL - 1).is_ok());
    assert!(matches!(
        svc.get("tok", 100 + SESS_CACHE_TTL),
        Err(SessionServiceError::NotFound)
    ));
}

#[test]
fn test_set_refreshes_ttl_get_does_not() {
    let mut svc = SessionService::new(CacheStore::new());
    let sess = sample_session();
    svc.set("tok", &sess, 0);
    // a read late in the window does not extend it
    assert!(svc.get("tok", SESS_CACHE_TTL - 1).is_ok());
    assert!(svc.get("tok", SESS_CACHE_TTL).is_err());
    // a write does
    svc.set("tok", &sess, 0);
    svc.set("tok", &sess, 10);
    assert!(svc.get("tok", SESS_CACHE_TTL + 9).is_ok());
}

#[test]
fn test_corrupt_session_value_surfaces() {
    let mut cache = CacheStore::new();
    cache.set_with_ttl(
        String::from("foodbasket:sess:tok"),
        String::from("{ not json"),
        1000,
        0,
    );
    let svc = SessionService::new(cache);
    assert!(matches!(
        svc.get("tok", 0),
        Err(SessionServiceError::Corrupt)
    ));
}

#[test]
fn test_read_outcome_maps_events() {
    let sess = sample_session();
    let encoded = foodbasket::codec::encode_session(&sess);
    assert_eq!(
        session_read_outcome(CacheReadEvent::Hit(encoded)).unwrap(),
        sess
    );
    assert!(matches!(
        session_read_outcome(CacheReadEvent::Hit(String::from("junk"))),
        Err(SessionServiceError::Corrupt)
    ));
    assert!(matches!(
        session_read_outcome(CacheReadEvent::Miss),
        Err(SessionServiceError::NotFound)
    ));
    assert!(matches!(
        session_read_outcome(CacheReadEvent::Failed),
        Err(SessionServiceError::Unavailable)
    ));
}

#[test]
fn test_sessions_isolated_by_token() {
    let mut svc = SessionService::new(CacheStore::new());
    let a = sample_session();
    let b = Session {
        user_id: Some(Uuid { value: 2 }),
        user_email: Some(String::from("b@example.com")),
        created_at: 2,
    };
    svc.set("tok-a", &a, 0);
    svc.set("tok-b", &b, 0);
    svc.delete("tok-a");
    assert_eq!(svc.get("tok-b", 1).unwrap(), b);
    assert!(svc.get("tok-a", 1).is_err());
}
