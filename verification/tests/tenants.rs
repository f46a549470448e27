use foodbasket::cache::CacheStore;
use foodbasket::ids::Uuid;
use foodbasket::sessions::CacheReadEvent;
use foodbasket::tenants::{
    classify_exists_read, classify_slug_read, exists_entry_value, slug_entry_value,
    ExistsCacheRead, SlugCacheRead, TenantDirectory, TenantService, TENANT_CACHE_TTL,
};

const ACME_ID: u128 = 0x00112233445566778899aabbccddeeffu128;

#[test]
fn test_resolve_absent_slug_then_negative_cache() {
    let mut svc = TenantService::new(CacheStore::new());
    let db = TenantDirectory::new();

    // no matching row: absent, and the sentinel is written
    assert_eq!(svc.get_id_by_slug(&db, "acme", 10).unwrap(), None);

    // a tenant appears in the store right afterwards
    let mut db2 = TenantDirectory::new();
    db2.insert(Uuid { value: ACME_ID }, String::from("acme"));

    // within the lifetime the sentinel answers absent without a store read
    assert_eq!(svc.get_id_by_slug(&db2, "acme", 10 + TENANT_CACHE_TTL - 1).unwrap(), None);
}

#[test]
fn test_stale_sentinel_masks_until_expiry_boundary() {
    let mut svc = TenantService::new(CacheStore::new());
    let empty = TenantDirectory::new();
    assert_eq!(svc.get_id_by_slug(&empty, "acme", 0).unwrap(), None);

    let mut db = TenantDirectory::new();
    db.insert(Uuid { value: ACME_ID }, String::from("acme"));

    // absent at the last instant before expiry, present from expiry on
    assert_eq!(svc.get_id_by_slug(&db, "acme", TENANT_CACHE_TTL - 1).unwrap(), None);
    assert_eq!(
        svc.get_id_by_slug(&db, "acme", TENANT_CACHE_TTL).unwrap(),
        Some(Uuid { value: ACME_ID })
    );
}

#[test]
fn test_resolve_found_slug_and_positive_cache() {
    let mut svc = TenantService::new(CacheStore::new());
    let mut db = TenantDirectory::new();
    db.insert(Uuid { value: ACME_ID }, String::from("acme"));

    assert_eq!(
        svc.get_id_by_slug(&db, "acme", 0).unwrap(),
        Some(Uuid { value: ACME_ID })
    );

    // the identifier is now cached: the row may vanish, the answer stays
    let empty = TenantDirectory::new();
    assert_eq!(
        svc.get_id_by_slug(&empty, "acme", TENANT_CACHE_TTL - 1).unwrap(),
        Some(Uuid { value: ACME_ID })
    );
}

#[test]
fn test_resolve_slug_case_insensitive() {
    let mut svc = TenantService::new(CacheStore::new());
    let mut db = TenantDirectory::new();
    db.insert(Uuid { value: 7 }, String::from("AcMe"));
    assert_eq!(
        svc.get_id_by_slug(&db, "aCmE", 0).unwrap(),
        Some(Uuid { value: 7 })
    );
}

#[test]
fn test_corrupt_slug_entry_falls_back_to_store() {
    let mut cache = CacheStore::new();
    cache.set_with_ttl(
        String::from("foodbasket:tenants:slug:acme"),
        String::from("not-an-identifier"),
        TENANT_CACHE_TTL,
        0,
    );
    let mut svc = TenantService::new(cache);
    let mut db = TenantDirectory::new();
    db.insert(Uuid { value: 9 }, String::from("acme"));
    assert_eq!(svc.get_id_by_slug(&db, "acme", 0).unwrap(), Some(Uuid { value: 9 }));
}

#[test]
fn test_is_tenant_true_false_and_cached() {
    let mut svc = TenantService::new(CacheStore::new());
    let mut db = TenantDirectory::new();
    let id = Uuid { value: ACME_ID };
    db.insert(id, String::from("acme"));

    assert_eq!(svc.is_tenant(&db, &id, 0).unwrap(), true);
    assert_eq!(svc.is_tenant(&db, &Uuid { value: 1 }, 0).unwrap(), false);

    // both answers are now cached and survive the store emptying
    let empty = TenantDirectory::new();
    assert_eq!(svc.is_tenant(&empty, &id, TENANT_CACHE_TTL - 1).unwrap(), true);
    assert_eq!(
        svc.is_tenant(&empty, &Uuid { value: 1 }, TENANT_CACHE_TTL - 1).unwrap(),
        false
    );
    // and expire together
    assert_eq!(svc.is_tenant(&empty, &id, TENANT_CACHE_TTL).unwrap(), false);
}

#[test]
fn test_classify_slug_read_events() {
    let id = Uuid { value: ACME_ID };
    let hit = CacheReadEvent::Hit(id.to_hyphenated());
    assert!(matches!(classify_slug_read(hit), SlugCacheRead::Found(u) if u == id));
    assert!(matches!(
        classify_slug_read(CacheReadEvent::Hit(String::from("NF"))),
        SlugCacheRead::ConfirmedAbsent
    ));
    assert!(matches!(
        classify_slug_read(CacheReadEvent::Hit(String::from("garbage"))),
        SlugCacheRead::Miss
    ));
    assert!(matches!(
        classify_slug_read(CacheReadEvent::Miss),
        SlugCacheRead::Miss
    ));
    // a transport failure is absorbed as a miss, never surfaced
    assert!(matches!(
        classify_slug_read(CacheReadEvent::Failed),
        SlugCacheRead::Miss
    ));
}

#[test]
fn test_classify_exists_read_events() {
    assert!(matches!(
        classify_exists_read(CacheReadEvent::Hit(String::from("true"))),
        ExistsCacheRead::Known(true)
    ));
    assert!(matches!(
        classify_exists_read(CacheReadEvent::Hit(String::from("false"))),
        ExistsCacheRead::Known(false)
    ));
    assert!(matches!(
        classify_exists_read(CacheReadEvent::Hit(String::from("TRUE"))),
        ExistsCacheRead::Miss
    ));
    assert!(matches!(
        classify_exists_read(CacheReadEvent::Failed),
        ExistsCacheRead::Miss
    ));
}

#[test]
fn test_entry_values() {
    let id = Uuid { value: ACME_ID };
    assert_eq!(
        slug_entry_value(Some(id)),
        "00112233-4455-6677-8899-aabbccddeeff"
    );
    assert_eq!(slug_entry_value(None), "NF");
    assert_eq!(exists_entry_value(true), "true");
    assert_eq!(exists_entry_value(false), "false");
}
