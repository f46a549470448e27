//! The tenant resolver: cache-aside lookup of tenant identity against the
//! TTL cache in front of the relational store, with negative caching. A
//! cache hit answers without touching the store; a miss falls back to the
//! store, whose answer — the identifier, or the "NF" sentinel meaning
//! confirmed absent — is written back with a short lifetime.

use vstd::prelude::*;
use vstd::string::StrSliceExecFns;
use vstd::string::StringExecFns;
use crate::cache::{CacheStore, spec_get, live};
use crate::cache_keys::{spec_tenant_slug_key, spec_tenant_uuid_key};
use crate::ids::{Uuid, spec_parse_uuid, spec_uuid_str};
use crate::sessions::CacheReadEvent;
use crate::fold::{lower_of, to_ascii_lower};

verus! {

/// Short lifetime of a tenant cache entry, in seconds.
pub const TENANT_CACHE_TTL: u64 = 5 * 60;

/// What can go wrong with a tenant resolution: only the authoritative
/// relational read can fail; cache malfunction is absorbed as a miss.
#[derive(Clone, Copy, PartialEq, Eq, Structural, Debug)]
pub enum TenantServiceError {
    /// The relational store could not be reached on the fallback path.
    Unavailable,
}

/// One tenant row as the resolver sees it: an identifier and a slug.
pub struct TenantRow {
    pub id: Uuid,
    pub slug: String,
}

/// The relational store's tenant table, as a value: the authoritative answer
/// a fallback read consults.
pub struct TenantDirectory {
    pub rows: Vec<TenantRow>,
}

impl View for TenantDirectory {
    type V = Seq<(u128, Seq<char>)>;

    open spec fn view(&self) -> Seq<(u128, Seq<char>)> {
        Seq::new(self.rows@.len(), |i: int| (self.rows@[i].id.value, self.rows@[i].slug@))
    }
}

/// The store's answer for a slug: the identifier of the first row whose slug
/// matches case-insensitively, or nothing.
pub open spec fn spec_find_by_slug(rows: Seq<(u128, Seq<char>)>, slug: Seq<char>) -> Option<u128>
    decreases rows.len(),
{
    if rows.len() == 0 {
        None
    } else if lower_of(rows[0].1) == lower_of(slug) {
        Some(rows[0].0)
    } else {
        spec_find_by_slug(rows.drop_first(), slug)
    }
}

/// Whether the store holds a live tenant under an identifier.
pub open spec fn spec_exists_id(rows: Seq<(u128, Seq<char>)>, id: u128) -> bool {
    exists|i: int| 0 <= i < rows.len() && #[trigger] rows[i].0 == id
}

impl TenantDirectory {
    /// An empty directory.
    pub fn new() -> (r: Self)
        ensures
            r@ =~= Seq::<(u128, Seq<char>)>::empty(),
    {
        TenantDirectory { rows: Vec::new() }
    }

    /// Adds a row at the end.
    pub fn insert(&mut self, id: Uuid, slug: String)
        ensures
            final(self)@ =~= old(self)@.push((id.value, slug@)),
    {
        self.rows.push(TenantRow { id, slug });
    }

    /// The first row whose slug matches case-insensitively, if one does.
    pub fn find_by_slug(&self, slug: &str) -> (r: Option<Uuid>)
        ensures
            match r {
                Some(u) => spec_find_by_slug(self@, slug@) == Some(u.value),
                None => spec_find_by_slug(self@, slug@) == None::<u128>,
            },
    {
        let want = to_ascii_lower(slug);
        let n = self.rows.len();
        let mut i: usize = 0;
        proof {
            assert(self@.skip(0) =~= self@);
        }
        while i < n
            invariant
                i <= n,
                n == self.rows@.len(),
                want@ == lower_of(slug@),
                spec_find_by_slug(self@, slug@) == spec_find_by_slug(
                    self@.skip(i as int),
                    slug@,
                ),
            decreases n - i,
        {
            let have = to_ascii_lower(self.rows[i].slug.as_str());
            proof {
                assert(self@.skip(i as int)[0] == self@[i as int]);
                assert(self@.skip(i as int).drop_first() =~= self@.skip(i + 1 as int));
            }
            if have == want {
                return Some(self.rows[i].id);
            }
            i = i + 1;
        }
        proof {
            assert(self@.skip(n as int).len() == 0);
        }
        None
    }

    /// Whether some row holds the identifier.
    pub fn exists_id(&self, id: &Uuid) -> (r: bool)
        ensures
            r == spec_exists_id(self@, id.value),
    {
        let n = self.rows.len();
        let mut i: usize = 0;
        while i < n
            invariant
                i <= n,
                n == self.rows@.len(),
                forall|j: int| 0 <= j < i ==> #[trigger] self@[j].0 != id.value,
            decreases n - i,
        {
            if self.rows[i].id.value == id.value {
                proof {
                    assert(self@[i as int].0 == id.value);
                }
                return true;
            }
            i = i + 1;
        }
        false
    }
}

/// Result of a slug resolution over given cache and store contents: a live
/// sentinel answers absent, a live identifier answers found, anything else —
/// a miss, an expired entry, or an undecodable value — defers to the store.
pub open spec fn spec_resolve_result(
    m: Map<Seq<char>, (Seq<char>, u64)>,
    rows: Seq<(u128, Seq<char>)>,
    slug: Seq<char>,
    now: u64,
) -> Option<u128> {
    match spec_get(m, spec_tenant_slug_key(lower_of(slug)), now) {
        Some(v) => if v == "NF"@ {
            None
        } else {
            match spec_parse_uuid(v) {
                Some(u) => Some(u),
                None => spec_find_by_slug(rows, slug),
            }
        },
        None => spec_find_by_slug(rows, slug),
    }
}

/// Whether a slug resolution reaches the relational store: only on a cache
/// miss, an expired entry, or a value that is neither the sentinel nor an
/// identifier.
pub open spec fn spec_resolve_reads_db(
    m: Map<Seq<char>, (Seq<char>, u64)>,
    slug: Seq<char>,
    now: u64,
) -> bool {
    match spec_get(m, spec_tenant_slug_key(lower_of(slug)), now) {
        Some(v) => v != "NF"@ && spec_parse_uuid(v) is None,
        None => true,
    }
}

/// The cache content after a slug resolution: unchanged on a usable hit;
/// after a store read, the store's answer — identifier or sentinel — is
/// written back with the short lifetime.
pub open spec fn spec_resolve_cache_after(
    m: Map<Seq<char>, (Seq<char>, u64)>,
    rows: Seq<(u128, Seq<char>)>,
    slug: Seq<char>,
    now: u64,
) -> Map<Seq<char>, (Seq<char>, u64)> {
    if spec_resolve_reads_db(m, slug, now) {
        m.insert(
            spec_tenant_slug_key(lower_of(slug)),
            (
                match spec_find_by_slug(rows, slug) {
                    Some(u) => spec_uuid_str(u),
                    None => "NF"@,
                },
                (now + TENANT_CACHE_TTL) as u64,
            ),
        )
    } else {
        m
    }
}

/// Result of an existence check over given cache and store contents.
pub open spec fn spec_exists_result(
    m: Map<Seq<char>, (Seq<char>, u64)>,
    rows: Seq<(u128, Seq<char>)>,
    id: u128,
    now: u64,
) -> bool {
    match spec_get(m, spec_tenant_uuid_key(spec_uuid_str(id)), now) {
        Some(v) => if v == "true"@ {
            true
        } else if v == "false"@ {
            false
        } else {
            spec_exists_id(rows, id)
        },
        None => spec_exists_id(rows, id),
    }
}

/// Whether an existence check reaches the relational store.
pub open spec fn spec_exists_reads_db(
    m: Map<Seq<char>, (Seq<char>, u64)>,
    id: u128,
    now: u64,
) -> bool {
    match spec_get(m, spec_tenant_uuid_key(spec_uuid_str(id)), now) {
        Some(v) => v != "true"@ && v != "false"@,
        None => true,
    }
}

/// The cache content after an existence check.
pub open spec fn spec_exists_cache_after(
    m: Map<Seq<char>, (Seq<char>, u64)>,
    rows: Seq<(u128, Seq<char>)>,
    id: u128,
    now: u64,
) -> Map<Seq<char>, (Seq<char>, u64)> {
    if spec_exists_reads_db(m, id, now) {
        m.insert(
            spec_tenant_uuid_key(spec_uuid_str(id)),
            (
                if spec_exists_id(rows, id) {
                    "true"@
                } else {
                    "false"@
                },
                (now + TENANT_CACHE_TTL) as u64,
            ),
        )
    } else {
        m
    }
}

/// The tenant resolver: owns the tenant projections of the TTL cache and
/// falls back to a given relational directory on a miss. In the running
/// system the write-back is detached from the caller; here it is applied to
/// the owned cache as part of the operation, which is the state every
/// ordering of detached writes converges to for a single resolution.
pub struct TenantService {
    cache: CacheStore,
}

impl View for TenantService {
    type V = Map<Seq<char>, (Seq<char>, u64)>;

    closed spec fn view(&self) -> Map<Seq<char>, (Seq<char>, u64)> {
        self.cache@
    }
}

impl TenantService {
    pub closed spec fn wf(&self) -> bool {
        self.cache.wf()
    }

    pub fn new(cache: CacheStore) -> (r: Self)
        requires
            cache.wf(),
        ensures
            r.wf(),
            r@ == cache@,
    {
        TenantService { cache }
    }

    /// Resolves a slug to the tenant's identifier, cache-aside: a live cache
    /// entry answers directly (the sentinel as absent); otherwise the
    /// directory is read and its answer written back with the short
    /// lifetime. An undecodable cache value is treated as a miss, never
    /// surfaced. The model directory cannot fail, so the error arm is never
    /// taken; on the live read path a store failure becomes `Unavailable`.
    pub fn get_id_by_slug(
        &mut self,
        db: &TenantDirectory,
        slug: &str,
        now: u64,
    ) -> (r: Result<Option<Uuid>, TenantServiceError>)
        requires
            old(self).wf(),
            now + TENANT_CACHE_TTL <= u64::MAX,
        ensures
            final(self).wf(),
            match r {
                Ok(Some(u)) => spec_resolve_result(old(self)@, db@, slug@, now) == Some(u.value),
                Ok(None) => spec_resolve_result(old(self)@, db@, slug@, now) == None::<u128>,
                Err(_) => false,
            },
            final(self)@ == spec_resolve_cache_after(old(self)@, db@, slug@, now),
    {
        let lslug = to_ascii_lower(slug);
        let key = crate::cache_keys::tenant_slug(lslug.as_str());
        let nf = String::from_str("NF");
        proof {
            reveal_strlit("NF");
        }
        match self.cache.get(&key, now) {
            Some(v) => {
                if v == nf {
                    return Ok(None);
                }
                match Uuid::parse_hyphenated(v.as_str()) {
                    Some(u) => {
                        return Ok(Some(u));
                    },
                    None => {},
                }
            },
            None => {},
        }
        let found = db.find_by_slug(slug);
        let value = match &found {
            Some(u) => u.to_hyphenated(),
            None => String::from_str("NF"),
        };
        self.cache.set_with_ttl(key, value, TENANT_CACHE_TTL, now);
        Ok(found)
    }

    /// Checks whether an identifier names a live tenant, cache-aside over
    /// the boolean sentinels `"true"` and `"false"`, with the same miss,
    /// fallback and write-back behaviour as slug resolution.
    pub fn is_tenant(
        &mut self,
        db: &TenantDirectory,
        id: &Uuid,
        now: u64,
    ) -> (r: Result<bool, TenantServiceError>)
        requires
            old(self).wf(),
            now + TENANT_CACHE_TTL <= u64::MAX,
        ensures
            final(self).wf(),
            match r {
                Ok(b) => b == spec_exists_result(old(self)@, db@, id.value, now),
                Err(_) => false,
            },
            final(self)@ == spec_exists_cache_after(old(self)@, db@, id.value, now),
    {
        let id_str = id.to_hyphenated();
        let key = crate::cache_keys::tenant_uuid(id_str.as_str());
        let t = String::from_str("true");
        let f = String::from_str("false");
        proof {
            reveal_strlit("true");
            reveal_strlit("false");
        }
        match self.cache.get(&key, now) {
            Some(v) => {
                if v == t {
                    return Ok(true);
                }
                if v == f {
                    return Ok(false);
                }
            },
            None => {},
        }
        let exists = db.exists_id(id);
        let value = if exists {
            String::from_str("true")
        } else {
            String::from_str("false")
        };
        self.cache.set_with_ttl(key, value, TENANT_CACHE_TTL, now);
        Ok(exists)
    }
}

/// Negative caching: once a resolution of an absent slug has written the
/// sentinel, any repeated resolution within the entry's lifetime answers
/// absent from the cache alone — the store is not read, whatever it now
/// holds, and the cache is left unchanged.
pub proof fn lemma_negative_cache(
    m: Map<Seq<char>, (Seq<char>, u64)>,
    rows: Seq<(u128, Seq<char>)>,
    rows_later: Seq<(u128, Seq<char>)>,
    slug: Seq<char>,
    now1: u64,
    now2: u64,
)
    requires
        spec_find_by_slug(rows, slug) == None::<u128>,
        spec_resolve_reads_db(m, slug, now1),
        now1 + TENANT_CACHE_TTL <= u64::MAX,
        now1 <= now2 < now1 + TENANT_CACHE_TTL,
    ensures
        spec_resolve_result(m, rows, slug, now1) == spec_find_by_slug(rows, slug),
        ({
            let m2 = spec_resolve_cache_after(m, rows, slug, now1);
            &&& spec_resolve_result(m2, rows_later, slug, now2) == None::<u128>
            &&& !spec_resolve_reads_db(m2, slug, now2)
            &&& spec_resolve_cache_after(m2, rows_later, slug, now2) == m2
        }),
{
    let k = spec_tenant_slug_key(lower_of(slug));
    let m2 = spec_resolve_cache_after(m, rows, slug, now1);
    assert(m2 == m.insert(k, ("NF"@, (now1 + TENANT_CACHE_TTL) as u64)));
    assert(live(m2, k, now2));
    assert(spec_get(m2, k, now2) == Some("NF"@));
}

/// Positive caching: once a resolution of a present slug has written the
/// identifier, any repeated resolution within the entry's lifetime answers
/// that identifier from the cache alone — the store is not read, whatever it
/// now holds, and the cache is left unchanged.
pub proof fn lemma_positive_cache(
    m: Map<Seq<char>, (Seq<char>, u64)>,
    rows: Seq<(u128, Seq<char>)>,
    rows_later: Seq<(u128, Seq<char>)>,
    slug: Seq<char>,
    id: u128,
    now1: u64,
    now2: u64,
)
    requires
        spec_find_by_slug(rows, slug) == Some(id),
        spec_resolve_reads_db(m, slug, now1),
        now1 + TENANT_CACHE_TTL <= u64::MAX,
        now1 <= now2 < now1 + TENANT_CACHE_TTL,
    ensures
        spec_resolve_result(m, rows, slug, now1) == Some(id),
        ({
            let m2 = spec_resolve_cache_after(m, rows, slug, now1);
            &&& spec_resolve_result(m2, rows_later, slug, now2) == Some(id)
            &&& !spec_resolve_reads_db(m2, slug, now2)
            &&& spec_resolve_cache_after(m2, rows_later, slug, now2) == m2
        }),
{
    let k = spec_tenant_slug_key(lower_of(slug));
    let m2 = spec_resolve_cache_after(m, rows, slug, now1);
    assert(m2 == m.insert(k, (spec_uuid_str(id), (now1 + TENANT_CACHE_TTL) as u64)));
    assert(live(m2, k, now2));
    assert(spec_get(m2, k, now2) == Some(spec_uuid_str(id)));
    crate::ids::lemma_uuid_str_round_trip(id);
    assert(spec_uuid_str(id) != "NF"@) by {
        reveal_strlit("NF");
        crate::ids::lemma_uuid_str_index(id);
        assert(spec_uuid_str(id).len() == 36);
    }
}

/// Bounded staleness of the negative cache, at its exact boundary: while a
/// sentinel written at `now0` is live — up to the last instant before
/// `now0 + TENANT_CACHE_TTL` — it masks a tenant inserted after it; from the
/// expiry instant on, resolution reads the store and finds the tenant.
pub proof fn lemma_stale_sentinel_boundary(
    m: Map<Seq<char>, (Seq<char>, u64)>,
    rows: Seq<(u128, Seq<char>)>,
    slug: Seq<char>,
    id: u128,
    now0: u64,
    t: u64,
)
    requires
        now0 + TENANT_CACHE_TTL <= u64::MAX,
        m.contains_key(spec_tenant_slug_key(lower_of(slug))),
        m[spec_tenant_slug_key(lower_of(slug))] == ("NF"@, (now0 + TENANT_CACHE_TTL) as u64),
        spec_find_by_slug(rows, slug) == Some(id),
    ensures
        t < now0 + TENANT_CACHE_TTL ==> spec_resolve_result(m, rows, slug, t) == None::<u128>
            && !spec_resolve_reads_db(m, slug, t),
        t >= now0 + TENANT_CACHE_TTL ==> spec_resolve_result(m, rows, slug, t) == Some(id)
            && spec_resolve_reads_db(m, slug, t),
{
    let k = spec_tenant_slug_key(lower_of(slug));
    if t < now0 + TENANT_CACHE_TTL {
        assert(live(m, k, t));
        assert(spec_get(m, k, t) == Some("NF"@));
    } else {
        assert(!live(m, k, t));
        assert(spec_get(m, k, t) == None::<Seq<char>>);
    }
}

/// What a slug-projection cache read means for the resolver.
pub enum SlugCacheRead {
    /// A live sentinel: the slug is confirmed absent; answer without the store.
    ConfirmedAbsent,
    /// A live identifier: answer it without the store.
    Found(Uuid),
    /// No usable entry — absent, failed transport, or undecodable value:
    /// fall back to the store.
    Miss,
}

/// What an existence-projection cache read means for the resolver.
pub enum ExistsCacheRead {
    /// A live boolean sentinel: answer it without the store.
    Known(bool),
    /// No usable entry: fall back to the store.
    Miss,
}

/// Classifies a slug-projection read against the real cache client: the
/// sentinel means confirmed absent, an identifier means found, and a miss, a
/// transport failure or an undecodable value all fall back to the store —
/// cache malfunction is absorbed, never surfaced.
pub fn classify_slug_read(ev: CacheReadEvent) -> (r: SlugCacheRead)
    ensures
        match ev {
            CacheReadEvent::Hit(v) => if v@ == "NF"@ {
                r is ConfirmedAbsent
            } else {
                match spec_parse_uuid(v@) {
                    Some(u) => r matches SlugCacheRead::Found(f) && f.value == u,
                    None => r is Miss,
                }
            },
            CacheReadEvent::Miss => r is Miss,
            CacheReadEvent::Failed => r is Miss,
        },
{
    proof {
        reveal_strlit("NF");
    }
    match ev {
        CacheReadEvent::Hit(v) => {
            let nf = String::from_str("NF");
            if v == nf {
                SlugCacheRead::ConfirmedAbsent
            } else {
                match Uuid::parse_hyphenated(v.as_str()) {
                    Some(u) => SlugCacheRead::Found(u),
                    None => SlugCacheRead::Miss,
                }
            }
        },
        CacheReadEvent::Miss => SlugCacheRead::Miss,
        CacheReadEvent::Failed => SlugCacheRead::Miss,
    }
}

/// Classifies an existence-projection read against the real cache client.
pub fn classify_exists_read(ev: CacheReadEvent) -> (r: ExistsCacheRead)
    ensures
        match ev {
            CacheReadEvent::Hit(v) => if v@ == "true"@ {
                r == ExistsCacheRead::Known(true)
            } else if v@ == "false"@ {
                r == ExistsCacheRead::Known(false)
            } else {
                r is Miss
            },
            CacheReadEvent::Miss => r is Miss,
            CacheReadEvent::Failed => r is Miss,
        },
{
    proof {
        reveal_strlit("true");
        reveal_strlit("false");
    }
    match ev {
        CacheReadEvent::Hit(v) => {
            let t = String::from_str("true");
            let f = String::from_str("false");
            if v == t {
                ExistsCacheRead::Known(true)
            } else if v == f {
                ExistsCacheRead::Known(false)
            } else {
                ExistsCacheRead::Miss
            }
        },
        CacheReadEvent::Miss => ExistsCacheRead::Miss,
        CacheReadEvent::Failed => ExistsCacheRead::Miss,
    }
}

/// The value a slug resolution writes back after a store read: the
/// identifier's hyphenated form, or the sentinel for a confirmed absence.
pub fn slug_entry_value(found: Option<Uuid>) -> (r: String)
    ensures
        r@ == (match found {
            Some(u) => spec_uuid_str(u.value),
            None => "NF"@,
        }),
{
    match found {
        Some(u) => u.to_hyphenated(),
        None => String::from_str("NF"),
    }
}

/// The value an existence check writes back after a store read.
pub fn exists_entry_value(exists: bool) -> (r: String)
    ensures
        r@ == (if exists {
            "true"@
        } else {
            "false"@
        }),
{
    if exists {
        String::from_str("true")
    } else {
        String::from_str("false")
    }
}

/// Tenant resolution stays in its own key categories: whatever a slug
/// resolution or an existence check writes back, no session lookup changes —
/// the key codec keeps the categories disjoint.
pub proof fn lemma_tenant_writes_leave_sessions(
    m: Map<Seq<char>, (Seq<char>, u64)>,
    rows: Seq<(u128, Seq<char>)>,
    slug: Seq<char>,
    id: u128,
    now: u64,
    token: Seq<char>,
    now_read: u64,
)
    requires
        now + TENANT_CACHE_TTL <= u64::MAX,
    ensures
        crate::sessions::spec_session_get(
            spec_resolve_cache_after(m, rows, slug, now),
            token,
            now_read,
        ) == crate::sessions::spec_session_get(m, token, now_read),
        crate::sessions::spec_session_get(
            spec_exists_cache_after(m, rows, id, now),
            token,
            now_read,
        ) == crate::sessions::spec_session_get(m, token, now_read),
{
    crate::cache_keys::lemma_keys_disjoint_and_injective(token, lower_of(slug));
    crate::cache_keys::lemma_keys_disjoint_and_injective(token, spec_uuid_str(id));
}

} // verus!
