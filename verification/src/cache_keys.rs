//! Cache key construction: every entry the library stores lives under a
//! namespace-qualified key with a category tag, so that keys of different
//! categories can never collide.

use vstd::prelude::*;
use vstd::string::StringExecFns;

verus! {

/// Key under which a session record is stored: `foodbasket:sess:<token>`.
pub open spec fn spec_session_key(id: Seq<char>) -> Seq<char> {
    "foodbasket:sess:"@ + id
}

/// Key of the slug-to-id projection of a tenant: `foodbasket:tenants:slug:<slug>`.
pub open spec fn spec_tenant_slug_key(slug: Seq<char>) -> Seq<char> {
    "foodbasket:tenants:slug:"@ + slug
}

/// Key of the id-to-existence projection of a tenant: `foodbasket:tenants:uuid:<id>`.
pub open spec fn spec_tenant_uuid_key(uuid: Seq<char>) -> Seq<char> {
    "foodbasket:tenants:uuid:"@ + uuid
}

/// A key in the cache that maps a session ID -> session object.
pub fn session(id: &str) -> (r: String)
    ensures
        r@ == spec_session_key(id@),
{
    let mut k = String::from_str("foodbasket:sess:");
    k.append(id);
    k
}

/// A key in the cache that maps a tenant's slug -> tenant's uuid.
pub fn tenant_slug(slug: &str) -> (r: String)
    ensures
        r@ == spec_tenant_slug_key(slug@),
{
    let mut k = String::from_str("foodbasket:tenants:slug:");
    k.append(slug);
    k
}

/// A key in the cache that maps a tenant's uuid -> whether that tenant exists.
pub fn tenant_uuid(uuid: &str) -> (r: String)
    ensures
        r@ == spec_tenant_uuid_key(uuid@),
{
    let mut k = String::from_str("foodbasket:tenants:uuid:");
    k.append(uuid);
    k
}

/// Keys of different categories never collide, whatever identifiers they are
/// built from, and within one category the key determines the identifier.
pub proof fn lemma_keys_disjoint_and_injective(a: Seq<char>, b: Seq<char>)
    ensures
        spec_session_key(a) != spec_tenant_slug_key(b),
        spec_session_key(a) != spec_tenant_uuid_key(b),
        spec_tenant_slug_key(a) != spec_tenant_uuid_key(b),
        spec_session_key(a) == spec_session_key(b) ==> a == b,
        spec_tenant_slug_key(a) == spec_tenant_slug_key(b) ==> a == b,
        spec_tenant_uuid_key(a) == spec_tenant_uuid_key(b) ==> a == b,
{
    reveal_strlit("foodbasket:sess:");
    reveal_strlit("foodbasket:tenants:slug:");
    reveal_strlit("foodbasket:tenants:uuid:");
    if spec_session_key(a) == spec_tenant_slug_key(b) {
        assert(spec_session_key(a)[11] == spec_tenant_slug_key(b)[11]);
        assert(false);
    }
    if spec_session_key(a) == spec_tenant_uuid_key(b) {
        assert(spec_session_key(a)[11] == spec_tenant_uuid_key(b)[11]);
        assert(false);
    }
    if spec_tenant_slug_key(a) == spec_tenant_uuid_key(b) {
        assert(spec_tenant_slug_key(a)[19] == spec_tenant_uuid_key(b)[19]);
        assert(false);
    }
    if spec_session_key(a) == spec_session_key(b) {
        assert(spec_session_key(a).len() == spec_session_key(b).len());
        assert(a.len() == b.len());
        assert forall|i: int| 0 <= i < a.len() implies a[i] == b[i] by {
            assert(spec_session_key(a)[16 + i] == spec_session_key(b)[16 + i]);
        }
        assert(a =~= b);
    }
    if spec_tenant_slug_key(a) == spec_tenant_slug_key(b) {
        assert(spec_tenant_slug_key(a).len() == spec_tenant_slug_key(b).len());
        assert(a.len() == b.len());
        assert forall|i: int| 0 <= i < a.len() implies a[i] == b[i] by {
            assert(spec_tenant_slug_key(a)[24 + i] == spec_tenant_slug_key(b)[24 + i]);
        }
        assert(a =~= b);
    }
    if spec_tenant_uuid_key(a) == spec_tenant_uuid_key(b) {
        assert(spec_tenant_uuid_key(a).len() == spec_tenant_uuid_key(b).len());
        assert(a.len() == b.len());
        assert forall|i: int| 0 <= i < a.len() implies a[i] == b[i] by {
            assert(spec_tenant_uuid_key(a)[24 + i] == spec_tenant_uuid_key(b)[24 + i]);
        }
        assert(a =~= b);
    }
}

} // verus!
