//! Sessions: the record stored in the cache under an opaque token, and the
//! store that owns session CRUD against the TTL cache.

use vstd::prelude::*;
use crate::cache::{CacheStore, spec_get, live};
use crate::cache_keys::spec_session_key;
use crate::codec::{spec_session_json, spec_parse_session, encode_session, decode_session,
    lemma_session_json_round_trip};
use crate::ids::Uuid;

verus! {

/// What can go wrong with a session operation. The cache is the source of
/// truth for sessions, so cache trouble is surfaced to the caller.
#[derive(Clone, Copy, PartialEq, Eq, Structural, Debug)]
pub enum SessionServiceError {
    /// The session is absent: never created, expired, or deleted.
    NotFound,
    /// A value is present under the token but cannot be decoded.
    Corrupt,
    /// The cache transport failed.
    Unavailable,
}

/// The mathematical content of a session record.
pub ghost struct SessionModel {
    pub user_id: Option<u128>,
    pub user_email: Option<Seq<char>>,
    pub created_at: int,
}

/// A session record: who is logged in and when the session was created.
/// The record is identified by an opaque token it does not itself contain.
#[derive(Debug)]
pub struct Session {
    pub user_id: Option<Uuid>,
    pub user_email: Option<String>,
    /// Unix timestamp in milliseconds.
    pub created_at: i64,
}

impl View for Session {
    type V = SessionModel;

    open spec fn view(&self) -> SessionModel {
        SessionModel {
            user_id: match self.user_id {
                Some(u) => Some(u.value),
                None => None,
            },
            user_email: match self.user_email {
                Some(ref e) => Some(e@),
                None => None,
            },
            created_at: self.created_at as int,
        }
    }
}

impl Clone for Session {
    fn clone(&self) -> (r: Self)
        ensures
            r@ == self@,
    {
        Session {
            user_id: self.user_id,
            user_email: match &self.user_email {
                Some(e) => Some(e.clone()),
                None => None,
            },
            created_at: self.created_at,
        }
    }
}

impl PartialEq for Session {
    fn eq(&self, other: &Self) -> (r: bool) {
        let ids_eq = match (&self.user_id, &other.user_id) {
            (Some(a), Some(b)) => a.value == b.value,
            (None, None) => true,
            _ => false,
        };
        let emails_eq = match (&self.user_email, &other.user_email) {
            (Some(a), Some(b)) => *a == *b,
            (None, None) => true,
            _ => false,
        };
        ids_eq && emails_eq && self.created_at == other.created_at
    }
}

impl vstd::std_specs::cmp::PartialEqSpecImpl for Session {
    open spec fn obeys_eq_spec() -> bool {
        true
    }

    open spec fn eq_spec(&self, other: &Self) -> bool {
        self@ == other@
    }
}

/// Fixed session lifetime: how long a written session record is served.
pub const SESS_CACHE_TTL: u64 = 60 * 1000;

/// Number of random bytes in a session token.
pub const TOKEN_BYTES: usize = 64;

/// What a read against the real cache client came back with.
pub enum CacheReadEvent {
    /// A value is present under the key.
    Hit(String),
    /// No value is present under the key.
    Miss,
    /// The transport failed; no answer was obtained.
    Failed,
}

/// What a session lookup returns over a given cache content: the record if a
/// live entry decodes, `NotFound` on a miss, `Corrupt` on an undecodable hit.
pub open spec fn spec_session_get(
    m: Map<Seq<char>, (Seq<char>, u64)>,
    token: Seq<char>,
    now: u64,
) -> Result<SessionModel, SessionServiceError> {
    match spec_get(m, spec_session_key(token), now) {
        None => Err(SessionServiceError::NotFound),
        Some(v) => match spec_parse_session(v) {
            Some(sm) => Ok(sm),
            None => Err(SessionServiceError::Corrupt),
        },
    }
}

/// How a session write changes the cache content: the record's encoding is
/// stored under the token's key with a fresh full lifetime.
pub open spec fn spec_session_set(
    m: Map<Seq<char>, (Seq<char>, u64)>,
    token: Seq<char>,
    sm: SessionModel,
    now: u64,
) -> Map<Seq<char>, (Seq<char>, u64)> {
    m.insert(spec_session_key(token), (spec_session_json(sm), (now + SESS_CACHE_TTL) as u64))
}

/// How a session delete changes the cache content.
pub open spec fn spec_session_delete(
    m: Map<Seq<char>, (Seq<char>, u64)>,
    token: Seq<char>,
) -> Map<Seq<char>, (Seq<char>, u64)> {
    m.remove(spec_session_key(token))
}

/// The session store: owns session CRUD against the TTL cache under the key
/// codec, and mints the opaque tokens sessions are stored under. The cache is
/// the source of truth for sessions, so a record exists exactly while its
/// cache entry is live.
pub struct SessionService {
    cache: CacheStore,
}

impl View for SessionService {
    type V = Map<Seq<char>, (Seq<char>, u64)>;

    closed spec fn view(&self) -> Map<Seq<char>, (Seq<char>, u64)> {
        self.cache@
    }
}

impl SessionService {
    pub closed spec fn wf(&self) -> bool {
        self.cache.wf()
    }

    pub fn new(cache: CacheStore) -> (r: Self)
        requires
            cache.wf(),
        ensures
            r.wf(),
            r@ == cache@,
    {
        SessionService { cache }
    }

    /// Retrieves the session stored under a token.
    ///
    /// Fails with `NotFound` if no live entry exists (never written, expired
    /// or deleted), with `Corrupt` if the stored value does not decode.
    pub fn get(&self, id: &str, now: u64) -> (r: Result<Session, SessionServiceError>)
        requires
            self.wf(),
        ensures
            match r {
                Ok(sess) => spec_session_get(self@, id@, now) == Ok::<
                    SessionModel,
                    SessionServiceError,
                >(sess@),
                Err(e) => spec_session_get(self@, id@, now) == Err::<
                    SessionModel,
                    SessionServiceError,
                >(e),
            },
    {
        let key = crate::cache_keys::session(id);
        match self.cache.get(&key, now) {
            None => Err(SessionServiceError::NotFound),
            Some(v) => match decode_session(v.as_str()) {
                Some(sess) => Ok(sess),
                None => Err(SessionServiceError::Corrupt),
            },
        }
    }

    /// Overwrites the session stored under a token with a fresh full
    /// lifetime. The lifetime is refreshed by every write and only by a
    /// write: a read never extends it, so sessions are not sliding-window.
    pub fn set(&mut self, id: &str, sess: &Session, now: u64)
        requires
            old(self).wf(),
            now + SESS_CACHE_TTL <= u64::MAX,
        ensures
            final(self).wf(),
            final(self)@ == spec_session_set(old(self)@, id@, sess@, now),
    {
        let key = crate::cache_keys::session(id);
        let value = encode_session(sess);
        self.cache.set_with_ttl(key, value, SESS_CACHE_TTL, now);
    }

    /// Creates a session: mints a fresh opaque token, stores the record
    /// under it with the full lifetime, and returns the token.
    pub fn create(&mut self, sess: &Session, now: u64) -> (token: String)
        requires
            old(self).wf(),
            now + SESS_CACHE_TTL <= u64::MAX,
        ensures
            final(self).wf(),
            final(self)@ == spec_session_set(old(self)@, token@, sess@, now),
            token@.len() == 86,
    {
        let token = crate::random::generate_token(TOKEN_BYTES);
        self.set(token.as_str(), sess, now);
        token
    }

    /// Removes the session stored under a token. Removing an absent token is
    /// not an error and changes nothing, so deletion is idempotent.
    pub fn delete(&mut self, id: &str)
        requires
            old(self).wf(),
        ensures
            final(self).wf(),
            final(self)@ == spec_session_delete(old(self)@, id@),
    {
        let key = crate::cache_keys::session(id);
        self.cache.delete(&key);
    }
}

/// Maps what a cache read against the real client came back with to the
/// session lookup's outcome: a miss is `NotFound`, a transport failure is
/// surfaced as `Unavailable` (sessions have no fallback store), and a hit is
/// decoded, `Corrupt` when the value does not decode.
pub fn session_read_outcome(ev: CacheReadEvent) -> (r: Result<Session, SessionServiceError>)
    ensures
        match ev {
            CacheReadEvent::Hit(v) => match r {
                Ok(sess) => spec_parse_session(v@) == Some(sess@),
                Err(e) => e == SessionServiceError::Corrupt && spec_parse_session(v@)
                    == None::<SessionModel>,
            },
            CacheReadEvent::Miss => r == Err::<Session, SessionServiceError>(
                SessionServiceError::NotFound,
            ),
            CacheReadEvent::Failed => r == Err::<Session, SessionServiceError>(
                SessionServiceError::Unavailable,
            ),
        },
{
    match ev {
        CacheReadEvent::Hit(v) => match decode_session(v.as_str()) {
            Some(sess) => Ok(sess),
            None => Err(SessionServiceError::Corrupt),
        },
        CacheReadEvent::Miss => Err(SessionServiceError::NotFound),
        CacheReadEvent::Failed => Err(SessionServiceError::Unavailable),
    }
}

/// A read immediately after a write under the same token, before the
/// lifetime has elapsed, returns the written record: create/get round-trip.
pub proof fn lemma_get_after_set(
    m: Map<Seq<char>, (Seq<char>, u64)>,
    token: Seq<char>,
    sm: SessionModel,
    now_set: u64,
    now_get: u64,
)
    requires
        now_set + SESS_CACHE_TTL <= u64::MAX,
        now_get < now_set + SESS_CACHE_TTL,
        -0x8000000000000000 <= sm.created_at <= 0x7fffffffffffffff,
    ensures
        spec_session_get(spec_session_set(m, token, sm, now_set), token, now_get) == Ok::<
            SessionModel,
            SessionServiceError,
        >(sm),
{
    let k = spec_session_key(token);
    let m2 = spec_session_set(m, token, sm, now_set);
    assert(m2.contains_key(k));
    assert(m2[k] == (spec_session_json(sm), (now_set + SESS_CACHE_TTL) as u64));
    assert(live(m2, k, now_get));
    lemma_session_json_round_trip(sm);
}

/// A read after a delete under the same token finds nothing, whatever was
/// stored and whenever it is read; and deleting twice equals deleting once.
pub proof fn lemma_get_after_delete(
    m: Map<Seq<char>, (Seq<char>, u64)>,
    token: Seq<char>,
    now: u64,
)
    ensures
        spec_session_get(spec_session_delete(m, token), token, now) == Err::<
            SessionModel,
            SessionServiceError,
        >(SessionServiceError::NotFound),
        spec_session_delete(spec_session_delete(m, token), token) == spec_session_delete(
            m,
            token,
        ),
{
    let k = spec_session_key(token);
    assert(!spec_session_delete(m, token).contains_key(k));
    assert(spec_session_delete(spec_session_delete(m, token), token) =~= spec_session_delete(
        m,
        token,
    ));
}

/// A session entry expires exactly at the end of its lifetime: it is served
/// up to the last instant before `now + SESS_CACHE_TTL` and not from that
/// instant on. Reads never extend the lifetime, only `set` does.
pub proof fn lemma_session_expiry_boundary(
    m: Map<Seq<char>, (Seq<char>, u64)>,
    token: Seq<char>,
    sm: SessionModel,
    now_set: u64,
    later: u64,
)
    requires
        now_set + SESS_CACHE_TTL <= u64::MAX,
        later >= now_set + SESS_CACHE_TTL,
    ensures
        spec_session_get(spec_session_set(m, token, sm, now_set), token, later) == Err::<
            SessionModel,
            SessionServiceError,
        >(SessionServiceError::NotFound),
{
    let k = spec_session_key(token);
    let m2 = spec_session_set(m, token, sm, now_set);
    assert(!live(m2, k, later));
}

/// Sessions are isolated by token: writing or deleting under one token never
/// changes what a lookup under another token returns, because distinct
/// tokens build distinct cache keys.
pub proof fn lemma_session_isolation(
    m: Map<Seq<char>, (Seq<char>, u64)>,
    t1: Seq<char>,
    t2: Seq<char>,
    sm: SessionModel,
    now_write: u64,
    now_read: u64,
)
    requires
        t1 != t2,
        now_write + SESS_CACHE_TTL <= u64::MAX,
    ensures
        spec_session_get(spec_session_set(m, t1, sm, now_write), t2, now_read)
            == spec_session_get(m, t2, now_read),
        spec_session_get(spec_session_delete(m, t1), t2, now_read) == spec_session_get(
            m,
            t2,
            now_read,
        ),
{
    crate::cache_keys::lemma_keys_disjoint_and_injective(t1, t2);
    assert(spec_session_key(t1) != spec_session_key(t2));
}

} // verus!
