//! A model of the key-value cache with per-key expiration that the session
//! store and tenant resolver run against: every entry carries the instant at
//! which it stops being served. Time is an explicit argument, so expiry is
//! part of each operation's contract rather than of a background process.

use vstd::prelude::*;

verus! {

/// One cache entry: a value under a key, served strictly before `expires_at`.
pub struct CacheEntry {
    pub key: String,
    pub value: String,
    pub expires_at: u64,
}

/// The key-value cache with per-key expiration.
pub struct CacheStore {
    entries: Vec<CacheEntry>,
}

/// The mathematical content of a cache: each present key maps to its value
/// and its expiry instant.
pub open spec fn map_of(entries: Seq<CacheEntry>) -> Map<Seq<char>, (Seq<char>, u64)>
    decreases entries.len(),
{
    if entries.len() == 0 {
        Map::empty()
    } else {
        map_of(entries.drop_last()).insert(
            entries.last().key@,
            (entries.last().value@, entries.last().expires_at),
        )
    }
}

/// An entry is live at `now` when it is present and has not yet expired.
pub open spec fn live(m: Map<Seq<char>, (Seq<char>, u64)>, key: Seq<char>, now: u64) -> bool {
    m.contains_key(key) && now < m[key].1
}

/// What a read at `now` returns: the value while the entry is live, nothing
/// once it has expired or was never written.
pub open spec fn spec_get(
    m: Map<Seq<char>, (Seq<char>, u64)>,
    key: Seq<char>,
    now: u64,
) -> Option<Seq<char>> {
    if live(m, key, now) {
        Some(m[key].0)
    } else {
        None
    }
}

/// A key is in the cache map exactly when some entry holds it.
proof fn lemma_map_of_contains(entries: Seq<CacheEntry>, k: Seq<char>)
    ensures
        map_of(entries).contains_key(k) <==> exists|i: int|
            0 <= i < entries.len() && #[trigger] entries[i].key@ == k,
    decreases entries.len(),
{
    if entries.len() > 0 {
        lemma_map_of_contains(entries.drop_last(), k);
        if entries.last().key@ == k {
            assert(entries[entries.len() - 1].key@ == k);
        } else if map_of(entries).contains_key(k) {
            let i = choose|i: int|
                0 <= i < entries.len() - 1 && #[trigger] entries.drop_last()[i].key@ == k;
            assert(entries[i].key@ == k);
        } else {
            assert forall|i: int| 0 <= i < entries.len() implies #[trigger] entries[i].key@ != k by {
                if i < entries.len() - 1 {
                    assert(entries.drop_last()[i].key@ == entries[i].key@);
                }
            }
        }
    }
}

/// With unique keys, the map's value at a key is the matching entry's value.
proof fn lemma_map_of_value(entries: Seq<CacheEntry>, i: int)
    requires
        0 <= i < entries.len(),
        forall|a: int, b: int|
            0 <= a < b < entries.len() ==> #[trigger] entries[a].key@ != #[trigger] entries[b].key@,
    ensures
        map_of(entries).contains_key(entries[i].key@),
        map_of(entries)[entries[i].key@] == (entries[i].value@, entries[i].expires_at),
    decreases entries.len(),
{
    if i == entries.len() - 1 {
    } else {
        assert(entries[i].key@ != entries.last().key@);
        assert(entries.drop_last()[i] == entries[i]);
        lemma_map_of_value(entries.drop_last(), i);
    }
}

/// With unique keys, removing an entry removes exactly its key from the map.
proof fn lemma_map_of_remove(entries: Seq<CacheEntry>, i: int)
    requires
        0 <= i < entries.len(),
        forall|a: int, b: int|
            0 <= a < b < entries.len() ==> #[trigger] entries[a].key@ != #[trigger] entries[b].key@,
    ensures
        map_of(entries.remove(i)) == map_of(entries).remove(entries[i].key@),
    decreases entries.len(),
{
    let k = entries[i].key@;
    if i == entries.len() - 1 {
        assert(entries.remove(i) =~= entries.drop_last());
        lemma_map_of_contains(entries.drop_last(), k);
        assert forall|a: int| 0 <= a < entries.len() - 1
            implies #[trigger] entries.drop_last()[a].key@ != k by {
            assert(entries.drop_last()[a] == entries[a]);
        }
        assert(!map_of(entries.drop_last()).contains_key(k));
        assert(map_of(entries.drop_last()) =~= map_of(entries).remove(k));
    } else {
        let shorter = entries.drop_last();
        assert(entries.remove(i).drop_last() =~= shorter.remove(i));
        assert(entries.remove(i).last() == entries.last());
        lemma_map_of_remove(shorter, i);
        assert(shorter[i] == entries[i]);
        assert(entries[i].key@ != entries.last().key@);
        assert(map_of(entries.remove(i)) == map_of(shorter.remove(i)).insert(
            entries.last().key@,
            (entries.last().value@, entries.last().expires_at),
        ));
        assert(map_of(shorter).remove(k).insert(
            entries.last().key@,
            (entries.last().value@, entries.last().expires_at),
        ) =~= map_of(shorter).insert(
            entries.last().key@,
            (entries.last().value@, entries.last().expires_at),
        ).remove(k));
    }
}

impl CacheStore {
    /// Keys are unique across the entries.
    pub closed spec fn wf(&self) -> bool {
        forall|a: int, b: int|
            0 <= a < b < self.entries@.len() ==> #[trigger] self.entries@[a].key@
                != #[trigger] self.entries@[b].key@
    }

    /// The cache's content as a map.
    pub closed spec fn view(&self) -> Map<Seq<char>, (Seq<char>, u64)> {
        map_of(self.entries@)
    }

    /// An empty cache.
    pub fn new() -> (r: Self)
        ensures
            r.wf(),
            r@ == Map::<Seq<char>, (Seq<char>, u64)>::empty(),
    {
        CacheStore { entries: Vec::new() }
    }

    /// Index of the entry holding `key`, if one does.
    fn find(&self, key: &String) -> (r: Option<usize>)
        ensures
            match r {
                Some(i) => i < self.entries@.len() && self.entries@[i as int].key@ == key@,
                None => forall|i: int|
                    0 <= i < self.entries@.len() ==> #[trigger] self.entries@[i].key@ != key@,
            },
    {
        let n = self.entries.len();
        let mut i: usize = 0;
        while i < n
            invariant
                i <= n,
                n == self.entries@.len(),
                forall|j: int| 0 <= j < i ==> #[trigger] self.entries@[j].key@ != key@,
            decreases n - i,
        {
            if self.entries[i].key == *key {
                return Some(i);
            }
            i = i + 1;
        }
        None
    }

    /// Reads the value under `key` at instant `now`: the value while the
    /// entry is live, nothing once it has expired or was never written.
    pub fn get(&self, key: &String, now: u64) -> (r: Option<String>)
        requires
            self.wf(),
        ensures
            match r {
                Some(v) => spec_get(self@, key@, now) == Some(v@),
                None => spec_get(self@, key@, now) == None::<Seq<char>>,
            },
    {
        match self.find(key) {
            Some(i) => {
                proof {
                    lemma_map_of_value(self.entries@, i as int);
                }
                let e = &self.entries[i];
                if now < e.expires_at {
                    Some(e.value.clone())
                } else {
                    None
                }
            },
            None => {
                proof {
                    lemma_map_of_contains(self.entries@, key@);
                }
                None
            },
        }
    }

    /// Removes the entry under `key`; removing an absent key changes nothing.
    pub fn delete(&mut self, key: &String)
        requires
            old(self).wf(),
        ensures
            final(self).wf(),
            final(self)@ == old(self)@.remove(key@),
    {
        match self.find(key) {
            Some(i) => {
                proof {
                    lemma_map_of_remove(self.entries@, i as int);
                }
                self.entries.remove(i);
                proof {
                    assert forall|a: int, b: int|
                        0 <= a < b < self.entries@.len()
                        implies #[trigger] self.entries@[a].key@
                            != #[trigger] self.entries@[b].key@ by {
                        let ea = if a < i as int { a } else { a + 1 };
                        let eb = if b < i as int { b } else { b + 1 };
                        assert(self.entries@[a] == old(self).entries@[ea]);
                        assert(self.entries@[b] == old(self).entries@[eb]);
                    }
                }
            },
            None => {
                proof {
                    lemma_map_of_contains(self.entries@, key@);
                    assert(old(self)@.remove(key@) =~= old(self)@);
                }
            },
        }
    }

    /// Writes `value` under `key` with time-to-live `ttl` from instant `now`:
    /// the entry is served until `now + ttl`, overwriting any earlier entry.
    pub fn set_with_ttl(&mut self, key: String, value: String, ttl: u64, now: u64)
        requires
            old(self).wf(),
            now + ttl <= u64::MAX,
        ensures
            final(self).wf(),
            final(self)@ == old(self)@.insert(key@, (value@, (now + ttl) as u64)),
    {
        self.delete(&key);
        let ghost pre = self.entries@;
        self.entries.push(CacheEntry { key, value, expires_at: now + ttl });
        proof {
            assert(self.entries@.drop_last() =~= pre);
            assert(map_of(self.entries@) == map_of(pre).insert(
                self.entries@.last().key@,
                (self.entries@.last().value@, self.entries@.last().expires_at),
            ));
            assert(map_of(pre).insert(
                self.entries@.last().key@,
                (self.entries@.last().value@, self.entries@.last().expires_at),
            ) =~= old(self)@.insert(self.entries@.last().key@, (self.entries@.last().value@,
                self.entries@.last().expires_at)));
            lemma_map_of_contains(pre, self.entries@.last().key@);
            assert forall|a: int, b: int|
                0 <= a < b < self.entries@.len()
                implies #[trigger] self.entries@[a].key@ != #[trigger] self.entries@[b].key@ by {
                if b < self.entries@.len() - 1 {
                    assert(self.entries@[a] == pre[a] && self.entries@[b] == pre[b]);
                } else {
                    assert(self.entries@[a] == pre[a]);
                }
            }
        }
    }
}

} // verus!
