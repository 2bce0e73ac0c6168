//! A query-result cache with time-to-live expiry and least-recently-used
//! eviction.
//!
//! Entries are kept in access order, least recently used first.  Time is
//! passed in by the caller as nanoseconds on a monotonic clock.
use vstd::prelude::*;
use crate::text::{chars_of, starts_with, starts_with_chars, str_eq};

verus! {

/// A cached result.
#[derive(Debug)]
pub struct CacheEntry {
    /// When the entry was stored.
    pub created_at: u64,
    /// How long the entry stays valid.
    pub ttl: u64,
    /// The cached bytes.
    pub data: Vec<u8>,
}

pub struct EntryView {
    pub created_at: u64,
    pub ttl: u64,
    pub data: Seq<u8>,
}

impl View for CacheEntry {
    type V = EntryView;

    open spec fn view(&self) -> EntryView {
        EntryView { created_at: self.created_at, ttl: self.ttl, data: self.data@ }
    }
}

/// More time than `ttl` has passed since the entry was stored (the elapsed
/// time is zero when `now` is before the creation time).
pub open spec fn expired(e: EntryView, now: u64) -> bool {
    (if now >= e.created_at {
        now - e.created_at
    } else {
        0
    }) > e.ttl
}

impl CacheEntry {
    pub fn is_expired(&self, now: u64) -> (r: bool)
        ensures
            r == expired(self@, now),
    {
        let elapsed = if now >= self.created_at {
            now - self.created_at
        } else {
            0
        };
        elapsed > self.ttl
    }
}

/// The cache contents: keys with their entries, least recently used first.
pub type CacheState = Seq<(Seq<char>, EntryView)>;

pub open spec fn cache_keys(s: CacheState) -> Seq<Seq<char>> {
    s.map_values(|p: (Seq<char>, EntryView)| p.0)
}

/// The position of `k` in the cache, or -1.
pub open spec fn key_index(s: CacheState, k: Seq<char>) -> int
    decreases s.len(),
{
    if s.len() == 0 {
        -1
    } else if s.last().0 == k {
        s.len() - 1
    } else {
        key_index(s.drop_last(), k)
    }
}

/// The keys are distinct.
pub open spec fn distinct_keys(s: CacheState) -> bool {
    forall|i: int, j: int| 0 <= i < j < s.len() ==> s[i].0 != s[j].0
}

/// The outcome of a lookup: the data, when the key is present and fresh,
/// and the state afterwards (a hit becomes the most recently used entry).
pub open spec fn cache_get(s: CacheState, k: Seq<char>, now: u64) -> (Option<Seq<u8>>, CacheState) {
    let i = key_index(s, k);
    if i >= 0 && !expired(s[i].1, now) {
        (Some(s[i].1.data), s.remove(i).push(s[i]))
    } else {
        (None, s)
    }
}

/// The state after storing `data` under `k`: a new key in a full cache first
/// evicts the least recently used entry; the stored key becomes the most
/// recently used one.
pub open spec fn cache_insert(
    s: CacheState,
    capacity: nat,
    k: Seq<char>,
    e: EntryView,
) -> CacheState {
    let i = key_index(s, k);
    if i >= 0 {
        s.remove(i).push((k, e))
    } else if s.len() >= capacity && s.len() > 0 {
        s.drop_first().push((k, e))
    } else {
        s.push((k, e))
    }
}

/// The state after removing `k`.
pub open spec fn cache_remove(s: CacheState, k: Seq<char>) -> CacheState {
    let i = key_index(s, k);
    if i >= 0 {
        s.remove(i)
    } else {
        s
    }
}

/// The state without the entries whose key starts with `prefix`.
pub open spec fn cache_without_prefix(s: CacheState, prefix: Seq<char>) -> CacheState
    decreases s.len(),
{
    if s.len() == 0 {
        s
    } else {
        let rest = cache_without_prefix(s.drop_last(), prefix);
        if starts_with(s.last().0, prefix) {
            rest
        } else {
            rest.push(s.last())
        }
    }
}

/// The number of entries a cache of this capacity can hold.
pub open spec fn bound(capacity: nat) -> nat {
    if capacity == 0 {
        1
    } else {
        capacity
    }
}

/// An LRU cache of query results.
#[derive(Debug)]
pub struct QueryCache {
    entries: Vec<(String, CacheEntry)>,
    capacity: usize,
}

pub struct QueryCacheView {
    pub entries: CacheState,
    pub capacity: nat,
}

impl View for QueryCache {
    type V = QueryCacheView;

    closed spec fn view(&self) -> QueryCacheView {
        QueryCacheView {
            entries: self.entries@.map_values(|p: (String, CacheEntry)| (p.0@, p.1@)),
            capacity: self.capacity as nat,
        }
    }
}

impl QueryCacheView {
    /// Keys are distinct and there are no more entries than the capacity
    /// allows.
    pub open spec fn wf(self) -> bool {
        distinct_keys(self.entries) && self.entries.len() <= bound(self.capacity)
    }
}

proof fn lemma_key_index(s: CacheState, k: Seq<char>)
    ensures
        -1 <= key_index(s, k) < s.len(),
        key_index(s, k) >= 0 ==> s[key_index(s, k)].0 == k,
        key_index(s, k) < 0 ==> forall|j: int| 0 <= j < s.len() ==> s[j].0 != k,
    decreases s.len(),
{
    if s.len() > 0 && s.last().0 != k {
        lemma_key_index(s.drop_last(), k);
        assert forall|j: int| 0 <= j < s.len() - 1 implies s[j] == s.drop_last()[j] by {}
    }
}

fn copy_bytes(v: &Vec<u8>) -> (r: Vec<u8>)
    ensures
        r@ == v@,
{
    let mut r: Vec<u8> = Vec::new();
    let mut i: usize = 0;
    while i < v.len()
        invariant
            i <= v@.len(),
            r@ == v@.take(i as int),
        decreases v.len() - i,
    {
        r.push(v[i]);
        assert(v@.take(i + 1) =~= v@.take(i as int).push(v@[i as int]));
        i = i + 1;
    }
    assert(v@.take(v@.len() as int) =~= v@);
    r
}

impl QueryCache {
    /// A cache with the default capacity of 1000 entries.
    pub fn new() -> (r: QueryCache)
        ensures
            r@.entries.len() == 0,
            r@.capacity == 1000,
            r@.wf(),
    {
        QueryCache::with_capacity(1000)
    }

    /// A cache holding at most `capacity` entries (one when it is zero).
    pub fn with_capacity(capacity: usize) -> (r: QueryCache)
        ensures
            r@.entries.len() == 0,
            r@.capacity == capacity,
            r@.wf(),
    {
        let r = QueryCache { entries: Vec::new(), capacity };
        assert(r@.entries =~= Seq::<(Seq<char>, EntryView)>::empty());
        r
    }

    /// The position of `key`, or `None`.
    fn find(&self, key: &str) -> (r: Option<usize>)
        ensures
            match r {
                Some(i) => i as int == key_index(self@.entries, key@),
                None => key_index(self@.entries, key@) < 0,
            },
    {
        let ghost s = self@.entries;
        let mut i = self.entries.len();
        proof {
            assert(s.take(i as int) =~= s);
        }
        while i > 0
            invariant
                i <= self.entries@.len(),
                s == self@.entries,
                key_index(s, key@) == key_index(s.take(i as int), key@),
            decreases i,
        {
            let ghost t = s.take(i as int);
            assert(t.last().0 == self.entries@[i - 1].0@);
            if str_eq(self.entries[i - 1].0.as_str(), key) {
                return Some(i - 1);
            }
            assert(t.drop_last() =~= s.take(i - 1));
            i = i - 1;
        }
        None
    }

    /// The cached data for `key` when it is present and not expired at `now`;
    /// a hit makes the entry the most recently used.
    pub fn get(&mut self, key: &str, now: u64) -> (r: Option<Vec<u8>>)
        requires
            old(self)@.wf(),
        ensures
            final(self)@.wf(),
            final(self)@.capacity == old(self)@.capacity,
            match r {
                Some(d) => cache_get(old(self)@.entries, key@, now) == (
                    Some(d@),
                    final(self)@.entries,
                ),
                None => cache_get(old(self)@.entries, key@, now) == (
                    None::<Seq<u8>>,
                    final(self)@.entries,
                ),
            },
    {
        let ghost s = self@.entries;
        match self.find(key) {
            None => None,
            Some(i) => {
                proof {
                    lemma_key_index(s, key@);
                }
                if self.entries[i].1.is_expired(now) {
                    return None;
                }
                let data = copy_bytes(&self.entries[i].1.data);
                let item = self.entries.remove(i);
                self.entries.push(item);
                proof {
                    assert(self@.entries =~= s.remove(i as int).push(s[i as int]));
                    lemma_touch_distinct(s, i as int);
                }
                Some(data)
            },
        }
    }

    /// Stores `data` under `key`, valid for `ttl` from `now`.  When the key is
    /// new and the cache is full, the least recently used entry is evicted.
    pub fn insert(&mut self, key: String, ttl: u64, data: Vec<u8>, now: u64)
        requires
            old(self)@.wf(),
        ensures
            final(self)@.wf(),
            final(self)@.capacity == old(self)@.capacity,
            final(self)@.entries == cache_insert(
                old(self)@.entries,
                old(self)@.capacity,
                key@,
                EntryView { created_at: now, ttl, data: data@ },
            ),
    {
        let ghost s = self@.entries;
        let ghost e = EntryView { created_at: now, ttl, data: data@ };
        let entry = CacheEntry { created_at: now, ttl, data };
        match self.find(key.as_str()) {
            Some(i) => {
                proof {
                    lemma_key_index(s, key@);
                }
                self.entries.remove(i);
                self.entries.push((key, entry));
                proof {
                    assert(self@.entries =~= s.remove(i as int).push((key@, e)));
                    lemma_replace_distinct(s, i as int, key@, e);
                }
            },
            None => {
                proof {
                    lemma_key_index(s, key@);
                }
                if self.entries.len() >= self.capacity && self.entries.len() > 0 {
                    self.entries.remove(0);
                    proof {
                        assert(self@.entries =~= s.drop_first());
                    }
                }
                let ghost base = self@.entries;
                self.entries.push((key, entry));
                proof {
                    assert(self@.entries =~= base.push((key@, e)));
                    assert forall|a: int, b: int|
                        0 <= a < b < self@.entries.len() implies self@.entries[a].0
                        != self@.entries[b].0 by {
                        if b == self@.entries.len() - 1 {
                            if s.len() >= self.capacity && s.len() > 0 {
                                assert(base[a] == s[a + 1]);
                            } else {
                                assert(base[a] == s[a]);
                            }
                        } else {
                            if s.len() >= self.capacity && s.len() > 0 {
                                assert(base[a] == s[a + 1]);
                                assert(base[b] == s[b + 1]);
                            }
                        }
                    }
                }
            },
        }
    }

    /// Removes `key` and its data.
    pub fn remove(&mut self, key: &str)
        requires
            old(self)@.wf(),
        ensures
            final(self)@.wf(),
            final(self)@.capacity == old(self)@.capacity,
            final(self)@.entries == cache_remove(old(self)@.entries, key@),
    {
        let ghost s = self@.entries;
        match self.find(key) {
            Some(i) => {
                proof {
                    lemma_key_index(s, key@);
                }
                self.entries.remove(i);
                proof {
                    assert(self@.entries =~= s.remove(i as int));
                    assert forall|a: int, b: int|
                        0 <= a < b < self@.entries.len() implies self@.entries[a].0
                        != self@.entries[b].0 by {
                        if a >= i {
                            assert(self@.entries[a] == s[a + 1]);
                        }
                        if b >= i {
                            assert(self@.entries[b] == s[b + 1]);
                        }
                    }
                }
            },
            None => {},
        }
    }

    /// Removes every entry.
    pub fn clear(&mut self)
        ensures
            final(self)@.entries.len() == 0,
            final(self)@.capacity == old(self)@.capacity,
            final(self)@.wf(),
    {
        self.entries = Vec::new();
        assert(self@.entries =~= Seq::<(Seq<char>, EntryView)>::empty());
    }

    /// The number of entries, expired ones included.
    pub fn len(&self) -> (r: usize)
        ensures
            r == self@.entries.len(),
    {
        self.entries.len()
    }

    pub fn is_empty(&self) -> (r: bool)
        ensures
            r == (self@.entries.len() == 0),
    {
        self.entries.len() == 0
    }

    /// Removes every entry whose key starts with `prefix`.
    pub fn invalidate_prefix(&mut self, prefix: &str)
        requires
            old(self)@.wf(),
        ensures
            final(self)@.wf(),
            final(self)@.capacity == old(self)@.capacity,
            final(self)@.entries == cache_without_prefix(old(self)@.entries, prefix@),
    {
        let ghost s = self@.entries;
        let p = chars_of(prefix);
        let mut kept: Vec<(String, CacheEntry)> = Vec::new();
        let mut n: usize = 0;
        while n < self.entries.len()
            invariant
                n <= self.entries@.len(),
                s == self@.entries,
                p@ == prefix@,
                kept@.map_values(|q: (String, CacheEntry)| (q.0@, q.1@)) == cache_without_prefix(
                    s.take(n as int),
                    prefix@,
                ),
            decreases self.entries.len() - n,
        {
            let ghost kv = kept@.map_values(|q: (String, CacheEntry)| (q.0@, q.1@));
            proof {
                assert(s.take(n + 1).drop_last() =~= s.take(n as int));
                assert(s.take(n + 1).last() == s[n as int]);
            }
            let kc = chars_of(self.entries[n].0.as_str());
            if !starts_with_chars(&kc, &p) {
                let e = &self.entries[n].1;
                let copy = (
                    self.entries[n].0.clone(),
                    CacheEntry { created_at: e.created_at, ttl: e.ttl, data: copy_bytes(&e.data) },
                );
                kept.push(copy);
                proof {
                    assert(kept@.map_values(|q: (String, CacheEntry)| (q.0@, q.1@)) =~= kv.push(
                        s[n as int],
                    ));
                }
            }
            n = n + 1;
        }
        proof {
            assert(s.take(s.len() as int) =~= s);
            lemma_without_prefix_sub(s, prefix@);
        }
        self.entries = kept;
    }
}

/// Moving entry `i` to the end keeps the keys distinct.
proof fn lemma_touch_distinct(s: CacheState, i: int)
    requires
        distinct_keys(s),
        0 <= i < s.len(),
    ensures
        distinct_keys(s.remove(i).push(s[i])),
{
    let t = s.remove(i).push(s[i]);
    assert forall|a: int, b: int| 0 <= a < b < t.len() implies t[a].0 != t[b].0 by {
        let sa = if a < i { a } else { a + 1 };
        assert(t[a] == s[sa]);
        if b == t.len() - 1 {
            assert(t[b] == s[i]);
        } else {
            let sb = if b < i { b } else { b + 1 };
            assert(t[b] == s[sb]);
        }
    }
}

/// Replacing entry `i` (with key `k`) by a new entry for `k` at the end keeps
/// the keys distinct.
proof fn lemma_replace_distinct(s: CacheState, i: int, k: Seq<char>, e: EntryView)
    requires
        distinct_keys(s),
        0 <= i < s.len(),
        s[i].0 == k,
    ensures
        distinct_keys(s.remove(i).push((k, e))),
{
    let t = s.remove(i).push((k, e));
    assert forall|a: int, b: int| 0 <= a < b < t.len() implies t[a].0 != t[b].0 by {
        let sa = if a < i { a } else { a + 1 };
        assert(t[a] == s[sa]);
        if b == t.len() - 1 {
            assert(t[b].0 == s[i].0);
        } else {
            let sb = if b < i { b } else { b + 1 };
            assert(t[b] == s[sb]);
        }
    }
}

/// A key absent from the cache is absent after dropping prefixed entries.
proof fn lemma_without_prefix_absent(s: CacheState, prefix: Seq<char>, k: Seq<char>)
    requires
        forall|m: int| 0 <= m < s.len() ==> s[m].0 != k,
    ensures
        forall|j: int|
            0 <= j < cache_without_prefix(s, prefix).len() ==> cache_without_prefix(s, prefix)[j].0
                != k,
    decreases s.len(),
{
    if s.len() > 0 {
        let d = s.drop_last();
        assert forall|m: int| 0 <= m < d.len() implies d[m].0 != k by {
            assert(d[m] == s[m]);
        }
        lemma_without_prefix_absent(d, prefix, k);
        assert(s.last() == s[s.len() - 1]);
        let r = cache_without_prefix(d, prefix);
        assert(cache_without_prefix(s, prefix) == if starts_with(s.last().0, prefix) {
            r
        } else {
            r.push(s.last())
        });
        if !starts_with(s.last().0, prefix) {
            let t = r.push(s.last());
            assert forall|j: int| 0 <= j < t.len() implies t[j].0 != k by {
                if j < r.len() {
                    assert(t[j] == r[j]);
                }
            }
        }
    }
}

/// Dropping entries keeps the keys distinct and the size bounded.
proof fn lemma_without_prefix_sub(s: CacheState, prefix: Seq<char>)
    ensures
        cache_without_prefix(s, prefix).len() <= s.len(),
        distinct_keys(s) ==> distinct_keys(cache_without_prefix(s, prefix)),
    decreases s.len(),
{
    if s.len() > 0 {
        let d = s.drop_last();
        lemma_without_prefix_sub(d, prefix);
        if distinct_keys(s) {
            assert(distinct_keys(d));
            lemma_without_prefix_absent(d, prefix, s.last().0);
            let r = cache_without_prefix(d, prefix);
            if !starts_with(s.last().0, prefix) {
                let t = r.push(s.last());
                assert forall|a: int, b: int| 0 <= a < b < t.len() implies t[a].0 != t[b].0 by {
                    if b == t.len() - 1 {
                        assert(t[a] == r[a]);
                    }
                }
            }
        }
    }
}

/// A key stored at `now` is found again while its time-to-live has not run
/// out: the lookup returns the stored data.
pub proof fn lemma_get_after_insert(
    s: CacheState,
    capacity: nat,
    k: Seq<char>,
    e: EntryView,
    now: u64,
)
    requires
        !expired(e, now),
    ensures
        cache_get(cache_insert(s, capacity, k, e), k, now).0 == Some(e.data),
{
    let t = cache_insert(s, capacity, k, e);
    assert(t.last() == (k, e));
    assert(key_index(t, k) == t.len() - 1);
}

/// After a key is removed, looking it up misses.
pub proof fn lemma_get_after_remove(s: CacheState, k: Seq<char>, now: u64)
    requires
        distinct_keys(s),
    ensures
        cache_get(cache_remove(s, k), k, now).0 is None,
{
    lemma_key_index(s, k);
    let i = key_index(s, k);
    let t = cache_remove(s, k);
    assert forall|j: int| 0 <= j < t.len() implies t[j].0 != k by {
        if i >= 0 {
            let sj = if j < i { j } else { j + 1 };
            assert(t[j] == s[sj]);
        }
    }
    lemma_key_index(t, k);
}

/// Storing a new key in a full cache evicts exactly the least recently used
/// entry: its key is gone and every other key stays.
pub proof fn lemma_lru_eviction(s: CacheState, capacity: nat, k: Seq<char>, e: EntryView)
    requires
        distinct_keys(s),
        s.len() > 0,
        s.len() >= capacity,
        key_index(s, k) < 0,
    ensures
        ({
            let t = cache_insert(s, capacity, k, e);
            &&& forall|j: int| 0 <= j < t.len() ==> t[j].0 != s[0].0
            &&& forall|m: int| 1 <= m < s.len() ==> key_index(t, s[m].0) >= 0
            &&& t.len() == s.len()
        }),
{
    lemma_key_index(s, k);
    let t = cache_insert(s, capacity, k, e);
    assert(t == s.drop_first().push((k, e)));
    assert forall|j: int| 0 <= j < t.len() implies t[j].0 != s[0].0 by {
        if j < t.len() - 1 {
            assert(t[j] == s[j + 1]);
        }
    }
    assert forall|m: int| 1 <= m < s.len() implies key_index(t, s[m].0) >= 0 by {
        lemma_key_index(t, s[m].0);
        assert(t[m - 1] == s[m]);
    }
}

/// Invalidating a prefix leaves no key with that prefix and keeps every key
/// without it.
pub proof fn lemma_invalidate_prefix(s: CacheState, prefix: Seq<char>)
    ensures
        forall|j: int|
            0 <= j < cache_without_prefix(s, prefix).len() ==> !starts_with(
                #[trigger] cache_without_prefix(s, prefix)[j].0,
                prefix,
            ),
        forall|m: int|
            0 <= m < s.len() && !starts_with(#[trigger] s[m].0, prefix) ==> key_index(
                cache_without_prefix(s, prefix),
                s[m].0,
            ) >= 0,
    decreases s.len(),
{
    if s.len() > 0 {
        let d = s.drop_last();
        lemma_invalidate_prefix(d, prefix);
        let r = cache_without_prefix(d, prefix);
        let t = cache_without_prefix(s, prefix);
        assert forall|j: int| 0 <= j < t.len() implies !starts_with(#[trigger] t[j].0, prefix) by {
            if j < r.len() {
                assert(t[j] == r[j]);
            }
        }
        assert forall|m: int|
            0 <= m < s.len() && !starts_with(#[trigger] s[m].0, prefix) implies key_index(
            t,
            s[m].0,
        ) >= 0 by {
            if m < s.len() - 1 {
                assert(s[m] == d[m]);
                lemma_key_index(r, s[m].0);
                let w = key_index(r, s[m].0);
                lemma_key_index(t, s[m].0);
                if !starts_with(s.last().0, prefix) {
                    assert(t[w] == r[w]);
                }
            } else {
                lemma_key_index(t, s[m].0);
            }
        }
    }
}

} // verus!
