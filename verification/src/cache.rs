//! Size-bounded caches that evict the least recently used entry first:
//! the cache of decoded audio files and the cache of RMS envelopes.
//!
//! Times are handed in by the caller (as ticks of its clock); sizes are in
//! bytes, as the caller measures them.
use vstd::prelude::*;
use crate::text::str_equal;

verus! {

/// A key of a cache: its view, and an executable comparison.
pub trait CacheKey: Sized {
    type KeyView;

    spec fn key_view(&self) -> Self::KeyView;

    fn same_key(&self, other: &Self) -> (r: bool)
        ensures
            r == (self.key_view() == other.key_view());
}

impl CacheKey for String {
    type KeyView = Seq<char>;

    open spec fn key_view(&self) -> Seq<char> {
        self@
    }

    fn same_key(&self, other: &Self) -> (r: bool) {
        str_equal(self.as_str(), other.as_str())
    }
}

/// One cached value with its size and the time it was last used.
pub struct CacheEntry<K, V> {
    pub key: K,
    pub value: V,
    pub size_bytes: usize,
    pub last_accessed: u64,
}

/// The sum of the sizes of the entries.
pub open spec fn total_size<K, V>(s: Seq<CacheEntry<K, V>>) -> int
    decreases s.len(),
{
    if s.len() == 0 { 0 } else { total_size(s.drop_last()) + s.last().size_bytes }
}

/// No two entries share a key.
pub open spec fn keys_unique<K: CacheKey, V>(s: Seq<CacheEntry<K, V>>) -> bool {
    forall|i: int, j: int| 0 <= i < j < s.len() ==> s[i].key.key_view() != s[j].key.key_view()
}

/// The position of the entry with key `k`, or -1.
pub open spec fn key_index<K: CacheKey, V>(s: Seq<CacheEntry<K, V>>, k: K::KeyView) -> int
    decreases s.len(),
{
    if s.len() == 0 {
        -1
    } else if s.last().key.key_view() == k {
        s.len() - 1
    } else {
        key_index(s.drop_last(), k)
    }
}

/// Every entry of `a` is one of `b`'s entries.
pub open spec fn entries_within<K, V>(a: Seq<CacheEntry<K, V>>, b: Seq<CacheEntry<K, V>>) -> bool {
    forall|i: int| 0 <= i < a.len() ==> b.contains(#[trigger] a[i])
}

/// Every entry of `old` that `new` lost was used no later than every entry
/// that `new` kept.
pub open spec fn evicted_least_recent<K, V>(old: Seq<CacheEntry<K, V>>, new: Seq<CacheEntry<K, V>>) -> bool {
    forall|i: int, j: int| 0 <= i < old.len() && 0 <= j < new.len() && !new.contains(old[i]) ==>
        #[trigger] old[i].last_accessed <= #[trigger] new[j].last_accessed
}

/// `kept` is what is left of the entries `old`, counted as `old_size`
/// bytes of at most `max` bytes, once entries used longest ago are evicted
/// until `needed` more bytes fit or nothing is left: only entries of `old`
/// stay, none evicted was used later than one kept, nothing is evicted
/// when the bytes already fit, and afterwards they fit or the cache is
/// empty.
pub open spec fn lru_evicted<K, V>(
    old: Seq<CacheEntry<K, V>>,
    old_size: int,
    max: int,
    needed: int,
    kept: Seq<CacheEntry<K, V>>,
) -> bool {
    &&& entries_within(kept, old)
    &&& evicted_least_recent(old, kept)
    &&& old_size + needed <= max ==> kept == old
    &&& evicted_size(old, old_size, kept) + needed <= max || kept.len() == 0
    &&& kept == old || exists|i: int| #[trigger] last_evicted(old, old_size, max, needed, kept, i)
}

/// `old[i]` is the entry evicted last on the way from `old` to `kept`: it
/// was evicted, no evicted entry was used later, and with it back the
/// `needed` bytes would not fit, so eviction stopped as soon as they did.
pub open spec fn last_evicted<K, V>(
    old: Seq<CacheEntry<K, V>>,
    old_size: int,
    max: int,
    needed: int,
    kept: Seq<CacheEntry<K, V>>,
    i: int,
) -> bool {
    &&& 0 <= i < old.len()
    &&& !kept.contains(old[i])
    &&& evicted_size(old, old_size, kept) + old[i].size_bytes + needed > max
    &&& forall|j: int| 0 <= j < old.len() && !kept.contains(#[trigger] old[j]) ==> old[j].last_accessed <= old[i].last_accessed
}

/// The counted size left after the entries `old`, counted as `old_size`
/// bytes, were cut down to `kept`.
pub open spec fn evicted_size<K, V>(old: Seq<CacheEntry<K, V>>, old_size: int, kept: Seq<CacheEntry<K, V>>) -> int {
    old_size - (total_size(old) - total_size(kept))
}

/// The entries `s` with `e` stored: in place of the entry with its key,
/// or after the others.
pub open spec fn placed<K: CacheKey, V>(s: Seq<CacheEntry<K, V>>, e: CacheEntry<K, V>) -> Seq<CacheEntry<K, V>> {
    let i = key_index(s, e.key.key_view());
    if i >= 0 { s.update(i, e) } else { s.push(e) }
}

/// A cache holding at most `max_size` bytes (its entries' sizes as they
/// were added). `current_size` counts what was added and not evicted.
pub struct LruCache<K, V> {
    pub entries: Vec<CacheEntry<K, V>>,
    pub current_size: usize,
    pub max_size: usize,
}

proof fn lemma_total_size_remove<K, V>(s: Seq<CacheEntry<K, V>>, i: int)
    requires
        0 <= i < s.len(),
    ensures
        total_size(s.remove(i)) == total_size(s) - s[i].size_bytes,
        0 <= s[i].size_bytes <= total_size(s),
    decreases s.len(),
{
    lemma_total_size_nonneg(s.remove(i));
    if i == s.len() - 1 {
        assert(s.remove(i) =~= s.drop_last());
    } else {
        assert(s.remove(i).drop_last() =~= s.drop_last().remove(i));
        lemma_total_size_remove(s.drop_last(), i);
        assert(s.remove(i).last() == s.last());
    }
}

proof fn lemma_total_size_nonneg<K, V>(s: Seq<CacheEntry<K, V>>)
    ensures
        total_size(s) >= 0,
    decreases s.len(),
{
    if s.len() > 0 {
        lemma_total_size_nonneg(s.drop_last());
    }
}

proof fn lemma_key_index<K: CacheKey, V>(s: Seq<CacheEntry<K, V>>, k: K::KeyView)
    ensures
        -1 <= key_index(s, k) < s.len(),
        key_index(s, k) >= 0 ==> s[key_index(s, k)].key.key_view() == k,
        key_index(s, k) == -1 ==> forall|j: int| 0 <= j < s.len() ==> s[j].key.key_view() != k,
    decreases s.len(),
{
    if s.len() > 0 && s.last().key.key_view() != k {
        lemma_key_index(s.drop_last(), k);
        assert forall|j: int| 0 <= j < s.len() - 1 implies s[j] == s.drop_last()[j] by {}
    }
}

impl<K: CacheKey, V> LruCache<K, V> {
    /// The cache's invariant: the keys are unique and the counted size
    /// covers what the entries hold.
    pub open spec fn wf(&self) -> bool {
        &&& keys_unique(self.entries@)
        &&& self.current_size >= total_size(self.entries@)
    }

    /// An empty cache of at most `max_size` bytes.
    pub fn new(max_size: usize) -> (r: Self)
        ensures
            r.wf(),
            r.entries@.len() == 0,
            r.current_size == 0,
            r.max_size == max_size,
    {
        LruCache { entries: Vec::new(), current_size: 0, max_size }
    }

    /// The position of the entry with key `key`.
    pub fn find(&self, key: &K) -> (r: Option<usize>)
        ensures
            match r {
                Some(i) => i as int == key_index(self.entries@, key.key_view()) && i < self.entries@.len(),
                None => key_index(self.entries@, key.key_view()) == -1,
            },
    {
        proof { lemma_key_index(self.entries@, key.key_view()); }
        assert(self.entries@.subrange(0, self.entries@.len() as int) =~= self.entries@);
        let mut i: usize = self.entries.len();
        while i > 0
            invariant
                i <= self.entries@.len(),
                key_index(self.entries@, key.key_view()) == key_index(self.entries@.subrange(0, i as int), key.key_view()),
            decreases i,
        {
            let ghost p = self.entries@.subrange(0, i as int);
            assert(p.drop_last() =~= self.entries@.subrange(0, i - 1));
            if self.entries[i - 1].key.same_key(key) {
                return Some(i - 1);
            }
            i = i - 1;
        }
        None
    }

    /// Marks the entry with key `key` as used at `now`; returns whether
    /// there is one.
    pub fn touch(&mut self, key: &K, now: u64) -> (r: bool)
        requires
            old(self).wf(),
        ensures
            final(self).wf(),
            r == (key_index(old(self).entries@, key.key_view()) >= 0),
            final(self).current_size == old(self).current_size,
            final(self).max_size == old(self).max_size,
            r ==> final(self).entries@ == old(self).entries@.update(
                key_index(old(self).entries@, key.key_view()),
                CacheEntry { last_accessed: now, ..old(self).entries@[key_index(old(self).entries@, key.key_view())] },
            ),
            !r ==> final(self).entries@ == old(self).entries@,
    {
        proof { lemma_key_index(self.entries@, key.key_view()); }
        match self.find(key) {
            Some(i) => {
                let mut e = self.entries.remove(i);
                e.last_accessed = now;
                self.entries.insert(i, e);
                proof {
                    let s = old(self).entries@;
                    assert(self.entries@ =~= s.update(i as int, CacheEntry { last_accessed: now, ..s[i as int] }));
                    lemma_total_size_remove(s, i as int);
                    lemma_total_size_remove(self.entries@, i as int);
                    assert(self.entries@.remove(i as int) =~= s.remove(i as int));
                    assert forall|a: int, b: int| 0 <= a < b < self.entries@.len() implies
                        self.entries@[a].key.key_view() != self.entries@[b].key.key_view() by {
                        assert(self.entries@[a].key == s[a].key && self.entries@[b].key == s[b].key);
                    }
                }
                true
            },
            None => false,
        }
    }

    /// The value stored under `key`.
    pub fn get(&self, key: &K) -> (r: Option<&V>)
        ensures
            match r {
                Some(v) => key_index(self.entries@, key.key_view()) >= 0
                    && *v == self.entries@[key_index(self.entries@, key.key_view())].value,
                None => key_index(self.entries@, key.key_view()) == -1,
            },
    {
        match self.find(key) {
            Some(i) => Some(&self.entries[i].value),
            None => None,
        }
    }

    /// The position of the first entry used longest ago.
    fn least_recent(&self) -> (r: usize)
        requires
            self.entries@.len() > 0,
        ensures
            r < self.entries@.len(),
            forall|j: int| 0 <= j < self.entries@.len() ==> self.entries@[r as int].last_accessed <= #[trigger] self.entries@[j].last_accessed,
    {
        let mut best: usize = 0;
        let mut i: usize = 1;
        while i < self.entries.len()
            invariant
                1 <= i <= self.entries@.len(),
                best < i,
                forall|j: int| 0 <= j < i ==> self.entries@[best as int].last_accessed <= #[trigger] self.entries@[j].last_accessed,
            decreases self.entries@.len() - i,
        {
            if self.entries[i].last_accessed < self.entries[best].last_accessed {
                best = i;
            }
            i = i + 1;
        }
        best
    }

    /// Evicts entries used longest ago until `needed` more bytes fit, or
    /// the cache is empty.
    pub fn ensure_space(&mut self, needed: usize)
        requires
            old(self).wf(),
        ensures
            final(self).wf(),
            final(self).max_size == old(self).max_size,
            final(self).current_size + needed <= final(self).max_size || final(self).entries@.len() == 0,
            entries_within(final(self).entries@, old(self).entries@),
            evicted_least_recent(old(self).entries@, final(self).entries@),
            old(self).current_size + needed <= old(self).max_size ==> final(self).entries@ == old(self).entries@
                && final(self).current_size == old(self).current_size,
            final(self).current_size == old(self).current_size - (total_size(old(self).entries@) - total_size(final(self).entries@)),
            final(self).current_size <= old(self).current_size,
            lru_evicted(old(self).entries@, old(self).current_size as int, old(self).max_size as int, needed as int, final(self).entries@),
    {
        let ghost start = self.entries@;
        while self.current_size as u128 + needed as u128 > self.max_size as u128 && self.entries.len() > 0
            invariant
                self.wf(),
                self.max_size == old(self).max_size,
                start == old(self).entries@,
                entries_within(self.entries@, start),
                evicted_least_recent(start, self.entries@),
                self.current_size == old(self).current_size - (total_size(start) - total_size(self.entries@)),
                old(self).current_size + needed <= old(self).max_size ==> self.entries@ == start,
                self.current_size <= old(self).current_size,
                self.entries@ == start || exists|w: int| #[trigger] last_evicted(start, old(self).current_size as int,
                    old(self).max_size as int, needed as int, self.entries@, w),
            decreases self.entries@.len(),
        {
            let i = self.least_recent();
            let ghost before = self.entries@;
            let e = self.entries.remove(i);
            proof {
                lemma_total_size_remove(before, i as int);
                assert(self.entries@ =~= before.remove(i as int));
                assert forall|a: int| 0 <= a < self.entries@.len() implies start.contains(#[trigger] self.entries@[a]) by {
                    let b = if a < i { a } else { a + 1 };
                    assert(self.entries@[a] == before[b]);
                    assert(start.contains(before[b]));
                }
                assert forall|a: int, b: int| 0 <= a < start.len() && 0 <= b < self.entries@.len() && !self.entries@.contains(start[a]) implies
                    #[trigger] start[a].last_accessed <= #[trigger] self.entries@[b].last_accessed by {
                    let bb = if b < i { b } else { b + 1 };
                    assert(self.entries@[b] == before[bb]);
                    assert(before.contains(before[bb]));
                    if before.contains(start[a]) {
                        let w = choose|w: int| 0 <= w < before.len() && before[w] == start[a];
                        if w != i {
                            let ww = if w < i { w } else { w - 1 };
                            assert(self.entries@[ww] == before[w]);
                        }
                        assert(before[i as int].last_accessed <= before[bb].last_accessed);
                    }
                }
                assert forall|a: int, b: int| 0 <= a < b < self.entries@.len() implies
                    self.entries@[a].key.key_view() != self.entries@[b].key.key_view() by {
                    let aa = if a < i { a } else { a + 1 };
                    let bb = if b < i { b } else { b + 1 };
                    assert(self.entries@[a] == before[aa] && self.entries@[b] == before[bb]);
                }
            }
            self.current_size = self.current_size - e.size_bytes;
            proof {
                let x = before[i as int];
                assert(start.contains(x));
                let w = choose|w: int| 0 <= w < start.len() && start[w] == x;
                assert(!self.entries@.contains(x)) by {
                    if self.entries@.contains(x) {
                        let a = choose|a: int| 0 <= a < self.entries@.len() && self.entries@[a] == x;
                        let aa = if a < i { a } else { a + 1 };
                        assert(self.entries@[a] == before[aa]);
                        if aa < i {
                            assert(before[aa].key.key_view() != before[i as int].key.key_view());
                        } else {
                            assert(before[i as int].key.key_view() != before[aa].key.key_view());
                        }
                    }
                }
                assert forall|j: int| 0 <= j < start.len() && !self.entries@.contains(#[trigger] start[j]) implies
                    start[j].last_accessed <= start[w].last_accessed by {
                    if before.contains(start[j]) {
                        let v = choose|v: int| 0 <= v < before.len() && before[v] == start[j];
                        if v != i {
                            let vv = if v < i { v } else { v - 1 };
                            assert(self.entries@[vv] == before[v]);
                        }
                    } else {
                        assert(before[i as int] == before[i as int]);
                        assert(start[j].last_accessed <= before[i as int].last_accessed);
                    }
                }
                assert(last_evicted(start, old(self).current_size as int, old(self).max_size as int, needed as int,
                    self.entries@, w));
            }
        }
    }

    /// Stores `value` under `key` with its size, used at `now`, replacing
    /// an entry with the same key; the size is counted.
    pub fn insert(&mut self, key: K, value: V, size_bytes: usize, now: u64)
        requires
            old(self).wf(),
            old(self).current_size + size_bytes <= usize::MAX,
        ensures
            final(self).wf(),
            final(self).max_size == old(self).max_size,
            final(self).current_size == old(self).current_size + size_bytes,
            ({
                let i = key_index(old(self).entries@, key.key_view());
                let e = CacheEntry { key, value, size_bytes, last_accessed: now };
                if i >= 0 {
                    final(self).entries@ == old(self).entries@.update(i, e)
                } else {
                    final(self).entries@ == old(self).entries@.push(e)
                }
            }),
            key_index(old(self).entries@, key.key_view()) == -1
                ==> total_size(final(self).entries@) == total_size(old(self).entries@) + size_bytes,
    {
        proof { lemma_key_index(self.entries@, key.key_view()); }
        let ghost k = key.key_view();
        let found = self.find(&key);
        let e = CacheEntry { key, value, size_bytes, last_accessed: now };
        let ghost s = self.entries@;
        match found {
            Some(i) => {
                self.entries.remove(i);
                self.entries.insert(i, e);
                proof {
                    assert(self.entries@ =~= s.update(i as int, e));
                    lemma_total_size_remove(s, i as int);
                    lemma_total_size_remove(self.entries@, i as int);
                    assert(self.entries@.remove(i as int) =~= s.remove(i as int));
                    assert forall|a: int, b: int| 0 <= a < b < self.entries@.len() implies
                        self.entries@[a].key.key_view() != self.entries@[b].key.key_view() by {
                        if a != i && b != i {
                            assert(self.entries@[a] == s[a] && self.entries@[b] == s[b]);
                        } else if a == i {
                            assert(self.entries@[b] == s[b]);
                        } else {
                            assert(self.entries@[a] == s[a]);
                        }
                    }
                }
            },
            None => {
                self.entries.push(e);
                proof {
                    assert(self.entries@.drop_last() =~= s);
                    assert(total_size(self.entries@) == total_size(s) + size_bytes);
                    assert forall|a: int, b: int| 0 <= a < b < self.entries@.len() implies
                        self.entries@[a].key.key_view() != self.entries@[b].key.key_view() by {
                        assert(self.entries@[a] == s[a]);
                    }
                }
            },
        }
        self.current_size = self.current_size + size_bytes;
    }

    /// Empties the cache.
    pub fn clear(&mut self)
        ensures
            final(self).wf(),
            final(self).entries@.len() == 0,
            final(self).current_size == 0,
            final(self).max_size == old(self).max_size,
    {
        self.entries.clear();
        self.current_size = 0;
    }

    /// Drops the entry with key `key`, if there is one, and its size.
    pub fn remove_key(&mut self, key: &K)
        requires
            old(self).wf(),
        ensures
            final(self).wf(),
            final(self).max_size == old(self).max_size,
            ({
                let i = key_index(old(self).entries@, key.key_view());
                if i >= 0 {
                    &&& final(self).entries@ == old(self).entries@.remove(i)
                    &&& final(self).current_size == old(self).current_size - old(self).entries@[i].size_bytes
                } else {
                    &&& final(self).entries@ == old(self).entries@
                    &&& final(self).current_size == old(self).current_size
                }
            }),
    {
        proof { lemma_key_index(self.entries@, key.key_view()); }
        if let Some(i) = self.find(key) {
            let ghost s = self.entries@;
            let e = self.entries.remove(i);
            proof {
                lemma_total_size_remove(s, i as int);
                assert(self.entries@ =~= s.remove(i as int));
                assert forall|a: int, b: int| 0 <= a < b < self.entries@.len() implies
                    self.entries@[a].key.key_view() != self.entries@[b].key.key_view() by {
                    let aa = if a < i { a } else { a + 1 };
                    let bb = if b < i { b } else { b + 1 };
                    assert(self.entries@[a] == s[aa] && self.entries@[b] == s[bb]);
                }
            }
            self.current_size = self.current_size - e.size_bytes;
        }
    }
}

/// The default size of the audio cache: 1 GiB.
pub const DEFAULT_MAX_MEMORY_BYTES: usize = 1073741824;

/// The size of the RMS cache: 1 GiB.
pub const MAX_CACHE_SIZE_BYTES: usize = 1073741824;

/// The cache of decoded audio files, keyed by path. `V` is the handle to
/// a file's samples.
pub struct AudioCache<V> {
    pub cache: LruCache<String, V>,
}

impl<V> AudioCache<V> {
    /// An empty cache of 1 GiB.
    pub fn default() -> (r: Self)
        ensures
            r.cache.wf(),
            r.cache.entries@.len() == 0,
            r.cache.current_size == 0,
            r.cache.max_size == DEFAULT_MAX_MEMORY_BYTES,
    {
        Self::with_max_memory(DEFAULT_MAX_MEMORY_BYTES)
    }

    /// An empty cache of `max_memory_bytes` bytes.
    pub fn with_max_memory(max_memory_bytes: usize) -> (r: Self)
        ensures
            r.cache.wf(),
            r.cache.entries@.len() == 0,
            r.cache.current_size == 0,
            r.cache.max_size == max_memory_bytes,
    {
        AudioCache { cache: LruCache::new(max_memory_bytes) }
    }

    /// Looks `path` up, marking it as used at `now` when it is cached;
    /// returns whether it is.
    pub fn lookup(&mut self, path: &String, now: u64) -> (r: bool)
        requires
            old(self).cache.wf(),
        ensures
            final(self).cache.wf(),
            r == (key_index(old(self).cache.entries@, path@) >= 0),
            final(self).cache.max_size == old(self).cache.max_size,
            final(self).cache.current_size == old(self).cache.current_size,
            r ==> final(self).cache.entries@ == old(self).cache.entries@.update(
                key_index(old(self).cache.entries@, path@),
                CacheEntry { last_accessed: now, ..old(self).cache.entries@[key_index(old(self).cache.entries@, path@)] },
            ),
            !r ==> final(self).cache.entries@ == old(self).cache.entries@,
    {
        self.cache.touch(path, now)
    }

    /// The samples cached for `path`.
    pub fn samples(&self, path: &String) -> (r: Option<&V>)
        ensures
            match r {
                Some(v) => key_index(self.cache.entries@, path@) >= 0
                    && *v == self.cache.entries@[key_index(self.cache.entries@, path@)].value,
                None => key_index(self.cache.entries@, path@) == -1,
            },
    {
        self.cache.get(path)
    }

    /// Caches the samples just read from `path`, of `size_bytes` bytes,
    /// evicting what was used longest ago to make room; samples larger
    /// than the whole cache are not cached. Returns whether they were.
    pub fn store(&mut self, path: String, samples: V, size_bytes: usize, now: u64) -> (r: bool)
        requires
            old(self).cache.wf(),
            old(self).cache.current_size + size_bytes <= usize::MAX,
        ensures
            final(self).cache.wf(),
            r == (size_bytes <= old(self).cache.max_size),
            final(self).cache.max_size == old(self).cache.max_size,
            !r ==> final(self).cache.entries@ == old(self).cache.entries@
                && final(self).cache.current_size == old(self).cache.current_size,
            r ==> key_index(final(self).cache.entries@, path@) >= 0
                && final(self).cache.entries@[key_index(final(self).cache.entries@, path@)]
                    == (CacheEntry { key: path, value: samples, size_bytes, last_accessed: now }),
            r ==> final(self).cache.current_size <= final(self).cache.max_size
                || final(self).cache.entries@.len() == 1,
            r ==> exists|kept: Seq<CacheEntry<String, V>>| {
                &&& #[trigger] lru_evicted(old(self).cache.entries@, old(self).cache.current_size as int,
                    old(self).cache.max_size as int, size_bytes as int, kept)
                &&& final(self).cache.entries@
                    == placed(kept, CacheEntry { key: path, value: samples, size_bytes, last_accessed: now })
                &&& final(self).cache.current_size
                    == evicted_size(old(self).cache.entries@, old(self).cache.current_size as int, kept) + size_bytes
            },
            r && key_index(old(self).cache.entries@, path@) == -1 ==> final(self).cache.current_size
                - total_size(final(self).cache.entries@) == old(self).cache.current_size - total_size(old(self).cache.entries@),
    {
        if size_bytes > self.cache.max_size {
            return false;
        }
        self.cache.ensure_space(size_bytes);
        let ghost mid = self.cache.entries@;
        let ghost k = path@;
        let ghost e = CacheEntry { key: path, value: samples, size_bytes, last_accessed: now };
        self.cache.insert(path, samples, size_bytes, now);
        proof {
            assert(lru_evicted(old(self).cache.entries@, old(self).cache.current_size as int,
                old(self).cache.max_size as int, size_bytes as int, mid));
            assert(self.cache.entries@ == placed(mid, e));
            if key_index(old(self).cache.entries@, k) == -1 {
                lemma_absent_stays_absent(old(self).cache.entries@, mid, k);
            }
            lemma_key_index(mid, k);
            lemma_key_index(self.cache.entries@, k);
            let i = key_index(mid, k);
            if i >= 0 {
                assert(self.cache.entries@[i].key.key_view() == k);
                assert(key_index(self.cache.entries@, k) == i) by {
                    lemma_unique_index(self.cache.entries@, k, i);
                }
            } else {
                let n = self.cache.entries@.len() - 1;
                assert(self.cache.entries@[n].key.key_view() == k);
                lemma_unique_index(self.cache.entries@, k, n);
                assert(self.cache.entries@.drop_last() =~= mid);
            }
        }
        true
    }

    /// Empties the cache.
    pub fn clear(&mut self)
        ensures
            final(self).cache.wf(),
            final(self).cache.entries@.len() == 0,
            final(self).cache.current_size == 0,
            final(self).cache.max_size == old(self).cache.max_size,
    {
        self.cache.clear();
    }

    /// Drops what is cached for `path`.
    pub fn clear_file(&mut self, path: &String)
        requires
            old(self).cache.wf(),
        ensures
            final(self).cache.wf(),
            final(self).cache.max_size == old(self).cache.max_size,
            key_index(final(self).cache.entries@, path@) == -1,
            ({
                let i = key_index(old(self).cache.entries@, path@);
                if i >= 0 {
                    final(self).cache.entries@ == old(self).cache.entries@.remove(i)
                } else {
                    final(self).cache.entries@ == old(self).cache.entries@
                }
            }),
    {
        proof { lemma_key_index(self.cache.entries@, path@); }
        self.cache.remove_key(path);
        proof {
            lemma_key_index(self.cache.entries@, path@);
            let i = key_index(old(self).cache.entries@, path@);
            if i >= 0 && key_index(self.cache.entries@, path@) >= 0 {
                let j = key_index(self.cache.entries@, path@);
                let jj = if j < i { j } else { j + 1 };
                assert(self.cache.entries@[j] == old(self).cache.entries@[jj]);
            }
        }
    }
}

/// A key no entry of `old` holds is held by no entry of what is kept of
/// `old`.
proof fn lemma_absent_stays_absent<K: CacheKey, V>(old: Seq<CacheEntry<K, V>>, kept: Seq<CacheEntry<K, V>>, k: K::KeyView)
    requires
        entries_within(kept, old),
        key_index(old, k) == -1,
    ensures
        key_index(kept, k) == -1,
{
    lemma_key_index(old, k);
    lemma_key_index(kept, k);
    if key_index(kept, k) >= 0 {
        let j = key_index(kept, k);
        assert(old.contains(kept[j]));
        let w = choose|w: int| 0 <= w < old.len() && old[w] == kept[j];
        assert(old[w].key.key_view() == k);
    }
}

/// In a cache with unique keys, an entry with key `k` sits at `key_index`.
proof fn lemma_unique_index<K: CacheKey, V>(s: Seq<CacheEntry<K, V>>, k: K::KeyView, i: int)
    requires
        keys_unique(s),
        0 <= i < s.len(),
        s[i].key.key_view() == k,
    ensures
        key_index(s, k) == i,
{
    lemma_key_index(s, k);
    let j = key_index(s, k);
    if j != i {
        if j < i {
            assert(s[j].key.key_view() != s[i].key.key_view());
        } else {
            assert(s[i].key.key_view() != s[j].key.key_view());
        }
    }
}

/// The key of the RMS cache: the side-chain file, the window size (as the
/// bit pattern of its `f64` milliseconds), and the length and sample rate
/// the envelope was made for.
pub struct RmsCacheKey {
    pub file: String,
    pub window_size_bits: u64,
    pub target_length: usize,
    pub target_sample_rate: usize,
}

impl CacheKey for RmsCacheKey {
    type KeyView = (Seq<char>, u64, usize, usize);

    open spec fn key_view(&self) -> (Seq<char>, u64, usize, usize) {
        (self.file@, self.window_size_bits, self.target_length, self.target_sample_rate)
    }

    fn same_key(&self, other: &Self) -> (r: bool) {
        self.window_size_bits == other.window_size_bits
            && self.target_length == other.target_length
            && self.target_sample_rate == other.target_sample_rate
            && str_equal(self.file.as_str(), other.file.as_str())
    }
}

/// The cache of RMS envelopes of side-chain files. `V` is an envelope.
pub struct RmsCache<V> {
    pub cache: LruCache<RmsCacheKey, V>,
}

impl<V> RmsCache<V> {
    /// An empty cache of 1 GiB.
    pub fn new() -> (r: Self)
        ensures
            r.cache.wf(),
            r.cache.entries@.len() == 0,
            r.cache.current_size == 0,
            r.cache.max_size == MAX_CACHE_SIZE_BYTES,
    {
        RmsCache { cache: LruCache::new(MAX_CACHE_SIZE_BYTES) }
    }

    /// The envelope cached under `key`, marking it as used at `now`.
    pub fn get_rms(&mut self, key: &RmsCacheKey, now: u64) -> (r: Option<&V>)
        requires
            old(self).cache.wf(),
        ensures
            final(self).cache.wf(),
            final(self).cache.max_size == old(self).cache.max_size,
            final(self).cache.current_size == old(self).cache.current_size,
            match r {
                Some(v) => key_index(old(self).cache.entries@, key.key_view()) >= 0
                    && *v == old(self).cache.entries@[key_index(old(self).cache.entries@, key.key_view())].value
                    && final(self).cache.entries@ == old(self).cache.entries@.update(
                        key_index(old(self).cache.entries@, key.key_view()),
                        CacheEntry { last_accessed: now, ..old(self).cache.entries@[key_index(old(self).cache.entries@, key.key_view())] },
                    ),
                None => key_index(old(self).cache.entries@, key.key_view()) == -1
                    && final(self).cache.entries@ == old(self).cache.entries@,
            },
    {
        proof { lemma_key_index(self.cache.entries@, key.key_view()); }
        if self.cache.touch(key, now) {
            proof {
                let i = key_index(old(self).cache.entries@, key.key_view());
                lemma_key_index(old(self).cache.entries@, key.key_view());
                assert(self.cache.entries@[i].key == old(self).cache.entries@[i].key);
                lemma_unique_index(self.cache.entries@, key.key_view(), i);
                assert(self.cache.entries@[i].value == old(self).cache.entries@[i].value);
            }
            self.cache.get(key)
        } else {
            None
        }
    }

    /// Caches an envelope of `entry_size` bytes under `key`, used at
    /// `now`, evicting what was used longest ago to make room; an envelope
    /// larger than the whole cache is not cached. An envelope already
    /// cached under the key is replaced, and its size stays counted.
    pub fn insert_rms(&mut self, key: RmsCacheKey, rms_values: V, entry_size: usize, now: u64)
        requires
            old(self).cache.wf(),
            old(self).cache.current_size + entry_size <= usize::MAX,
        ensures
            final(self).cache.wf(),
            final(self).cache.max_size == old(self).cache.max_size,
            entry_size > old(self).cache.max_size ==> final(self).cache.entries@ == old(self).cache.entries@
                && final(self).cache.current_size == old(self).cache.current_size,
            entry_size <= old(self).cache.max_size ==> key_index(final(self).cache.entries@, key.key_view()) >= 0
                && final(self).cache.entries@[key_index(final(self).cache.entries@, key.key_view())]
                    == (CacheEntry { key, value: rms_values, size_bytes: entry_size, last_accessed: now }),
            entry_size <= old(self).cache.max_size ==> final(self).cache.current_size <= final(self).cache.max_size
                || final(self).cache.entries@.len() == 1,
            entry_size <= old(self).cache.max_size ==> exists|kept: Seq<CacheEntry<RmsCacheKey, V>>| {
                &&& #[trigger] lru_evicted(old(self).cache.entries@, old(self).cache.current_size as int,
                    old(self).cache.max_size as int, entry_size as int, kept)
                &&& final(self).cache.entries@
                    == placed(kept, CacheEntry { key, value: rms_values, size_bytes: entry_size, last_accessed: now })
                &&& final(self).cache.current_size
                    == evicted_size(old(self).cache.entries@, old(self).cache.current_size as int, kept) + entry_size
            },
            key_index(old(self).cache.entries@, key.key_view()) == -1 ==> final(self).cache.current_size
                - total_size(final(self).cache.entries@) == old(self).cache.current_size - total_size(old(self).cache.entries@),
    {
        if entry_size > self.cache.max_size {
            return;
        }
        self.cache.ensure_space(entry_size);
        let ghost mid = self.cache.entries@;
        let ghost k = key.key_view();
        let ghost e = CacheEntry { key, value: rms_values, size_bytes: entry_size, last_accessed: now };
        self.cache.insert(key, rms_values, entry_size, now);
        proof {
            assert(lru_evicted(old(self).cache.entries@, old(self).cache.current_size as int,
                old(self).cache.max_size as int, entry_size as int, mid));
            assert(self.cache.entries@ == placed(mid, e));
            if key_index(old(self).cache.entries@, k) == -1 {
                lemma_absent_stays_absent(old(self).cache.entries@, mid, k);
            }
            lemma_key_index(mid, k);
            let i = key_index(mid, k);
            if i >= 0 {
                lemma_unique_index(self.cache.entries@, k, i);
            } else {
                lemma_unique_index(self.cache.entries@, k, self.cache.entries@.len() - 1);
            }
        }
    }
}

} // verus!
