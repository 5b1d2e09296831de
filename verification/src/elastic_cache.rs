//! The per-worker cache of compiled artifacts.
//!
//! The cache is bounded: when an insert would exceed the capacity, the least
//! recently used entry is evicted, and the controller then issues exactly one
//! release for the evicted artifact on the worker. A hit refreshes the
//! entry's recency.

use vstd::prelude::*;

verus! {

/// One resident compiled artifact: the key derived from the callable unit and
/// the artifact's id on the worker.
#[derive(Debug, Clone, Copy, PartialEq, Eq, Structural)]
pub struct CacheEntry {
    pub key: u64,
    pub wasm_id: u64,
}

/// A bounded key-to-artifact cache with least-recently-used eviction. The
/// model lists the resident entries from least to most recently used.
pub struct Cache {
    capacity: usize,
    entries: Vec<CacheEntry>,
}

/// No key occurs twice among the resident entries.
pub open spec fn distinct_keys(s: Seq<CacheEntry>) -> bool {
    forall|i: int, j: int| 0 <= i < j < s.len() ==> s[i].key != s[j].key
}

/// Whether `key` is resident.
pub open spec fn cache_has_key(s: Seq<CacheEntry>, key: u64) -> bool {
    exists|i: int| 0 <= i < s.len() && s[i].key == key
}

/// The position of `key` among the resident entries (meaningful when `key` is
/// resident and keys are distinct).
pub open spec fn cache_index_of(s: Seq<CacheEntry>, key: u64) -> int {
    choose|i: int| 0 <= i < s.len() && s[i].key == key
}

/// The resident entries after a hit on `key`: the entry moves to the
/// most-recently-used end.
pub open spec fn cache_after_hit(s: Seq<CacheEntry>, key: u64) -> Seq<CacheEntry> {
    s.remove(cache_index_of(s, key)).push(s[cache_index_of(s, key)])
}

/// The resident entries after inserting the fresh entry `e`: the least
/// recently used entry leaves first when the cache is full.
pub open spec fn cache_after_insert(s: Seq<CacheEntry>, cap: int, e: CacheEntry) -> Seq<
    CacheEntry,
> {
    if s.len() < cap {
        s.push(e)
    } else {
        s.drop_first().push(e)
    }
}

/// The entry an insert evicts: the least recently used one, exactly when the
/// cache is full.
pub open spec fn cache_evicted(s: Seq<CacheEntry>, cap: int) -> Option<CacheEntry> {
    if s.len() < cap {
        None
    } else {
        Some(s[0])
    }
}

/// Law: bounded residency, one release per eviction. However many times keys
/// are requested, at most `cap` artifacts are resident at once; an insert
/// evicts exactly when the cache is full, it evicts the least recently used
/// entry, and the evicted key is no longer resident afterwards while the
/// fresh key is.
pub proof fn lemma_bounded_residency(s: Seq<CacheEntry>, cap: int, e: CacheEntry)
    requires
        1 <= cap,
        s.len() <= cap,
        distinct_keys(s),
        !cache_has_key(s, e.key),
    ensures
        cache_after_insert(s, cap, e).len() <= cap,
        cache_evicted(s, cap) is Some <==> s.len() == cap,
        cache_evicted(s, cap) matches Some(v) ==> v == s[0] && !cache_has_key(
            cache_after_insert(s, cap, e),
            v.key,
        ),
        cache_has_key(cache_after_insert(s, cap, e), e.key),
        distinct_keys(cache_after_insert(s, cap, e)),
{
    let after = cache_after_insert(s, cap, e);
    assert(after[after.len() - 1] == e);
    if s.len() == cap {
        assert forall|i: int| 0 <= i < after.len() implies after[i].key != s[0].key by {
            if i < after.len() - 1 {
                assert(after[i] == s[i + 1]);
            }
        }
    }
    assert forall|i: int, j: int| 0 <= i < j < after.len() implies after[i].key != after[j].key by {
        if s.len() < cap {
            if j < after.len() - 1 {
            } else {
                assert(after[i] == s[i]);
            }
        } else {
            assert(after[i] == s[i + 1]);
            if j < after.len() - 1 {
                assert(after[j] == s[j + 1]);
            }
        }
    }
}

impl Cache {
    /// The resident entries, from least to most recently used.
    pub closed spec fn model(self) -> Seq<CacheEntry> {
        self.entries@
    }

    /// The bound on resident entries.
    pub closed spec fn cap(self) -> usize {
        self.capacity
    }

    /// Keys are resident at most once, and residency never exceeds the bound.
    pub closed spec fn wf(self) -> bool {
        distinct_keys(self.entries@) && self.entries@.len() <= self.capacity && self.capacity >= 1
    }

    /// An empty cache bounded by `capacity`.
    pub fn new(capacity: usize) -> (r: Cache)
        requires
            capacity >= 1,
        ensures
            r.wf(),
            r.model() == Seq::<CacheEntry>::empty(),
            r.cap() == capacity,
    {
        Cache { capacity, entries: Vec::new() }
    }

    fn find(&self, key: u64) -> (r: Option<usize>)
        ensures
            match r {
                Some(i) => i < self.entries@.len() && self.entries@[i as int].key == key,
                None => forall|k: int| 0 <= k < self.entries@.len() ==> self.entries@[k].key != key,
            },
    {
        let mut i: usize = 0;
        while i < self.entries.len()
            invariant
                i <= self.entries@.len(),
                forall|k: int| 0 <= k < i ==> self.entries@[k].key != key,
            decreases self.entries@.len() - i,
        {
            if self.entries[i].key == key {
                return Some(i);
            }
            i = i + 1;
        }
        None
    }

    /// Looks `key` up. On a hit, returns the resident artifact id and
    /// refreshes the entry's recency; on a miss, changes nothing.
    pub fn get(&mut self, key: u64) -> (r: Option<u64>)
        requires
            old(self).wf(),
        ensures
            final(self).wf(),
            final(self).cap() == old(self).cap(),
            r is Some == cache_has_key(old(self).model(), key),
            r matches Some(w) ==> w == old(self).model()[cache_index_of(old(self).model(), key)]
                .wasm_id && final(self).model() == cache_after_hit(old(self).model(), key),
            r is None ==> *final(self) == *old(self),
    {
        let found = self.find(key);
        match found {
            Some(i) => {
                proof {
                    let s = self.entries@;
                    let j = cache_index_of(s, key);
                    assert(0 <= j < s.len() && s[j].key == key);
                    assert(j == i as int);
                }
                let e = self.entries.remove(i);
                self.entries.push(e);
                proof {
                    assert forall|a: int, b: int|
                        0 <= a < b < self.entries@.len() implies self.entries@[a].key
                        != self.entries@[b].key by {
                        let pre = old(self).entries@;
                        if b == self.entries@.len() - 1 {
                            if a < i {
                                assert(self.entries@[a] == pre[a]);
                            } else {
                                assert(self.entries@[a] == pre[a + 1]);
                            }
                        } else {
                            if a < i {
                                assert(self.entries@[a] == pre[a]);
                            } else {
                                assert(self.entries@[a] == pre[a + 1]);
                            }
                            if b < i {
                                assert(self.entries@[b] == pre[b]);
                            } else {
                                assert(self.entries@[b] == pre[b + 1]);
                            }
                        }
                    }
                }
                Some(e.wasm_id)
            },
            None => None,
        }
    }

    /// Inserts a fresh key, evicting the least recently used entry when the
    /// cache is full. The caller must release the evicted artifact on the
    /// worker.
    pub fn insert(&mut self, key: u64, wasm_id: u64) -> (evicted: Option<CacheEntry>)
        requires
            old(self).wf(),
            !cache_has_key(old(self).model(), key),
        ensures
            final(self).wf(),
            final(self).cap() == old(self).cap(),
            evicted == cache_evicted(old(self).model(), old(self).cap() as int),
            final(self).model() == cache_after_insert(
                old(self).model(),
                old(self).cap() as int,
                CacheEntry { key, wasm_id },
            ),
    {
        proof {
            lemma_bounded_residency(
                self.entries@,
                self.capacity as int,
                CacheEntry { key, wasm_id },
            );
        }
        if self.entries.len() < self.capacity {
            self.entries.push(CacheEntry { key, wasm_id });
            None
        } else {
            let e = self.entries.remove(0);
            self.entries.push(CacheEntry { key, wasm_id });
            proof {
                assert(self.entries@ =~= cache_after_insert(
                    old(self).model(),
                    self.capacity as int,
                    CacheEntry { key, wasm_id },
                ));
            }
            Some(e)
        }
    }
}

} // verus!
