//! The response cache: a bounded mapping from request fingerprints to
//! response bodies, with a per-entry time-to-live.
//!
//! Time is explicit: callers pass a millisecond reading of a monotonic
//! clock to every operation, and the cache remembers the latest reading it
//! has seen. A lookup returns a body exactly when a stored entry for the
//! fingerprint is at most [`CACHE_TTL_MILLIS`] old. An insertion stores or
//! replaces the entry with its age reset; when the cache is full and the
//! fingerprint is new, the entry with the oldest insertion time is evicted,
//! so recent insertions are never starved.

use vstd::prelude::*;

verus! {

/// Maximum age, in milliseconds, at which an entry is still returned.
pub const CACHE_TTL_MILLIS: u64 = 10000;

/// Maximum number of entries held at any time.
pub const CACHE_CAPACITY: usize = 10000;

/// One stored response: fingerprint, body, and insertion time.
struct CacheEntry {
    key: String,
    body: Vec<u8>,
    inserted: u64,
}

/// The cache: entries with pairwise-distinct fingerprints, and the latest
/// clock reading seen.
pub struct ResponseCache {
    entries: Vec<CacheEntry>,
    clock: u64,
}

/// An entry inserted at `inserted` is still alive at `now`.
pub open spec fn is_fresh(inserted: u64, now: u64) -> bool {
    inserted <= now && now - inserted <= CACHE_TTL_MILLIS
}

/// The view of an optional byte vector.
pub open spec fn opt_bytes_view(r: Option<Vec<u8>>) -> Option<Seq<u8>> {
    match r {
        Some(b) => Some(b@),
        None => None,
    }
}

impl ResponseCache {
    /// The stored entries as (fingerprint, body, insertion time) triples.
    pub closed spec fn contents(self) -> Seq<(Seq<char>, Seq<u8>, u64)> {
        Seq::new(
            self.entries@.len(),
            |i: int| (self.entries@[i].key@, self.entries@[i].body@, self.entries@[i].inserted),
        )
    }

    /// The latest clock reading the cache has seen.
    pub closed spec fn clock(self) -> u64 {
        self.clock
    }

    /// Well-formed: within capacity, fingerprints pairwise distinct, and no
    /// entry inserted later than the latest clock reading.
    pub open spec fn wf(self) -> bool {
        &&& self.contents().len() <= CACHE_CAPACITY
        &&& forall|i: int, j: int|
            #![trigger self.contents()[i], self.contents()[j]]
            0 <= i < j < self.contents().len() ==> self.contents()[i].0 != self.contents()[j].0
        &&& forall|i: int|
            #![trigger self.contents()[i]]
            0 <= i < self.contents().len() ==> self.contents()[i].2 <= self.clock()
    }

    /// Some entry holds exactly this fingerprint, body and insertion time.
    pub open spec fn has_entry(self, key: Seq<char>, body: Seq<u8>, inserted: u64) -> bool {
        self.contents().contains((key, body, inserted))
    }

    /// Position `i` holds a live entry for `key` at time `now`.
    pub open spec fn fresh_at(self, i: int, key: Seq<char>, now: u64) -> bool {
        &&& 0 <= i < self.contents().len()
        &&& self.contents()[i].0 == key
        &&& is_fresh(self.contents()[i].2, now)
    }

    /// A live entry for `key` exists at time `now`.
    pub open spec fn has_fresh(self, key: Seq<char>, now: u64) -> bool {
        exists|i: int| self.fresh_at(i, key, now)
    }

    /// What a lookup of `key` at time `now` returns: the body of the live
    /// entry for `key`, if one exists.
    pub open spec fn spec_lookup(self, key: Seq<char>, now: u64) -> Option<Seq<u8>> {
        if self.has_fresh(key, now) {
            let i = choose|i: int| self.fresh_at(i, key, now);
            Some(self.contents()[i].1)
        } else {
            None
        }
    }

    /// How a cache after `insert(key, body, now)` relates to the cache
    /// before: well-formed, at the new clock reading, holding the new entry;
    /// every entry is the new one or was already present; and no entry for
    /// another fingerprint is lost unless a full cache forced an eviction.
    pub open spec fn inserted_rel(
        pre: ResponseCache,
        post: ResponseCache,
        key: Seq<char>,
        body: Seq<u8>,
        now: u64,
    ) -> bool {
        &&& post.wf()
        &&& post.clock() == now
        &&& post.has_entry(key, body, now)
        &&& forall|i: int|
            #![trigger post.contents()[i]]
            0 <= i < post.contents().len() ==> post.contents()[i] == (key, body, now)
                || pre.contents().contains(post.contents()[i])
        &&& ((exists|i: int|
            0 <= i < pre.contents().len() && #[trigger] pre.contents()[i].0 == key)
            || pre.contents().len() < CACHE_CAPACITY) ==> forall|j: int|
            #![trigger pre.contents()[j]]
            0 <= j < pre.contents().len() && pre.contents()[j].0 != key
                ==> post.contents().contains(pre.contents()[j])
    }

    /// An empty cache at clock reading zero.
    pub fn new() -> (r: ResponseCache)
        ensures
            r.wf(),
            r.contents() == Seq::<(Seq<char>, Seq<u8>, u64)>::empty(),
            r.clock() == 0,
    {
        let r = ResponseCache { entries: Vec::new(), clock: 0 };
        proof {
            assert(r.contents() =~= Seq::<(Seq<char>, Seq<u8>, u64)>::empty());
        }
        r
    }

    /// The number of stored entries.
    pub fn len(&self) -> (n: usize)
        ensures
            n == self.contents().len(),
    {
        self.entries.len()
    }

    /// The latest clock reading the cache has seen.
    pub fn last_update(&self) -> (t: u64)
        ensures
            t == self.clock(),
    {
        self.clock
    }

    /// Looks up `key` at time `now`. Returns the stored body exactly when a
    /// live entry exists, so every returned body was inserted at most
    /// [`CACHE_TTL_MILLIS`] before `now`.
    pub fn lookup(&self, key: &String, now: u64) -> (r: Option<Vec<u8>>)
        requires
            self.wf(),
            self.clock() <= now,
        ensures
            opt_bytes_view(r) == self.spec_lookup(key@, now),
            r is Some ==> self.has_fresh(key@, now),
    {
        let n = self.entries.len();
        let mut i: usize = 0;
        while i < n
            invariant
                self.wf(),
                self.clock() <= now,
                n == self.contents().len(),
                i <= n,
                forall|j: int|
                    #![trigger self.contents()[j]]
                    0 <= j < i ==> self.contents()[j].0 != key@,
            decreases n - i,
        {
            if self.entries[i].key == *key {
                proof {
                    assert(self.contents()[i as int].2 <= self.clock());
                }
                if now - self.entries[i].inserted <= CACHE_TTL_MILLIS {
                    let b = copy_bytes(&self.entries[i].body);
                    proof {
                        assert(self.fresh_at(i as int, key@, now));
                        let j = choose|j: int| self.fresh_at(j, key@, now);
                        assert(self.contents()[j].0 == key@);
                        assert(j == i as int);
                    }
                    return Some(b);
                } else {
                    proof {
                        assert(!self.has_fresh(key@, now)) by {
                            if self.has_fresh(key@, now) {
                                let j = choose|j: int| self.fresh_at(j, key@, now);
                                assert(self.contents()[j].0 == key@);
                                assert(j == i as int);
                            }
                        }
                    }
                    return None;
                }
            }
            i += 1;
        }
        proof {
            assert(!self.has_fresh(key@, now)) by {
                if self.has_fresh(key@, now) {
                    let j = choose|j: int| self.fresh_at(j, key@, now);
                    assert(self.contents()[j].0 == key@);
                }
            }
        }
        None
    }

    /// Stores or replaces the entry for `key` with its age reset to zero,
    /// evicting the entry with the oldest insertion time when a full cache
    /// meets a new fingerprint.
    pub fn insert(&mut self, key: String, body: Vec<u8>, now: u64)
        requires
            old(self).wf(),
            old(self).clock() <= now,
        ensures
            ResponseCache::inserted_rel(*old(self), *final(self), key@, body@, now),
    {
        let n = self.entries.len();
        let mut i: usize = 0;
        let mut found: bool = false;
        let mut found_i: usize = 0;
        while i < n && !found
            invariant
                *self == *old(self),
                n == self.contents().len(),
                i <= n,
                !found ==> forall|j: int|
                    #![trigger self.contents()[j]]
                    0 <= j < i ==> self.contents()[j].0 != key@,
                found ==> found_i < n && self.contents()[found_i as int].0 == key@,
            decreases n - i + (if found { 0int } else { 1int }),
        {
            if self.entries[i].key == key {
                found = true;
                found_i = i;
            } else {
                i += 1;
            }
        }
        let ghost pre = *old(self);
        if found {
            self.entries.remove(found_i);
            self.entries.push(CacheEntry { key, body, inserted: now });
            self.clock = now;
            proof {
                Self::lemma_remove_push(pre, *self, found_i as int, key@, body@, now);
            }
        } else if self.entries.len() < CACHE_CAPACITY {
            self.entries.push(CacheEntry { key, body, inserted: now });
            self.clock = now;
            proof {
                let ghost m = pre.contents().len() as int;
                assert forall|k: int| 0 <= k < m implies #[trigger] self.contents()[k]
                    == pre.contents()[k] by {
                    assert(self.entries@[k] == pre.entries@[k]);
                }
                assert(self.contents()[m] == (key@, body@, now));
                assert(self.has_entry(key@, body@, now));
                assert(self.wf());
                assert forall|j: int| 0 <= j < m implies self.contents().contains(
                    #[trigger] pre.contents()[j],
                ) by {
                    assert(self.contents()[j] == pre.contents()[j]);
                }
            }
        } else {
            let len = self.entries.len();
            let mut oldest: usize = 0;
            let mut j: usize = 1;
            while j < len
                invariant
                    *self == *old(self),
                    len == self.contents().len(),
                    0 < len,
                    oldest < len,
                    j <= len,
                    forall|k: int|
                        #![trigger self.contents()[k]]
                        0 <= k < j ==> self.contents()[oldest as int].2 <= self.contents()[k].2,
                decreases len - j,
            {
                if self.entries[j].inserted < self.entries[oldest].inserted {
                    oldest = j;
                }
                j += 1;
            }
            self.entries.remove(oldest);
            self.entries.push(CacheEntry { key, body, inserted: now });
            self.clock = now;
            proof {
                Self::lemma_remove_push(pre, *self, oldest as int, key@, body@, now);
            }
        }
    }

    /// Removing position `r` from a well-formed cache and appending a fresh
    /// entry yields the insertion relation, provided `key` occurred nowhere
    /// but possibly at `r`.
    proof fn lemma_remove_push(
        pre: ResponseCache,
        post: ResponseCache,
        r: int,
        key: Seq<char>,
        body: Seq<u8>,
        now: u64,
    )
        requires
            pre.wf(),
            pre.clock() <= now,
            0 <= r < pre.contents().len(),
            post.clock() == now,
            post.entries@ == pre.entries@.remove(r).push(post.entries@.last()),
            post.entries@.last().key@ == key,
            post.entries@.last().body@ == body,
            post.entries@.last().inserted == now,
            pre.contents()[r].0 == key || (pre.contents().len() >= CACHE_CAPACITY && forall|j: int|
                0 <= j < pre.contents().len() ==> #[trigger] pre.contents()[j].0 != key),
        ensures
            ResponseCache::inserted_rel(pre, post, key, body, now),
    {
        pre.entries@.remove_ensures(r);
        let m = pre.contents().len() - 1;
        assert(post.contents().len() == m + 1);
        assert forall|k: int| 0 <= k < m implies #[trigger] post.contents()[k] == (if k < r {
            pre.contents()[k]
        } else {
            pre.contents()[k + 1]
        }) by {
            if k < r {
                assert(post.entries@[k] == pre.entries@[k]);
            } else {
                assert(post.entries@[k] == pre.entries@[k + 1]);
            }
        }
        assert(post.contents()[m] == (key, body, now));
        assert(post.has_entry(key, body, now));
        assert forall|k: int| 0 <= k < m implies #[trigger] post.contents()[k].0 != key by {
            if pre.contents()[r].0 == key {
                let k0 = if k < r {
                    k
                } else {
                    k + 1
                };
                assert(post.contents()[k] == pre.contents()[k0]);
                assert(k0 != r);
                assert(pre.contents()[k0].0 != pre.contents()[r].0);
            }
        }
        assert(post.wf());
        if pre.contents()[r].0 == key {
            assert forall|j: int|
                0 <= j < pre.contents().len() && #[trigger] pre.contents()[j].0 != key implies post
                .contents().contains(pre.contents()[j]) by {
                assert(j != r);
                if j < r {
                    assert(post.contents()[j] == pre.contents()[j]);
                } else {
                    assert(post.contents()[j - 1] == pre.contents()[j]);
                }
            }
        } else {
            assert(pre.contents().len() >= CACHE_CAPACITY);
            assert(forall|i: int|
                0 <= i < pre.contents().len() ==> #[trigger] pre.contents()[i].0 != key);
        }
    }
}

/// Copies a byte vector.
pub fn copy_bytes(src: &Vec<u8>) -> (r: Vec<u8>)
    ensures
        r@ == src@,
{
    let n = src.len();
    let mut out: Vec<u8> = Vec::new();
    let mut i: usize = 0;
    while i < n
        invariant
            n == src@.len(),
            i <= n,
            out@ == src@.subrange(0, i as int),
        decreases n - i,
    {
        out.push(src[i]);
        proof {
            assert(out@ =~= src@.subrange(0, i as int + 1));
        }
        i += 1;
    }
    proof {
        assert(out@ =~= src@);
    }
    out
}

/// A body inserted for a fingerprint at time `t1` is returned unchanged by
/// a lookup of the same fingerprint at any time `t2` within the TTL, when
/// nothing touched the cache in between.
pub proof fn lemma_insert_then_fresh_lookup(
    pre: ResponseCache,
    post: ResponseCache,
    key: Seq<char>,
    body: Seq<u8>,
    t1: u64,
    t2: u64,
)
    requires
        ResponseCache::inserted_rel(pre, post, key, body, t1),
        t1 <= t2,
        t2 - t1 <= CACHE_TTL_MILLIS,
    ensures
        post.spec_lookup(key, t2) == Some(body),
{
    let i = choose|i: int|
        0 <= i < post.contents().len() && post.contents()[i] == (key, body, t1);
    assert(post.contents()[i] == (key, body, t1));
    assert(post.fresh_at(i, key, t2));
    let j = choose|j: int| post.fresh_at(j, key, t2);
    assert(post.contents()[j].0 == key);
    assert(j == i);
}

} // verus!
