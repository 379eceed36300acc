//! The rate limiter's key-indexed bucket table.
//!
//! One bucket per admission key, created lazily at full capacity on the
//! key's first request, and evicted once the key has been idle for the
//! configured expiry window — safe, because the next request recreates a
//! fresh bucket at full capacity, exactly what an untouched bucket would
//! have refilled to after being idle that long. All buckets share one
//! configuration; unrelated keys never affect each other.

use vstd::prelude::*;

use crate::bucket::{Decision, TokenBucket};
use crate::bytestr::bytes_eq;

verus! {

struct BucketEntry {
    key: Vec<u8>,
    bucket: TokenBucket,
}

/// The per-key admission table.
pub struct RateLimiter {
    capacity: u32,
    fill_rate: u32,
    idle_expiry_ms: u64,
    entries: Vec<BucketEntry>,
}

impl RateLimiter {
    /// Capacity every bucket is created with, in whole tokens.
    pub closed spec fn spec_capacity(&self) -> u32 {
        self.capacity
    }

    /// Fill rate every bucket is created with, in tokens per second.
    pub closed spec fn spec_rate(&self) -> u32 {
        self.fill_rate
    }

    /// How long a key may sit idle before its bucket is evicted.
    pub closed spec fn spec_idle_expiry_ms(&self) -> u64 {
        self.idle_expiry_ms
    }

    /// How many keys currently hold a bucket.
    pub closed spec fn spec_len(&self) -> int {
        self.entries@.len() as int
    }

    /// Whether the key currently holds a bucket.
    pub closed spec fn spec_has(&self, k: Seq<u8>) -> bool {
        exists|i: int| 0 <= i < self.entries@.len() && self.entries@[i].key@ == k
    }

    spec fn spec_idx(&self, k: Seq<u8>) -> int {
        choose|i: int| 0 <= i < self.entries@.len() && self.entries@[i].key@ == k
    }

    /// The bucket held for the key.
    pub closed spec fn spec_bucket_of(&self, k: Seq<u8>) -> TokenBucket {
        self.entries@[self.spec_idx(k)].bucket
    }

    /// A key's bucket has seen no activity for at least the expiry
    /// window.
    pub open spec fn spec_idle(&self, k: Seq<u8>, now_ms: u64) -> bool {
        self.spec_has(k) && now_ms as int - self.spec_bucket_of(k).spec_last_ms()
            >= self.spec_idle_expiry_ms() as int
    }

    /// The table invariant: one bucket per key, every bucket well-formed
    /// and carrying the shared configuration.
    pub closed spec fn wf(&self) -> bool {
        &&& 1 <= self.fill_rate
        &&& forall|i: int, j: int|
            0 <= i < j < self.entries@.len() ==> self.entries@[i].key@ != self.entries@[j].key@
        &&& forall|i: int|
            0 <= i < self.entries@.len() ==> (#[trigger] self.entries@[i].bucket).wf()
                && self.entries@[i].bucket.spec_capacity() == self.capacity as int
                && self.entries@[i].bucket.spec_rate() == self.fill_rate as int
    }

    /// An empty table.
    pub fn new(capacity: u32, fill_rate: u32, idle_expiry_ms: u64) -> (t: RateLimiter)
        requires
            1 <= fill_rate,
        ensures
            t.wf(),
            t.spec_capacity() == capacity,
            t.spec_rate() == fill_rate,
            t.spec_idle_expiry_ms() == idle_expiry_ms,
            forall|k: Seq<u8>| !t.spec_has(k),
            t.spec_len() == 0,
    {
        RateLimiter { capacity, fill_rate, idle_expiry_ms, entries: Vec::new() }
    }

    fn find_key(&self, key: &[u8]) -> (r: Option<usize>)
        ensures
            r matches Some(i) ==> 0 <= i < self.entries@.len() && self.entries@[i as int].key@
                == key@,
            r is None ==> forall|j: int|
                0 <= j < self.entries@.len() ==> self.entries@[j].key@ != key@,
    {
        let n = self.entries.len();
        let mut i: usize = 0;
        while i < n
            invariant
                n == self.entries@.len(),
                0 <= i <= n,
                forall|j: int| 0 <= j < i ==> self.entries@[j].key@ != key@,
            decreases n - i,
        {
            if bytes_eq(self.entries[i].key.as_slice(), key) {
                return Some(i);
            }
            i += 1;
        }
        None
    }

    /// One admission check for one key: the key's bucket — created fresh
    /// at full capacity if the key holds none — is refilled from the
    /// clock and then charged or left alone, as `TokenBucket::check`
    /// says. No other key's bucket moves.
    pub fn check_key(&mut self, key: &[u8], now_ms: u64, cost: u32) -> (d: Decision)
        requires
            old(self).wf(),
            1 <= cost,
        ensures
            final(self).wf(),
            final(self).spec_capacity() == old(self).spec_capacity(),
            final(self).spec_rate() == old(self).spec_rate(),
            final(self).spec_idle_expiry_ms() == old(self).spec_idle_expiry_ms(),
            final(self).spec_has(key@),
            ({
                let b0 = if old(self).spec_has(key@) {
                    old(self).spec_bucket_of(key@)
                } else {
                    TokenBucket::spec_fresh(old(self).spec_capacity(), old(self).spec_rate(), now_ms)
                };
                &&& final(self).spec_bucket_of(key@) == b0.spec_stepped(now_ms, cost)
                &&& (d is Granted <==> b0.spec_grants(now_ms, cost))
                &&& (d matches Decision::Rejected { retry_after_ms } ==> retry_after_ms as int == (
                cost * 1000 - b0.spec_refilled_mt(now_ms) + b0.spec_rate() - 1) / b0.spec_rate())
            }),
            forall|k: Seq<u8>| k != key@ ==> (final(self).spec_has(k) <==> old(self).spec_has(k)),
            forall|k: Seq<u8>|
                k != key@ && old(self).spec_has(k) ==> final(self).spec_bucket_of(k) == old(
                    self,
                ).spec_bucket_of(k),
            old(self).spec_has(key@) ==> final(self).spec_len() == old(self).spec_len(),
            !old(self).spec_has(key@) ==> final(self).spec_len() == old(self).spec_len() + 1,
    {
        match self.find_key(key) {
            Some(i) => {
                proof {
                    assert(old(self).spec_has(key@));
                    assert(old(self).spec_idx(key@) == i as int);
                }
                let mut b = self.entries[i].bucket;
                let d = b.check(now_ms, cost);
                let fresh_key = vstd::slice::slice_to_vec(key);
                self.entries[i] = BucketEntry { key: fresh_key, bucket: b };
                proof {
                    assert(forall|j: int|
                        0 <= j < self.entries@.len() && j != i as int ==> self.entries@[j] == old(
                            self,
                        ).entries@[j]);
                    assert(self.entries@[i as int].key@ == key@);
                    assert(self.spec_has(key@));
                    assert(self.spec_idx(key@) == i as int);
                    assert forall|k: Seq<u8>| k != key@ implies (self.spec_has(k) <==> old(
                        self,
                    ).spec_has(k)) by {
                        if old(self).spec_has(k) {
                            let j = old(self).spec_idx(k);
                            assert(self.entries@[j].key@ == k);
                        }
                        if self.spec_has(k) {
                            let j = self.spec_idx(k);
                            assert(old(self).entries@[j].key@ == k);
                        }
                    }
                    assert forall|k: Seq<u8>|
                        k != key@ && old(self).spec_has(k) implies self.spec_bucket_of(k) == old(
                        self,
                    ).spec_bucket_of(k) by {
                        let j = old(self).spec_idx(k);
                        assert(self.entries@[j].key@ == k);
                        assert(self.spec_idx(k) == j);
                        assert(old(self).spec_idx(k) == j);
                    }
                }
                d
            },
            None => {
                let mut b = TokenBucket::new(self.capacity, self.fill_rate, now_ms);
                let d = b.check(now_ms, cost);
                let fresh_key = vstd::slice::slice_to_vec(key);
                self.entries.push(BucketEntry { key: fresh_key, bucket: b });
                proof {
                    let m = (self.entries@.len() - 1) as int;
                    assert(!old(self).spec_has(key@));
                    assert(self.entries@[m].key@ == key@);
                    assert(self.spec_has(key@));
                    assert(self.spec_idx(key@) == m);
                    assert forall|k: Seq<u8>| k != key@ implies (self.spec_has(k) <==> old(
                        self,
                    ).spec_has(k)) by {
                        if old(self).spec_has(k) {
                            let j = old(self).spec_idx(k);
                            assert(self.entries@[j].key@ == k);
                        }
                        if self.spec_has(k) {
                            let j = self.spec_idx(k);
                            assert(j != m);
                            assert(old(self).entries@[j].key@ == k);
                        }
                    }
                    assert forall|k: Seq<u8>|
                        k != key@ && old(self).spec_has(k) implies self.spec_bucket_of(k) == old(
                        self,
                    ).spec_bucket_of(k) by {
                        let j = old(self).spec_idx(k);
                        assert(self.entries@[j].key@ == k);
                        assert(self.spec_idx(k) == j);
                    }
                }
                d
            },
        }
    }

}

} // verus!
