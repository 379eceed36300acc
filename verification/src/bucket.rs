//! Token-bucket admission control.
//!
//! A bucket holds its tokens in thousandths ("millitokens") so that refill
//! arithmetic is exact over the integers: at a fill rate of one token per
//! second, one millitoken arrives per millisecond. On every admission check
//! the bucket first catches up with the clock — it gains
//! `elapsed_ms * fill_rate` millitokens, capped at capacity — and then
//! either pays the cost and admits, or rejects with the wait in
//! milliseconds after which the deficit will have refilled.

use vstd::prelude::*;

verus! {

/// The outcome of an admission check.
#[derive(Clone, Copy, Debug, PartialEq, Eq, Structural)]
pub enum Decision {
    Granted,
    Rejected { retry_after_ms: u64 },
}

/// A per-key token bucket. Tokens are stored in millitokens; capacity and
/// fill rate are given in whole tokens and tokens per second.
#[derive(Clone, Copy)]
pub struct TokenBucket {
    capacity: u32,
    fill_rate: u32,
    millitokens: u64,
    last_refill_ms: u64,
}

impl TokenBucket {
    /// Capacity in whole tokens.
    pub closed spec fn spec_capacity(&self) -> int {
        self.capacity as int
    }

    /// Fill rate in tokens per second.
    pub closed spec fn spec_rate(&self) -> int {
        self.fill_rate as int
    }

    /// Current token count, in millitokens.
    pub closed spec fn spec_tokens_mt(&self) -> int {
        self.millitokens as int
    }

    /// The instant of the last refill, in milliseconds.
    pub closed spec fn spec_last_ms(&self) -> int {
        self.last_refill_ms as int
    }

    /// Capacity in millitokens.
    pub open spec fn spec_cap_mt(&self) -> int {
        self.spec_capacity() * 1000
    }

    /// The bucket invariant: a positive fill rate, and a token count that
    /// never leaves `[0, capacity]`.
    pub open spec fn wf(&self) -> bool {
        &&& 1 <= self.spec_rate()
        &&& 0 <= self.spec_tokens_mt() <= self.spec_cap_mt()
    }

    /// Milliseconds elapsed since the last refill; a clock that ran
    /// backwards contributes nothing.
    pub open spec fn spec_elapsed_ms(&self, now_ms: u64) -> int {
        if now_ms as int >= self.spec_last_ms() {
            now_ms as int - self.spec_last_ms()
        } else {
            0
        }
    }

    /// The token count after catching up with the clock: the old count
    /// plus `elapsed * rate`, capped at capacity.
    pub open spec fn spec_refilled_mt(&self, now_ms: u64) -> int {
        vstd::math::min(
            self.spec_cap_mt(),
            self.spec_tokens_mt() + self.spec_elapsed_ms(now_ms) * self.spec_rate(),
        )
    }

    /// Whether a check at `now_ms` admits a request of the given cost.
    pub open spec fn spec_grants(self, now_ms: u64, cost: u32) -> bool {
        self.spec_refilled_mt(now_ms) >= cost * 1000
    }

    /// The bucket after one admission check: refilled, and charged the
    /// cost exactly when the check admits.
    pub closed spec fn spec_stepped(self, now_ms: u64, cost: u32) -> TokenBucket {
        let refilled = self.spec_refilled_mt(now_ms);
        let charged = if refilled >= cost * 1000 {
            refilled - cost * 1000
        } else {
            refilled
        };
        TokenBucket {
            millitokens: charged as u64,
            last_refill_ms: if now_ms as int >= self.spec_last_ms() {
                now_ms
            } else {
                self.last_refill_ms
            },
            ..self
        }
    }

    /// A bucket as `new` creates it: at full capacity, refilled just now.
    pub closed spec fn spec_fresh(capacity: u32, fill_rate: u32, now_ms: u64) -> TokenBucket {
        TokenBucket {
            capacity,
            fill_rate,
            millitokens: (capacity * 1000) as u64,
            last_refill_ms: now_ms,
        }
    }

    /// A fresh bucket starts at full capacity.
    pub fn new(capacity: u32, fill_rate: u32, now_ms: u64) -> (b: TokenBucket)
        requires
            1 <= fill_rate,
        ensures
            b == TokenBucket::spec_fresh(capacity, fill_rate, now_ms),
            b.wf(),
            b.spec_capacity() == capacity,
            b.spec_rate() == fill_rate,
            b.spec_tokens_mt() == b.spec_cap_mt(),
            b.spec_last_ms() == now_ms,
    {
        TokenBucket {
            capacity,
            fill_rate,
            millitokens: (capacity as u64) * 1000,
            last_refill_ms: now_ms,
        }
    }

    /// Current token count in millitokens, for observation.
    pub fn current_millitokens(&self) -> (t: u64)
        ensures
            t as int == self.spec_tokens_mt(),
    {
        self.millitokens
    }

    /// The instant of the bucket's last activity, for idle-eviction.
    pub fn last_activity_ms(&self) -> (t: u64)
        ensures
            t as int == self.spec_last_ms(),
    {
        self.last_refill_ms
    }

    /// One admission check: refill from the clock, then admit and charge
    /// `cost`, or reject with the wait after which the deficit will have
    /// refilled. The token count strictly decreases by the cost exactly
    /// when the check admits; a rejection leaves the refilled count
    /// untouched.
    pub fn check(&mut self, now_ms: u64, cost: u32) -> (d: Decision)
        requires
            old(self).wf(),
            1 <= cost,
        ensures
            final(self).wf(),
            *final(self) == old(self).spec_stepped(now_ms, cost),
            final(self).spec_capacity() == old(self).spec_capacity(),
            final(self).spec_rate() == old(self).spec_rate(),
            d is Granted <==> old(self).spec_grants(now_ms, cost),
            d is Granted ==> final(self).spec_tokens_mt() == old(self).spec_refilled_mt(now_ms)
                - cost * 1000,
            d !is Granted ==> final(self).spec_tokens_mt() == old(self).spec_refilled_mt(
                now_ms,
            ),
            d matches Decision::Rejected { retry_after_ms } ==> retry_after_ms as int == (cost
                * 1000 - old(self).spec_refilled_mt(now_ms) + old(self).spec_rate() - 1) / old(
                self,
            ).spec_rate(),
    {
        let elapsed: u64 = if now_ms >= self.last_refill_ms {
            now_ms - self.last_refill_ms
        } else {
            0
        };
        let cap_mt: u64 = (self.capacity as u64) * 1000;
        proof {
            assert((elapsed as int) * (self.fill_rate as int) <= (u64::MAX as int) * (
            u32::MAX as int)) by (nonlinear_arith)
                requires
                    0 <= elapsed as int <= u64::MAX as int,
                    0 <= self.fill_rate as int <= u32::MAX as int,
            ;
        }
        let gained: u128 = (elapsed as u128) * (self.fill_rate as u128);
        let total: u128 = (self.millitokens as u128) + gained;
        let refilled: u64 = if total >= cap_mt as u128 {
            cap_mt
        } else {
            total as u64
        };
        proof {
            assert(gained == self.spec_elapsed_ms(now_ms) * self.spec_rate());
            assert(refilled as int == self.spec_refilled_mt(now_ms));
        }
        if now_ms >= self.last_refill_ms {
            self.last_refill_ms = now_ms;
        }
        let cost_mt: u64 = (cost as u64) * 1000;
        if refilled >= cost_mt {
            self.millitokens = refilled - cost_mt;
            Decision::Granted
        } else {
            self.millitokens = refilled;
            let deficit: u64 = cost_mt - refilled;
            let retry: u64 = (deficit + (self.fill_rate as u64) - 1) / (self.fill_rate as u64);
            Decision::Rejected { retry_after_ms: retry }
        }
    }
}

/// A bucket run through a sequence of admission checks, each a clock
/// reading paired with a cost.
pub open spec fn spec_run(b: TokenBucket, reqs: Seq<(u64, u32)>) -> TokenBucket
    decreases reqs.len(),
{
    if reqs.len() == 0 {
        b
    } else {
        spec_run(b.spec_stepped(reqs[0].0, reqs[0].1), reqs.drop_first())
    }
}

proof fn lemma_step_preserves_wf(b: TokenBucket, now_ms: u64, cost: u32)
    requires
        b.wf(),
    ensures
        b.spec_stepped(now_ms, cost).wf(),
        b.spec_stepped(now_ms, cost).spec_capacity() == b.spec_capacity(),
        b.spec_stepped(now_ms, cost).spec_rate() == b.spec_rate(),
{
    let e = b.spec_elapsed_ms(now_ms);
    assert(e * b.spec_rate() >= 0) by (nonlinear_arith)
        requires
            e >= 0,
            b.spec_rate() >= 1,
    ;
}

/// Law (bucket conservation): however a bucket is driven — any sequence of
/// admission checks, so in particular any prefix of a longer run — its
/// token count stays within `[0, capacity]`, and its capacity and fill
/// rate never change.
pub proof fn lemma_bucket_conservation(b: TokenBucket, reqs: Seq<(u64, u32)>)
    requires
        b.wf(),
    ensures
        spec_run(b, reqs).wf(),
        spec_run(b, reqs).spec_capacity() == b.spec_capacity(),
        spec_run(b, reqs).spec_rate() == b.spec_rate(),
        forall|k: int|
            0 <= k <= reqs.len() ==> (#[trigger] spec_run(b, reqs.take(k))).wf(),
    decreases reqs.len(),
{
    if reqs.len() == 0 {
        assert forall|k: int| 0 <= k <= reqs.len() implies (#[trigger] spec_run(
            b,
            reqs.take(k),
        )).wf() by {
            assert(reqs.take(k) =~= reqs);
        }
    } else {
        let stepped = b.spec_stepped(reqs[0].0, reqs[0].1);
        lemma_step_preserves_wf(b, reqs[0].0, reqs[0].1);
        lemma_bucket_conservation(stepped, reqs.drop_first());
        assert forall|k: int| 0 <= k <= reqs.len() implies (#[trigger] spec_run(
            b,
            reqs.take(k),
        )).wf() by {
            if k == 0 {
                assert(reqs.take(0) =~= Seq::<(u64, u32)>::empty());
            } else {
                assert(reqs.take(k)[0] == reqs[0]);
                assert(reqs.take(k).drop_first() =~= reqs.drop_first().take(k - 1));
                assert(spec_run(b, reqs.take(k)) == spec_run(
                    stepped,
                    reqs.drop_first().take(k - 1),
                ));
            }
        }
    }
}

/// Law (refill monotonicity): if no admission happens for `t` seconds, the
/// refilled count at the next check is exactly
/// `min(capacity, previous + t * fill_rate)`, in millitokens.
pub proof fn lemma_refill_monotonicity(b: TokenBucket, t: int)
    requires
        b.wf(),
        0 <= t,
        b.spec_last_ms() + 1000 * t <= u64::MAX,
    ensures
        b.spec_refilled_mt((b.spec_last_ms() + 1000 * t) as u64) == vstd::math::min(
            b.spec_cap_mt(),
            b.spec_tokens_mt() + t * b.spec_rate() * 1000,
        ),
{
    let now = (b.spec_last_ms() + 1000 * t) as u64;
    assert(b.spec_elapsed_ms(now) == 1000 * t);
    assert((1000 * t) * b.spec_rate() == t * b.spec_rate() * 1000) by (nonlinear_arith);
}

} // verus!
