//! The limiter's store: one bucket for every client that was seen.
//!
//! The store is cut into shards.  A client's bucket lives in the shard that
//! its key selects, so requests of clients in different shards touch
//! disjoint state, and the eviction sweep works on one shard at a time.
//! Whoever shares the store between tasks guards each shard by a lock of its
//! own; a shard's methods are the critical sections.

use crate::bucket::{
    lemma_idle_bucket_is_full, BucketModel, BucketState, Decision, Quota, QuotaModel,
};
use crate::peer::ClientKey;
use std::collections::HashMap;
use vstd::prelude::*;
use vstd::std_specs::iter::IteratorSpec;

verus! {

broadcast use vstd::std_specs::hash::group_hash_axioms;

/// What a request at `now` finds for `key`: the client's bucket, or a full
/// one if the client is not known.
pub open spec fn bucket_or_fresh(
    m: Map<u128, BucketModel>,
    q: QuotaModel,
    key: u128,
    now: nat,
) -> BucketModel {
    if m.contains_key(key) {
        m[key]
    } else {
        BucketModel::fresh(q, now)
    }
}

/// What the client is told after a request at `now` that found `before`.
pub open spec fn decision_of(before: BucketModel, q: QuotaModel, now: nat) -> Decision {
    Decision {
        verdict: before.verdict(q, now),
        limit: q.capacity as u32,
        remaining: before.after_check(q, now).whole_tokens(q) as u32,
        retry_after_nanos: before.after_check(q, now).wait_nanos(q) as u64,
    }
}

/// The buckets that are left of `m` after a sweep at `now`: those of the
/// clients that were seen within `threshold`.
pub open spec fn swept(m: Map<u128, BucketModel>, now: nat, threshold: nat) -> Map<
    u128,
    BucketModel,
> {
    m.restrict(Set::new(|k: u128| !m[k].idle(now, threshold)))
}

/// A sweep drops the bucket of every client that has been quiet for longer
/// than the threshold, keeps the bucket of every other client as it was, and
/// adds none.
pub proof fn lemma_sweep(m: Map<u128, BucketModel>, now: nat, threshold: nat, key: u128)
    ensures
        m.contains_key(key) && m[key].idle(now, threshold) ==> !swept(
            m,
            now,
            threshold,
        ).contains_key(key),
        m.contains_key(key) && !m[key].idle(now, threshold) ==> swept(
            m,
            now,
            threshold,
        ).contains_key(key) && swept(m, now, threshold)[key] == m[key],
        !m.contains_key(key) ==> !swept(m, now, threshold).contains_key(key),
{
}

/// A sweep goes unseen if the threshold covers the time in which an empty
/// bucket fills: every request after the sweep gets the decision, and
/// leaves the bucket, that it would have without the sweep.  A client whose
/// bucket was dropped finds a full one, as it would have found its own.
pub proof fn lemma_sweep_is_unseen(
    m: Map<u128, BucketModel>,
    q: QuotaModel,
    now: nat,
    threshold: nat,
    key: u128,
    at: nat,
)
    requires
        q.valid(),
        forall|k: u128| #[trigger]
            m.contains_key(k) ==> m[k].within(q) && m[k].last_refill == m[k].last_access,
        threshold * q.refill_tokens >= q.full_credit(),
        at >= now,
    ensures
        decision_of(bucket_or_fresh(swept(m, now, threshold), q, key, at), q, at) == decision_of(
            bucket_or_fresh(m, q, key, at),
            q,
            at,
        ),
        bucket_or_fresh(swept(m, now, threshold), q, key, at).after_check(q, at) == bucket_or_fresh(
            m,
            q,
            key,
            at,
        ).after_check(q, at),
{
    if m.contains_key(key) && m[key].idle(now, threshold) {
        lemma_idle_bucket_is_full(m[key], q, now, threshold, at);
    }
}

/// Whether `k` is among the first `n` items of `s`.
spec fn among(s: Seq<u128>, n: int, k: u128) -> bool {
    exists|j: int| 0 <= j < n && s[j] == k
}

/// One part of the store, with the buckets of the clients whose keys select
/// it.
pub struct Shard {
    quota: Quota,
    buckets: HashMap<u128, BucketState>,
}

impl View for Shard {
    type V = Map<u128, BucketModel>;

    closed spec fn view(&self) -> Map<u128, BucketModel> {
        Map::new(|k: u128| self.buckets@.contains_key(k), |k: u128| self.buckets@[k]@)
    }
}

impl Shard {
    /// The quota that the shard's buckets obey.
    pub closed spec fn quota_model(&self) -> QuotaModel {
        self.quota@
    }

    /// Every bucket of the shard holds between no token and its capacity,
    /// and was refilled when its client was last seen.
    pub open spec fn wf(&self) -> bool {
        &&& self.quota_model().valid()
        &&& self@.dom().finite()
        &&& forall|k: u128| #[trigger]
            self@.contains_key(k) ==> self@[k].within(self.quota_model()) && self@[k].last_refill
                == self@[k].last_access
    }

    /// A shard without buckets.
    pub fn new(quota: Quota) -> (s: Shard)
        ensures
            s.wf(),
            s.quota_model() == quota@,
            s@ == Map::<u128, BucketModel>::empty(),
    {
        proof {
            use_type_invariant(&quota);
        }
        let s = Shard { quota, buckets: HashMap::new() };
        assert(s@ =~= Map::<u128, BucketModel>::empty());
        s
    }

    /// The number of clients that the shard holds a bucket for.
    pub fn len(&self) -> (n: usize)
        ensures
            n == self@.len(),
    {
        proof {
            assert(self@.dom() =~= self.buckets@.dom());
        }
        self.buckets.len()
    }

    /// Decides on a request of the client `key` at `now`.
    ///
    /// A client that is not known gets a full bucket first.  The client's
    /// bucket is then asked for a token, and is the only one that changes.
    pub fn check(&mut self, key: ClientKey, now: u64) -> (d: Decision)
        requires
            old(self).wf(),
        ensures
            final(self).wf(),
            final(self).quota_model() == old(self).quota_model(),
            final(self)@ == old(self)@.insert(
                key.0,
                bucket_or_fresh(old(self)@, old(self).quota_model(), key.0, now as nat).after_check(
                    old(self).quota_model(),
                    now as nat,
                ),
            ),
            d == decision_of(
                bucket_or_fresh(old(self)@, old(self).quota_model(), key.0, now as nat),
                old(self).quota_model(),
                now as nat,
            ),
    {
        let mut bucket = match self.buckets.get(&key.0) {
            Some(b) => *b,
            None => BucketState::full(&self.quota, now),
        };
        assert(bucket@ == bucket_or_fresh(
            old(self)@,
            old(self).quota_model(),
            key.0,
            now as nat,
        ));
        let verdict = bucket.check(&self.quota, now);
        let d = Decision {
            verdict,
            limit: self.quota.capacity(),
            remaining: bucket.remaining(&self.quota),
            retry_after_nanos: bucket.retry_after_nanos(&self.quota),
        };
        self.buckets.insert(key.0, bucket);
        assert(self@ =~= old(self)@.insert(key.0, bucket@));
        d
    }

    /// Drops the buckets of the clients that have been quiet for longer than
    /// `threshold` nanoseconds at `now`, and says how many those were.  The
    /// other buckets stay as they are.
    #[verifier::loop_isolation(false)]
    pub fn sweep(&mut self, now: u64, threshold: u64) -> (evicted: usize)
        requires
            old(self).wf(),
        ensures
            final(self).wf(),
            final(self).quota_model() == old(self).quota_model(),
            final(self)@ == swept(old(self)@, now as nat, threshold as nat),
            evicted == old(self)@.len() - final(self)@.len(),
    {
        let ghost before = self.buckets@;
        let size = self.buckets.len();
        assert(old(self)@.dom() =~= before.dom());
        let ghost all = self.buckets.iter().remaining();
        let mut stale: Vec<u128> = Vec::new();
        for entry in it: self.buckets.iter()
            invariant
                it.seq() == all,
                forall|j: int|
                    0 <= j < stale.len() ==> before.contains_key(#[trigger] stale[j])
                        && before[stale[j]]@.idle(now as nat, threshold as nat),
                forall|j: int|
                    0 <= j < it.index() && it.seq()[j].1@.idle(now as nat, threshold as nat)
                        ==> stale@.contains(*(#[trigger] it.seq()[j]).0),
        {
            let (key, bucket) = entry;
            let ghost seen = stale@;
            if bucket.is_idle(now, threshold) {
                stale.push(*key);
            }
            proof {
                assert forall|j: int|
                    0 <= j < it.index() + 1 && it.seq()[j].1@.idle(
                        now as nat,
                        threshold as nat,
                    ) implies stale@.contains(*(#[trigger] it.seq()[j]).0) by {
                    if j < it.index() {
                        let w = choose|w: int| 0 <= w < seen.len() && seen[w] == *it.seq()[j].0;
                        assert(stale@[w] == *it.seq()[j].0);
                    } else {
                        assert(stale@[stale.len() - 1] == *key);
                    }
                }
            }
        }
        let mut i: usize = 0;
        while i < stale.len()
            invariant
                i <= stale.len(),
                self.quota == old(self).quota,
                forall|k: u128|
                    self.buckets@.contains_key(k) <==> before.contains_key(k) && !among(
                        stale@,
                        i as int,
                        k,
                    ),
                forall|k: u128| self.buckets@.contains_key(k) ==> self.buckets@[k] == before[k],
            decreases stale.len() - i,
        {
            self.buckets.remove(&stale[i]);
            i = i + 1;
        }
        proof {
            assert(self@ =~= swept(old(self)@, now as nat, threshold as nat));
            assert(self@.dom() =~= self.buckets@.dom());
            vstd::set_lib::lemma_len_subset(self.buckets@.dom(), before.dom());
        }
        size - self.buckets.len()
    }

    /// The bucket of the client `key`, if the shard holds one.
    pub fn peek(&self, key: ClientKey) -> (b: Option<BucketState>)
        ensures
            match b {
                Some(b) => self@.contains_key(key.0) && b@ == self@[key.0],
                None => !self@.contains_key(key.0),
            },
    {
        match self.buckets.get(&key.0) {
            Some(b) => Some(*b),
            None => None,
        }
    }
}

/// The shard, of `shards` many, that holds the bucket of `key`.
pub open spec fn shard_of(key: u128, shards: int) -> int {
    key as int % shards
}

/// The shard, of `shards` many, that holds the bucket of `key`.
pub fn shard_index(key: ClientKey, shards: usize) -> (i: usize)
    requires
        shards > 0,
    ensures
        i == shard_of(key.0, shards as int),
        i < shards,
{
    (key.0 % (shards as u128)) as usize
}

/// The count `n`, or the largest count that the machine can hold if `n` is
/// beyond it.
pub open spec fn clip(n: int) -> usize {
    if n <= usize::MAX {
        n as usize
    } else {
        usize::MAX
    }
}

/// The number of buckets in the first `i` of the shards `parts`.
spec fn total_upto(parts: Seq<Map<u128, BucketModel>>, i: int) -> nat
    decreases i,
{
    if i <= 0 {
        0
    } else {
        total_upto(parts, i - 1) + parts[i - 1].len()
    }
}

/// The keys that the first `i` of the shards `parts` hold in their place.
spec fn keys_upto(parts: Seq<Map<u128, BucketModel>>, i: int) -> Set<u128> {
    Set::new(
        |k: u128|
            shard_of(k, parts.len() as int) < i && parts[shard_of(
                k,
                parts.len() as int,
            )].contains_key(k),
    )
}

/// Every bucket of the shards `parts` lies in the shard that its key
/// selects, and no shard holds more than finitely many.
spec fn placed(parts: Seq<Map<u128, BucketModel>>) -> bool {
    &&& parts.len() > 0
    &&& forall|i: int| 0 <= i < parts.len() ==> (#[trigger] parts[i]).dom().finite()
    &&& forall|i: int, k: u128|
        0 <= i < parts.len() && #[trigger] parts[i].contains_key(k) ==> shard_of(
            k,
            parts.len() as int,
        ) == i
}

/// The first `i` shards hold as many keys as they hold buckets.
proof fn lemma_keys_upto(parts: Seq<Map<u128, BucketModel>>, i: int)
    requires
        placed(parts),
        0 <= i <= parts.len(),
    ensures
        keys_upto(parts, i).finite(),
        keys_upto(parts, i).len() == total_upto(parts, i),
    decreases i,
{
    if i == 0 {
        assert(keys_upto(parts, 0) =~= Set::<u128>::empty());
    } else {
        lemma_keys_upto(parts, i - 1);
        let below = keys_upto(parts, i - 1);
        let here = parts[i - 1].dom();
        assert(keys_upto(parts, i) =~= below + here);
        assert(below.disjoint(here));
        vstd::set_lib::lemma_set_disjoint_lens(below, here);
        vstd::set::axiom_set_union_finite(below, here);
    }
}

/// Shards that agree below `i` hold as many buckets below `i`.
proof fn lemma_total_upto_agree(
    a: Seq<Map<u128, BucketModel>>,
    b: Seq<Map<u128, BucketModel>>,
    i: int,
)
    requires
        0 <= i <= a.len(),
        i <= b.len(),
        forall|j: int| 0 <= j < i ==> a[j] == b[j],
    ensures
        total_upto(a, i) == total_upto(b, i),
    decreases i,
{
    if i > 0 {
        lemma_total_upto_agree(a, b, i - 1);
    }
}

/// What a sweep found and did.
#[derive(Debug, Clone, Copy, PartialEq, Eq, Structural)]
pub struct SweepReport {
    /// The number of buckets in the store before the sweep.
    pub size: usize,
    /// The number of buckets that the sweep dropped.
    pub evicted: usize,
}

/// The whole store: every client's bucket, spread over shards.
pub struct LimiterStore {
    quota: Quota,
    idle_nanos: u64,
    shards: Vec<Shard>,
}

impl View for LimiterStore {
    type V = Map<u128, BucketModel>;

    closed spec fn view(&self) -> Map<u128, BucketModel> {
        Map::new(
            |k: u128| self.shards@[shard_of(k, self.shards@.len() as int)]@.contains_key(k),
            |k: u128| self.shards@[shard_of(k, self.shards@.len() as int)]@[k],
        )
    }
}

impl LimiterStore {
    /// The quota that every bucket of the store obeys.
    pub closed spec fn quota_model(&self) -> QuotaModel {
        self.quota@
    }

    /// The nanoseconds of quiet after which a sweep drops a client's bucket.
    pub closed spec fn idle_threshold(&self) -> nat {
        self.idle_nanos as nat
    }

    /// The number of shards.
    pub closed spec fn shard_total(&self) -> nat {
        self.shards@.len()
    }

    /// The store is laid out as it should be: it has a shard, every shard
    /// obeys the store's quota, and every bucket lies in the shard that its
    /// key selects.
    pub closed spec fn wf(&self) -> bool {
        &&& self.shards@.len() > 0
        &&& forall|i: int|
            0 <= i < self.shards@.len() ==> (#[trigger] self.shards@[i]).wf()
                && self.shards@[i].quota_model() == self.quota@
        &&& forall|i: int, k: u128|
            0 <= i < self.shards@.len() && #[trigger] self.shards@[i]@.contains_key(k)
                ==> shard_of(k, self.shards@.len() as int) == i
    }

    /// The shards as maps.
    closed spec fn parts(&self) -> Seq<Map<u128, BucketModel>> {
        Seq::new(self.shards@.len(), |i: int| self.shards@[i]@)
    }

    /// The store holds finitely many buckets, as many as its shards
    /// together.
    proof fn lemma_size(&self)
        requires
            self.wf(),
        ensures
            self@.dom().finite(),
            self@.len() == total_upto(self.parts(), self.shards@.len() as int),
    {
        let parts = self.parts();
        lemma_keys_upto(parts, parts.len() as int);
        assert(self@.dom() =~= keys_upto(parts, parts.len() as int));
    }

    /// Every client of the store holds between no token and the capacity,
    /// and its bucket was refilled when it was last seen.
    pub open spec fn tokens_in_range(&self) -> bool {
        forall|k: u128| #[trigger]
            self@.contains_key(k) ==> self@[k].within(self.quota_model()) && self@[k].last_refill
                == self@[k].last_access
    }

    /// A store without buckets, cut into `shards` shards.  There is no store
    /// of no shards.
    pub fn new(quota: Quota, idle_nanos: u64, shards: usize) -> (r: Option<LimiterStore>)
        ensures
            match r {
                Some(s) => {
                    &&& shards > 0
                    &&& s.wf()
                    &&& s.tokens_in_range()
                    &&& s.quota_model() == quota@
                    &&& s.idle_threshold() == idle_nanos
                    &&& s.shard_total() == shards
                    &&& s@ == Map::<u128, BucketModel>::empty()
                },
                None => shards == 0,
            },
    {
        if shards == 0 {
            return None;
        }
        let mut parts: Vec<Shard> = Vec::new();
        let mut i: usize = 0;
        while i < shards
            invariant
                i <= shards,
                parts@.len() == i,
                forall|j: int|
                    0 <= j < i ==> (#[trigger] parts@[j]).wf() && parts@[j].quota_model() == quota@
                        && parts@[j]@ == Map::<u128, BucketModel>::empty(),
            decreases shards - i,
        {
            parts.push(Shard::new(quota));
            i = i + 1;
        }
        Some(LimiterStore { quota, idle_nanos, shards: parts })
    }

    /// The number of shards.
    pub fn shard_count(&self) -> (n: usize)
        ensures
            n == self.shard_total(),
    {
        self.shards.len()
    }

    /// Decides on a request of the client `key` at `now`.
    ///
    /// A client that is not known gets a full bucket first.  The client's
    /// bucket is then asked for a token; no other bucket changes.
    pub fn check(&mut self, key: ClientKey, now: u64) -> (d: Decision)
        requires
            old(self).wf(),
            old(self).tokens_in_range(),
        ensures
            final(self).wf(),
            final(self).tokens_in_range(),
            final(self).quota_model() == old(self).quota_model(),
            final(self).idle_threshold() == old(self).idle_threshold(),
            final(self).shard_total() == old(self).shard_total(),
            final(self)@ == old(self)@.insert(
                key.0,
                bucket_or_fresh(old(self)@, old(self).quota_model(), key.0, now as nat).after_check(
                    old(self).quota_model(),
                    now as nat,
                ),
            ),
            d == decision_of(
                bucket_or_fresh(old(self)@, old(self).quota_model(), key.0, now as nat),
                old(self).quota_model(),
                now as nat,
            ),
    {
        let i = shard_index(key, self.shards.len());
        let d = self.shards[i].check(key, now);
        d
    }

    /// The number of clients that the store holds a bucket for.
    pub fn len(&self) -> (n: usize)
        requires
            self.wf(),
        ensures
            n == clip(self@.len() as int),
    {
        let mut total: usize = 0;
        let mut i: usize = 0;
        while i < self.shards.len()
            invariant
                i <= self.shards@.len(),
                total == clip(total_upto(self.parts(), i as int) as int),
            decreases self.shards@.len() - i,
        {
            total = total.saturating_add(self.shards[i].len());
            i = i + 1;
        }
        proof {
            self.lemma_size();
        }
        total
    }

    /// Drops the buckets of the clients that have been quiet for longer than
    /// the store's threshold at `now`, shard by shard, and reports the size
    /// of the store before the sweep and the number of buckets dropped.  The
    /// other buckets stay as they are.
    pub fn sweep(&mut self, now: u64) -> (report: SweepReport)
        requires
            old(self).wf(),
            old(self).tokens_in_range(),
        ensures
            final(self).wf(),
            final(self).tokens_in_range(),
            final(self).quota_model() == old(self).quota_model(),
            final(self).idle_threshold() == old(self).idle_threshold(),
            final(self).shard_total() == old(self).shard_total(),
            final(self)@ == swept(old(self)@, now as nat, old(self).idle_threshold()),
            report.size == clip(old(self)@.len() as int),
            report.evicted == clip(old(self)@.len() - final(self)@.len()),
    {
        let ghost before = self.parts();
        let mut size: usize = 0;
        let mut evicted: usize = 0;
        let mut i: usize = 0;
        while i < self.shards.len()
            invariant
                i <= self.shards@.len(),
                self.shards@.len() == old(self).shards@.len(),
                self.quota == old(self).quota,
                self.idle_nanos == old(self).idle_nanos,
                before == old(self).parts(),
                old(self).wf(),
                forall|j: int|
                    0 <= j < self.shards@.len() ==> (#[trigger] self.shards@[j]).wf()
                        && self.shards@[j].quota_model() == self.quota@,
                forall|j: int|
                    0 <= j < i ==> (#[trigger] self.shards@[j])@ == swept(
                        before[j],
                        now as nat,
                        self.idle_nanos as nat,
                    ),
                forall|j: int|
                    i <= j < self.shards@.len() ==> (#[trigger] self.shards@[j])@ == before[j],
                total_upto(self.parts(), i as int) <= total_upto(before, i as int),
                size == clip(total_upto(before, i as int) as int),
                evicted == clip(total_upto(before, i as int) - total_upto(self.parts(), i as int)),
            decreases self.shards@.len() - i,
        {
            let ghost held = self.parts();
            let held_len = self.shards[i].len();
            let dropped = self.shards[i].sweep(now, self.idle_nanos);
            proof {
                lemma_total_upto_agree(held, self.parts(), i as int);
            }
            size = size.saturating_add(held_len);
            evicted = evicted.saturating_add(dropped);
            i = i + 1;
        }
        proof {
            old(self).lemma_size();
            self.lemma_size();
        }
        SweepReport { size, evicted }
    }

    /// The bucket of the client `key`, if the store holds one.
    pub fn peek(&self, key: ClientKey) -> (b: Option<BucketState>)
        requires
            self.wf(),
        ensures
            match b {
                Some(b) => self@.contains_key(key.0) && b@ == self@[key.0],
                None => !self@.contains_key(key.0),
            },
    {
        let i = shard_index(key, self.shards.len());
        self.shards[i].peek(key)
    }
}

} // verus!
