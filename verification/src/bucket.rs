//! The token bucket of one client.
//!
//! A bucket holds tokens up to a capacity, gains them at a steady rate and
//! spends one on every admitted request.  Tokens are not whole: after half a
//! refill period a bucket holds half a token.  To keep the arithmetic exact
//! the bucket counts *credit*, the tokens multiplied by the length of the
//! refill period in nanoseconds.  One token is worth `refill_nanos` of
//! credit, and one nanosecond of waiting earns `refill_tokens` of credit.
//! Time is a count of nanoseconds read from a clock of the caller's choice.

use vstd::prelude::*;

verus! {

/// The outcome of asking a bucket for one token.
#[derive(Debug, Clone, Copy, PartialEq, Eq, Structural)]
pub enum Verdict {
    /// A token was there and has been spent.
    Allow,
    /// Less than one token was there; nothing has been spent.
    Deny,
}

/// The limits that every bucket of a limiter obeys: at most `capacity`
/// tokens, refilled at `refill_tokens` tokens every `refill_nanos`
/// nanoseconds.
pub struct QuotaModel {
    pub capacity: nat,
    pub refill_tokens: nat,
    pub refill_nanos: nat,
}

impl QuotaModel {
    /// A quota is usable if it holds at least one token and refills at a
    /// rate above zero.
    pub open spec fn valid(self) -> bool {
        &&& 0 < self.capacity <= u32::MAX
        &&& 0 < self.refill_tokens <= u32::MAX
        &&& 0 < self.refill_nanos <= u64::MAX
    }

    /// The credit of a full bucket.
    pub open spec fn full_credit(self) -> nat {
        self.capacity * self.refill_nanos
    }
}

/// The smaller of two counts.
pub open spec fn least(a: nat, b: nat) -> nat {
    if a <= b {
        a
    } else {
        b
    }
}

/// The time that has passed since `last`, read at `now`.  A clock that ran
/// backwards counts as no time passed.
pub open spec fn elapsed_since(last: nat, now: nat) -> nat {
    if now >= last {
        (now - last) as nat
    } else {
        0
    }
}

/// The state of one bucket: its credit, when it was last refilled and when
/// its client was last seen.
pub struct BucketModel {
    pub credit: nat,
    pub last_refill: nat,
    pub last_access: nat,
}

impl BucketModel {
    /// The bucket of a client first seen at `now`: full.
    pub open spec fn fresh(q: QuotaModel, now: nat) -> BucketModel {
        BucketModel { credit: q.full_credit(), last_refill: now, last_access: now }
    }

    /// The bucket holds no less than no token and no more than its
    /// capacity.
    pub open spec fn within(self, q: QuotaModel) -> bool {
        self.credit <= q.full_credit()
    }

    /// The credit at `now`, before anything is spent: what was there and
    /// what the time since the last refill has earned, cut off at a full
    /// bucket.
    pub open spec fn refilled_credit(self, q: QuotaModel, now: nat) -> nat {
        let grown = self.credit + elapsed_since(self.last_refill, now) * q.refill_tokens;
        if grown <= q.full_credit() {
            grown
        } else {
            q.full_credit()
        }
    }

    /// Whether a request at `now` finds a whole token.
    pub open spec fn admits(self, q: QuotaModel, now: nat) -> bool {
        self.refilled_credit(q, now) >= q.refill_nanos
    }

    /// The bucket after a request at `now`: refilled, one token poorer if
    /// the request was admitted, and stamped with `now` either way.
    pub open spec fn after_check(self, q: QuotaModel, now: nat) -> BucketModel {
        BucketModel {
            credit: if self.admits(q, now) {
                (self.refilled_credit(q, now) - q.refill_nanos) as nat
            } else {
                self.refilled_credit(q, now)
            },
            last_refill: now,
            last_access: now,
        }
    }

    /// The verdict on a request at `now`.
    pub open spec fn verdict(self, q: QuotaModel, now: nat) -> Verdict {
        if self.admits(q, now) {
            Verdict::Allow
        } else {
            Verdict::Deny
        }
    }

    /// The whole tokens in the bucket.
    pub open spec fn whole_tokens(self, q: QuotaModel) -> nat {
        self.credit / q.refill_nanos
    }

    /// The nanoseconds after which the bucket holds a whole token, if
    /// nothing is spent meanwhile: none if it holds one now, else the
    /// missing credit divided by the refill rate, rounded up.
    pub open spec fn wait_nanos(self, q: QuotaModel) -> nat {
        if self.credit >= q.refill_nanos {
            0
        } else {
            ((q.refill_nanos - self.credit + q.refill_tokens - 1) / (q.refill_tokens as int)) as nat
        }
    }

    /// Whether the client has been quiet for longer than `threshold` at
    /// `now`.
    pub open spec fn idle(self, now: nat, threshold: nat) -> bool {
        elapsed_since(self.last_access, now) > threshold
    }
}

/// The limits of a limiter, fixed when it is made.
#[derive(Debug, Clone, Copy)]
pub struct Quota {
    capacity: u32,
    refill_tokens: u32,
    refill_nanos: u64,
}

impl View for Quota {
    type V = QuotaModel;

    closed spec fn view(&self) -> QuotaModel {
        QuotaModel {
            capacity: self.capacity as nat,
            refill_tokens: self.refill_tokens as nat,
            refill_nanos: self.refill_nanos as nat,
        }
    }
}

impl Quota {
    #[verifier::type_invariant]
    pub open spec fn well_formed(&self) -> bool {
        self@.valid()
    }

    /// A quota of `capacity` tokens that gains `refill_tokens` tokens every
    /// `refill_nanos` nanoseconds.  There is no such quota if one of the
    /// three is zero.
    pub fn new(capacity: u32, refill_tokens: u32, refill_nanos: u64) -> (r: Option<Quota>)
        ensures
            match r {
                Some(q) => {
                    &&& capacity > 0 && refill_tokens > 0 && refill_nanos > 0
                    &&& q@.capacity == capacity
                    &&& q@.refill_tokens == refill_tokens
                    &&& q@.refill_nanos == refill_nanos
                },
                None => capacity == 0 || refill_tokens == 0 || refill_nanos == 0,
            },
    {
        if capacity == 0 || refill_tokens == 0 || refill_nanos == 0 {
            None
        } else {
            Some(Quota { capacity, refill_tokens, refill_nanos })
        }
    }

    /// A quota of `capacity` tokens that gains `tokens` tokens every second.
    pub fn per_second(tokens: u32, capacity: u32) -> (r: Option<Quota>)
        ensures
            match r {
                Some(q) => {
                    &&& capacity > 0 && tokens > 0
                    &&& q@.capacity == capacity
                    &&& q@.refill_tokens == tokens
                    &&& q@.refill_nanos == 1_000_000_000
                },
                None => capacity == 0 || tokens == 0,
            },
    {
        Quota::new(capacity, tokens, 1_000_000_000)
    }

    /// The most tokens a bucket holds.
    pub fn capacity(&self) -> (c: u32)
        ensures
            c == self@.capacity,
    {
        self.capacity
    }

    /// The tokens gained in one refill period.
    pub fn refill_tokens(&self) -> (t: u32)
        ensures
            t == self@.refill_tokens,
    {
        self.refill_tokens
    }

    /// The length of the refill period in nanoseconds.
    pub fn refill_nanos(&self) -> (n: u64)
        ensures
            n == self@.refill_nanos,
    {
        self.refill_nanos
    }

    fn full_credit(&self) -> (c: u128)
        ensures
            c == self@.full_credit(),
            c <= 0xFFFF_FFFF * 0xFFFF_FFFF_FFFF_FFFF,
    {
        assert(self.capacity * self.refill_nanos <= 0xFFFF_FFFF * 0xFFFF_FFFF_FFFF_FFFF)
            by (nonlinear_arith)
            requires
                self.capacity <= 0xFFFF_FFFF,
                self.refill_nanos <= 0xFFFF_FFFF_FFFF_FFFF,
        ;
        self.capacity as u128 * self.refill_nanos as u128
    }
}

/// What a client is told about its bucket after a request.
#[derive(Debug, Clone, Copy, PartialEq, Eq, Structural)]
pub struct Decision {
    /// Whether the request may pass.
    pub verdict: Verdict,
    /// The most tokens the bucket holds.
    pub limit: u32,
    /// The whole tokens left after the request.
    pub remaining: u32,
    /// The nanoseconds after which the bucket holds a whole token again;
    /// zero if it holds one now.
    pub retry_after_nanos: u64,
}

/// The bucket of one client.
#[derive(Debug, Clone, Copy)]
pub struct BucketState {
    credit: u128,
    last_refill: u64,
    last_access: u64,
}

impl View for BucketState {
    type V = BucketModel;

    closed spec fn view(&self) -> BucketModel {
        BucketModel {
            credit: self.credit as nat,
            last_refill: self.last_refill as nat,
            last_access: self.last_access as nat,
        }
    }
}

impl BucketState {
    /// The bucket of a client first seen at `now`: full.
    pub fn full(quota: &Quota, now: u64) -> (b: BucketState)
        ensures
            b@ == BucketModel::fresh(quota@, now as nat),
            b@.within(quota@),
    {
        BucketState { credit: quota.full_credit(), last_refill: now, last_access: now }
    }

    /// Asks the bucket for one token at `now`.
    ///
    /// The bucket is refilled for the time since its last refill, a token is
    /// spent if a whole one is there, and the bucket is stamped with `now`
    /// whatever the verdict.  Afterwards it holds between no token and its
    /// capacity.
    pub fn check(&mut self, quota: &Quota, now: u64) -> (v: Verdict)
        ensures
            v == old(self)@.verdict(quota@, now as nat),
            final(self)@ == old(self)@.after_check(quota@, now as nat),
            final(self)@.within(quota@),
    {
        proof {
            use_type_invariant(quota);
        }
        let elapsed: u64 = if now >= self.last_refill {
            now - self.last_refill
        } else {
            0
        };
        let full = quota.full_credit();
        assert(elapsed * quota.refill_tokens <= 0xFFFF_FFFF_FFFF_FFFF * 0xFFFF_FFFF)
            by (nonlinear_arith)
            requires
                elapsed <= 0xFFFF_FFFF_FFFF_FFFF,
                quota.refill_tokens <= 0xFFFF_FFFF,
        ;
        let earned: u128 = elapsed as u128 * quota.refill_tokens as u128;
        let grown: u128 = self.credit.saturating_add(earned);
        let refilled: u128 = if grown <= full {
            grown
        } else {
            full
        };
        self.last_refill = now;
        self.last_access = now;
        if refilled >= quota.refill_nanos as u128 {
            self.credit = refilled - quota.refill_nanos as u128;
            Verdict::Allow
        } else {
            self.credit = refilled;
            Verdict::Deny
        }
    }

    /// The whole tokens in the bucket, as far as the quota lets it hold
    /// them: for a bucket that obeys the quota, all of them.
    pub fn remaining(&self, quota: &Quota) -> (n: u32)
        ensures
            n == least(self@.whole_tokens(quota@), quota@.capacity),
            self@.within(quota@) ==> n == self@.whole_tokens(quota@),
    {
        proof {
            use_type_invariant(quota);
            if self@.within(quota@) {
                lemma_whole_tokens_bound(self@, quota@);
            }
        }
        let whole = self.credit / quota.refill_nanos as u128;
        if whole <= quota.capacity as u128 {
            whole as u32
        } else {
            quota.capacity
        }
    }

    /// The nanoseconds after which the bucket holds a whole token, if
    /// nothing is spent meanwhile.
    pub fn retry_after_nanos(&self, quota: &Quota) -> (n: u64)
        ensures
            n == self@.wait_nanos(quota@),
    {
        proof {
            use_type_invariant(quota);
            lemma_wait_bound(self@, quota@);
        }
        let price = quota.refill_nanos as u128;
        if self.credit >= price {
            0
        } else {
            let rate = quota.refill_tokens as u128;
            ((price - self.credit + rate - 1) / rate) as u64
        }
    }

    /// Whether the client has been quiet for longer than `threshold`
    /// nanoseconds at `now`.
    pub fn is_idle(&self, now: u64, threshold: u64) -> (b: bool)
        ensures
            b == self@.idle(now as nat, threshold as nat),
    {
        now > self.last_access && now - self.last_access > threshold
    }

    /// When the client was last seen.
    pub fn last_access(&self) -> (t: u64)
        ensures
            t == self@.last_access,
    {
        self.last_access
    }
}

/// A bucket within its quota holds no more whole tokens than its capacity.
pub proof fn lemma_whole_tokens_bound(b: BucketModel, q: QuotaModel)
    requires
        q.valid(),
        b.within(q),
    ensures
        b.whole_tokens(q) <= q.capacity,
{
    assert(b.credit / q.refill_nanos <= q.capacity) by (nonlinear_arith)
        requires
            b.credit <= q.capacity * q.refill_nanos,
            q.refill_nanos > 0,
    ;
}

/// The wait for a token is never longer than one refill period.
pub proof fn lemma_wait_bound(b: BucketModel, q: QuotaModel)
    requires
        q.valid(),
    ensures
        b.wait_nanos(q) <= q.refill_nanos,
{
    if b.credit < q.refill_nanos {
        let missing = q.refill_nanos - b.credit;
        let rate = q.refill_tokens as int;
        assert((missing + rate - 1) / rate <= missing) by (nonlinear_arith)
            requires
                missing >= 1,
                rate >= 1,
        ;
    }
}

/// Whatever a bucket held, after a request it holds between no token and
/// its capacity.
pub proof fn lemma_check_keeps_range(b: BucketModel, q: QuotaModel, now: nat)
    requires
        q.valid(),
    ensures
        b.after_check(q, now).within(q),
        0 <= b.after_check(q, now).whole_tokens(q) <= q.capacity,
{
    lemma_whole_tokens_bound(b.after_check(q, now), q);
}

/// The bucket after `n` requests that all arrive at `now`.
pub open spec fn after_burst(b: BucketModel, q: QuotaModel, now: nat, n: nat) -> BucketModel
    decreases n,
{
    if n == 0 {
        b
    } else {
        after_burst(b, q, now, (n - 1) as nat).after_check(q, now)
    }
}

/// The number of requests admitted among `n` that all arrive at `now`.
pub open spec fn admitted_in_burst(b: BucketModel, q: QuotaModel, now: nat, n: nat) -> nat
    decreases n,
{
    if n == 0 {
        0
    } else {
        admitted_in_burst(b, q, now, (n - 1) as nat) + if after_burst(
            b,
            q,
            now,
            (n - 1) as nat,
        ).admits(q, now) {
            1nat
        } else {
            0nat
        }
    }
}

/// Of requests that arrive together, those are admitted for which a whole
/// token is there, and no more.
///
/// A bucket that holds `m` whole tokens at `now` admits the first `m` of the
/// requests that arrive at `now` and denies the rest: of `n` such requests
/// exactly `m` are admitted if `m <= n`, and all of them otherwise.  After
/// each of them the bucket holds between no token and its capacity.
pub proof fn lemma_burst(b: BucketModel, q: QuotaModel, now: nat, n: nat)
    requires
        q.valid(),
    ensures
        admitted_in_burst(b, q, now, n) == least(n, b.refilled_credit(q, now) / q.refill_nanos),
        n > 0 ==> after_burst(b, q, now, n).within(q),
        after_burst(b, q, now, n).refilled_credit(q, now) == b.refilled_credit(q, now) - least(
            n,
            b.refilled_credit(q, now) / q.refill_nanos,
        ) * q.refill_nanos,
        after_burst(b, q, now, n).admits(q, now) <==> n < b.refilled_credit(q, now)
            / q.refill_nanos,
    decreases n,
{
    let start = b.refilled_credit(q, now);
    let price = q.refill_nanos;
    let m = start / price;
    let odd = start % price;
    assert(start == m * price + odd && 0 <= odd < price) by (nonlinear_arith)
        requires
            price > 0,
            m == start / price,
            odd == start % price,
    ;
    if n == 0 {
        assert(least(0, m) * price == 0) by (nonlinear_arith);
        assert((start >= price) <==> 0 < m) by (nonlinear_arith)
            requires
                start == m * price + odd,
                0 <= odd < price,
                price > 0,
                m >= 0,
        ;
    } else {
        let k = (n - 1) as nat;
        lemma_burst(b, q, now, k);
        let left = after_burst(b, q, now, k).refilled_credit(q, now);
        // After a request at `now` no time has passed at `now`.
        assert(elapsed_since(now, now) * q.refill_tokens == 0) by (nonlinear_arith)
            requires
                elapsed_since(now, now) == 0,
        ;
        if k < m {
            assert(left - price == start - (k + 1) * price) by (nonlinear_arith)
                requires
                    left == start - k * price,
            ;
            assert((start - (k + 1) * price >= price) <==> (k + 1 < m)) by (nonlinear_arith)
                requires
                    start == m * price + odd,
                    0 <= odd < price,
                    price > 0,
                    k + 1 <= m,
            ;
        }
    }
}

/// Requests that arrive together are served one after the other, and the
/// tokens decide: if the bucket holds whole tokens for exactly `m` of `n`
/// requests that arrive at `now`, exactly `m` of them are admitted and the
/// other `n - m` are denied, and after each of them the bucket holds
/// between no token and its capacity.
pub proof fn lemma_simultaneous_checks(b: BucketModel, q: QuotaModel, now: nat, n: nat, m: nat)
    requires
        q.valid(),
        m <= n,
        b.refilled_credit(q, now) / q.refill_nanos == m,
    ensures
        admitted_in_burst(b, q, now, n) == m,
        n - admitted_in_burst(b, q, now, n) == n - m,
        forall|k: nat|
            1 <= k <= n ==> (#[trigger] after_burst(b, q, now, k)).within(q) && after_burst(
                b,
                q,
                now,
                k,
            ).whole_tokens(q) <= q.capacity,
{
    lemma_burst(b, q, now, n);
    assert forall|k: nat| 1 <= k <= n implies (#[trigger] after_burst(b, q, now, k)).within(q)
        && after_burst(b, q, now, k).whole_tokens(q) <= q.capacity by {
        lemma_burst(b, q, now, k);
        lemma_whole_tokens_bound(after_burst(b, q, now, k), q);
    }
}

/// A full bucket admits a burst of exactly as many requests as its
/// capacity: of `n` requests that arrive when the client is first seen, the
/// first `capacity` are admitted and every later one is denied.
pub proof fn lemma_fresh_burst(q: QuotaModel, now: nat, n: nat)
    requires
        q.valid(),
    ensures
        admitted_in_burst(BucketModel::fresh(q, now), q, now, n) == least(n, q.capacity),
        after_burst(BucketModel::fresh(q, now), q, now, n).admits(q, now) <==> n < q.capacity,
{
    let b = BucketModel::fresh(q, now);
    lemma_burst(b, q, now, n);
    assert((q.capacity * q.refill_nanos) / q.refill_nanos == q.capacity) by (nonlinear_arith)
        requires
            q.refill_nanos > 0,
    ;
}

/// A sweep takes nothing from a client if the threshold covers the time in
/// which an empty bucket fills: a bucket that was quiet for longer than
/// such a threshold answers every later request as a full bucket made at
/// that request would, and is left in the same state.  The client whose
/// bucket was dropped gains no token by it.
pub proof fn lemma_idle_bucket_is_full(
    b: BucketModel,
    q: QuotaModel,
    now: nat,
    threshold: nat,
    at: nat,
)
    requires
        q.valid(),
        b.within(q),
        b.last_refill == b.last_access,
        b.idle(now, threshold),
        threshold * q.refill_tokens >= q.full_credit(),
        at >= now,
    ensures
        b.verdict(q, at) == BucketModel::fresh(q, at).verdict(q, at),
        b.after_check(q, at) == BucketModel::fresh(q, at).after_check(q, at),
{
    let waited = elapsed_since(b.last_refill, at);
    assert(waited * q.refill_tokens >= threshold * q.refill_tokens) by (nonlinear_arith)
        requires
            waited >= threshold,
            q.refill_tokens >= 0,
    ;
    assert(elapsed_since(at, at) * q.refill_tokens == 0) by (nonlinear_arith)
        requires
            elapsed_since(at, at) == 0,
    ;
}

/// The wait that a client is told is the wait that it takes: a bucket that
/// was left without a whole token, and from which nothing is spent
/// meanwhile, admits a request once `wait_nanos` have passed since its last
/// refill, and no request before that.
pub proof fn lemma_wait_is_exact(b: BucketModel, q: QuotaModel, now: nat)
    requires
        q.valid(),
        b.within(q),
        now >= b.last_refill,
    ensures
        b.admits(q, now) <==> now - b.last_refill >= b.wait_nanos(q),
{
    let price = q.refill_nanos as int;
    let rate = q.refill_tokens as int;
    let waited = now - b.last_refill;
    let credit = b.credit as int;
    assert(q.full_credit() >= price) by (nonlinear_arith)
        requires
            q.full_credit() == q.capacity * q.refill_nanos,
            q.capacity >= 1,
            price == q.refill_nanos,
    ;
    if credit < price {
        let missing = price - credit;
        let wait = (missing + rate - 1) / rate;
        assert(wait * rate >= missing && (wait - 1) * rate < missing) by (nonlinear_arith)
            requires
                wait == (missing + rate - 1) / rate,
                rate >= 1,
                missing >= 1,
        ;
        if waited >= wait {
            assert(waited * rate >= wait * rate) by (nonlinear_arith)
                requires
                    waited >= wait,
                    rate >= 1,
            ;
        } else {
            assert(waited * rate <= (wait - 1) * rate) by (nonlinear_arith)
                requires
                    waited <= wait - 1,
                    rate >= 1,
            ;
        }
    } else {
        assert(waited * rate >= 0) by (nonlinear_arith)
            requires
                waited >= 0,
                rate >= 1,
        ;
    }
}

} // verus!
