use boraxpr::bucket::{BucketState, Quota, Verdict};

const SECOND: u64 = 1_000_000_000;

fn one_per_second(capacity: u32) -> Quota {
    Quota::per_second(1, capacity).unwrap()
}

#[test]
fn quota_needs_three_positive_numbers() {
    assert!(Quota::new(0, 1, 1).is_none());
    assert!(Quota::new(1, 0, 1).is_none());
    assert!(Quota::new(1, 1, 0).is_none());
    assert!(Quota::per_second(0, 5).is_none());
    assert!(Quota::per_second(5, 0).is_none());
    let q = Quota::new(3, 2, 7).unwrap();
    assert_eq!(q.capacity(), 3);
    assert_eq!(q.refill_tokens(), 2);
    assert_eq!(q.refill_nanos(), 7);
    let q = Quota::per_second(4, 9).unwrap();
    assert_eq!(q.capacity(), 9);
    assert_eq!(q.refill_tokens(), 4);
    assert_eq!(q.refill_nanos(), SECOND);
}

#[test]
fn a_new_bucket_is_full() {
    let q = one_per_second(5);
    let b = BucketState::full(&q, 77);
    assert_eq!(b.remaining(&q), 5);
    assert_eq!(b.retry_after_nanos(&q), 0);
    assert_eq!(b.last_access(), 77);
}

#[test]
fn burst_of_five_then_one_per_second() {
    let q = one_per_second(5);
    let start = 10 * SECOND;
    let mut b = BucketState::full(&q, start);
    for left in [4u32, 3, 2, 1, 0] {
        assert_eq!(b.check(&q, start), Verdict::Allow);
        assert_eq!(b.remaining(&q), left);
    }
    assert_eq!(b.check(&q, start), Verdict::Deny);
    assert_eq!(b.remaining(&q), 0);
    assert_eq!(b.retry_after_nanos(&q), SECOND);
    assert_eq!(b.check(&q, start + SECOND), Verdict::Allow);
    assert_eq!(b.check(&q, start + SECOND), Verdict::Deny);
}

#[test]
fn half_a_token_per_second() {
    // One token of capacity, half a token per second.
    let q = Quota::new(1, 1, 2 * SECOND).unwrap();
    // A tenth of a second apart: not both admitted.
    let mut b = BucketState::full(&q, 0);
    assert_eq!(b.check(&q, 0), Verdict::Allow);
    assert_eq!(b.check(&q, SECOND / 10), Verdict::Deny);
    // One second earns half a token, which admits nothing.
    let mut b = BucketState::full(&q, 0);
    assert_eq!(b.check(&q, 0), Verdict::Allow);
    assert_eq!(b.check(&q, SECOND), Verdict::Deny);
    assert_eq!(b.retry_after_nanos(&q), SECOND);
    // Two seconds earn the whole token.
    let mut b = BucketState::full(&q, 0);
    assert_eq!(b.check(&q, 0), Verdict::Allow);
    assert_eq!(b.check(&q, 2 * SECOND), Verdict::Allow);
}

#[test]
fn a_denied_request_keeps_what_was_earned() {
    let q = Quota::new(1, 1, 2 * SECOND).unwrap();
    let mut b = BucketState::full(&q, 0);
    assert_eq!(b.check(&q, 0), Verdict::Allow);
    // Two denied requests, each after a second: the halves add up.
    assert_eq!(b.check(&q, SECOND), Verdict::Deny);
    assert_eq!(b.retry_after_nanos(&q), SECOND);
    assert_eq!(b.check(&q, 2 * SECOND), Verdict::Allow);
    assert_eq!(b.remaining(&q), 0);
    assert_eq!(b.retry_after_nanos(&q), 2 * SECOND);
}

#[test]
fn tokens_never_leave_their_range() {
    let q = Quota::new(3, 2, 1000).unwrap();
    let mut b = BucketState::full(&q, 0);
    let times = [0u64, 0, 1, 1, 499, 500, 500, 10_000, 10_000, 10_000, 10_000, 9_000, u64::MAX, 0];
    for now in times {
        b.check(&q, now);
        assert!(b.remaining(&q) <= 3);
        assert_eq!(b.last_access(), now);
    }
}

#[test]
fn a_long_wait_fills_the_bucket_and_no_more() {
    let q = one_per_second(2);
    let mut b = BucketState::full(&q, 0);
    assert_eq!(b.check(&q, 0), Verdict::Allow);
    assert_eq!(b.check(&q, 0), Verdict::Allow);
    assert_eq!(b.check(&q, 0), Verdict::Deny);
    let later = 1_000_000 * SECOND;
    assert_eq!(b.check(&q, later), Verdict::Allow);
    assert_eq!(b.remaining(&q), 1);
    assert_eq!(b.check(&q, later), Verdict::Allow);
    assert_eq!(b.check(&q, later), Verdict::Deny);
}

#[test]
fn a_clock_that_runs_backwards_earns_nothing() {
    let q = one_per_second(1);
    let mut b = BucketState::full(&q, 100 * SECOND);
    assert_eq!(b.check(&q, 100 * SECOND), Verdict::Allow);
    assert_eq!(b.check(&q, 50 * SECOND), Verdict::Deny);
    assert_eq!(b.last_access(), 50 * SECOND);
    // The refill is counted from the time of the last request.
    assert_eq!(b.check(&q, 51 * SECOND), Verdict::Allow);
}

#[test]
fn the_wait_is_the_missing_credit_over_the_rate_rounded_up() {
    // Three tokens every ten nanoseconds; a token costs ten of credit.
    let q = Quota::new(1, 3, 10).unwrap();
    let mut b = BucketState::full(&q, 0);
    assert_eq!(b.check(&q, 0), Verdict::Allow);
    // Credit 0: ten are missing, three are earned each nanosecond.
    assert_eq!(b.retry_after_nanos(&q), 4);
    assert_eq!(b.check(&q, 1), Verdict::Deny);
    // Credit 3: seven are missing.
    assert_eq!(b.retry_after_nanos(&q), 3);
    assert_eq!(b.check(&q, 3), Verdict::Deny);
    // Credit 9: one is missing.
    assert_eq!(b.retry_after_nanos(&q), 1);
    assert_eq!(b.check(&q, 4), Verdict::Allow);
}

#[test]
fn the_told_wait_is_enough_and_nothing_less_is() {
    let q = Quota::new(2, 3, 1000).unwrap();
    let mut b = BucketState::full(&q, 0);
    b.check(&q, 0);
    b.check(&q, 0);
    assert_eq!(b.check(&q, 0), Verdict::Deny);
    let wait = b.retry_after_nanos(&q);
    assert_eq!(wait, 334);
    let mut early = b;
    assert_eq!(early.check(&q, wait - 1), Verdict::Deny);
    let mut on_time = b;
    assert_eq!(on_time.check(&q, wait), Verdict::Allow);
}

#[test]
fn idle_is_longer_than_the_threshold() {
    let q = one_per_second(1);
    let b = BucketState::full(&q, 100);
    assert!(!b.is_idle(100, 0));
    assert!(!b.is_idle(150, 50));
    assert!(b.is_idle(151, 50));
    assert!(!b.is_idle(99, 0));
    assert!(b.is_idle(u64::MAX, 5));
}

#[test]
fn of_requests_that_arrive_together_the_tokens_decide() {
    let q = one_per_second(8);
    let mut b = BucketState::full(&q, 0);
    for _ in 0..5 {
        b.check(&q, 0);
    }
    // Three tokens are left for seven requests.
    let mut allowed = 0;
    let mut denied = 0;
    for _ in 0..7 {
        match b.check(&q, 0) {
            Verdict::Allow => allowed += 1,
            Verdict::Deny => denied += 1,
        }
        assert!(b.remaining(&q) <= 8);
    }
    assert_eq!(allowed, 3);
    assert_eq!(denied, 4);
}

#[test]
fn a_bucket_idle_for_its_fill_time_is_as_good_as_new() {
    let q = Quota::new(4, 1, 250).unwrap();
    let mut b = BucketState::full(&q, 0);
    for _ in 0..4 {
        b.check(&q, 10);
    }
    let mut old = b;
    let mut new = BucketState::full(&q, 1011);
    assert_eq!(old.check(&q, 1011), new.check(&q, 1011));
    assert_eq!(old.remaining(&q), new.remaining(&q));
    assert_eq!(old.retry_after_nanos(&q), new.retry_after_nanos(&q));
}
