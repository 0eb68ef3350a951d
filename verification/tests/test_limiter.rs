use voyageai::limiter::{ApiLimiter, RateLimiter};
use voyageai::window::SlidingWindowCounter;

#[test]
fn window_counts_only_recent_events() {
    let mut counter = SlidingWindowCounter::new();
    counter.record(0, 1);
    counter.record(100, 1);
    assert_eq!(counter.count(), 2);
    assert_eq!(counter.sum_weight(), 2);

    // at 60050 the event from t=0 has aged out, the one from t=100 has not
    counter.purge(60_050, 60_000);
    assert_eq!(counter.count(), 1);
    assert_eq!(counter.sum_weight(), 1);

    // at 60100 the event from t=100 has aged out as well: 100 + 60000 is not > 60100
    counter.purge(60_100, 60_000);
    assert_eq!(counter.count(), 0);
    assert_eq!(counter.sum_weight(), 0);
}

#[test]
fn window_wait_until_capacity() {
    let mut counter = SlidingWindowCounter::new();
    counter.record(1_000, 1);
    counter.record(2_000, 1);
    counter.purge(2_000, 60_000);
    // two events against a limit of 2: wait until the oldest leaves the window
    assert_eq!(counter.wait_until_capacity(2_000, 60_000, 2, 1), 1_000 + 60_000 - 2_000);
    // room for one more under a limit of 3
    assert_eq!(counter.wait_until_capacity(2_000, 60_000, 3, 1), 0);
}

#[test]
fn purged_events_no_longer_block() {
    let mut counter = SlidingWindowCounter::new();
    counter.record(0, 1);
    counter.record(10, 1);
    // after both events age out, capacity checks see an empty window
    counter.purge(70_000, 60_000);
    assert_eq!(counter.wait_until_capacity(70_000, 60_000, 2, 1), 0);
    assert_eq!(counter.count(), 0);
}

#[test]
fn dual_constraint_dominance() {
    // count_limit = 2, weight_limit = 100
    let mut limiter = ApiLimiter::new(2, 100);
    limiter.update_usage(1_000, 10);
    limiter.update_usage(1_000, 10);

    // weight dimension alone would admit 5 more units; the count dimension
    // is full, so its wait wins: the max of the two waits is returned
    let wait = limiter.check_limit(1_000, 5);
    assert_eq!(wait, 60_000);

    let rpm_wait = limiter.check_rpm_limit(1_000);
    let tpm_wait = limiter.check_tpm_limit(1_000, 5);
    assert_eq!(rpm_wait, 60_000);
    assert_eq!(tpm_wait, 0);
    assert_eq!(wait, rpm_wait.max(tpm_wait));
}

#[test]
fn weight_dimension_can_dominate() {
    let mut limiter = ApiLimiter::new(10, 100);
    limiter.update_usage(500, 90);
    // one request recorded, so the count side is fine; 90 + 20 > 100 blocks
    let wait = limiter.check_limit(500, 20);
    assert_eq!(wait, 500 + 60_000 - 500);
    assert_eq!(limiter.check_rpm_limit(500), 0);
}

#[test]
fn oversized_usage_is_committed_as_backpressure() {
    let mut limiter = ApiLimiter::new(10, 100);
    // the record is accepted even though it exceeds the weight limit alone
    limiter.update_usage(1_000, 500);
    // a later check reports a long wait rather than an error
    let wait = limiter.check_limit(2_000, 1);
    assert_eq!(wait, 1_000 + 60_000 - 2_000);
}

#[test]
fn categories_do_not_interact() {
    let mut limiter = RateLimiter::new();
    // saturate the reranking category's count limit (100 per minute)
    for _ in 0..100 {
        limiter.update_reranking_usage(1_000, 1);
    }
    let reranking_wait = limiter.check_reranking_limit(1_000, 1);
    assert_eq!(reranking_wait, 60_000);
    // the embeddings category is untouched and admits immediately
    let embeddings_wait = limiter.check_embeddings_limit(1_000, 1);
    assert_eq!(embeddings_wait, 0);
}

#[test]
fn rate_limiter_defaults() {
    let mut limiter = RateLimiter::new();
    assert_eq!(limiter.check_embeddings_limit(0, 0), 0);
    assert_eq!(limiter.check_reranking_limit(0, 0), 0);
    limiter.update_embeddings_usage(0, 123);
    assert_eq!(limiter.check_embeddings_limit(0, 1_000_000), 60_000);
}

#[test]
fn oversized_incoming_on_empty_window_is_admitted() {
    let counter = SlidingWindowCounter::new();
    // nothing recorded: there is no event to wait out, so the caller may
    // proceed and the oversized usage becomes backpressure once committed
    assert_eq!(counter.wait_until_capacity(1_000, 60_000, 5, 10), 0);
}
