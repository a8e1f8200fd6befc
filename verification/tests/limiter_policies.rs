use nanonode::channel::{DropPolicy, TrafficType};
use nanonode::limiter::{should_enqueue, OutboundBandwidthLimiter, TokenBucket};

#[test]
fn token_bucket_drains_and_refills() {
    let mut bucket = TokenBucket::new(100, 10, 0);
    assert!(bucket.try_consume(60, 0));
    assert!(!bucket.try_consume(60, 0));
    // four seconds refill forty tokens: 40 remaining + 40 = 80
    assert!(bucket.try_consume(80, 4));
    assert!(!bucket.try_consume(1, 4));
    // the bucket never grows past its size
    assert!(bucket.try_consume(100, 1000));
    assert!(!bucket.try_consume(1, 1000));
}

#[test]
fn limiter_separates_traffic_classes_and_zero_means_unlimited() {
    let mut limiter = OutboundBandwidthLimiter::new(100, 0, 0, 0, 0);
    assert!(limiter.should_pass(90, TrafficType::Generic, 0));
    assert!(!limiter.should_pass(90, TrafficType::Generic, 0));
    // the bootstrap class is unlimited here
    assert!(limiter.should_pass(1_000_000, TrafficType::Bootstrap, 0));
    assert!(limiter.should_pass(1_000_000, TrafficType::Bootstrap, 0));
}

#[test]
fn drop_policy_decides_what_the_limiter_refused() {
    assert!(!should_enqueue(DropPolicy::Limiter, false));
    assert!(should_enqueue(DropPolicy::Limiter, true));
    assert!(should_enqueue(DropPolicy::NoLimiterDrop, false));
}
