use a2a_bindings::span::Span;
use a2a_bindings::websocket::limits::{
    default_connection_limits, ConnectionLimitPolicy, ConnectionLimits, IdentityConnectionCounter,
};
use a2a_bindings::websocket::liveness::{
    default_liveness, ActivityTracker, Liveness, LivenessPolicy,
};
use a2a_bindings::websocket::ratelimit::{
    admits, default_rate_limit, IdentityRateLimiter, RateLimit, RateLimitPolicy,
    MAX_TRACKED_IDENTITIES,
};
use a2a_bindings::websocket::reconnect::Backoff;

#[test]
fn default_policy_applies_the_default_caps() {
    assert_eq!(ConnectionLimitPolicy::default().limits(), Some(default_connection_limits()));
}

#[test]
fn disabled_policy_yields_no_caps() {
    assert!(ConnectionLimitPolicy::Disabled.limits().is_none());
}

#[test]
fn custom_caps_are_kept() {
    let caps = ConnectionLimits { max_connections_per_identity: 1, max_streams_per_connection: 2 };
    assert_eq!(ConnectionLimitPolicy::Custom(caps).limits(), Some(caps));
}

#[test]
fn connections_are_admitted_up_to_the_cap() {
    let mut counter = IdentityConnectionCounter::new(2);
    let first = counter.try_acquire("alice");
    let second = counter.try_acquire("alice");
    assert!(first.is_some());
    assert!(second.is_some());
    assert!(counter.try_acquire("alice").is_none(), "a third connection must be refused");
}

#[test]
fn dropping_a_slot_frees_capacity() {
    let mut counter = IdentityConnectionCounter::new(1);
    let slot = counter.try_acquire("alice").unwrap();
    assert!(counter.try_acquire("alice").is_none());

    counter.release(slot);
    assert!(
        counter.try_acquire("alice").is_some(),
        "capacity must return when a connection ends"
    );
}

#[test]
fn the_cap_is_per_identity() {
    let mut counter = IdentityConnectionCounter::new(1);
    let _alice = counter.try_acquire("alice").unwrap();
    assert!(
        counter.try_acquire("bob").is_some(),
        "one identity's connections must not exhaust another's budget"
    );
}

#[test]
fn released_identities_are_pruned() {
    let mut counter = IdentityConnectionCounter::new(4);
    let slot = counter.try_acquire("alice").unwrap();
    assert_eq!(counter.count_for("alice"), 1);
    counter.release(slot);
    assert_eq!(
        counter.count_for("alice"),
        0,
        "an identity with no connections must not be retained"
    );
    assert!(counter.is_empty());
}

#[test]
fn a_refused_acquire_does_not_leave_an_entry_behind() {
    let mut counter = IdentityConnectionCounter::new(0);
    assert!(counter.try_acquire("alice").is_none());
    assert!(counter.is_empty(), "refusing a connection must not accumulate state");
}

#[test]
fn default_policy_uses_the_intervals_the_spec_recommends() {
    let liveness = LivenessPolicy::default().liveness().unwrap();
    assert_eq!(liveness, default_liveness());
    assert_eq!(liveness.ping_interval, Span::from_secs(30));
    assert_eq!(liveness.pong_timeout, Span::from_secs(10));
    assert_eq!(liveness.idle_timeout, Span::from_secs(300));
}

#[test]
fn disabled_policy_yields_no_timings() {
    assert!(LivenessPolicy::Disabled.liveness().is_none());
}

#[test]
fn custom_policy_is_returned_verbatim() {
    let custom = Liveness {
        ping_interval: Span::from_secs(1),
        pong_timeout: Span::from_millis(250),
        idle_timeout: Span::from_secs(5),
    };
    assert_eq!(
        LivenessPolicy::Custom(custom).liveness(),
        Some(custom),
        "custom timings must not be silently replaced by the defaults"
    );
}

#[test]
fn recording_a_message_resets_the_idle_clock() {
    let mut activity = ActivityTracker::new();
    assert_eq!(activity.idle_for(30), 30, "idle time must accrue from connection start");
    activity.record_message(30);
    assert_eq!(activity.idle_for(30), 0, "a message must reset the idle clock");
    assert_eq!(activity.idle_for(45), 15);
}

#[test]
fn pong_count_increments_per_pong() {
    let mut activity = ActivityTracker::new();
    assert_eq!(activity.pong_count(), 0);
    activity.record_pong();
    activity.record_pong();
    assert_eq!(activity.pong_count(), 2);
}

#[test]
fn the_default_policy_enforces_a_limit() {
    assert_eq!(RateLimitPolicy::default().limit(), Some(default_rate_limit()));
    assert_eq!(RateLimitPolicy::Disabled.limit(), None);
    assert_eq!(default_rate_limit(), RateLimit::per_second(100));
}

#[test]
fn a_message_is_admitted_by_all_who_count_it() {
    assert!(admits(true, None));
    assert!(admits(true, Some(true)));
    assert!(!admits(true, Some(false)));
    assert!(!admits(false, None));
    assert!(!admits(false, Some(true)));
}

/// A bucket of whole tokens, which is enough to see who shares it.
fn consume(limiter: &mut IdentityRateLimiter<u32>, identity: &str) -> bool {
    let limit = limiter.limit().max_messages;
    let tokens = limiter.take(identity).unwrap_or(limit);
    let admitted = tokens > 0;
    limiter.put(identity, tokens.saturating_sub(1));
    admitted
}

#[test]
fn identity_limit_is_shared_across_connections() {
    let mut shared = IdentityRateLimiter::new(RateLimit::per_second(3));
    assert!(admits(true, Some(consume(&mut shared, "alice"))));
    assert!(admits(true, Some(consume(&mut shared, "alice"))));
    assert!(admits(true, Some(consume(&mut shared, "alice"))));
    assert!(
        !admits(true, Some(consume(&mut shared, "alice"))),
        "identity budget is exhausted"
    );
}

#[test]
fn identities_are_limited_independently() {
    let mut shared = IdentityRateLimiter::new(RateLimit::per_second(1));
    assert!(consume(&mut shared, "alice"));
    assert!(!consume(&mut shared, "alice"));
    assert!(consume(&mut shared, "bob"), "bob has his own budget");
}

#[test]
fn recovered_identity_buckets_are_pruned() {
    let mut limiter: IdentityRateLimiter<u32> = IdentityRateLimiter::new(RateLimit::per_second(1));
    for i in 0..4 {
        limiter.put(&format!("user-{i}"), i % 2);
    }
    assert!(!limiter.needs_pruning());
    assert!(limiter.tracked_count() < MAX_TRACKED_IDENTITIES);
    let recovered: Vec<bool> = (0..limiter.tracked_count()).map(|i| *limiter.bucket_at(i) == 1).collect();
    limiter.prune(&recovered);
    assert_eq!(limiter.tracked_count(), 2);
    assert_eq!(limiter.take("user-0"), Some(0));
    assert_eq!(limiter.take("user-2"), Some(0));
    assert_eq!(limiter.take("user-1"), None);
}

/// Doubling delays from `initial_ms` up to `max_ms`.
fn exact(initial_ms: u64, max_ms: u64) -> Backoff {
    Backoff {
        initial: Span::from_millis(initial_ms),
        max: Span::from_millis(max_ms),
        multiplier: 2,
        max_attempts: None,
    }
}

#[test]
fn the_default_schedule_matches_the_spec_recommendation() {
    assert_eq!(Backoff::default().initial, Span::from_secs(1));
    assert_eq!(Backoff::default().max, Span::from_secs(30));
}

#[test]
fn delays_grow_geometrically() {
    let backoff = exact(100, 10_000);
    assert_eq!(backoff.base_delay(1), Span::from_millis(100));
    assert_eq!(backoff.base_delay(2), Span::from_millis(200));
    assert_eq!(backoff.base_delay(3), Span::from_millis(400));
    assert_eq!(backoff.base_delay(4), Span::from_millis(800));
}

#[test]
fn delays_are_capped() {
    let backoff = exact(1_000, 3_000);
    assert_eq!(backoff.base_delay(1), Span::from_millis(1_000));
    assert_eq!(backoff.base_delay(2), Span::from_millis(2_000));
    assert_eq!(
        backoff.base_delay(3),
        Span::from_millis(3_000),
        "the delay must saturate at `max`"
    );
    assert_eq!(backoff.base_delay(50), Span::from_millis(3_000));
}

#[test]
fn a_long_outage_does_not_overflow_the_delay() {
    let backoff = Backoff {
        initial: Span::from_secs(1),
        max: Span::from_secs(30),
        multiplier: 1_000,
        max_attempts: None,
    };
    assert_eq!(backoff.base_delay(u32::MAX), Span::from_secs(30));
}

#[test]
fn attempts_are_bounded_when_a_maximum_is_set() {
    let backoff = Backoff { max_attempts: Some(3), ..exact(1, 1) };
    assert!(backoff.allows(1));
    assert!(backoff.allows(3));
    assert!(!backoff.allows(4));
}

#[test]
fn attempts_are_unbounded_without_a_maximum() {
    let backoff = exact(1, 1);
    assert!(backoff.allows(u32::MAX));
}

#[test]
fn spans_are_counted_in_nanoseconds() {
    assert_eq!(Span::from_secs(2).as_nanos(), 2_000_000_000);
    assert_eq!(Span::from_millis(3).as_nanos(), 3_000_000);
    assert_eq!(Span::from_nanos(5).unwrap().as_nanos(), 5);
    assert!(Span::from_nanos(u128::MAX).is_none());
}
