use grpc_low_latency_proxy::resilience::ratelimit::{RateLimitConfig, RateLimiter};

#[test]
fn allows_within_burst() {
    let mut limiter = RateLimiter::new(RateLimitConfig {
        per_second: 10,
        burst: 5,
        max_identities: 16,
    });
    let identity = "spiffe://local/ns/default/sa/test";

    for i in 0..5 {
        assert!(limiter.check(identity), "request {i} should be allowed");
    }
}

#[test]
fn rejects_beyond_burst() {
    let mut limiter = RateLimiter::new(RateLimitConfig {
        per_second: 1,
        burst: 2,
        max_identities: 16,
    });
    let identity = "greedy";

    assert!(limiter.check(identity));
    assert!(limiter.check(identity));
    assert!(!limiter.check(identity), "third request exceeds the burst");
    assert_eq!(limiter.rejected, 1);
}

/// One caller exhausting its bucket must not affect anyone else -- the entire point of keying
/// per identity.
#[test]
fn identities_are_isolated() {
    let mut limiter = RateLimiter::new(RateLimitConfig {
        per_second: 1,
        burst: 2,
        max_identities: 16,
    });
    let greedy = "greedy";
    let quiet = "quiet";

    for _ in 0..5 {
        let _ = limiter.check(greedy);
    }
    assert!(!limiter.check(greedy), "greedy caller is limited");
    assert!(limiter.check(quiet), "quiet caller is unaffected");
    assert_eq!(limiter.allowed, 3);
    assert_eq!(limiter.rejected, 4);
}

#[test]
fn settings_of_zero_count_as_one() {
    let mut limiter = RateLimiter::new(RateLimitConfig {
        per_second: 0,
        burst: 0,
        max_identities: 16,
    });
    assert_eq!(limiter.per_second, 1);
    assert_eq!(limiter.burst, 1);
    assert!(limiter.check("someone"));
    assert!(!limiter.check("someone"));
}

#[test]
fn without_a_rate_there_is_no_limit() {
    assert_eq!(RateLimitConfig::from_env(None, Some("5".to_string())), None);
    assert_eq!(
        RateLimitConfig::from_env(Some("many".to_string()), None),
        None
    );
    assert_eq!(
        RateLimitConfig::from_env(Some("100".to_string()), None),
        Some(RateLimitConfig {
            per_second: 100,
            burst: 2_000,
            max_identities: 4_096,
        })
    );
    assert_eq!(
        RateLimitConfig::from_env(Some("100".to_string()), Some("7".to_string())),
        Some(RateLimitConfig {
            per_second: 100,
            burst: 7,
            max_identities: 4_096,
        })
    );
    assert_eq!(RateLimitConfig::default().per_second, 20_000);
}

/// While there is room, no caller's bucket is dropped: a spent burst stays spent, however many
/// others call in between.
#[test]
fn buckets_are_kept_while_there_is_room() {
    let mut limiter = RateLimiter::new(RateLimitConfig {
        per_second: 1,
        burst: 1,
        max_identities: 16,
    });
    assert!(limiter.check("greedy"));
    for i in 0..15 {
        assert!(limiter.check(&format!("caller {i}")));
    }
    assert!(!limiter.check("greedy"));
    assert_eq!(limiter.allowed, 16);
    assert_eq!(limiter.rejected, 1);
}
