use grpc_low_latency_proxy::resilience::breaker::{
    read_ratio, BreakerConfig, CircuitBreaker, Ratio, State, NANOS_PER_SEC,
};

const MILLI: u128 = 1_000_000;

fn breaker() -> CircuitBreaker {
    CircuitBreaker::new(
        BreakerConfig {
            failure_ratio: Ratio {
                numerator: 1,
                denominator: 2,
            },
            minimum_requests: 4,
            window: 60 * NANOS_PER_SEC,
            cooldown: 50 * MILLI,
            probe_successes: 2,
        },
        0,
    )
}

#[test]
fn starts_closed_and_allows() {
    let mut b = breaker();
    assert_eq!(b.state(), State::Closed);
    assert!(b.allow(0));
}

/// Below the minimum request count the ratio is not trusted, so a single failure -- a 100%
/// failure rate on one sample -- must not trip the breaker.
#[test]
fn does_not_trip_below_minimum_requests() {
    let mut b = breaker();
    b.record_failure(0);
    assert_eq!(b.state(), State::Closed);
}

#[test]
fn trips_once_ratio_and_minimum_are_met() {
    let mut b = breaker();
    for _ in 0..2 {
        b.record_success(0);
    }
    for _ in 0..2 {
        b.record_failure(0);
    }
    assert_eq!(b.state(), State::Open);
    assert!(!b.allow(0), "open circuit must reject");
}

#[test]
fn recovers_through_half_open() {
    let mut b = breaker();
    for _ in 0..2 {
        b.record_success(0);
    }
    for _ in 0..2 {
        b.record_failure(0);
    }
    assert_eq!(b.state(), State::Open);

    let now = 60 * MILLI;

    assert!(b.allow(now), "cooldown elapsed, should probe");
    assert_eq!(b.state(), State::HalfOpen);

    b.record_success(now);
    b.record_success(now);
    assert_eq!(b.state(), State::Closed);
}

#[test]
fn failed_probe_reopens() {
    let mut b = breaker();
    for _ in 0..2 {
        b.record_success(0);
    }
    for _ in 0..2 {
        b.record_failure(0);
    }
    let now = 60 * MILLI;
    assert!(b.allow(now));
    assert_eq!(b.state(), State::HalfOpen);

    b.record_failure(now);
    assert_eq!(b.state(), State::Open);
}

/// A healthy service must never trip, however many requests it serves.
#[test]
fn sustained_success_never_trips() {
    let mut b = breaker();
    for _ in 0..1000 {
        b.record_success(0);
    }
    assert_eq!(b.state(), State::Closed);
}

#[test]
fn trips_and_rejections_are_counted() {
    let mut b = breaker();
    for _ in 0..4 {
        b.record_failure(7);
    }
    assert_eq!(b.state(), State::Open);
    assert_eq!(b.trips, 1);
    assert_eq!(b.window.opened_at, Some(7));
    assert!(!b.allow(7 + 50 * MILLI - 1));
    assert!(!b.allow(0));
    assert_eq!(b.rejected, 2);
    assert!(b.allow(7 + 50 * MILLI));
    assert_eq!(b.rejected, 2);
}

#[test]
fn a_failed_probe_restarts_the_cooldown() {
    let mut b = breaker();
    for _ in 0..4 {
        b.record_failure(0);
    }
    assert!(b.allow(50 * MILLI));
    b.record_success(51 * MILLI);
    b.record_failure(52 * MILLI);
    assert_eq!(b.trips, 2);
    assert!(!b.allow(101 * MILLI));
    assert!(b.allow(102 * MILLI));
    b.record_success(103 * MILLI);
    assert_eq!(b.state(), State::HalfOpen);
    b.record_success(104 * MILLI);
    assert_eq!(b.state(), State::Closed);
    assert_eq!(b.window.successes, 0);
    assert_eq!(b.window.failures, 0);
    assert_eq!(b.window.started, 104 * MILLI);
}

#[test]
fn outcomes_older_than_the_window_do_not_count() {
    let mut b = breaker();
    for _ in 0..3 {
        b.record_failure(0);
    }
    b.record_failure(60 * NANOS_PER_SEC);
    assert_eq!(b.state(), State::Closed);
    assert_eq!(b.window.failures, 1);
    assert_eq!(b.window.successes, 0);
}

#[test]
fn below_the_ratio_the_circuit_stays_closed() {
    let mut b = breaker();
    for _ in 0..4 {
        b.record_success(0);
    }
    for _ in 0..3 {
        b.record_failure(0);
    }
    assert_eq!(b.state(), State::Closed);
    b.record_failure(0);
    assert_eq!(b.state(), State::Open);
    assert!(b.has_room());
}

#[test]
fn states_have_numbers_and_names() {
    assert_eq!(State::Closed.as_u8(), 0);
    assert_eq!(State::Open.as_u8(), 1);
    assert_eq!(State::HalfOpen.as_u8(), 2);
    assert_eq!(State::from_u8(0), State::Closed);
    assert_eq!(State::from_u8(1), State::Open);
    assert_eq!(State::from_u8(2), State::HalfOpen);
    assert_eq!(State::from_u8(200), State::Closed);
    assert_eq!(State::Closed.as_str(), "closed");
    assert_eq!(State::Open.as_str(), "open");
    assert_eq!(State::HalfOpen.as_str(), "half_open");
}

#[test]
fn settings_fall_back_one_by_one() {
    let config = BreakerConfig::from_env(None, None, None, None, None);
    assert_eq!(config, BreakerConfig::default());
    assert_eq!(config.minimum_requests, 20);
    assert_eq!(config.window, 10 * NANOS_PER_SEC);
    assert_eq!(config.cooldown, 5 * NANOS_PER_SEC);
    assert_eq!(config.probe_successes, 3);

    let ratio = Ratio {
        numerator: 3,
        denominator: 4,
    };
    let config = BreakerConfig::from_env(
        Some(ratio),
        Some("7".to_string()),
        Some("not a number".to_string()),
        Some("2".to_string()),
        Some("4294967296".to_string()),
    );
    assert_eq!(config.failure_ratio, ratio);
    assert_eq!(config.minimum_requests, 7);
    assert_eq!(config.window, 10 * NANOS_PER_SEC);
    assert_eq!(config.cooldown, 2 * NANOS_PER_SEC);
    assert_eq!(config.probe_successes, 3);
}

/// Trips are the times that the circuit has opened: a failure that comes in while it is open opens
/// nothing.
#[test]
fn trips_are_the_times_it_opened() {
    let mut b = breaker();
    for _ in 0..6 {
        b.record_failure(0);
    }
    assert_eq!(b.trips, 1);
    assert!(b.allow(60 * MILLI));
    assert_eq!(b.trips, 1);
    b.record_failure(60 * MILLI);
    assert_eq!(b.state(), State::Open);
    assert_eq!(b.trips, 2);
    b.record_success(61 * MILLI);
    assert_eq!(b.trips, 2);
}

/// A half-open circuit lets a limited number of requests through.
#[test]
fn probes_are_limited() {
    let mut b = breaker();
    for _ in 0..4 {
        b.record_failure(0);
    }
    let now = 60 * MILLI;
    assert!(b.would_allow(now));
    assert!(b.allow(now));
    assert!(b.allow(now));
    assert!(!b.would_allow(now));
    assert!(!b.allow(now));
    assert!(!b.allow(10 * NANOS_PER_SEC));
    assert_eq!(b.rejected, 2);
    assert_eq!(b.window.probes_out, 2);
    b.record_success(now);
    assert!(b.allow(now));
    assert!(!b.allow(now));
    b.abandon();
    assert!(b.allow(now));
    b.record_success(now);
    assert_eq!(b.state(), State::Closed);
    assert_eq!(b.window.probes_out, 0);
    assert!(b.allow(now));
}

#[test]
fn ratios_are_plain_decimal_numbers() {
    let ratio = |numerator, denominator| {
        Some(Ratio {
            numerator,
            denominator,
        })
    };
    assert_eq!(read_ratio("0.5"), ratio(5, 10));
    assert_eq!(read_ratio("1"), ratio(1, 1));
    assert_eq!(read_ratio("0.125"), ratio(125, 1000));
    assert_eq!(
        read_ratio("0.000000000000000001"),
        ratio(1, 1_000_000_000_000_000_000)
    );
    for text in ["", ".", ".5", "5.", "0.5.5", "1e-3", "-0.5", "0.0000000000000000001"] {
        assert_eq!(read_ratio(text), None);
    }
}
