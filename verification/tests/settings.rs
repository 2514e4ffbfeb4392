use grpc_low_latency_proxy::grpc::pooled::Admission;
use grpc_low_latency_proxy::cache::CacheMetrics;
use grpc_low_latency_proxy::crypto::Mechanism;
use grpc_low_latency_proxy::pkcs11::metrics::PoolMetrics;
use grpc_low_latency_proxy::pkcs11::provision::{
    demo_keys, ensure_aes_key, ensure_demo_key, ensure_ec_key, ensure_rsa_key, provisioned,
    DemoKey, Generation, Provisioned,
};
use grpc_low_latency_proxy::pkcs11::token::{
    Attribute, AttributeType, KeyType, ObjectClass, ObjectHandle,
};
use grpc_low_latency_proxy::resilience::breaker::{BreakerConfig, CircuitBreaker};
use grpc_low_latency_proxy::settings::{
    or_default, proxy_mode, tls_enabled, AdmissionConfig, Mode, LISTEN_ADDR,
};
use grpc_low_latency_proxy::status::Code;
use grpc_low_latency_proxy::telemetry::{
    describe, internal_buckets_micros, record, request_buckets_micros, MetricKind, Sampler,
};
use grpc_low_latency_proxy::text::{
    contains, decimal_int_text, decimal_text, hex, parse_unsigned, read_numbers, same_text,
};
use grpc_low_latency_proxy::token_check::{
    check_protection, expected_key_pairs, expected_secret_keys, key_pair_note,
    protection_attributes, require_pair, signing_probe, verdict, write_probe,
};
use sha2::Digest;

fn some(text: &str) -> Option<String> {
    Some(text.to_string())
}

#[test]
fn the_mode_is_pool_or_single() {
    assert!(matches!(proxy_mode(None), Ok(Mode::Pool)));
    assert!(matches!(proxy_mode(some("pool")), Ok(Mode::Pool)));
    assert!(matches!(proxy_mode(some("single")), Ok(Mode::Single)));
    match proxy_mode(some("Pool")) {
        Ok(_) => panic!("modes are written in lower case"),
        Err(message) => assert_eq!(
            message,
            "PROXY_MODE must be 'pool' or 'single', got 'Pool'"
        ),
    }
}

#[test]
fn tls_is_on_unless_it_is_turned_off() {
    assert!(tls_enabled(&None));
    assert!(tls_enabled(&some("on")));
    assert!(tls_enabled(&some("OFF")));
    assert!(!tls_enabled(&some("off")));
    assert_eq!(or_default(None, LISTEN_ADDR), "0.0.0.0:50051");
    assert_eq!(or_default(some("x"), LISTEN_ADDR), "x");
}

#[test]
fn admission_limits_are_optional() {
    assert_eq!(
        AdmissionConfig::from_env(None, some("x"), None),
        AdmissionConfig {
            max_concurrent_streams: None,
            concurrency_limit_per_connection: None,
            request_timeout_ms: None,
        }
    );
    assert_eq!(
        AdmissionConfig::from_env(some("100"), some("32"), some("2")),
        AdmissionConfig {
            max_concurrent_streams: Some(100),
            concurrency_limit_per_connection: Some(32),
            request_timeout_ms: Some(2),
        }
    );
    assert_eq!(
        AdmissionConfig::from_env(some("4294967296"), None, None).max_concurrent_streams,
        None
    );
}

#[test]
fn numbers_are_read_as_they_are_written() {
    for text in ["", "+", "-1", " 1", "1 ", "0x10", "1_000", "ten", "++1"] {
        assert_eq!(parse_unsigned(text, u64::MAX), None, "{text:?}");
    }
    assert_eq!(parse_unsigned("0", u64::MAX), Some(0));
    assert_eq!(parse_unsigned("+7", u64::MAX), Some(7));
    assert_eq!(parse_unsigned("007", u64::MAX), Some(7));
    assert_eq!(
        parse_unsigned("18446744073709551615", u64::MAX),
        Some(u64::MAX)
    );
    assert_eq!(parse_unsigned("18446744073709551616", u64::MAX), None);
    assert_eq!(parse_unsigned("99999999999999999999999", u64::MAX), None);
    assert_eq!(parse_unsigned("256", 255), None);
    assert_eq!(parse_unsigned("255", 255), Some(255));
    for n in [0, 9, 10, 1234567890, u64::MAX] {
        assert_eq!(decimal_text(n), n.to_string());
        assert_eq!(parse_unsigned(&n.to_string(), u64::MAX), Some(n));
    }
    for n in [0, -1, i32::MIN, i32::MAX] {
        assert_eq!(decimal_int_text(n), n.to_string());
    }
}

#[test]
fn lists_of_numbers_pass_over_other_words() {
    assert_eq!(
        read_numbers("1 2 4 6 8 12 16", u64::MAX),
        vec![1, 2, 4, 6, 8, 12, 16]
    );
    assert_eq!(
        read_numbers("  3\t\tx 5\u{2003}6\n300 ", 255),
        vec![3, 5, 6]
    );
    assert_eq!(read_numbers("", 255), Vec::<u64>::new());
}

#[test]
fn texts_are_searched_and_bytes_are_written() {
    assert!(contains("demo-rsa-2048", "rsa"));
    assert!(contains("rsa", "rsa"));
    assert!(contains("x", ""));
    assert!(!contains("demo-ec-p256", "rsa"));
    assert!(!contains("rs", "rsa"));
    assert!(same_text("a", "a"));
    assert!(!same_text("a", "A"));
    assert_eq!(hex(&[]), "");
    assert_eq!(hex(&[0x00, 0x0f, 0xa5, 0xff]), "000fa5ff");
}

#[test]
fn keys_are_generated_where_there_are_none() {
    match ensure_ec_key(&vec![], "k") {
        Some(Generation::EcKeyPair { public, private }) => {
            assert!(public
                .iter()
                .any(|a| matches!(a, Attribute::KeyType(KeyType::Ec))));
            assert!(public.iter().any(
                |a| matches!(a, Attribute::EcParams(oid) if oid == &[0x06, 0x08, 0x2A, 0x86, 0x48, 0xCE, 0x3D, 0x03, 0x01, 0x07])
            ));
            assert!(private
                .iter()
                .any(|a| matches!(a, Attribute::Label(label) if label == b"k")));
            assert!(check_protection(&private).is_ok());
        }
        other => panic!("{other:?}"),
    }
    match ensure_rsa_key(&vec![], "k") {
        Some(Generation::RsaKeyPair { public, private }) => {
            assert!(public
                .iter()
                .any(|a| matches!(a, Attribute::ModulusBits(2048))));
            assert!(public
                .iter()
                .any(|a| matches!(a, Attribute::PublicExponent(e) if e == &[1, 0, 1])));
            assert!(private
                .iter()
                .any(|a| matches!(a, Attribute::Decrypt(true))));
            assert!(check_protection(&private).is_ok());
        }
        other => panic!("{other:?}"),
    }
    match ensure_aes_key(&vec![], "k") {
        Some(Generation::AesKey { template }) => {
            assert!(template.iter().any(|a| matches!(a, Attribute::ValueLen(32))));
            assert!(check_protection(&template).is_ok());
        }
        other => panic!("{other:?}"),
    }
}

#[test]
fn provisioning_is_idempotent() {
    let there = vec![ObjectHandle { id: 1 }];
    for key in demo_keys() {
        let plan = ensure_demo_key(key, &there);
        assert!(plan.is_none());
        assert_eq!(provisioned(&plan), Provisioned::AlreadyPresent);
        let plan = ensure_demo_key(key, &vec![]);
        assert!(plan.is_some());
        assert_eq!(provisioned(&plan), Provisioned::Created);
    }
    assert_eq!(
        demo_keys().iter().map(|k| k.label()).collect::<Vec<_>>(),
        vec!["demo-ec-p256", "demo-rsa-2048", "demo-aes-256"]
    );
    assert_eq!(DemoKey::Ec.object_class(), ObjectClass::PrivateKey);
    assert_eq!(DemoKey::Aes.object_class(), ObjectClass::SecretKey);
}

#[test]
fn unprotected_keys_are_reported() {
    assert_eq!(
        check_protection(&vec![
            Attribute::Sensitive(true),
            Attribute::Extractable(false)
        ]),
        Ok(())
    );
    assert_eq!(
        check_protection(&vec![
            Attribute::Sensitive(false),
            Attribute::Extractable(true)
        ]),
        Err("private key is CKA_SENSITIVE=false")
    );
    assert_eq!(
        check_protection(&vec![
            Attribute::Sensitive(true),
            Attribute::Extractable(true)
        ]),
        Err("private key is CKA_EXTRACTABLE=true")
    );
    assert_eq!(
        protection_attributes(),
        vec![AttributeType::Sensitive, AttributeType::Extractable]
    );
}

#[test]
fn a_token_check_tries_the_keys_out() {
    assert_eq!(expected_key_pairs(), vec!["demo-ec-p256", "demo-rsa-2048"]);
    assert_eq!(expected_secret_keys(), vec!["demo-aes-256"]);
    assert_eq!(
        signing_probe("demo-rsa-2048", b"token-check"),
        (Mechanism::Sha256RsaPkcs, b"token-check".to_vec())
    );
    assert_eq!(
        signing_probe("demo-ec-p256", b"token-check"),
        (
            Mechanism::Ecdsa,
            sha2::Sha256::digest(b"token-check").to_vec()
        )
    );
    assert_eq!(
        key_pair_note(64),
        "sensitive, non-extractable, signs ok (64 byte signature)"
    );
    let one = vec![ObjectHandle { id: 1 }];
    assert_eq!(
        require_pair(&one, &vec![]),
        Err("key pair not found; did softhsm-init run?")
    );
    assert_eq!(require_pair(&one, &one), Ok((one[0], one[0])));
    let probe = write_probe();
    assert_eq!(probe.len(), 5);
    assert!(matches!(probe[0], Attribute::Class(ObjectClass::Data)));
    assert!(matches!(probe[1], Attribute::Token(false)));
    assert!(matches!(&probe[3], Attribute::Label(l) if l == b"token-check-probe"));
    assert!(matches!(&probe[4], Attribute::Value(v) if v == b"probe"));
}

#[test]
fn a_token_check_names_every_failure() {
    assert_eq!(verdict(&vec![]), Ok(()));
    assert_eq!(
        verdict(&vec!["a: not found".to_string(), "b: broken".to_string()]),
        Err("token-check failed:\n  - a: not found\n  - b: broken".to_string())
    );
}

#[test]
fn requests_are_recorded_by_their_result() {
    let allowed = ("hsm_authz_allowed_total", true);
    let r = record(Admission::Permitted, None);
    assert_eq!(r.result, "ok");
    assert_eq!(r.counters, vec![allowed]);
    let r = record(Admission::OverLimit, Some(Code::ResourceExhausted));
    assert_eq!(r.result, "Some resource has been exhausted");
    assert_eq!(r.counters, vec![allowed, ("hsm_rate_limited_total", true)]);
    let r = record(Admission::Denied, Some(Code::PermissionDenied));
    assert_eq!(
        r.result,
        "The caller does not have permission to execute the specified operation"
    );
    assert_eq!(r.counters, vec![("hsm_authz_denied_total", true)]);
    let r = record(Admission::Unidentified, Some(Code::Unauthenticated));
    assert_eq!(
        r.result,
        "The request does not have valid authentication credentials"
    );
    assert_eq!(r.counters, vec![("hsm_unauthenticated_total", false)]);
    let shed = record(Admission::Permitted, Some(Code::ResourceExhausted));
    assert_eq!(shed.counters, vec![allowed]);
    assert_eq!(record(Admission::Unchecked, None).counters, vec![]);
    for (code, text) in [
        (
            Code::InvalidArgument,
            "Client specified an invalid argument",
        ),
        (
            Code::DeadlineExceeded,
            "Deadline expired before operation could complete",
        ),
        (Code::NotFound, "Some requested entity was not found"),
        (Code::Internal, "Internal error"),
        (Code::Unavailable, "The service is currently unavailable"),
    ] {
        assert_eq!(record(Admission::CircuitOpen, Some(code)).result, text);
        assert_eq!(record(Admission::CircuitOpen, Some(code)).counters, vec![]);
        assert_eq!(record(Admission::Permitted, Some(code)).counters, vec![allowed]);
    }
}

#[test]
fn every_metric_is_described_once() {
    let all = describe();
    assert_eq!(all.len(), 17);
    for (i, a) in all.iter().enumerate() {
        assert!(a.name.starts_with("hsm_"));
        for b in &all[..i] {
            assert_ne!(a.name, b.name);
        }
    }
    assert_eq!(
        all.iter()
            .filter(|d| d.kind == MetricKind::Histogram)
            .map(|d| d.name)
            .collect::<Vec<_>>(),
        vec![
            "hsm_request_duration_seconds",
            "hsm_queue_wait_seconds",
            "hsm_service_duration_seconds"
        ]
    );
    assert_eq!(
        all[14].text,
        "Circuit breaker: 0 closed, 1 open, 2 half-open"
    );
    assert_eq!(request_buckets_micros()[8], 2_000);
    assert_eq!(request_buckets_micros().len(), 18);
    assert_eq!(internal_buckets_micros()[0], 10);
    assert_eq!(internal_buckets_micros().len(), 13);
}

/// What the samples add up to is the total at the last one.
#[test]
fn samples_add_up_to_the_total() {
    let mut sampler = Sampler::new();
    let breaker = CircuitBreaker::new(BreakerConfig::default(), 0);
    let mut cache = CacheMetrics::default();
    let mut pool = PoolMetrics::default();
    let mut hits = 0;
    let mut shed = 0;
    for total in [0, 3, 3, 10, 11] {
        cache.hits = total;
        pool.jobs_rejected_queue_full = 2 * total;
        let sample = sampler.sample(&cache, &pool, &breaker);
        hits += sample.hits;
        shed += sample.shed;
        assert_eq!(hits, total);
        assert_eq!(shed, 2 * total);
        assert_eq!(sample.misses, 0);
        assert_eq!(sample.breaker_state, 0);
        assert_eq!(sample.breaker_trips, 0);
    }
    cache.hits = 1;
    assert_eq!(sampler.sample(&cache, &pool, &breaker).hits, 0);
}

/// White space is what has the Unicode property of that name.
#[test]
fn white_space_separates_numbers() {
    let white = [
        0x09..=0x0d,
        0x20..=0x20,
        0x85..=0x85,
        0xa0..=0xa0,
        0x1680..=0x1680,
        0x2000..=0x200a,
        0x2028..=0x2029,
        0x202f..=0x202f,
        0x205f..=0x205f,
        0x3000..=0x3000,
    ];
    for code in 0..=0x10ffffu32 {
        if let Some(c) = char::from_u32(code) {
            let listed = white.iter().any(|range| range.contains(&code));
            assert_eq!(c.is_whitespace(), listed);
            if code < 0x4000 && !c.is_ascii_digit() {
                let numbers = read_numbers(&format!("1{c}2"), 9);
                assert_eq!(numbers, if listed { vec![1, 2] } else { vec![] });
            }
        }
    }
}
