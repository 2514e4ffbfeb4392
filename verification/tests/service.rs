use grpc_low_latency_proxy::authz::authorizer::Authorizer;
use grpc_low_latency_proxy::authz::policy::Policy;
use grpc_low_latency_proxy::cache::{
    loaded, CacheConfig, CacheMetrics, CachedPublicKey, Lookup,
};
use grpc_low_latency_proxy::crypto::{
    public_key_to_spki_der, Mechanism, PublicKeyKind, SignAlgorithm, SigningInput,
};
use grpc_low_latency_proxy::grpc::pooled::{encryption, to_status, Admission, PooledService};
use grpc_low_latency_proxy::grpc::service;
use grpc_low_latency_proxy::pkcs11::errors::PoolError;
use grpc_low_latency_proxy::pkcs11::job::{JobRequest, JobResponse};
use grpc_low_latency_proxy::pkcs11::token::{
    Attribute, KeyType, KeyTypeAnswer, ObjectHandle, Rv, TokenError,
};
use grpc_low_latency_proxy::pkcs11::metrics::PoolMetrics;
use grpc_low_latency_proxy::pkcs11::worker::{CipherFailure, Step, Worker};
use grpc_low_latency_proxy::resilience::breaker::{BreakerConfig, CircuitBreaker, Ratio, State};
use grpc_low_latency_proxy::resilience::ratelimit::{RateLimitConfig, RateLimiter};
use grpc_low_latency_proxy::status::{Code, Status};
use grpc_low_latency_proxy::wire::{
    CipherMechanism, DecryptRequest, EncryptRequest, SignRequest, SignatureMechanism,
};
use p256::ecdsa::signature::hazmat::PrehashSigner;
use rand::rngs::OsRng;
use sha2::Digest;

const POLICY: &str = r#"
[[workloads]]
identity = "alice"
grants = [
    { key_label = "k", operations = ["sign", "verify", "encrypt", "decrypt", "get_public_key"] },
]

[[workloads]]
identity = "bob"
grants = [{ key_label = "k", operations = ["verify"] }]
"#;

fn breaker() -> CircuitBreaker {
    CircuitBreaker::new(
        BreakerConfig {
            failure_ratio: Ratio {
                numerator: 1,
                denominator: 2,
            },
            minimum_requests: 2,
            window: 1_000,
            cooldown: 100,
            probe_successes: 1,
        },
        0,
    )
}

fn authorizer() -> Authorizer {
    match Policy::parse(POLICY) {
        Ok(policy) => Authorizer::new(policy),
        Err(_) => panic!("this is a policy file"),
    }
}

fn limiter(burst: u32) -> RateLimiter {
    RateLimiter::new(RateLimitConfig {
        per_second: 1,
        burst,
        max_identities: 16,
    })
}

fn open_to_all() -> PooledService {
    PooledService::new(None, None, breaker())
}

fn guarded(burst: u32) -> PooledService {
    PooledService::new(Some(authorizer()), Some(limiter(burst)), breaker())
}

fn someone(name: &str) -> Result<String, Status> {
    Ok(name.to_string())
}

fn nobody() -> Result<String, Status> {
    Err(Status {
        code: Code::Unauthenticated,
        message: "no client certificate".to_string(),
    })
}

fn sign_request(input: Option<SigningInput>) -> SignRequest {
    SignRequest {
        key_label: "k".to_string(),
        mechanism: 1,
        input,
    }
}

fn message() -> Option<SigningInput> {
    Some(SigningInput::Message(b"m".to_vec()))
}

fn told<T>(result: Result<T, Status>) -> (Code, String) {
    match result {
        Ok(_) => panic!("a refusal was expected"),
        Err(status) => (status.code, status.message),
    }
}

fn refusal(code: Code, text: &str) -> (Code, String) {
    (code, text.to_string())
}

fn failed(rv: Rv) -> TokenError {
    TokenError {
        rv,
        text: "a secret of the token".to_string(),
    }
}

#[test]
fn a_request_without_guards_becomes_a_job() {
    let mut s = open_to_all();
    match s.begin_sign(0, nobody(), sign_request(message())).1 {
        Ok(JobRequest::Sign {
            key_label,
            algorithm,
            payload,
        }) => {
            assert_eq!(key_label, "k");
            assert_eq!(algorithm, SignAlgorithm::Ecdsa);
            assert_eq!(payload, sha2::Sha256::digest(b"m").to_vec());
        }
        other => panic!("{other:?}"),
    }
    assert_eq!(
        told(s.begin_sign(0, nobody(), sign_request(None)).1),
        refusal(
            Code::InvalidArgument,
            "input must be set to either message or digest"
        )
    );
    let mut request = sign_request(message());
    request.mechanism = 12;
    assert_eq!(
        told(s.begin_sign(0, nobody(), request).1),
        refusal(Code::InvalidArgument, "unknown signature mechanism 12")
    );
}

#[test]
fn callers_are_checked_against_the_policy() {
    let mut s = guarded(100);
    assert!(s
        .begin_sign(0, someone("alice"), sign_request(message())).1
        .is_ok());
    assert_eq!(
        told(s.begin_sign(0, someone("bob"), sign_request(message())).1),
        refusal(
            Code::PermissionDenied,
            "identity 'bob' is not permitted to sign key 'k'"
        )
    );
    assert_eq!(
        told(s.begin_sign(0, nobody(), sign_request(message())).1),
        refusal(Code::Unauthenticated, "no client certificate")
    );
    assert!(s
        .begin_verify(0, someone("bob"), "k", message()).1
        .is_ok());
    assert_eq!(
        told(s.begin_get_public_key(0, someone("bob"), "k").1),
        refusal(
            Code::PermissionDenied,
            "identity 'bob' is not permitted to get_public_key key 'k'"
        )
    );
}

/// An unpermitted caller must not be able to spend a permitted identity's tokens, nor anyone's.
#[test]
fn refused_callers_spend_no_tokens() {
    let mut s = guarded(2);
    for _ in 0..5 {
        assert_eq!(
            told(s.begin_sign(0, someone("bob"), sign_request(message())).1).0,
            Code::PermissionDenied
        );
    }
    assert!(s.begin_verify(0, someone("bob"), "k", message()).1.is_ok());
    assert!(s.begin_verify(0, someone("bob"), "k", message()).1.is_ok());
    assert_eq!(
        told(s.begin_verify(0, someone("bob"), "k", message()).1),
        refusal(
            Code::ResourceExhausted,
            "rate limit exceeded for this workload identity"
        )
    );
    assert!(s
        .begin_sign(0, someone("alice"), sign_request(message())).1
        .is_ok());
}

#[test]
fn an_open_circuit_refuses_before_anything_else() {
    let mut s = guarded(100);
    for _ in 0..2 {
        let outcome = s.finish_sign(10, "k".to_string(), Err(PoolError::Timeout));
        assert_eq!(
            told(outcome),
            refusal(Code::DeadlineExceeded, "timed out waiting for a worker")
        );
    }
    assert_eq!(s.breaker.state(), State::Open);
    assert_eq!(
        told(s.begin_sign(20, nobody(), sign_request(None)).1),
        refusal(
            Code::Unavailable,
            "circuit breaker is open; the HSM is failing. Retry after backoff."
        )
    );
    match &s.authorizer {
        Some(authorizer) => assert_eq!(authorizer.metrics().unauthenticated_total, 0),
        None => panic!("the service has an authorizer"),
    }
    assert!(s
        .begin_sign(110, someone("alice"), sign_request(message())).1
        .is_ok());
    assert_eq!(s.breaker.state(), State::HalfOpen);
}

/// Faults of the caller and overload are no faults of the token.
#[test]
fn callers_cannot_trip_the_circuit() {
    let mut s = open_to_all();
    for error in [
        PoolError::KeyNotFound("k".to_string()),
        PoolError::InvalidRequest("nonsense".to_string()),
        PoolError::Overloaded,
        PoolError::ShuttingDown,
    ] {
        for _ in 0..3 {
            assert!(s.finish_decrypt(0, Err(error.clone())).is_err());
            assert!(s
                .finish_get_public_key(0, "k", Err(error.clone()))
                .is_err());
        }
    }
    assert_eq!(s.breaker.state(), State::Closed);
    assert_eq!(s.breaker.window.failures, 0);
    assert_eq!(s.breaker.window.successes, 24);
}

#[test]
fn failures_of_the_pool_have_their_statuses() {
    assert_eq!(
        told::<()>(Err(to_status(PoolError::KeyNotFound("k".to_string())))),
        refusal(Code::NotFound, "no key labelled 'k' on the token")
    );
    assert_eq!(
        told::<()>(Err(to_status(PoolError::InvalidRequest("x".to_string())))),
        refusal(Code::InvalidArgument, "x")
    );
    assert_eq!(
        told::<()>(Err(to_status(PoolError::Overloaded))),
        refusal(
            Code::ResourceExhausted,
            "request queue is full; retry after backing off"
        )
    );
    assert_eq!(
        told::<()>(Err(to_status(PoolError::ShuttingDown))),
        refusal(Code::Unavailable, "server is shutting down")
    );
    assert_eq!(
        told::<()>(Err(to_status(PoolError::hsm(
            "C_Sign",
            failed(Rv::DeviceError)
        )))),
        refusal(Code::Internal, "C_Sign failed")
    );
    assert_eq!(
        told::<()>(Err(to_status(PoolError::Internal(
            "a secret of the proxy".to_string()
        )))),
        refusal(Code::Internal, "internal error")
    );
    assert_eq!(
        PoolError::Overloaded.message(),
        "overloaded: the request queue is full"
    );
    assert_eq!(
        PoolError::ShuttingDown.message(),
        "the worker pool is shutting down"
    );
    assert_eq!(PoolError::Internal("x".to_string()).message(), "x");
}

#[test]
fn answers_carry_what_the_worker_made() {
    let mut s = open_to_all();
    match s.finish_sign(
        0,
        "k".to_string(),
        Ok(JobResponse::Signature(vec![1, 2, 3])),
    ) {
        Ok(response) => {
            assert_eq!(response.signature, vec![1, 2, 3]);
            assert_eq!(response.key_label, "k");
        }
        Err(status) => panic!("{status:?}"),
    }
    assert_eq!(
        told(s.finish_sign(0, "k".to_string(), Ok(JobResponse::Verified(true)))),
        refusal(Code::Internal, "internal error")
    );
    match s.finish_encrypt(0, vec![9], Ok(JobResponse::Ciphertext(vec![1]))) {
        Ok(response) => {
            assert_eq!(response.ciphertext, vec![1]);
            assert_eq!(response.iv, vec![9]);
        }
        Err(status) => panic!("{status:?}"),
    }
    match s.finish_decrypt(0, Ok(JobResponse::Plaintext(vec![4]))) {
        Ok(response) => assert_eq!(response.plaintext, vec![4]),
        Err(status) => panic!("{status:?}"),
    }
    assert!(s
        .finish_decrypt(0, Ok(JobResponse::Ciphertext(vec![4])))
        .is_err());
    assert!(s
        .finish_encrypt(0, vec![], Ok(JobResponse::Plaintext(vec![4])))
        .is_err());
}

fn encrypt_request(mechanism: i32) -> EncryptRequest {
    EncryptRequest {
        key_label: "k".to_string(),
        mechanism,
        plaintext: b"plain".to_vec(),
        associated_data: b"data".to_vec(),
    }
}

#[test]
fn every_encryption_has_an_iv_of_its_own() {
    let mut s = open_to_all();
    let mut draw = || match s.begin_encrypt(0, nobody(), encrypt_request(1)).1 {
        Ok((
            JobRequest::Encrypt {
                key_label,
                plaintext,
                associated_data,
                iv,
            },
            answered,
        )) => {
            assert_eq!(key_label, "k");
            assert_eq!(plaintext, b"plain".to_vec());
            assert_eq!(associated_data, b"data".to_vec());
            assert_eq!(iv.len(), 12);
            assert_eq!(iv, answered);
            iv
        }
        other => panic!("{other:?}"),
    };
    assert_ne!(draw(), draw());
    assert_eq!(
        told(s.begin_encrypt(0, nobody(), encrypt_request(0)).1),
        refusal(
            Code::InvalidArgument,
            "only CIPHER_MECHANISM_AES_GCM is supported"
        )
    );
    match encryption(encrypt_request(1), &[5; 12]) {
        JobRequest::Encrypt { iv, .. } => assert_eq!(iv, vec![5; 12]),
        other => panic!("{other:?}"),
    }
}

fn decrypt_request(mechanism: i32, iv: Vec<u8>) -> DecryptRequest {
    DecryptRequest {
        key_label: "k".to_string(),
        mechanism,
        ciphertext: b"cipher".to_vec(),
        associated_data: vec![],
        iv,
    }
}

#[test]
fn decryption_wants_the_iv_that_encryption_drew() {
    let mut s = open_to_all();
    match s.begin_decrypt(0, nobody(), decrypt_request(1, vec![3; 12])).1 {
        Ok(JobRequest::Decrypt { ciphertext, iv, .. }) => {
            assert_eq!(ciphertext, b"cipher".to_vec());
            assert_eq!(iv, vec![3; 12]);
        }
        other => panic!("{other:?}"),
    }
    assert_eq!(
        told(s.begin_decrypt(0, nobody(), decrypt_request(1, vec![3; 16])).1),
        refusal(Code::InvalidArgument, "iv must be 12 bytes, got 16")
    );
    assert_eq!(
        told(s.begin_decrypt(0, nobody(), decrypt_request(2, vec![3; 16])).1),
        refusal(
            Code::InvalidArgument,
            "only CIPHER_MECHANISM_AES_GCM is supported"
        )
    );
}

#[test]
fn signatures_are_checked_with_the_cached_key() {
    let signing = p256::ecdsa::SigningKey::random(&mut OsRng);
    let point = signing
        .verifying_key()
        .to_encoded_point(false)
        .as_bytes()
        .to_vec();
    let spki_der =
        match public_key_to_spki_der(PublicKeyKind::Ec, &vec![Attribute::EcPoint(point)]) {
            Ok((spki_der, _)) => spki_der,
            Err(error) => panic!("{}", error.message()),
        };
    let key = || {
        Lookup::Found(CachedPublicKey {
            spki_der: spki_der.clone(),
            key_type: "EC".to_string(),
        })
    };
    let signature: p256::ecdsa::Signature =
        signing.sign_prehash(&sha2::Sha256::digest(b"m")).unwrap();
    let signature = signature.to_bytes().to_vec();

    let mut s = open_to_all();
    let input = match s.begin_verify(0, nobody(), "k", message()).1 {
        Ok(input) => input,
        Err(status) => panic!("{status:?}"),
    };
    match s.finish_verify(0, "k", 1, &input, &signature, Ok((key(), true))) {
        Ok(response) => {
            assert!(response.valid);
            assert!(response.served_from_cache);
        }
        Err(status) => panic!("{status:?}"),
    }
    match s.finish_verify(0, "k", 1, &input, &[1; 64], Ok((key(), false))) {
        Ok(response) => {
            assert!(!response.valid);
            assert!(!response.served_from_cache);
        }
        Err(status) => panic!("{status:?}"),
    }
    assert_eq!(
        told(s.finish_verify(0, "k", 2, &input, &signature, Ok((key(), true)))),
        refusal(Code::Internal, "verification failed")
    );
    for (mechanism, text) in [
        (0, "signature mechanism must be specified"),
        (9, "unknown signature mechanism"),
    ] {
        assert_eq!(
            told(s.finish_verify(0, "k", mechanism, &input, &signature, Ok((key(), true)))),
            refusal(Code::InvalidArgument, text)
        );
    }
    let short = SigningInput::Digest(vec![0; 31]);
    assert_eq!(
        told(s.finish_verify(0, "k", 1, &short, &signature, Ok((key(), true)))),
        refusal(
            Code::InvalidArgument,
            "expected a 32-byte SHA-256 digest, got 31 bytes"
        )
    );
    assert_eq!(
        told(s.finish_verify(0, "k", 1, &input, &signature, Ok((Lookup::NotFound, true)))),
        refusal(Code::NotFound, "no key labelled 'k' on the token")
    );
    assert_eq!(
        told(s.finish_verify(0, "k", 1, &input, &signature, Err(PoolError::Overloaded))).0,
        Code::ResourceExhausted
    );
    assert_eq!(s.breaker.window.failures, 0);

    match s.finish_get_public_key(0, "k", Ok((key(), true))) {
        Ok(response) => {
            assert_eq!(response.spki_der, spki_der);
            assert_eq!(response.key_type, "EC");
            assert!(response.served_from_cache);
        }
        Err(status) => panic!("{status:?}"),
    }
    assert_eq!(
        told(s.begin_verify(0, nobody(), "k", None).1),
        refusal(
            Code::InvalidArgument,
            "input must be set to either message or digest"
        )
    );
}

/// The cache keeps public keys and their absence, and nothing else.
#[test]
fn only_public_keys_are_kept() {
    let key = JobResponse::PublicKey {
        spki_der: vec![1, 2],
        key_type: "RSA".to_string(),
    };
    match loaded(Ok(key)) {
        Ok(Lookup::Found(key)) => {
            assert_eq!(key.spki_der, vec![1, 2]);
            assert_eq!(key.key_type, "RSA");
        }
        other => panic!("{other:?}"),
    }
    assert!(matches!(
        loaded(Err(PoolError::KeyNotFound("k".to_string()))),
        Ok(Lookup::NotFound)
    ));
    assert!(matches!(
        loaded(Err(PoolError::Overloaded)),
        Err(PoolError::Overloaded)
    ));
    match loaded(Ok(JobResponse::Plaintext(vec![7]))) {
        Err(error) => assert_eq!(
            error.message(),
            "worker returned the wrong response variant"
        ),
        Ok(_) => panic!("a plaintext is never kept"),
    }
}

#[test]
fn lookups_are_counted_and_kept_for_their_time() {
    let found = Lookup::Found(CachedPublicKey {
        spki_der: vec![],
        key_type: "EC".to_string(),
    });
    let mut metrics = CacheMetrics::default();
    metrics.count(false, &found);
    metrics.count(false, &Lookup::NotFound);
    metrics.count(true, &found);
    metrics.count(true, &Lookup::NotFound);
    metrics.count(true, &Lookup::NotFound);
    assert_eq!(metrics.misses, 2);
    assert_eq!(metrics.hits, 3);
    assert_eq!(metrics.negative_hits, 2);

    let config = CacheConfig::from_env(None, Some("7".to_string()), Some("x".to_string()));
    assert_eq!(config.ttl, 300);
    assert_eq!(config.negative_ttl, 7);
    assert_eq!(config.max_entries, 1024);
    assert_eq!(config.ttl_of(&found), 300);
    assert_eq!(config.ttl_of(&Lookup::NotFound), 7);
    assert_eq!(CacheConfig::default().negative_ttl, 30);
}

#[test]
fn one_session_serves_signatures() {
    match service::signing_call(3, message()) {
        Ok(call) => {
            assert_eq!(call.payload, b"m".to_vec());
            assert!(matches!(call.mechanism, Mechanism::Sha256RsaPkcsPss(_)));
        }
        Err(status) => panic!("{status:?}"),
    }
    assert_eq!(told(service::signing_call(1, None)).0, Code::InvalidArgument);

    let key = ObjectHandle { id: 4 };
    match service::require_object(Ok(vec![key]), "k") {
        Ok(found) => assert_eq!(found, key),
        Err(status) => panic!("{status:?}"),
    }
    assert_eq!(
        told(service::require_object(Ok(vec![]), "k")),
        refusal(Code::NotFound, "no key labelled 'k' on the token")
    );
    assert_eq!(
        told(service::require_object(Err(failed(Rv::Other)), "k")),
        refusal(Code::Internal, "C_FindObjects failed")
    );

    match service::signed("k".to_string(), Ok(vec![1])) {
        Ok(response) => {
            assert_eq!(response.signature, vec![1]);
            assert_eq!(response.key_label, "k");
        }
        Err(status) => panic!("{status:?}"),
    }
    assert_eq!(
        told(service::signed("k".to_string(), Err(failed(Rv::Other)))),
        refusal(Code::Internal, "C_Sign failed")
    );

    assert!(matches!(service::verified(Ok(())), Ok(answer) if answer.valid));
    assert!(
        matches!(service::verified(Err(failed(Rv::SignatureInvalid))), Ok(answer) if !answer.valid)
    );
    assert!(
        matches!(service::verified(Err(failed(Rv::SignatureLenRange))), Ok(answer) if !answer.valid)
    );
    assert_eq!(
        told(service::verified(Err(failed(Rv::DeviceError)))),
        refusal(Code::Internal, "C_Verify failed")
    );
}

#[test]
fn one_session_serves_encryption() {
    let (a, b) = match (
        service::encryption_params(&encrypt_request(1)),
        service::encryption_params(&encrypt_request(1)),
    ) {
        (Ok(a), Ok(b)) => (a, b),
        _ => panic!("AES-GCM is supported"),
    };
    assert_eq!(a.iv.len(), 12);
    assert_ne!(a.iv, b.iv);
    assert_eq!(a.associated_data, b"data".to_vec());
    assert_eq!(a.tag_bits, 128);
    assert_eq!(
        told(service::encryption_params(&encrypt_request(7))).0,
        Code::InvalidArgument
    );

    match service::decryption_params(&decrypt_request(1, vec![1; 12])) {
        Ok(params) => {
            assert_eq!(params.iv, vec![1; 12]);
            assert_eq!(params.tag_bits, 128);
        }
        Err(status) => panic!("{status:?}"),
    }
    assert_eq!(
        told(service::decryption_params(&decrypt_request(1, vec![]))),
        refusal(Code::InvalidArgument, "iv must be 12 bytes, got 0")
    );

    assert!(service::encrypted(vec![1], Ok(vec![2])).is_ok());
    assert_eq!(
        told(service::encrypted(
            vec![],
            Err(CipherFailure::Params("bad".to_string()))
        )),
        refusal(Code::InvalidArgument, "bad")
    );
    assert_eq!(
        told(service::encrypted(
            vec![],
            Err(CipherFailure::Call(failed(Rv::Other)))
        )),
        refusal(Code::Internal, "C_Encrypt failed")
    );
    assert!(service::decrypted(Ok(vec![2])).is_ok());
    for rv in [Rv::EncryptedDataInvalid, Rv::EncryptedDataLenRange] {
        assert_eq!(
            told(service::decrypted(Err(CipherFailure::Call(failed(rv))))),
            refusal(Code::InvalidArgument, "ciphertext failed authentication")
        );
    }
    assert_eq!(
        told(service::decrypted(Err(CipherFailure::Call(failed(
            Rv::Other
        ))))),
        refusal(Code::Internal, "C_Decrypt failed")
    );
    assert_eq!(
        told(service::decrypted(Err(CipherFailure::Params(
            "bad".to_string()
        )))),
        refusal(Code::InvalidArgument, "bad")
    );
}

#[test]
fn one_session_serves_public_keys() {
    let answer = |attributes: Vec<Attribute>| KeyTypeAnswer {
        attributes,
        text: "an answer".to_string(),
    };
    let kind = service::public_key_kind(Ok(answer(vec![Attribute::KeyType(KeyType::Ec)])));
    assert!(matches!(kind, Ok(PublicKeyKind::Ec)));
    let broken = refusal(Code::Internal, "public key encoding failed");
    assert_eq!(told(service::public_key_kind(Ok(answer(vec![])))), broken);
    assert_eq!(
        told(service::public_key_kind(Err(failed(Rv::Other)))),
        broken
    );

    let signing = p256::ecdsa::SigningKey::random(&mut OsRng);
    let point = signing
        .verifying_key()
        .to_encoded_point(false)
        .as_bytes()
        .to_vec();
    match service::public_key_read(PublicKeyKind::Ec, Ok(vec![Attribute::EcPoint(point)])) {
        Ok(response) => {
            assert_eq!(response.key_type, "EC");
            assert!(!response.served_from_cache);
        }
        Err(status) => panic!("{status:?}"),
    }
    assert_eq!(
        told(service::public_key_read(PublicKeyKind::Ec, Ok(vec![]))),
        broken
    );
    assert_eq!(
        told(service::public_key_read(
            PublicKeyKind::Rsa,
            Err(failed(Rv::Other))
        )),
        broken
    );
}

#[test]
fn mechanisms_have_numbers() {
    assert_eq!(
        SignatureMechanism::from_number(0),
        Some(SignatureMechanism::Unspecified)
    );
    assert_eq!(
        SignatureMechanism::from_number(3),
        Some(SignatureMechanism::RsaPssSha256)
    );
    assert_eq!(SignatureMechanism::from_number(4), None);
    assert_eq!(SignatureMechanism::from_number(-1), None);
    assert_eq!(
        CipherMechanism::from_number(1),
        Some(CipherMechanism::AesGcm)
    );
    assert_eq!(CipherMechanism::from_number(2), None);
}

fn first_call(job: JobRequest) -> Step {
    let mut worker = Worker::new(0);
    let mut metrics = PoolMetrics::default();
    match worker.begin(&mut metrics, job) {
        Step::Find { request, .. } => {
            worker.found(&mut metrics, request, Ok(vec![ObjectHandle { id: 7 }]))
        }
        _ => panic!("a new worker knows no keys"),
    }
}

#[test]
fn the_token_signs_what_was_asked() {
    let job = open_to_all().begin_sign(0, nobody(), sign_request(message())).1;
    match first_call(job.expect("a job")) {
        Step::Sign {
            key,
            mechanism,
            payload,
        } => {
            assert_eq!(key.id, 7);
            assert_eq!(mechanism, Mechanism::Ecdsa);
            assert_eq!(payload, sha2::Sha256::digest(b"m").to_vec());
        }
        _ => panic!("a signature was asked for"),
    }
}

#[test]
fn decryption_uses_the_parameters_of_the_encryption() {
    let mut service = open_to_all();
    let (job, iv) = service
        .begin_encrypt(0, nobody(), encrypt_request(1)).1
        .expect("a job");
    let sealed = match first_call(job) {
        Step::Encrypt { params, .. } => params,
        _ => panic!("an encryption was asked for"),
    };
    let mut request = decrypt_request(1, iv);
    request.associated_data = encrypt_request(1).associated_data;
    let job = service.begin_decrypt(0, nobody(), request).1.expect("a job");
    match first_call(job) {
        Step::Decrypt { params, .. } => {
            assert_eq!(params.iv, sealed.iv);
            assert_eq!(params.associated_data, sealed.associated_data);
            assert_eq!(params.tag_bits, sealed.tag_bits);
        }
        _ => panic!("a decryption was asked for"),
    }
}

#[test]
fn requests_fare_one_way_with_the_guards() {
    let mut s = guarded(1);
    let fared = |s: &mut PooledService, who| {
        s.begin_sign(0, who, sign_request(message())).0
    };
    assert_eq!(fared(&mut s, nobody()), Admission::Unidentified);
    assert_eq!(fared(&mut s, someone("bob")), Admission::Denied);
    assert_eq!(fared(&mut s, someone("alice")), Admission::Permitted);
    assert_eq!(fared(&mut s, someone("alice")), Admission::OverLimit);
    assert!(s.asks_who(0));
    for _ in 0..2 {
        let _ = s.finish_decrypt(0, Err(PoolError::Timeout));
    }
    assert_eq!(fared(&mut s, someone("alice")), Admission::CircuitOpen);
    assert!(!s.asks_who(0));
    assert!(!open_to_all().asks_who(0));
    assert_eq!(fared(&mut open_to_all(), nobody()), Admission::Unchecked);
}

/// A half-open circuit waits for its probe; a request that never reaches the token is none.
#[test]
fn refused_requests_are_no_probes() {
    let mut s = guarded(100);
    for _ in 0..2 {
        let _ = s.finish_decrypt(0, Err(PoolError::Timeout));
    }
    assert_eq!(s.breaker.state(), State::Open);
    let refused = s.begin_sign(100, someone("bob"), sign_request(message()));
    assert_eq!(refused.0, Admission::Denied);
    assert_eq!(s.breaker.state(), State::HalfOpen);
    assert_eq!(s.breaker.window.probes_out, 0);
    let malformed = s.begin_sign(100, someone("alice"), sign_request(None));
    assert_eq!(malformed.0, Admission::Permitted);
    assert!(malformed.1.is_err());
    assert_eq!(s.breaker.window.probes_out, 0);

    let probe = s.begin_sign(100, someone("alice"), sign_request(message()));
    assert!(probe.1.is_ok());
    assert_eq!(s.breaker.window.probes_out, 1);
    let next = s.begin_sign(100, someone("alice"), sign_request(message()));
    assert_eq!(next.0, Admission::CircuitOpen);
    s.abandon();
    let next = s.begin_sign(100, someone("alice"), sign_request(message()));
    assert!(next.1.is_ok());
    let answer = Ok(JobResponse::Signature(vec![1]));
    assert!(s.finish_sign(101, "k".to_string(), answer).is_ok());
    assert_eq!(s.breaker.state(), State::Closed);
}
