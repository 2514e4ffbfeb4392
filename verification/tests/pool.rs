use grpc_low_latency_proxy::crypto::{verify_public, Mechanism, SignAlgorithm, SigningInput};
use grpc_low_latency_proxy::pkcs11::errors::{is_session_fatal, PoolError};
use grpc_low_latency_proxy::pkcs11::job::{JobRequest, JobResponse, KeyKind};
use grpc_low_latency_proxy::pkcs11::metrics::PoolMetrics;
use grpc_low_latency_proxy::pkcs11::pool::{
    awaited, enqueued, judge_start, submitting, Awaited, Enqueued, PoolConfig,
};
use grpc_low_latency_proxy::pkcs11::session::{
    choose_slot, find_object_pair, no_such_token, plain_session_failure, recover_login, LoginStep,
    TokenConfig,
};
use grpc_low_latency_proxy::pkcs11::token::{
    Attribute, AttributeType, KeyType, KeyTypeAnswer, ObjectClass, ObjectHandle, Rv, TokenError,
};
use grpc_low_latency_proxy::pkcs11::worker::{CipherFailure, Finished, Step, Worker};
use p256::ecdsa::signature::hazmat::{PrehashSigner, PrehashVerifier};
use rand::rngs::OsRng;
use rsa::traits::PublicKeyParts;
use sha2::Digest;

fn sha256(data: &[u8]) -> Vec<u8> {
    sha2::Sha256::digest(data).to_vec()
}

fn failed(rv: Rv) -> TokenError {
    TokenError {
        rv,
        text: format!("{rv:?}"),
    }
}

/// A token in memory, with an EC and an RSA key pair and a secret key.
struct Token {
    ec: p256::ecdsa::SigningKey,
    rsa: rsa::RsaPrivateKey,
    /// What every call fails with, where it fails.
    broken: Option<Rv>,
    searches: usize,
}

const EC: ObjectHandle = ObjectHandle { id: 1 };
const RSA: ObjectHandle = ObjectHandle { id: 2 };
const AES: ObjectHandle = ObjectHandle { id: 3 };

impl Token {
    fn new() -> Token {
        Token {
            ec: p256::ecdsa::SigningKey::random(&mut OsRng),
            rsa: rsa::RsaPrivateKey::new(&mut OsRng, 2048).unwrap(),
            broken: None,
            searches: 0,
        }
    }

    fn check(&self) -> Result<(), TokenError> {
        match self.broken {
            Some(rv) => Err(failed(rv)),
            None => Ok(()),
        }
    }

    fn find(&mut self, template: &[Attribute]) -> Result<Vec<ObjectHandle>, TokenError> {
        self.searches += 1;
        self.check()?;
        assert_eq!(template.len(), 2);
        let class = match &template[0] {
            Attribute::Class(class) => *class,
            other => panic!("{other:?}"),
        };
        let label = match &template[1] {
            Attribute::Label(label) => String::from_utf8(label.clone()).unwrap(),
            other => panic!("{other:?}"),
        };
        Ok(match (class, label.as_str()) {
            (ObjectClass::PrivateKey | ObjectClass::PublicKey, "demo-ec-p256") => {
                vec![EC, ObjectHandle { id: 99 }]
            }
            (ObjectClass::PrivateKey | ObjectClass::PublicKey, "demo-rsa-2048") => vec![RSA],
            (ObjectClass::SecretKey, "demo-aes-256") => vec![AES],
            _ => vec![],
        })
    }

    fn sign(
        &self,
        key: ObjectHandle,
        mechanism: Mechanism,
        payload: &[u8],
    ) -> Result<Vec<u8>, TokenError> {
        self.check()?;
        match mechanism {
            Mechanism::Ecdsa => {
                assert_eq!(key, EC);
                let signature: p256::ecdsa::Signature = self.ec.sign_prehash(payload).unwrap();
                Ok(signature.to_bytes().to_vec())
            }
            Mechanism::Sha256RsaPkcs => {
                assert_eq!(key, RSA);
                Ok(self
                    .rsa
                    .sign(
                        rsa::Pkcs1v15Sign::new::<sha2::Sha256>(),
                        &sha256(payload),
                    )
                    .unwrap())
            }
            other => panic!("{other:?}"),
        }
    }

    fn verify(
        &self,
        key: ObjectHandle,
        mechanism: Mechanism,
        payload: &[u8],
        signature: &[u8],
    ) -> Result<(), TokenError> {
        self.check()?;
        assert_eq!(mechanism, Mechanism::Ecdsa);
        assert_eq!(key, EC);
        let signature = match p256::ecdsa::Signature::from_slice(signature) {
            Ok(signature) => signature,
            Err(_) => return Err(failed(Rv::SignatureLenRange)),
        };
        match self.ec.verifying_key().verify_prehash(payload, &signature) {
            Ok(()) => Ok(()),
            Err(_) => Err(failed(Rv::SignatureInvalid)),
        }
    }

    fn read(
        &self,
        key: ObjectHandle,
        types: &[AttributeType],
    ) -> Result<Vec<Attribute>, TokenError> {
        self.check()?;
        Ok(types
            .iter()
            .map(|wanted| match wanted {
                AttributeType::KeyType => Attribute::KeyType(if key == RSA {
                    KeyType::Rsa
                } else {
                    KeyType::Ec
                }),
                AttributeType::EcPoint => Attribute::EcPoint(
                    self.ec
                        .verifying_key()
                        .to_encoded_point(false)
                        .as_bytes()
                        .to_vec(),
                ),
                AttributeType::Modulus => Attribute::Modulus(self.rsa.n().to_bytes_be()),
                AttributeType::PublicExponent => {
                    Attribute::PublicExponent(self.rsa.e().to_bytes_be())
                }
                AttributeType::Sensitive => Attribute::Sensitive(true),
                AttributeType::Extractable => Attribute::Extractable(false),
            })
            .collect())
    }

    /// "Encryption" that a test can undo: the bytes are turned round, and the IV goes in front.
    fn encrypt(&self, iv: &[u8], plaintext: &[u8]) -> Result<Vec<u8>, CipherFailure> {
        self.check().map_err(CipherFailure::Call)?;
        let mut ciphertext = iv.to_vec();
        ciphertext.extend(plaintext.iter().rev());
        Ok(ciphertext)
    }

    fn decrypt(&self, iv: &[u8], ciphertext: &[u8]) -> Result<Vec<u8>, CipherFailure> {
        self.check().map_err(CipherFailure::Call)?;
        if iv.is_empty() {
            return Err(CipherFailure::Params("no iv".to_string()));
        }
        if !ciphertext.starts_with(iv) {
            return Err(CipherFailure::Call(failed(Rv::EncryptedDataInvalid)));
        }
        Ok(ciphertext[iv.len()..].iter().rev().copied().collect())
    }
}

/// Run a job to its end.
fn run(
    worker: &mut Worker,
    metrics: &mut PoolMetrics,
    token: &mut Token,
    request: JobRequest,
) -> Finished {
    let mut step = worker.begin(metrics, request);
    loop {
        step = match step {
            Step::Find { template, request } => {
                let found = token.find(&template);
                worker.found(metrics, request, found)
            }
            Step::Sign {
                key,
                mechanism,
                payload,
            } => {
                let outcome = token.sign(key, mechanism, &payload);
                return worker.signed(metrics, outcome);
            }
            Step::Verify {
                key,
                mechanism,
                payload,
                signature,
            } => {
                let outcome = token.verify(key, mechanism, &payload, &signature);
                return worker.verified(metrics, outcome);
            }
            Step::Encrypt {
                key,
                params,
                plaintext,
            } => {
                assert_eq!(key, AES);
                assert_eq!(params.tag_bits, 128);
                let outcome = token.encrypt(&params.iv, &plaintext);
                return worker.encrypted(metrics, outcome);
            }
            Step::Decrypt {
                key,
                params,
                ciphertext,
            } => {
                assert_eq!(key, AES);
                assert_eq!(params.tag_bits, 128);
                let outcome = token.decrypt(&params.iv, &ciphertext);
                return worker.decrypted(metrics, outcome);
            }
            Step::ReadKeyType { key, types } => {
                let answer = token.read(key, &types).map(|attributes| KeyTypeAnswer {
                    attributes,
                    text: "an answer".to_string(),
                });
                worker.key_type_read(metrics, key, answer)
            }
            Step::ReadComponents { key, kind, types } => {
                let attributes = token.read(key, &types);
                return worker.components_read(metrics, kind, attributes);
            }
            Step::Done(finished) => return finished,
        };
    }
}

fn sign_job() -> JobRequest {
    JobRequest::Sign {
        key_label: "demo-ec-p256".to_string(),
        algorithm: SignAlgorithm::Ecdsa,
        payload: sha256(b"integration test"),
    }
}

fn verify_job(payload: Vec<u8>, signature: Vec<u8>) -> JobRequest {
    JobRequest::Verify {
        key_label: "demo-ec-p256".to_string(),
        algorithm: SignAlgorithm::Ecdsa,
        payload,
        signature,
    }
}

fn signature_of(finished: Finished) -> Vec<u8> {
    match finished.result {
        Ok(JobResponse::Signature(signature)) => signature,
        other => panic!("expected a signature, got {other:?}"),
    }
}

#[test]
fn signs_and_verifies_through_the_pool() {
    let mut token = Token::new();
    let mut worker = Worker::new(0);
    let mut metrics = PoolMetrics::default();

    let signature = signature_of(run(&mut worker, &mut metrics, &mut token, sign_job()));
    assert_eq!(signature.len(), 64, "P-256 signatures are r||s, 64 bytes");

    let job = verify_job(sha256(b"integration test"), signature);
    let finished = run(&mut worker, &mut metrics, &mut token, job);
    assert!(matches!(finished.result, Ok(JobResponse::Verified(true))));
    assert!(!finished.reopen);
}

/// A signature over different data must be rejected, and rejected as a false answer rather than
/// an error.
#[test]
fn wrong_signature_is_false_not_an_error() {
    let mut token = Token::new();
    let mut worker = Worker::new(0);
    let mut metrics = PoolMetrics::default();

    let signature = signature_of(run(&mut worker, &mut metrics, &mut token, sign_job()));
    let job = verify_job(sha256(b"different data entirely"), signature);
    let finished = run(&mut worker, &mut metrics, &mut token, job);
    assert!(matches!(finished.result, Ok(JobResponse::Verified(false))));

    let job = verify_job(sha256(b"integration test"), vec![1, 2, 3]);
    let finished = run(&mut worker, &mut metrics, &mut token, job);
    assert!(matches!(finished.result, Ok(JobResponse::Verified(false))));
    assert!(!finished.reopen);
}

/// An unknown key label must be `KeyNotFound`, not an opaque internal error.
#[test]
fn unknown_key_is_key_not_found() {
    let mut token = Token::new();
    let mut worker = Worker::new(0);
    let mut metrics = PoolMetrics::default();
    let missing = || JobRequest::Sign {
        key_label: "no-such-key".to_string(),
        algorithm: SignAlgorithm::Ecdsa,
        payload: sha256(b"x"),
    };

    let finished = run(&mut worker, &mut metrics, &mut token, missing());
    assert!(
        matches!(&finished.result, Err(PoolError::KeyNotFound(label)) if label == "no-such-key"),
        "expected KeyNotFound, got {:?}",
        finished.result
    );
    match &finished.result {
        Err(error) => assert_eq!(
            error.message(),
            "no key labelled 'no-such-key' on the token"
        ),
        Ok(_) => panic!("a missing key must fail"),
    }

    run(&mut worker, &mut metrics, &mut token, missing());
    assert_eq!(token.searches, 2, "a missing key is searched for again");
    assert_eq!(metrics.handle_cache_misses, 2);
    assert_eq!(metrics.handle_cache_hits, 0);
}

/// When the bounded queue is full, submission fails at once with `Overloaded`, and the counter
/// agrees with what callers observed.
#[test]
fn full_queue_sheds_instead_of_queueing() {
    let mut metrics = PoolMetrics::default();
    let mut shed: u64 = 0;
    let mut accepted: u64 = 0;
    for i in 0..64 {
        submitting(&mut metrics);
        let outcome = if i % 3 == 0 {
            Enqueued::Queued
        } else {
            Enqueued::Full
        };
        match enqueued(&mut metrics, outcome) {
            Ok(()) => accepted += 1,
            Err(PoolError::Overloaded) => shed += 1,
            Err(other) => panic!("unexpected error: {other:?}"),
        }
    }
    assert!(accepted > 0, "some work should have been done");
    assert!(shed > 0);
    assert_eq!(
        metrics.jobs_rejected_queue_full, shed,
        "the rejection counter must agree with what callers observed"
    );
    assert_eq!(metrics.jobs_submitted, 64);
    assert!(matches!(
        enqueued(&mut metrics, Enqueued::Disconnected),
        Err(PoolError::ShuttingDown)
    ));
    assert_eq!(metrics.jobs_rejected_queue_full, shed);
}

/// PKCS#11 login state is per-token for the whole application, so the second worker finds itself
/// already logged in -- which the pool has to treat as success.
#[test]
fn many_workers_share_one_token_login() {
    assert!(recover_login(LoginStep::Login, failed(Rv::UserAlreadyLoggedIn)).is_ok());
    assert!(recover_login(LoginStep::OpenSession, failed(Rv::UserAlreadyLoggedIn)).is_ok());
    match recover_login(LoginStep::Login, failed(Rv::Other)) {
        Ok(()) => panic!("a wrong PIN is no login"),
        Err(error) => assert_eq!(
            error.message(),
            "C_Login(CKU_USER) failed -- wrong USER_PIN?: Other"
        ),
    }
    match recover_login(LoginStep::OpenSession, failed(Rv::DeviceError)) {
        Ok(()) => panic!("a broken device opens no session"),
        Err(error) => assert_eq!(
            error.message(),
            "C_OpenSession(CKF_RW_SESSION) failed: DeviceError"
        ),
    }
    assert_eq!(
        plain_session_failure(failed(Rv::Other)).message(),
        "C_OpenSession failed: Other"
    );
}

/// The per-worker handle cache should resolve each label once per worker, not once per request.
#[test]
fn handle_cache_resolves_once_per_worker() {
    let mut token = Token::new();
    let mut worker = Worker::new(0);
    let mut metrics = PoolMetrics::default();

    for _ in 0..25 {
        signature_of(run(&mut worker, &mut metrics, &mut token, sign_job()));
    }

    let misses = PoolMetrics::get(&metrics.handle_cache_misses);
    let hits = PoolMetrics::get(&metrics.handle_cache_hits);
    assert_eq!(misses, 1, "one worker, one label: exactly one lookup");
    assert_eq!(hits, 24, "every subsequent request should hit the cache");
    assert_eq!(token.searches, 1);
    assert_eq!(metrics.session_resets, 0);

    let job = verify_job(sha256(b"x"), vec![0; 64]);
    run(&mut worker, &mut metrics, &mut token, job);
    assert_eq!(token.searches, 2, "the public key is another object");
}

/// RSA and ECDSA keys must both be usable through the same pool, with the right signature sizes.
#[test]
fn both_key_types_sign() {
    let mut token = Token::new();
    let mut worker = Worker::new(3);
    let mut metrics = PoolMetrics::default();
    assert_eq!(worker.id(), 3);

    let signature = signature_of(run(&mut worker, &mut metrics, &mut token, sign_job()));
    assert_eq!(signature.len(), 64);

    let job = JobRequest::Sign {
        key_label: "demo-rsa-2048".to_string(),
        algorithm: SignAlgorithm::Sha256RsaPkcs,
        payload: b"integration test".to_vec(),
    };
    let signature = signature_of(run(&mut worker, &mut metrics, &mut token, job));
    assert_eq!(signature.len(), 256, "RSA-2048 is 256 bytes");
}

/// A session that became unusable is reported, and its handles are forgotten.
#[test]
fn a_lost_session_is_reopened_and_its_handles_forgotten() {
    for rv in [
        Rv::SessionHandleInvalid,
        Rv::SessionClosed,
        Rv::DeviceError,
        Rv::DeviceRemoved,
        Rv::TokenNotPresent,
        Rv::UserNotLoggedIn,
    ] {
        assert!(is_session_fatal(&failed(rv)));
    }
    for rv in [
        Rv::UserAlreadyLoggedIn,
        Rv::SignatureInvalid,
        Rv::SignatureLenRange,
        Rv::EncryptedDataInvalid,
        Rv::EncryptedDataLenRange,
        Rv::Other,
    ] {
        assert!(!is_session_fatal(&failed(rv)));
    }

    let mut token = Token::new();
    let mut worker = Worker::new(0);
    let mut metrics = PoolMetrics::default();
    run(&mut worker, &mut metrics, &mut token, sign_job());

    token.broken = Some(Rv::Other);
    let finished = run(&mut worker, &mut metrics, &mut token, sign_job());
    assert!(!finished.reopen);
    assert_eq!(metrics.session_resets, 0);
    match &finished.result {
        Err(error) => assert_eq!(error.message(), "C_Sign failed: Other"),
        Ok(_) => panic!("the call failed"),
    }

    token.broken = Some(Rv::SessionClosed);
    let finished = run(&mut worker, &mut metrics, &mut token, sign_job());
    assert!(finished.reopen);
    assert!(matches!(
        finished.result,
        Err(PoolError::Hsm { operation: "C_Sign", .. })
    ));
    assert_eq!(metrics.session_resets, 1);

    let searches = token.searches;
    let finished = run(&mut worker, &mut metrics, &mut token, sign_job());
    assert_eq!(token.searches, searches + 1, "the old handle is not used");
    assert!(finished.reopen);
    assert!(
        matches!(&finished.result, Err(PoolError::Internal(text)) if text == "C_FindObjects failed")
    );
    assert_eq!(metrics.session_resets, 2);

    token.broken = None;
    let finished = run(&mut worker, &mut metrics, &mut token, sign_job());
    assert!(!finished.reopen);
    assert_eq!(signature_of(finished).len(), 64);
}

#[test]
fn encryption_and_decryption_go_through_the_token() {
    let mut token = Token::new();
    let mut worker = Worker::new(0);
    let mut metrics = PoolMetrics::default();
    let label = "demo-aes-256".to_string();

    let finished = run(
        &mut worker,
        &mut metrics,
        &mut token,
        JobRequest::Encrypt {
            key_label: label.clone(),
            plaintext: b"abc".to_vec(),
            associated_data: vec![],
            iv: vec![7, 7],
        },
    );
    let ciphertext = match finished.result {
        Ok(JobResponse::Ciphertext(ciphertext)) => ciphertext,
        other => panic!("{other:?}"),
    };
    assert_eq!(ciphertext, b"\x07\x07cba".to_vec());

    let decrypt = |iv: Vec<u8>| JobRequest::Decrypt {
        key_label: label.clone(),
        ciphertext: ciphertext.clone(),
        associated_data: vec![],
        iv,
    };
    let finished = run(&mut worker, &mut metrics, &mut token, decrypt(vec![7, 7]));
    assert!(matches!(finished.result, Ok(JobResponse::Plaintext(text)) if text == b"abc"));

    let finished = run(&mut worker, &mut metrics, &mut token, decrypt(vec![8]));
    assert!(!finished.reopen);
    match finished.result {
        Err(PoolError::InvalidRequest(text)) => {
            assert_eq!(text, "ciphertext failed authentication")
        }
        other => panic!("{other:?}"),
    }

    let finished = run(&mut worker, &mut metrics, &mut token, decrypt(vec![]));
    match finished.result {
        Err(error) => assert_eq!(error.message(), "invalid request: no iv"),
        Ok(_) => panic!("the parameters were refused"),
    }

    token.broken = Some(Rv::DeviceRemoved);
    let finished = run(&mut worker, &mut metrics, &mut token, decrypt(vec![7, 7]));
    assert!(finished.reopen);
    assert!(matches!(
        finished.result,
        Err(PoolError::Hsm { operation: "C_Decrypt", .. })
    ));
}

/// The public key that a worker hands out checks the signatures that the token makes.
#[test]
fn public_keys_check_what_the_token_signs() {
    let mut token = Token::new();
    let mut worker = Worker::new(0);
    let mut metrics = PoolMetrics::default();

    let signature = signature_of(run(&mut worker, &mut metrics, &mut token, sign_job()));
    let finished = run(
        &mut worker,
        &mut metrics,
        &mut token,
        JobRequest::GetPublicKey {
            key_label: "demo-ec-p256".to_string(),
        },
    );
    match finished.result {
        Ok(JobResponse::PublicKey { spki_der, key_type }) => {
            assert_eq!(key_type, "EC");
            let input = SigningInput::Message(b"integration test".to_vec());
            assert!(matches!(
                verify_public(&spki_der, 1, &input, &signature),
                Ok(true)
            ));
        }
        other => panic!("{other:?}"),
    }

    let finished = run(
        &mut worker,
        &mut metrics,
        &mut token,
        JobRequest::GetPublicKey {
            key_label: "demo-rsa-2048".to_string(),
        },
    );
    assert!(
        matches!(finished.result, Ok(JobResponse::PublicKey { key_type, .. }) if key_type == "RSA")
    );
}

#[test]
fn unreadable_public_keys_are_internal_errors() {
    let mut metrics = PoolMetrics::default();
    let mut worker = Worker::new(0);
    let key = ObjectHandle { id: 5 };

    let told = |step: Step| match step {
        Step::Done(Finished {
            result: Err(PoolError::Internal(text)),
            reopen,
        }) => (text, reopen),
        other => panic!("{other:?}"),
    };
    let step = worker.key_type_read(&mut metrics, key, Err(failed(Rv::SessionClosed)));
    assert_eq!(
        told(step),
        ("C_GetAttributeValue(CKA_KEY_TYPE) failed".to_string(), true)
    );
    let answer = KeyTypeAnswer {
        attributes: vec![],
        text: "None".to_string(),
    };
    let step = worker.key_type_read(&mut metrics, key, Ok(answer));
    assert_eq!(
        told(step),
        ("unsupported public key type: None".to_string(), false)
    );
    assert_eq!(metrics.session_resets, 1);

    let kind = grpc_low_latency_proxy::crypto::PublicKeyKind::Rsa;
    let finished = worker.components_read(&mut metrics, kind, Err(failed(Rv::Other)));
    match finished.result {
        Err(error) => assert_eq!(
            error.message(),
            "C_GetAttributeValue(CKA_MODULUS/CKA_PUBLIC_EXPONENT) failed"
        ),
        Ok(_) => panic!("the read failed"),
    }
    let kind = grpc_low_latency_proxy::crypto::PublicKeyKind::Ec;
    let finished = worker.components_read(&mut metrics, kind, Ok(vec![]));
    match finished.result {
        Err(error) => assert_eq!(error.message(), "public key has no CKA_EC_POINT"),
        Ok(_) => panic!("there is no point"),
    }
}

#[test]
fn a_job_that_is_waited_for_ends_in_one_of_three_ways() {
    let mut metrics = PoolMetrics::default();
    let answer = Awaited::Answered(Ok(JobResponse::Verified(true)));
    assert!(matches!(
        awaited(&mut metrics, answer),
        Ok(JobResponse::Verified(true))
    ));
    assert!(matches!(
        awaited(&mut metrics, Awaited::Dropped),
        Err(PoolError::ShuttingDown)
    ));
    assert_eq!(metrics.jobs_timed_out, 0);
    assert!(matches!(
        awaited(&mut metrics, Awaited::TimedOut),
        Err(PoolError::Timeout)
    ));
    assert_eq!(metrics.jobs_timed_out, 1);
}

#[test]
fn a_pool_starts_where_every_worker_did() {
    assert!(judge_start(0, vec![]).is_ok());
    assert!(judge_start(2, vec![Some(Ok(())), Some(Ok(()))]).is_ok());
    match judge_start(3, vec![Some(Ok(())), None, Some(Err(PoolError::Timeout))]) {
        Ok(()) => panic!("a worker died"),
        Err(error) => assert_eq!(error.message(), "a worker thread died during startup"),
    }
    match judge_start(2, vec![Some(Err(PoolError::Timeout)), None]) {
        Ok(()) => panic!("a worker failed"),
        Err(error) => assert_eq!(error.message(), "timed out waiting for a worker"),
    }
    assert!(judge_start(3, vec![Some(Ok(())), Some(Ok(()))]).is_err());
    assert!(judge_start(1, vec![Some(Ok(())), Some(Ok(()))]).is_err());
}

/// However the submissions are interleaved, each is counted once.
#[test]
fn every_submission_is_counted() {
    let mut metrics = PoolMetrics::default();
    submitting(&mut metrics);
    submitting(&mut metrics);
    assert!(enqueued(&mut metrics, Enqueued::Queued).is_ok());
    submitting(&mut metrics);
    assert!(matches!(
        enqueued(&mut metrics, Enqueued::Full),
        Err(PoolError::Overloaded)
    ));
    assert!(matches!(
        enqueued(&mut metrics, Enqueued::Disconnected),
        Err(PoolError::ShuttingDown)
    ));
    assert!(awaited(&mut metrics, Awaited::TimedOut).is_err());
    assert_eq!(metrics.jobs_submitted, 3);
    assert_eq!(metrics.jobs_rejected_queue_full, 1);
    assert_eq!(metrics.jobs_timed_out, 1);
}

#[test]
fn counters_wrap_and_means_are_whole_microseconds() {
    let mut counter: u64 = u64::MAX;
    PoolMetrics::incr(&mut counter);
    assert_eq!(PoolMetrics::get(&counter), 0);
    PoolMetrics::add(&mut counter, 41);
    PoolMetrics::incr(&mut counter);
    assert_eq!(counter, 42);

    let mut metrics = PoolMetrics::default();
    assert_eq!(metrics.mean_queue_wait_micros(), 0);
    assert_eq!(metrics.mean_service_micros(), 0);
    metrics.finish_job(3_000, 10_000, false);
    metrics.finish_job(4_999, 20_001, true);
    assert_eq!(metrics.jobs_completed, 2);
    assert_eq!(metrics.jobs_failed, 1);
    assert_eq!(metrics.mean_queue_wait_micros(), 3);
    assert_eq!(metrics.mean_service_micros(), 15);
}

#[test]
fn pool_settings_fall_back_one_by_one() {
    let config = PoolConfig::from_env(Some(6), None, None, None);
    assert_eq!(config.workers, 6);
    assert_eq!(config.queue_depth, 12);
    assert_eq!(config.job_timeout_ms, 5_000);
    let config = PoolConfig::from_env(None, None, None, None);
    assert_eq!(config, PoolConfig::with_parallelism(None));
    assert_eq!(config.workers, 4);
    assert_eq!(config.queue_depth, 8);
    let config = PoolConfig::from_env(
        Some(6),
        Some("2".to_string()),
        Some("x".to_string()),
        Some("250".to_string()),
    );
    assert_eq!(config.workers, 2);
    assert_eq!(config.queue_depth, 4);
    assert_eq!(config.job_timeout_ms, 250);
    let config = PoolConfig::from_env(Some(8), Some("4".to_string()), None, None);
    assert_eq!(config.workers, 4);
    assert_eq!(config.queue_depth, 8);
    assert_eq!(config.job_timeout_ms, 5_000);
    let config = PoolConfig::with_parallelism(Some(usize::MAX));
    assert_eq!(config.queue_depth, usize::MAX);
}

#[test]
fn jobs_name_their_operation_and_their_key() {
    let job = sign_job();
    assert_eq!(job.operation(), "sign");
    assert_eq!(job.label(), "demo-ec-p256");
    assert_eq!(job.kind(), KeyKind::Private);
    let job = verify_job(vec![], vec![]);
    assert_eq!(job.operation(), "verify");
    assert_eq!(job.kind(), KeyKind::Public);
    let job = JobRequest::GetPublicKey {
        key_label: "k".to_string(),
    };
    assert_eq!(job.operation(), "get_public_key");
    assert_eq!(job.label(), "k");
    assert_eq!(job.kind(), KeyKind::Public);
    let job = JobRequest::Encrypt {
        key_label: "k".to_string(),
        plaintext: vec![],
        associated_data: vec![],
        iv: vec![],
    };
    assert_eq!(job.operation(), "encrypt");
    assert_eq!(job.kind(), KeyKind::Secret);
    let job = JobRequest::Decrypt {
        key_label: "k".to_string(),
        ciphertext: vec![],
        associated_data: vec![],
        iv: vec![],
    };
    assert_eq!(job.operation(), "decrypt");
    assert_eq!(job.kind().object_class(), ObjectClass::SecretKey);
}

#[test]
fn the_slot_is_the_first_with_the_label() {
    let labels = vec![
        None,
        Some("other   ".to_string()),
        Some("  wanted          ".to_string()),
        Some("wanted".to_string()),
    ];
    assert_eq!(choose_slot(&labels, "wanted"), Some(2));
    assert_eq!(choose_slot(&labels, "missing"), None);
    assert_eq!(choose_slot(&labels, "other   "), None);
    assert_eq!(
        no_such_token("missing"),
        "no slot holds a token labelled 'missing'; has softhsm-init run?"
    );
}

#[test]
fn a_pair_needs_both_keys() {
    let one = vec![ObjectHandle { id: 1 }, ObjectHandle { id: 2 }];
    let other = vec![ObjectHandle { id: 3 }];
    assert_eq!(
        find_object_pair(&one, &other),
        Some((ObjectHandle { id: 1 }, ObjectHandle { id: 3 }))
    );
    assert_eq!(find_object_pair(&one, &vec![]), None);
    assert_eq!(find_object_pair(&vec![], &other), None);
}

#[test]
fn the_pin_has_no_default_and_is_never_shown() {
    match TokenConfig::from_env(None, None, None) {
        Ok(_) => panic!("there is no PIN"),
        Err(message) => assert_eq!(message, "USER_PIN is not set; refusing to guess a PIN"),
    }
    match TokenConfig::from_env(None, None, Some("1234".to_string())) {
        Ok(config) => {
            assert_eq!(config.module, "/usr/lib/softhsm/libsofthsm2.so");
            assert_eq!(config.token_label, "grpc-low-latency");
            assert_eq!(config.user_pin, "1234");
            let shown = config.redacted();
            assert_eq!(shown.token_label, "grpc-low-latency");
            assert_eq!(shown.user_pin, "<redacted>");
        }
        Err(message) => panic!("{message}"),
    }
    match TokenConfig::from_env(
        Some("/m.so".to_string()),
        Some("t".to_string()),
        Some("p".to_string()),
    ) {
        Ok(config) => {
            assert_eq!(config.module, "/m.so");
            assert_eq!(config.token_label, "t");
        }
        Err(message) => panic!("{message}"),
    }
}
