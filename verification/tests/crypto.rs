use grpc_low_latency_proxy::crypto::{
    check_digest_len, digest_of, prepare, public_key_to_spki_der, sec1_point_from_spki,
    unsupported_key_type, unwrap_der_octet_string, verify_public, CryptoError, HashAlgorithm, MaskGeneration, Mechanism,
    PreparedOperation, PssParams, PublicKeyKind, SignAlgorithm, SigningInput,
};
use grpc_low_latency_proxy::pkcs11::token::{Attribute, AttributeType, KeyType};
use p256::ecdsa::signature::hazmat::PrehashSigner;
use rand::rngs::OsRng;
use rsa::traits::PublicKeyParts;
use sha2::Digest;

const ECDSA_SHA256: i32 = 1;
const RSA_PKCS_SHA256: i32 = 2;
const RSA_PSS_SHA256: i32 = 3;

/// Payload sizes: none at all, and both sides of the block boundaries.
const SIZES: [usize; 9] = [0, 1, 31, 32, 55, 56, 63, 64, 200];

fn payload(size: usize) -> Vec<u8> {
    (0..size).map(|i| (i * 7 + size) as u8).collect()
}

fn sha256(data: &[u8]) -> Vec<u8> {
    sha2::Sha256::digest(data).to_vec()
}

/// A key pair in memory, which signs as a token does.
struct EcKey {
    signing: p256::ecdsa::SigningKey,
    spki: Vec<u8>,
    point: Vec<u8>,
}

fn ec_key() -> EcKey {
    let signing = p256::ecdsa::SigningKey::random(&mut OsRng);
    let point = signing
        .verifying_key()
        .to_encoded_point(false)
        .as_bytes()
        .to_vec();
    let components = vec![Attribute::EcPoint(point.clone())];
    match public_key_to_spki_der(PublicKeyKind::Ec, &components) {
        Ok((spki, name)) => {
            assert_eq!(name, "EC");
            EcKey {
                signing,
                spki,
                point,
            }
        }
        Err(error) => panic!("{}", error.message()),
    }
}

impl EcKey {
    fn sign(&self, operation: &PreparedOperation) -> Vec<u8> {
        assert_eq!(operation.algorithm, SignAlgorithm::Ecdsa);
        let signature: p256::ecdsa::Signature =
            self.signing.sign_prehash(&operation.payload).unwrap();
        signature.to_bytes().to_vec()
    }
}

struct RsaKey {
    private: rsa::RsaPrivateKey,
    spki: Vec<u8>,
}

fn rsa_key() -> RsaKey {
    let private = rsa::RsaPrivateKey::new(&mut OsRng, 1024).unwrap();
    let components = vec![
        Attribute::Modulus(private.n().to_bytes_be()),
        Attribute::PublicExponent(private.e().to_bytes_be()),
    ];
    match public_key_to_spki_der(PublicKeyKind::Rsa, &components) {
        Ok((spki, name)) => {
            assert_eq!(name, "RSA");
            RsaKey { private, spki }
        }
        Err(error) => panic!("{}", error.message()),
    }
}

impl RsaKey {
    fn sign(&self, operation: &PreparedOperation) -> Vec<u8> {
        match operation.algorithm {
            SignAlgorithm::Sha256RsaPkcs => self
                .private
                .sign(
                    rsa::Pkcs1v15Sign::new::<sha2::Sha256>(),
                    &sha256(&operation.payload),
                )
                .unwrap(),
            SignAlgorithm::RsaPkcs => self
                .private
                .sign(rsa::Pkcs1v15Sign::new_unprefixed(), &operation.payload)
                .unwrap(),
            SignAlgorithm::Sha256RsaPkcsPss => self
                .private
                .sign_with_rng(
                    &mut OsRng,
                    rsa::pss::Pss::new::<sha2::Sha256>(),
                    &sha256(&operation.payload),
                )
                .unwrap(),
            SignAlgorithm::RsaPkcsPss => self
                .private
                .sign_with_rng(
                    &mut OsRng,
                    rsa::pss::Pss::new::<sha2::Sha256>(),
                    &operation.payload,
                )
                .unwrap(),
            SignAlgorithm::Ecdsa => panic!("an RSA key cannot do that"),
        }
    }
}

fn prepared(mechanism: i32, input: SigningInput) -> PreparedOperation {
    match prepare(mechanism, input) {
        Ok(operation) => operation,
        Err(error) => panic!("{}", error.message()),
    }
}

fn verified(spki: &[u8], mechanism: i32, input: &SigningInput, signature: &[u8]) -> bool {
    match verify_public(spki, mechanism, input, signature) {
        Ok(valid) => valid,
        Err(error) => panic!("{}", error.message()),
    }
}

fn refusal(result: Result<bool, CryptoError>) -> String {
    match result {
        Ok(_) => panic!("an error was expected"),
        Err(error) => error.message(),
    }
}

#[test]
fn ecdsa_message_round_trips() {
    let key = ec_key();
    for size in SIZES {
        let input = SigningInput::Message(payload(size));
        let signature = key.sign(&prepared(ECDSA_SHA256, input.clone()));
        assert!(verified(&key.spki, ECDSA_SHA256, &input, &signature));
    }
}

#[test]
fn ecdsa_digest_round_trips() {
    let key = ec_key();
    for size in SIZES {
        let input = SigningInput::Digest(sha256(&payload(size)));
        let signature = key.sign(&prepared(ECDSA_SHA256, input.clone()));
        assert!(verified(&key.spki, ECDSA_SHA256, &input, &signature));
    }
}

/// A signature produced from the message form must verify when the caller supplies only the
/// digest, and the other way round.
#[test]
fn ecdsa_input_forms_agree() {
    let key = ec_key();
    for size in SIZES {
        let message = SigningInput::Message(payload(size));
        let digest = SigningInput::Digest(sha256(&payload(size)));
        let signature = key.sign(&prepared(ECDSA_SHA256, message.clone()));
        assert!(verified(&key.spki, ECDSA_SHA256, &message, &signature));
        assert!(verified(&key.spki, ECDSA_SHA256, &digest, &signature));
        let signature = key.sign(&prepared(ECDSA_SHA256, digest.clone()));
        assert!(verified(&key.spki, ECDSA_SHA256, &message, &signature));
        assert!(verified(&key.spki, ECDSA_SHA256, &digest, &signature));
    }
}

#[test]
fn rsa_pkcs1_message_round_trips() {
    let key = rsa_key();
    for size in SIZES {
        let input = SigningInput::Message(payload(size));
        let signature = key.sign(&prepared(RSA_PKCS_SHA256, input.clone()));
        assert!(verified(&key.spki, RSA_PKCS_SHA256, &input, &signature));
    }
}

#[test]
fn rsa_pkcs1_digest_round_trips() {
    let key = rsa_key();
    for size in SIZES {
        let input = SigningInput::Digest(sha256(&payload(size)));
        let signature = key.sign(&prepared(RSA_PKCS_SHA256, input.clone()));
        assert!(verified(&key.spki, RSA_PKCS_SHA256, &input, &signature));
    }
}

/// PKCS#1 v1.5 is deterministic, so a signature over the message and one over the digest must be
/// byte-identical.
#[test]
fn rsa_pkcs1_both_forms_produce_identical_signatures() {
    let key = rsa_key();
    for size in SIZES {
        let from_message = key.sign(&prepared(
            RSA_PKCS_SHA256,
            SigningInput::Message(payload(size)),
        ));
        let from_digest = key.sign(&prepared(
            RSA_PKCS_SHA256,
            SigningInput::Digest(sha256(&payload(size))),
        ));
        assert_eq!(from_message, from_digest);
    }
}

#[test]
fn rsa_pss_message_round_trips() {
    let key = rsa_key();
    for size in SIZES {
        let message = SigningInput::Message(payload(size));
        let digest = SigningInput::Digest(sha256(&payload(size)));
        let signature = key.sign(&prepared(RSA_PSS_SHA256, message.clone()));
        assert!(verified(&key.spki, RSA_PSS_SHA256, &message, &signature));
        assert!(verified(&key.spki, RSA_PSS_SHA256, &digest, &signature));
        assert!(!verified(&key.spki, RSA_PKCS_SHA256, &digest, &signature));
    }
}

/// A signature must not verify against different data.
#[test]
fn signatures_do_not_verify_against_other_data() {
    let key = ec_key();
    let signature = key.sign(&prepared(
        ECDSA_SHA256,
        SigningInput::Message(b"one thing".to_vec()),
    ));
    let other = SigningInput::Message(b"another thing".to_vec());
    assert!(!verified(&key.spki, ECDSA_SHA256, &other, &signature));
    let other = SigningInput::Digest(sha256(b"another thing"));
    assert!(!verified(&key.spki, ECDSA_SHA256, &other, &signature));

    let key = rsa_key();
    for mechanism in [RSA_PKCS_SHA256, RSA_PSS_SHA256] {
        let signature = key.sign(&prepared(
            mechanism,
            SigningInput::Message(b"one thing".to_vec()),
        ));
        let other = SigningInput::Message(b"another thing".to_vec());
        assert!(!verified(&key.spki, mechanism, &other, &signature));
    }
}

#[test]
fn bytes_that_are_no_signature_do_not_verify() {
    let key = ec_key();
    let message = SigningInput::Message(b"m".to_vec());
    let digest = SigningInput::Digest(sha256(b"m"));
    for bytes in [vec![], vec![1u8; 63], vec![0u8; 64], vec![0xffu8; 64], vec![1u8; 65]] {
        assert!(!verified(&key.spki, ECDSA_SHA256, &message, &bytes));
        assert!(!verified(&key.spki, ECDSA_SHA256, &digest, &bytes));
    }
}

#[test]
fn prepare_shapes_the_payload_for_each_mechanism() {
    let message = b"integration test".to_vec();
    let digest = sha256(&message);

    let operation = prepared(ECDSA_SHA256, SigningInput::Message(message.clone()));
    assert_eq!(operation.algorithm, SignAlgorithm::Ecdsa);
    assert_eq!(operation.payload, digest);
    let operation = prepared(ECDSA_SHA256, SigningInput::Digest(digest.clone()));
    assert_eq!(operation.algorithm, SignAlgorithm::Ecdsa);
    assert_eq!(operation.payload, digest);

    let operation = prepared(RSA_PKCS_SHA256, SigningInput::Message(message.clone()));
    assert_eq!(operation.algorithm, SignAlgorithm::Sha256RsaPkcs);
    assert_eq!(operation.payload, message);
    let operation = prepared(RSA_PKCS_SHA256, SigningInput::Digest(digest.clone()));
    assert_eq!(operation.algorithm, SignAlgorithm::RsaPkcs);
    assert_eq!(
        operation.payload[..19],
        [
            0x30, 0x31, 0x30, 0x0d, 0x06, 0x09, 0x60, 0x86, 0x48, 0x01, 0x65, 0x03, 0x04, 0x02,
            0x01, 0x05, 0x00, 0x04, 0x20
        ]
    );
    assert_eq!(operation.payload[19..], digest[..]);

    let operation = prepared(RSA_PSS_SHA256, SigningInput::Message(message.clone()));
    assert_eq!(operation.algorithm, SignAlgorithm::Sha256RsaPkcsPss);
    assert_eq!(operation.payload, message);
    let operation = prepared(RSA_PSS_SHA256, SigningInput::Digest(digest.clone()));
    assert_eq!(operation.algorithm, SignAlgorithm::RsaPkcsPss);
    assert_eq!(operation.payload, digest);
}

#[test]
fn prepare_refuses_what_it_cannot_sign() {
    let told = |mechanism: i32, input: SigningInput| match prepare(mechanism, input) {
        Ok(_) => panic!("an error was expected"),
        Err(error) => error.message(),
    };
    assert_eq!(
        told(9, SigningInput::Message(vec![])),
        "unknown signature mechanism 9"
    );
    assert_eq!(
        told(-2147483648, SigningInput::Message(vec![])),
        "unknown signature mechanism -2147483648"
    );
    assert_eq!(
        told(0, SigningInput::Digest(vec![])),
        "signature mechanism must be specified"
    );
    for mechanism in [ECDSA_SHA256, RSA_PKCS_SHA256, RSA_PSS_SHA256] {
        assert_eq!(
            told(mechanism, SigningInput::Digest(vec![0; 20])),
            "expected a 32-byte SHA-256 digest, got 20 bytes"
        );
    }
}

/// Recovering the digest undoes what preparing did, for every mechanism and both forms.
#[test]
fn the_recovered_digest_is_the_inputs() {
    let message = b"some message".to_vec();
    let digest = sha256(&message);
    for mechanism in [ECDSA_SHA256, RSA_PKCS_SHA256, RSA_PSS_SHA256] {
        for input in [
            SigningInput::Message(message.clone()),
            SigningInput::Digest(digest.clone()),
        ] {
            match prepared(mechanism, input.clone()).verification_digest() {
                Ok(recovered) => assert_eq!(recovered, digest),
                Err(error) => panic!("{}", error.message()),
            }
            match digest_of(&input) {
                Ok(direct) => assert_eq!(direct, digest),
                Err(error) => panic!("{}", error.message()),
            }
        }
    }
}

#[test]
fn a_payload_that_is_no_digest_info_has_no_digest() {
    for payload in [vec![], vec![0x30; 51], sha256(b"x")] {
        let operation = PreparedOperation {
            algorithm: SignAlgorithm::RsaPkcs,
            payload,
        };
        match operation.verification_digest() {
            Ok(_) => panic!("an error was expected"),
            Err(error) => assert_eq!(error.message(), "payload is not a SHA-256 DigestInfo"),
        }
    }
}

#[test]
fn digests_are_thirty_two_bytes() {
    assert!(check_digest_len(&[0; 32]).is_ok());
    assert!(check_digest_len(&[0; 31]).is_err());
    assert!(check_digest_len(&[]).is_err());
    match digest_of(&SigningInput::Digest(vec![0; 33])) {
        Ok(_) => panic!("an error was expected"),
        Err(error) => assert_eq!(
            error.message(),
            "expected a 32-byte SHA-256 digest, got 33 bytes"
        ),
    }
}

#[test]
fn mechanisms_carry_their_parameters() {
    let pss = PssParams {
        hash: HashAlgorithm::Sha256,
        mgf: MaskGeneration::Mgf1Sha256,
        salt_len: 32,
    };
    assert_eq!(SignAlgorithm::Ecdsa.mechanism(), Mechanism::Ecdsa);
    assert_eq!(SignAlgorithm::RsaPkcs.mechanism(), Mechanism::RsaPkcs);
    assert_eq!(
        SignAlgorithm::Sha256RsaPkcs.mechanism(),
        Mechanism::Sha256RsaPkcs
    );
    assert_eq!(
        SignAlgorithm::RsaPkcsPss.mechanism(),
        Mechanism::RsaPkcsPss(pss)
    );
    assert_eq!(
        SignAlgorithm::Sha256RsaPkcsPss.mechanism(),
        Mechanism::Sha256RsaPkcsPss(pss)
    );
}

#[test]
fn verification_tells_a_bad_request_from_a_bad_signature() {
    let key = ec_key();
    let message = SigningInput::Message(b"m".to_vec());
    let digest = SigningInput::Digest(sha256(b"m"));
    assert_eq!(
        refusal(verify_public(&key.spki, 7, &message, &[])),
        "unknown signature mechanism"
    );
    assert_eq!(
        refusal(verify_public(&key.spki, 0, &message, &[])),
        "signature mechanism must be specified"
    );
    assert_eq!(
        refusal(verify_public(&[1, 2, 3], ECDSA_SHA256, &message, &[])),
        "not a valid P-256 SPKI"
    );
    assert_eq!(
        refusal(verify_public(&[1, 2, 3], ECDSA_SHA256, &digest, &[])),
        "cached public key is not a valid P-256 SPKI"
    );
    assert_eq!(
        refusal(verify_public(&key.spki, RSA_PKCS_SHA256, &message, &[])),
        "cached public key is not a valid RSA SPKI"
    );
    let short = SigningInput::Digest(vec![0; 4]);
    for mechanism in [ECDSA_SHA256, RSA_PKCS_SHA256, RSA_PSS_SHA256] {
        assert_eq!(
            refusal(verify_public(&key.spki, mechanism, &short, &[])),
            "expected a 32-byte SHA-256 digest, got 4 bytes"
        );
    }
}

#[test]
fn the_point_of_an_encoded_key_reads_back() {
    let key = ec_key();
    match sec1_point_from_spki(&key.spki) {
        Ok(point) => assert_eq!(point, key.point),
        Err(error) => panic!("{}", error.message()),
    }
    assert_ne!(key.spki, key.point);
    match sec1_point_from_spki(&key.point) {
        Ok(_) => panic!("a bare point is no SubjectPublicKeyInfo"),
        Err(error) => assert_eq!(error.message(), "not a valid P-256 SPKI"),
    }
}

/// A module may wrap the point in an OCTET STRING or return it bare: both name the same key.
#[test]
fn wrapped_and_bare_points_encode_alike() {
    let key = ec_key();
    let mut wrapped = vec![0x04, 65];
    wrapped.extend_from_slice(&key.point);
    match public_key_to_spki_der(PublicKeyKind::Ec, &vec![Attribute::EcPoint(wrapped)]) {
        Ok((spki, _)) => assert_eq!(spki, key.spki),
        Err(error) => panic!("{}", error.message()),
    }
    let compressed = key
        .signing
        .verifying_key()
        .to_encoded_point(true)
        .as_bytes()
        .to_vec();
    let mut wrapped = vec![0x04, 33];
    wrapped.extend_from_slice(&compressed);
    match public_key_to_spki_der(PublicKeyKind::Ec, &vec![Attribute::EcPoint(wrapped)]) {
        Ok((spki, _)) => assert_eq!(spki, key.spki),
        Err(error) => panic!("{}", error.message()),
    }
}

#[test]
fn octet_strings_are_unwrapped() {
    let unwrapped = |bytes: &[u8]| match unwrap_der_octet_string(bytes) {
        Ok(contents) => contents.to_vec(),
        Err(error) => panic!("{}", error.message()),
    };
    let told = |bytes: &[u8]| match unwrap_der_octet_string(bytes) {
        Ok(_) => panic!("an error was expected"),
        Err(error) => error.message(),
    };

    let mut bare = vec![0x04];
    bare.extend(vec![7; 64]);
    assert_eq!(unwrapped(&bare), bare);
    assert_eq!(unwrapped(&[0x04, 2, 8, 9]), vec![8, 9]);
    assert_eq!(unwrapped(&[0x04, 2, 8, 9, 10]), vec![8, 9]);
    assert_eq!(unwrapped(&[0x04, 0]), Vec::<u8>::new());
    assert_eq!(unwrapped(&[0x04, 0x81, 3, 1, 2, 3]), vec![1, 2, 3]);

    let neither = "CKA_EC_POINT is neither a DER OCTET STRING nor a SEC1 point";
    assert_eq!(told(&[]), neither);
    assert_eq!(told(&[0x30, 2, 8, 9]), neither);
    let unsupported = "unsupported CKA_EC_POINT length encoding";
    assert_eq!(told(&[0x04]), unsupported);
    assert_eq!(told(&[0x04, 0x82, 0, 1, 9]), unsupported);
    assert_eq!(told(&[0x04, 0x80]), unsupported);
    assert_eq!(told(&[0x04, 0x81]), "truncated EC point");
    assert_eq!(
        told(&[0x04, 9, 1]),
        "CKA_EC_POINT declares 9 bytes but the value is truncated"
    );
    assert_eq!(
        told(&[0x04, 0x81, 200, 1]),
        "CKA_EC_POINT declares 200 bytes but the value is truncated"
    );
}

#[test]
fn keys_that_cannot_be_encoded_say_why() {
    let told = |kind: PublicKeyKind, components: Vec<Attribute>| {
        match public_key_to_spki_der(kind, &components) {
            Ok(_) => panic!("an error was expected"),
            Err(error) => error.message(),
        }
    };
    assert_eq!(
        told(PublicKeyKind::Ec, vec![Attribute::Token(true)]),
        "public key has no CKA_EC_POINT"
    );
    let mut off_curve = vec![0x04];
    off_curve.extend(vec![1; 64]);
    assert_eq!(
        told(PublicKeyKind::Ec, vec![Attribute::EcPoint(off_curve)]),
        "CKA_EC_POINT is not a valid P-256 point: crypto error"
    );
    assert_eq!(
        told(PublicKeyKind::Rsa, vec![]),
        "public key has no modulus"
    );
    assert_eq!(
        told(PublicKeyKind::Rsa, vec![Attribute::Modulus(vec![9])]),
        "public key has no exponent"
    );
    assert_eq!(
        told(
            PublicKeyKind::Rsa,
            vec![
                Attribute::Modulus(vec![0]),
                Attribute::PublicExponent(vec![1, 0, 1])
            ]
        ),
        "token returned an invalid RSA public key"
    );
}

/// The first point counts, and the last modulus and exponent.
#[test]
fn repeated_components_are_resolved() {
    let key = ec_key();
    let other = ec_key();
    let components = vec![
        Attribute::Other,
        Attribute::EcPoint(key.point.clone()),
        Attribute::EcPoint(other.point.clone()),
    ];
    match public_key_to_spki_der(PublicKeyKind::Ec, &components) {
        Ok((spki, _)) => assert_eq!(spki, key.spki),
        Err(error) => panic!("{}", error.message()),
    }

    let key = rsa_key();
    let components = vec![
        Attribute::Modulus(vec![1]),
        Attribute::PublicExponent(vec![2]),
        Attribute::PublicExponent(key.private.e().to_bytes_be()),
        Attribute::Modulus(key.private.n().to_bytes_be()),
    ];
    match public_key_to_spki_der(PublicKeyKind::Rsa, &components) {
        Ok((spki, _)) => assert_eq!(spki, key.spki),
        Err(error) => panic!("{}", error.message()),
    }
}

#[test]
fn the_key_type_decides_what_is_read() {
    let kind = |attributes: Vec<Attribute>| PublicKeyKind::of_key_type(&attributes);
    assert_eq!(
        kind(vec![Attribute::KeyType(KeyType::Ec)]),
        Some(PublicKeyKind::Ec)
    );
    assert_eq!(
        kind(vec![Attribute::KeyType(KeyType::Rsa)]),
        Some(PublicKeyKind::Rsa)
    );
    assert_eq!(kind(vec![Attribute::KeyType(KeyType::Aes)]), None);
    assert_eq!(kind(vec![Attribute::KeyType(KeyType::Other(5))]), None);
    assert_eq!(kind(vec![]), None);
    assert_eq!(
        kind(vec![Attribute::Other, Attribute::KeyType(KeyType::Ec)]),
        None
    );
    assert_eq!(
        unsupported_key_type("Some(KeyType(KeyType { val: 31 }))"),
        "unsupported public key type: Some(KeyType(KeyType { val: 31 }))"
    );
    assert_eq!(PublicKeyKind::Ec.components(), vec![AttributeType::EcPoint]);
    assert_eq!(
        PublicKeyKind::Rsa.components(),
        vec![AttributeType::Modulus, AttributeType::PublicExponent]
    );
}

/// A signature's halves lie between zero and the order of the group.
#[test]
fn signatures_out_of_range_are_refused() {
    let key = ec_key();
    let order: [u8; 32] = [
        0xff, 0xff, 0xff, 0xff, 0, 0, 0, 0, 0xff, 0xff, 0xff, 0xff, 0xff, 0xff, 0xff, 0xff, 0xbc,
        0xe6, 0xfa, 0xad, 0xa7, 0x17, 0x9e, 0x84, 0xf3, 0xb9, 0xca, 0xc2, 0xfc, 0x63, 0x25, 0x51,
    ];
    let mut one = [0u8; 32];
    one[31] = 1;
    let input = SigningInput::Digest(vec![7; 32]);
    for halves in [[order, one], [one, order], [[0; 32], one], [one, [0; 32]]] {
        let signature = halves.concat();
        assert!(p256::ecdsa::Signature::from_slice(&signature).is_err());
        assert!(matches!(
            verify_public(&key.spki, ECDSA_SHA256, &input, &signature),
            Ok(false)
        ));
    }
    let mut below = order;
    below[31] -= 1;
    assert!(p256::ecdsa::Signature::from_slice(&[below, one].concat()).is_ok());
}

/// The modulus is odd and has at most 4096 bits; the exponent is odd, below it, and has at most 33
/// bits.
#[test]
fn rsa_components_have_bounds() {
    let encodes = |modulus: Vec<u8>, exponent: Vec<u8>| {
        let components = vec![
            Attribute::Modulus(modulus),
            Attribute::PublicExponent(exponent),
        ];
        public_key_to_spki_der(PublicKeyKind::Rsa, &components).is_ok()
    };
    let full = vec![0xff; 512];
    assert!(encodes(full.clone(), vec![1, 0, 1]));
    assert!(encodes(full.clone(), vec![3]));
    assert!(encodes(full.clone(), vec![1, 0xff, 0xff, 0xff, 0xff]));
    assert!(!encodes(full.clone(), vec![2, 0, 0, 0, 1]));
    assert!(!encodes(full.clone(), vec![1]));
    assert!(!encodes(full.clone(), vec![4]));
    assert!(!encodes(full.clone(), vec![]));
    let mut even = full.clone();
    even[511] = 0xfe;
    assert!(!encodes(even, vec![3]));
    let mut wide = vec![1];
    wide.extend(&full);
    assert!(!encodes(wide, vec![3]));
    let mut padded = vec![0];
    padded.extend(&full);
    assert!(encodes(padded, vec![3]));
    assert!(!encodes(vec![7], vec![7]));
    assert!(encodes(vec![7], vec![5]));
}
