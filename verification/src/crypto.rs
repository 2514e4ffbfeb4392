//! Turning the wire protocol's mechanisms and key material into PKCS#11 terms, and checking
//! signatures in this process.

use vstd::prelude::*;
use vstd::slice::{slice_subrange, slice_to_vec};

use crate::primitives;
use crate::text;
use crate::pkcs11::token::{attribute_views, Attribute, AttributeType, AttributeView, KeyType};
use crate::wire::SignatureMechanism;

verus! {

/// The length of a SHA-256 digest.
pub const SHA256_LEN: usize = 32;

/// The DER `DigestInfo` header for SHA-256 (RFC 8017, section 9.2): a digest behind it is what
/// PKCS#1 v1.5 signs.
pub open spec fn digest_info_prefix() -> Seq<u8> {
    seq![
        0x30u8, 0x31, 0x30, 0x0d, 0x06, 0x09, 0x60, 0x86, 0x48, 0x01, 0x65, 0x03, 0x04, 0x02, 0x01,
        0x05, 0x00, 0x04, 0x20,
    ]
}

fn digest_info_prefix_bytes() -> (bytes: Vec<u8>)
    ensures
        bytes@ == digest_info_prefix(),
{
    let bytes: Vec<u8> = vec![
        0x30u8, 0x31, 0x30, 0x0d, 0x06, 0x09, 0x60, 0x86, 0x48, 0x01, 0x65, 0x03, 0x04, 0x02, 0x01,
        0x05, 0x00, 0x04, 0x20,
    ];
    assert(bytes@ =~= digest_info_prefix());
    bytes
}

/// What a caller wants signed, or claims was signed.
#[derive(Clone, Debug)]
pub enum SigningInput {
    /// The raw message; the proxy or the token hashes it.
    Message(Vec<u8>),
    /// A digest that the caller computed, which keeps large payloads off the wire.
    Digest(Vec<u8>),
}

/// The value of a [`SigningInput`].
#[verifier::ext_equal]
pub enum SigningInputView {
    Message(Seq<u8>),
    Digest(Seq<u8>),
}

impl View for SigningInput {
    type V = SigningInputView;

    open spec fn view(&self) -> SigningInputView {
        match self {
            SigningInput::Message(message) => SigningInputView::Message(message@),
            SigningInput::Digest(digest) => SigningInputView::Digest(digest@),
        }
    }
}

/// Which PKCS#11 mechanism to invoke.
#[derive(Clone, Copy, Debug, PartialEq, Eq, Structural)]
pub enum SignAlgorithm {
    /// `CKM_ECDSA`, over a bare digest.
    Ecdsa,
    /// `CKM_RSA_PKCS`, over a `DigestInfo` that the proxy built.
    RsaPkcs,
    /// `CKM_SHA256_RSA_PKCS`: the token hashes.
    Sha256RsaPkcs,
    /// `CKM_RSA_PKCS_PSS`, over a bare digest.
    RsaPkcsPss,
    /// `CKM_SHA256_RSA_PKCS_PSS`: the token hashes.
    Sha256RsaPkcsPss,
}

/// A hash algorithm that a PKCS#11 mechanism takes as a parameter.
#[derive(Clone, Copy, Debug, PartialEq, Eq, Structural)]
pub enum HashAlgorithm {
    Sha256,
}

/// A mask generation function that a PKCS#11 mechanism takes as a parameter.
#[derive(Clone, Copy, Debug, PartialEq, Eq, Structural)]
pub enum MaskGeneration {
    Mgf1Sha256,
}

/// The parameters of RSASSA-PSS.
#[derive(Clone, Copy, Debug, PartialEq, Eq, Structural)]
pub struct PssParams {
    pub hash: HashAlgorithm,
    pub mgf: MaskGeneration,
    pub salt_len: u64,
}

/// A PKCS#11 signing mechanism with its parameters.
#[derive(Clone, Copy, Debug, PartialEq, Eq, Structural)]
pub enum Mechanism {
    Ecdsa,
    RsaPkcs,
    Sha256RsaPkcs,
    RsaPkcsPss(PssParams),
    Sha256RsaPkcsPss(PssParams),
}

/// The parameters that every PSS signature of the proxy has: SHA-256 throughout, and a salt as
/// long as the digest.
pub open spec fn spec_pss_params() -> PssParams {
    PssParams { hash: HashAlgorithm::Sha256, mgf: MaskGeneration::Mgf1Sha256, salt_len: 32 }
}

fn pss_params() -> (params: PssParams)
    ensures
        params == spec_pss_params(),
{
    PssParams {
        hash: HashAlgorithm::Sha256,
        mgf: MaskGeneration::Mgf1Sha256,
        salt_len: SHA256_LEN as u64,
    }
}

impl SignAlgorithm {
    /// Does the token hash the payload itself?
    pub open spec fn token_hashes(self) -> bool {
        self is Sha256RsaPkcs || self is Sha256RsaPkcsPss
    }

    /// The mechanism with its parameters.
    pub open spec fn spec_mechanism(self) -> Mechanism {
        match self {
            SignAlgorithm::Ecdsa => Mechanism::Ecdsa,
            SignAlgorithm::RsaPkcs => Mechanism::RsaPkcs,
            SignAlgorithm::Sha256RsaPkcs => Mechanism::Sha256RsaPkcs,
            SignAlgorithm::RsaPkcsPss => Mechanism::RsaPkcsPss(spec_pss_params()),
            SignAlgorithm::Sha256RsaPkcsPss => Mechanism::Sha256RsaPkcsPss(spec_pss_params()),
        }
    }

    /// The mechanism with its parameters.
    pub fn mechanism(self) -> (mechanism: Mechanism)
        ensures
            mechanism == self.spec_mechanism(),
    {
        match self {
            SignAlgorithm::Ecdsa => Mechanism::Ecdsa,
            SignAlgorithm::RsaPkcs => Mechanism::RsaPkcs,
            SignAlgorithm::Sha256RsaPkcs => Mechanism::Sha256RsaPkcs,
            SignAlgorithm::RsaPkcsPss => Mechanism::RsaPkcsPss(pss_params()),
            SignAlgorithm::Sha256RsaPkcsPss => Mechanism::Sha256RsaPkcsPss(pss_params()),
        }
    }
}

/// An algorithm together with the exact bytes to hand `C_Sign`.
///
/// The two travel together because they are not independent: whether the payload is a message,
/// a bare digest or a `DigestInfo` depends on which mechanism the input forced.
#[derive(Debug)]
pub struct PreparedOperation {
    pub algorithm: SignAlgorithm,
    pub payload: Vec<u8>,
}

/// Why an operation on key material or on a signing request failed.
#[derive(Clone, Debug)]
pub enum CryptoError {
    /// The number stands for no signature mechanism.
    UnknownMechanism(i32),
    /// The number of a signature to be checked stands for no signature mechanism.
    UnknownVerifyMechanism,
    /// No mechanism was asked for.
    MechanismUnspecified,
    /// A digest of this many bytes cannot be a SHA-256 digest.
    DigestLength(usize),
    /// The payload is no `DigestInfo` around a SHA-256 digest.
    NotDigestInfo,
    /// The public key has no point.
    NoEcPoint,
    /// The point is wrapped in nothing that the proxy knows.
    NotAnEcPoint,
    /// The point ends before its length does.
    TruncatedLength,
    /// The point's length is written in a form that no P-256 point needs.
    UnsupportedLength,
    /// The point declares this many bytes and has fewer.
    TruncatedPoint(usize),
    /// The bytes are no point of P-256.
    NotOnCurve,
    /// The EC public key could not be encoded.
    EcEncoding,
    /// The public key has no modulus.
    NoModulus,
    /// The public key has no exponent.
    NoExponent,
    /// Modulus and exponent form no RSA public key.
    InvalidRsaKey,
    /// The RSA public key could not be encoded.
    RsaEncoding,
    /// The `SubjectPublicKeyInfo` holds no P-256 key.
    NotP256Spki,
    /// The cached `SubjectPublicKeyInfo` holds no P-256 key.
    CachedNotP256,
    /// The cached `SubjectPublicKeyInfo` holds no RSA key.
    CachedNotRsa,
}

impl CryptoError {
    /// The text that describes the failure.
    pub open spec fn text(self) -> Seq<char> {
        match self {
            CryptoError::UnknownMechanism(number) => "unknown signature mechanism "@
                + text::decimal_int(number as int),
            CryptoError::UnknownVerifyMechanism => "unknown signature mechanism"@,
            CryptoError::MechanismUnspecified => "signature mechanism must be specified"@,
            CryptoError::DigestLength(len) => "expected a 32-byte SHA-256 digest, got "@
                + text::decimal(len as nat) + " bytes"@,
            CryptoError::NotDigestInfo => "payload is not a SHA-256 DigestInfo"@,
            CryptoError::NoEcPoint => "public key has no CKA_EC_POINT"@,
            CryptoError::NotAnEcPoint =>
                "CKA_EC_POINT is neither a DER OCTET STRING nor a SEC1 point"@,
            CryptoError::TruncatedLength => "truncated EC point"@,
            CryptoError::UnsupportedLength => "unsupported CKA_EC_POINT length encoding"@,
            CryptoError::TruncatedPoint(len) => "CKA_EC_POINT declares "@ + text::decimal(
                len as nat,
            ) + " bytes but the value is truncated"@,
            CryptoError::NotOnCurve => "CKA_EC_POINT is not a valid P-256 point: crypto error"@,
            CryptoError::EcEncoding => "failed to DER-encode the EC public key"@,
            CryptoError::NoModulus => "public key has no modulus"@,
            CryptoError::NoExponent => "public key has no exponent"@,
            CryptoError::InvalidRsaKey => "token returned an invalid RSA public key"@,
            CryptoError::RsaEncoding => "failed to DER-encode the RSA public key"@,
            CryptoError::NotP256Spki => "not a valid P-256 SPKI"@,
            CryptoError::CachedNotP256 => "cached public key is not a valid P-256 SPKI"@,
            CryptoError::CachedNotRsa => "cached public key is not a valid RSA SPKI"@,
        }
    }

    /// The text that describes the failure.
    pub fn message(&self) -> (message: String)
        ensures
            message@ == self.text(),
    {
        match self {
            CryptoError::UnknownMechanism(number) => {
                let mut message = "unknown signature mechanism ".to_owned();
                message.append(text::decimal_int_text(*number).as_str());
                message
            },
            CryptoError::UnknownVerifyMechanism => "unknown signature mechanism".to_owned(),
            CryptoError::MechanismUnspecified => "signature mechanism must be specified".to_owned(),
            CryptoError::DigestLength(len) => text::framed(
                "expected a 32-byte SHA-256 digest, got ",
                *len as u64,
                " bytes",
            ),
            CryptoError::NotDigestInfo => "payload is not a SHA-256 DigestInfo".to_owned(),
            CryptoError::NoEcPoint => "public key has no CKA_EC_POINT".to_owned(),
            CryptoError::NotAnEcPoint =>
                "CKA_EC_POINT is neither a DER OCTET STRING nor a SEC1 point".to_owned(),
            CryptoError::TruncatedLength => "truncated EC point".to_owned(),
            CryptoError::UnsupportedLength => "unsupported CKA_EC_POINT length encoding".to_owned(),
            CryptoError::TruncatedPoint(len) => text::framed(
                "CKA_EC_POINT declares ",
                *len as u64,
                " bytes but the value is truncated",
            ),
            CryptoError::NotOnCurve =>
                "CKA_EC_POINT is not a valid P-256 point: crypto error".to_owned(),
            CryptoError::EcEncoding => "failed to DER-encode the EC public key".to_owned(),
            CryptoError::NoModulus => "public key has no modulus".to_owned(),
            CryptoError::NoExponent => "public key has no exponent".to_owned(),
            CryptoError::InvalidRsaKey => "token returned an invalid RSA public key".to_owned(),
            CryptoError::RsaEncoding => "failed to DER-encode the RSA public key".to_owned(),
            CryptoError::NotP256Spki => "not a valid P-256 SPKI".to_owned(),
            CryptoError::CachedNotP256 => "cached public key is not a valid P-256 SPKI".to_owned(),
            CryptoError::CachedNotRsa => "cached public key is not a valid RSA SPKI".to_owned(),
        }
    }
}

impl CryptoError {
    /// Is the request at fault, rather than the key?
    pub open spec fn in_request(self) -> bool {
        self is UnknownMechanism || self is UnknownVerifyMechanism || self is MechanismUnspecified
            || self is DigestLength
    }

    /// Is the request at fault, rather than the key?
    pub fn is_in_request(&self) -> (at_fault: bool)
        ensures
            at_fault == self.in_request(),
    {
        match self {
            CryptoError::UnknownMechanism(_)
            | CryptoError::UnknownVerifyMechanism
            | CryptoError::MechanismUnspecified
            | CryptoError::DigestLength(_) => true,
            _ => false,
        }
    }
}

/// Does the digest have the length of a SHA-256 digest?
pub open spec fn digest_len_ok(digest: Seq<u8>) -> bool {
    digest.len() == SHA256_LEN
}

/// Check that a digest has the length of a SHA-256 digest.
pub fn check_digest_len(digest: &[u8]) -> (result: Result<(), CryptoError>)
    ensures
        result == (if digest_len_ok(digest@) {
            Ok::<(), CryptoError>(())
        } else {
            Err(CryptoError::DigestLength(digest@.len() as usize))
        }),
{
    if digest.len() != SHA256_LEN {
        return Err(CryptoError::DigestLength(digest.len()));
    }
    Ok(())
}

/// What `C_Sign` is to be called with for a wire mechanism and an input: the algorithm and the
/// payload, or why there is none.
pub open spec fn prepared(mechanism: i32, input: SigningInputView) -> Result<
    (SignAlgorithm, Seq<u8>),
    CryptoError,
> {
    match SignatureMechanism::of_number(mechanism) {
        None => Err(CryptoError::UnknownMechanism(mechanism)),
        Some(SignatureMechanism::Unspecified) => Err(CryptoError::MechanismUnspecified),
        Some(known) => match input {
            SigningInputView::Message(message) => match known {
                SignatureMechanism::EcdsaSha256 => Ok(
                    (SignAlgorithm::Ecdsa, primitives::sha256(message)),
                ),
                SignatureMechanism::RsaPkcsSha256 => Ok((SignAlgorithm::Sha256RsaPkcs, message)),
                _ => Ok((SignAlgorithm::Sha256RsaPkcsPss, message)),
            },
            SigningInputView::Digest(digest) => if !digest_len_ok(digest) {
                Err(CryptoError::DigestLength(digest.len() as usize))
            } else {
                match known {
                    SignatureMechanism::EcdsaSha256 => Ok((SignAlgorithm::Ecdsa, digest)),
                    SignatureMechanism::RsaPkcsSha256 => Ok(
                        (SignAlgorithm::RsaPkcs, digest_info_prefix() + digest),
                    ),
                    _ => Ok((SignAlgorithm::RsaPkcsPss, digest)),
                }
            },
        },
    }
}

/// Resolve a wire mechanism and an input into something that PKCS#11 can execute.
///
/// ECDSA signs a bare digest, so a message is hashed here. PKCS#1 v1.5 lets the token hash a
/// message, and wraps a digest that the caller computed in a `DigestInfo`, because the token's
/// combined mechanism cannot take it. PSS encodes the digest itself and takes it bare.
pub fn prepare(mechanism: i32, input: SigningInput) -> (result: Result<
    PreparedOperation,
    CryptoError,
>)
    ensures
        match result {
            Ok(operation) => prepared(mechanism, input@) == Ok::<_, CryptoError>(
                (operation.algorithm, operation.payload@),
            ),
            Err(error) => prepared(mechanism, input@) == Err::<(SignAlgorithm, Seq<u8>), _>(error),
        },
{
    let known = match SignatureMechanism::from_number(mechanism) {
        Some(known) => known,
        None => return Err(CryptoError::UnknownMechanism(mechanism)),
    };
    match known {
        SignatureMechanism::Unspecified => Err(CryptoError::MechanismUnspecified),
        SignatureMechanism::EcdsaSha256 => match input {
            SigningInput::Message(message) => {
                let digest: [u8; 32] = primitives::sha256_digest(message.as_slice());
                Ok(
                    PreparedOperation {
                        algorithm: SignAlgorithm::Ecdsa,
                        payload: slice_to_vec(digest.as_slice()),
                    },
                )
            },
            SigningInput::Digest(digest) => {
                check_digest_len(digest.as_slice())?;
                Ok(PreparedOperation { algorithm: SignAlgorithm::Ecdsa, payload: digest })
            },
        },
        SignatureMechanism::RsaPkcsSha256 => match input {
            SigningInput::Message(message) => Ok(
                PreparedOperation { algorithm: SignAlgorithm::Sha256RsaPkcs, payload: message },
            ),
            SigningInput::Digest(digest) => {
                check_digest_len(digest.as_slice())?;
                let mut payload = digest_info_prefix_bytes();
                payload.extend_from_slice(digest.as_slice());
                assert(payload@ =~= digest_info_prefix() + digest@);
                Ok(PreparedOperation { algorithm: SignAlgorithm::RsaPkcs, payload })
            },
        },
        SignatureMechanism::RsaPssSha256 => match input {
            SigningInput::Message(message) => Ok(
                PreparedOperation { algorithm: SignAlgorithm::Sha256RsaPkcsPss, payload: message },
            ),
            SigningInput::Digest(digest) => {
                check_digest_len(digest.as_slice())?;
                Ok(PreparedOperation { algorithm: SignAlgorithm::RsaPkcsPss, payload: digest })
            },
        },
    }
}

/// The digest that an operation is over, given its algorithm and payload.
pub open spec fn recovered_digest(algorithm: SignAlgorithm, payload: Seq<u8>) -> Result<
    Seq<u8>,
    CryptoError,
> {
    match algorithm {
        SignAlgorithm::Ecdsa | SignAlgorithm::RsaPkcsPss => Ok(payload),
        SignAlgorithm::Sha256RsaPkcs | SignAlgorithm::Sha256RsaPkcsPss => Ok(
            primitives::sha256(payload),
        ),
        SignAlgorithm::RsaPkcs => if payload.len() == digest_info_prefix().len() + SHA256_LEN
            && digest_info_prefix().is_prefix_of(payload) {
            Ok(payload.skip(digest_info_prefix().len() as int))
        } else {
            Err(CryptoError::NotDigestInfo)
        },
    }
}

/// Do the bytes begin with the prefix?
fn starts_with(bytes: &[u8], prefix: &[u8]) -> (found: bool)
    ensures
        found == prefix@.is_prefix_of(bytes@),
{
    if bytes.len() < prefix.len() {
        return false;
    }
    let mut i: usize = 0;
    while i < prefix.len()
        invariant
            i <= prefix@.len() <= bytes@.len(),
            prefix@.take(i as int) == bytes@.take(i as int),
        decreases prefix@.len() - i,
    {
        if prefix[i] != bytes[i] {
            assert(prefix@[i as int] != bytes@.subrange(0, prefix@.len() as int)[i as int]);
            return false;
        }
        assert(prefix@.take(i + 1) =~= prefix@.take(i as int).push(prefix@[i as int]));
        assert(bytes@.take(i + 1) =~= bytes@.take(i as int).push(bytes@[i as int]));
        i += 1;
    }
    assert(prefix@.take(i as int) =~= prefix@);
    true
}

impl PreparedOperation {
    /// The bare SHA-256 digest that this operation is over.
    ///
    /// [`prepare`] shapes the payload for the mechanism that it selects, so recovering the
    /// digest undoes exactly that choice.
    pub fn verification_digest(&self) -> (result: Result<Vec<u8>, CryptoError>)
        ensures
            match result {
                Ok(digest) => recovered_digest(self.algorithm, self.payload@) == Ok::<
                    _,
                    CryptoError,
                >(digest@),
                Err(error) => recovered_digest(self.algorithm, self.payload@) == Err::<Seq<u8>, _>(
                    error,
                ),
            },
    {
        match self.algorithm {
            SignAlgorithm::Ecdsa | SignAlgorithm::RsaPkcsPss => Ok(
                slice_to_vec(self.payload.as_slice()),
            ),
            SignAlgorithm::Sha256RsaPkcs | SignAlgorithm::Sha256RsaPkcsPss => {
                let digest: [u8; 32] = primitives::sha256_digest(self.payload.as_slice());
                Ok(slice_to_vec(digest.as_slice()))
            },
            SignAlgorithm::RsaPkcs => {
                let prefix = digest_info_prefix_bytes();
                if self.payload.len() != prefix.len() + SHA256_LEN || !starts_with(
                    self.payload.as_slice(),
                    prefix.as_slice(),
                ) {
                    return Err(CryptoError::NotDigestInfo);
                }
                let digest = slice_subrange(
                    self.payload.as_slice(),
                    prefix.len(),
                    self.payload.len(),
                );
                assert(digest@ =~= self.payload@.skip(digest_info_prefix().len() as int));
                Ok(slice_to_vec(digest))
            },
        }
    }
}

/// The digest that an input stands for.
pub open spec fn input_digest(input: SigningInputView) -> Result<Seq<u8>, CryptoError> {
    match input {
        SigningInputView::Message(message) => Ok(primitives::sha256(message)),
        SigningInputView::Digest(digest) => if digest_len_ok(digest) {
            Ok(digest)
        } else {
            Err(CryptoError::DigestLength(digest.len() as usize))
        },
    }
}

/// The digest that an input stands for: the message's SHA-256, or the digest as it was given.
pub fn digest_of(input: &SigningInput) -> (result: Result<Vec<u8>, CryptoError>)
    ensures
        match result {
            Ok(digest) => input_digest(input@) == Ok::<_, CryptoError>(digest@),
            Err(error) => input_digest(input@) == Err::<Seq<u8>, _>(error),
        },
{
    match input {
        SigningInput::Message(message) => {
            let digest: [u8; 32] = primitives::sha256_digest(message.as_slice());
            Ok(slice_to_vec(digest.as_slice()))
        },
        SigningInput::Digest(digest) => {
            check_digest_len(digest.as_slice())?;
            Ok(slice_to_vec(digest.as_slice()))
        },
    }
}

/// Whatever form `prepare` gave the payload, the digest recovered from it is the digest that
/// the input stands for.
pub proof fn law_recovered_digest_is_the_inputs(mechanism: i32, input: SigningInputView)
    requires
        prepared(mechanism, input) is Ok,
    ensures
        ({
            let (algorithm, payload) = prepared(mechanism, input)->Ok_0;
            &&& recovered_digest(algorithm, payload) is Ok
            &&& input_digest(input) == recovered_digest(algorithm, payload)
        }),
{
    if let SigningInputView::Digest(digest) = input {
        let whole = digest_info_prefix() + digest;
        assert(whole.skip(digest_info_prefix().len() as int) =~= digest);
        assert(whole.subrange(0, digest_info_prefix().len() as int) =~= digest_info_prefix());
    }
}

/// Hashing a message first and sending its digest asks for a signature over the same digest as
/// sending the message does.
pub proof fn law_prehashing_signs_the_same_digest(mechanism: i32, message: Seq<u8>)
    ensures
        ({
            let sent = prepared(mechanism, SigningInputView::Message(message));
            let hashed = prepared(
                mechanism,
                SigningInputView::Digest(primitives::sha256(message)),
            );
            match (sent, hashed) {
                (Ok((a, p)), Ok((b, q))) => recovered_digest(a, p) == recovered_digest(b, q),
                (Err(e), Err(f)) => e == f,
                _ => false,
            }
        }),
{
    let digest = primitives::sha256(message);
    let sent = SigningInputView::Message(message);
    let hashed = SigningInputView::Digest(digest);
    if prepared(mechanism, sent) is Ok {
        law_recovered_digest_is_the_inputs(mechanism, sent);
        law_recovered_digest_is_the_inputs(mechanism, hashed);
    }
}

/// `prepare` succeeds exactly where the number stands for a mechanism other than the
/// unspecified one and the input stands for a digest.
pub proof fn law_prepare_succeeds_exactly_when(mechanism: i32, input: SigningInputView)
    ensures
        prepared(mechanism, input) is Ok <==> 1 <= mechanism <= 3 && input_digest(input) is Ok,
{
}

/// The kinds of public key that the proxy serves.
#[derive(Clone, Copy, Debug, PartialEq, Eq, Structural)]
pub enum PublicKeyKind {
    Ec,
    Rsa,
}

/// The kind of public key that the answer to a question for `CKA_KEY_TYPE` names, where it is one
/// that the proxy serves.
pub open spec fn kind_named(attributes: Seq<AttributeView>) -> Option<PublicKeyKind> {
    if attributes.len() == 0 {
        None
    } else {
        match attributes[0] {
            AttributeView::KeyType(KeyType::Ec) => Some(PublicKeyKind::Ec),
            AttributeView::KeyType(KeyType::Rsa) => Some(PublicKeyKind::Rsa),
            _ => None,
        }
    }
}

/// What is said of a key of any other kind, given how the token's answer reads in a log.
pub open spec fn unsupported(shown: Seq<char>) -> Seq<char> {
    "unsupported public key type: "@ + shown
}

/// What is said of a key of any other kind, given how the token's answer reads in a log.
pub fn unsupported_key_type(shown: &str) -> (message: String)
    ensures
        message@ == unsupported(shown@),
{
    let mut message = "unsupported public key type: ".to_owned();
    message.append(shown);
    message
}

impl PublicKeyKind {
    /// The kind of public key that the answer to a question for `CKA_KEY_TYPE` names, where it is
    /// one that the proxy serves.
    pub fn of_key_type(attributes: &Vec<Attribute>) -> (kind: Option<PublicKeyKind>)
        ensures
            kind == kind_named(attribute_views(attributes@)),
    {
        if attributes.len() == 0 {
            return None;
        }
        assert(attribute_views(attributes@)[0] == attributes@[0]@);
        match &attributes[0] {
            Attribute::KeyType(KeyType::Ec) => Some(PublicKeyKind::Ec),
            Attribute::KeyType(KeyType::Rsa) => Some(PublicKeyKind::Rsa),
            _ => None,
        }
    }

    /// The name by which callers know the kind.
    pub open spec fn spec_name(self) -> Seq<char> {
        match self {
            PublicKeyKind::Ec => "EC"@,
            PublicKeyKind::Rsa => "RSA"@,
        }
    }

    /// The name by which callers know the kind.
    pub fn name(self) -> (name: &'static str)
        ensures
            name@ == self.spec_name(),
    {
        match self {
            PublicKeyKind::Ec => "EC",
            PublicKeyKind::Rsa => "RSA",
        }
    }

    /// The attributes that hold the components of such a key.
    pub open spec fn spec_components(self) -> Seq<AttributeType> {
        match self {
            PublicKeyKind::Ec => seq![AttributeType::EcPoint],
            PublicKeyKind::Rsa => seq![AttributeType::Modulus, AttributeType::PublicExponent],
        }
    }

    /// The attributes that hold the components of such a key.
    pub fn components(self) -> (types: Vec<AttributeType>)
        ensures
            types@ == self.spec_components(),
    {
        let types: Vec<AttributeType> = match self {
            PublicKeyKind::Ec => vec![AttributeType::EcPoint],
            PublicKeyKind::Rsa => vec![AttributeType::Modulus, AttributeType::PublicExponent],
        };
        assert(types@ =~= self.spec_components());
        types
    }
}

/// `len` bytes from `offset` on, where there are as many.
pub open spec fn octets(bytes: Seq<u8>, offset: int, len: u8) -> Result<Seq<u8>, CryptoError> {
    if offset + len <= bytes.len() {
        Ok(bytes.subrange(offset, offset + len))
    } else {
        Err(CryptoError::TruncatedPoint(len as usize))
    }
}

/// The SEC1 point inside a `CKA_EC_POINT`: the bytes themselves where they are a bare
/// uncompressed P-256 point, else the contents of the DER `OCTET STRING` that they are.
pub open spec fn sec1_point(bytes: Seq<u8>) -> Result<Seq<u8>, CryptoError> {
    if bytes.len() == 65 && bytes[0] == 0x04 {
        Ok(bytes)
    } else if bytes.len() == 0 || bytes[0] != 0x04 {
        Err(CryptoError::NotAnEcPoint)
    } else if bytes.len() >= 2 && bytes[1] < 0x80 {
        octets(bytes, 2, bytes[1])
    } else if bytes.len() >= 2 && bytes[1] == 0x81 {
        if bytes.len() == 2 {
            Err(CryptoError::TruncatedLength)
        } else {
            octets(bytes, 3, bytes[2])
        }
    } else {
        Err(CryptoError::UnsupportedLength)
    }
}

/// Take the SEC1 point out of a `CKA_EC_POINT`.
///
/// The attribute is defined as a DER `OCTET STRING` around the point, but some modules return
/// the bare point. A bare uncompressed P-256 point is exactly 65 bytes starting with 4, which
/// is the `OCTET STRING` tag too: the length tells the two apart.
pub fn unwrap_der_octet_string(bytes: &[u8]) -> (result: Result<&[u8], CryptoError>)
    ensures
        match result {
            Ok(point) => sec1_point(bytes@) == Ok::<_, CryptoError>(point@),
            Err(error) => sec1_point(bytes@) == Err::<Seq<u8>, _>(error),
        },
{
    if bytes.len() == 65 && bytes[0] == 0x04 {
        return Ok(bytes);
    }
    if bytes.len() == 0 || bytes[0] != 0x04 {
        return Err(CryptoError::NotAnEcPoint);
    }
    if bytes.len() == 1 {
        return Err(CryptoError::UnsupportedLength);
    }
    let (len, offset): (usize, usize) = if bytes[1] < 0x80 {
        (bytes[1] as usize, 2)
    } else if bytes[1] == 0x81 {
        if bytes.len() == 2 {
            return Err(CryptoError::TruncatedLength);
        }
        (bytes[2] as usize, 3)
    } else {
        return Err(CryptoError::UnsupportedLength);
    };
    if len > bytes.len() - offset {
        return Err(CryptoError::TruncatedPoint(len));
    }
    Ok(slice_subrange(bytes, offset, offset + len))
}

/// The DER `OCTET STRING` around contents of fewer than 256 bytes.
pub open spec fn der_octet_string(contents: Seq<u8>) -> Seq<u8> {
    if contents.len() < 0x80 {
        seq![0x04u8, contents.len() as u8] + contents
    } else {
        seq![0x04u8, 0x81u8, contents.len() as u8] + contents
    }
}

/// A point wrapped in a DER `OCTET STRING` comes out again.
///
/// Contents of 63 bytes are left out: with their header they are 65 bytes long, and so they are
/// taken for a bare point. No P-256 point is that long.
pub proof fn law_octet_string_unwraps(contents: Seq<u8>)
    requires
        contents.len() < 256,
        contents.len() != 63,
    ensures
        sec1_point(der_octet_string(contents)) == Ok::<_, CryptoError>(contents),
{
    let whole = der_octet_string(contents);
    if contents.len() < 0x80 {
        assert(whole.subrange(2, whole.len() as int) =~= contents);
    } else {
        assert(whole.subrange(3, whole.len() as int) =~= contents);
    }
}

/// The first point among the attributes.
pub open spec fn first_point(attributes: Seq<AttributeView>) -> Option<Seq<u8>>
    decreases attributes.len(),
{
    if attributes.len() == 0 {
        None
    } else if let AttributeView::EcPoint(point) = attributes[0] {
        Some(point)
    } else {
        first_point(attributes.skip(1))
    }
}

/// The last modulus among the attributes.
pub open spec fn last_modulus(attributes: Seq<AttributeView>) -> Option<Seq<u8>>
    decreases attributes.len(),
{
    if attributes.len() == 0 {
        None
    } else if let AttributeView::Modulus(modulus) = attributes.last() {
        Some(modulus)
    } else {
        last_modulus(attributes.drop_last())
    }
}

/// The last public exponent among the attributes.
pub open spec fn last_exponent(attributes: Seq<AttributeView>) -> Option<Seq<u8>>
    decreases attributes.len(),
{
    if attributes.len() == 0 {
        None
    } else if let AttributeView::PublicExponent(exponent) = attributes.last() {
        Some(exponent)
    } else {
        last_exponent(attributes.drop_last())
    }
}

/// The DER `SubjectPublicKeyInfo` of the EC public key with these attributes.
pub open spec fn ec_spki_of(attributes: Seq<AttributeView>) -> Result<Seq<u8>, CryptoError> {
    match first_point(attributes) {
        None => Err(CryptoError::NoEcPoint),
        Some(wrapped) => match sec1_point(wrapped) {
            Err(error) => Err(error),
            Ok(sec1) => if !primitives::p256_point_on_curve(sec1) {
                Err(CryptoError::NotOnCurve)
            } else {
                match primitives::p256_spki_of_point(sec1) {
                    None => Err(CryptoError::EcEncoding),
                    Some(der) => Ok(der),
                }
            },
        },
    }
}

/// The DER `SubjectPublicKeyInfo` of the RSA public key with these attributes.
pub open spec fn rsa_spki_of(attributes: Seq<AttributeView>) -> Result<Seq<u8>, CryptoError> {
    match (last_modulus(attributes), last_exponent(attributes)) {
        (None, _) => Err(CryptoError::NoModulus),
        (_, None) => Err(CryptoError::NoExponent),
        (Some(modulus), Some(exponent)) => if !primitives::rsa_components_valid(
            modulus,
            exponent,
        ) {
            Err(CryptoError::InvalidRsaKey)
        } else {
            match primitives::rsa_spki_of_components(modulus, exponent) {
                None => Err(CryptoError::RsaEncoding),
                Some(der) => Ok(der),
            }
        },
    }
}

/// Re-encode an EC public key from the attributes that the token gave.
///
/// Where the point was an uncompressed one, decoding the result gives it back.
pub fn ec_spki(attributes: &Vec<Attribute>) -> (result: Result<Vec<u8>, CryptoError>)
    ensures
        match result {
            Ok(der) => {
                &&& ec_spki_of(attribute_views(attributes@)) == Ok::<_, CryptoError>(der@)
                &&& primitives::p256_point_of_spki(der@) is Some
                &&& ({
                    let sec1 = sec1_point(first_point(attribute_views(attributes@))->0)->Ok_0;
                    sec1.len() == 65 ==> primitives::p256_point_of_spki(der@) == Some(sec1)
                })
            },
            Err(error) => ec_spki_of(attribute_views(attributes@)) == Err::<Seq<u8>, _>(error),
        },
{
    let ghost all = attribute_views(attributes@);
    let mut i: usize = 0;
    assert(all.skip(0) =~= all);
    while i < attributes.len()
        invariant
            i <= attributes@.len(),
            all == attribute_views(attributes@),
            first_point(all) == first_point(all.skip(i as int)),
        decreases attributes@.len() - i,
    {
        assert(all.skip(i as int)[0] == attributes@[i as int]@);
        if let Attribute::EcPoint(wrapped) = &attributes[i] {
            let sec1 = unwrap_der_octet_string(wrapped.as_slice())?;
            if !primitives::p256_point_valid(sec1) {
                return Err(CryptoError::NotOnCurve);
            }
            return match primitives::p256_encode_spki(sec1) {
                Some(der) => Ok(der),
                None => Err(CryptoError::EcEncoding),
            };
        }
        assert(all.skip(i as int).skip(1) =~= all.skip(i + 1));
        i += 1;
    }
    Err(CryptoError::NoEcPoint)
}

/// Re-encode an RSA public key from the attributes that the token gave.
///
/// The result decodes to a key again.
pub fn rsa_spki(attributes: &Vec<Attribute>) -> (result: Result<Vec<u8>, CryptoError>)
    ensures
        match result {
            Ok(der) => {
                &&& rsa_spki_of(attribute_views(attributes@)) == Ok::<_, CryptoError>(der@)
                &&& primitives::rsa_spki_valid(der@)
            },
            Err(error) => rsa_spki_of(attribute_views(attributes@)) == Err::<Seq<u8>, _>(error),
        },
{
    let ghost all = attribute_views(attributes@);
    let mut modulus: Option<&Vec<u8>> = None;
    let mut exponent: Option<&Vec<u8>> = None;
    let mut i: usize = 0;
    while i < attributes.len()
        invariant
            i <= attributes@.len(),
            all == attribute_views(attributes@),
            match modulus {
                Some(bytes) => last_modulus(all.take(i as int)) == Some(bytes@),
                None => last_modulus(all.take(i as int)) is None,
            },
            match exponent {
                Some(bytes) => last_exponent(all.take(i as int)) == Some(bytes@),
                None => last_exponent(all.take(i as int)) is None,
            },
        decreases attributes@.len() - i,
    {
        assert(all.take(i + 1).last() == attributes@[i as int]@);
        assert(all.take(i + 1).drop_last() =~= all.take(i as int));
        match &attributes[i] {
            Attribute::Modulus(bytes) => {
                modulus = Some(bytes);
            },
            Attribute::PublicExponent(bytes) => {
                exponent = Some(bytes);
            },
            _ => {},
        }
        i += 1;
    }
    assert(all.take(i as int) =~= all);
    let modulus = match modulus {
        Some(bytes) => bytes,
        None => return Err(CryptoError::NoModulus),
    };
    let exponent = match exponent {
        Some(bytes) => bytes,
        None => return Err(CryptoError::NoExponent),
    };
    if !primitives::rsa_components_ok(modulus.as_slice(), exponent.as_slice()) {
        return Err(CryptoError::InvalidRsaKey);
    }
    match primitives::rsa_encode_spki(modulus.as_slice(), exponent.as_slice()) {
        Some(der) => Ok(der),
        None => Err(CryptoError::RsaEncoding),
    }
}

/// The DER `SubjectPublicKeyInfo` of a public key of this kind with these attributes.
pub open spec fn spki_of(kind: PublicKeyKind, attributes: Seq<AttributeView>) -> Result<
    Seq<u8>,
    CryptoError,
> {
    match kind {
        PublicKeyKind::Ec => ec_spki_of(attributes),
        PublicKeyKind::Rsa => rsa_spki_of(attributes),
    }
}

/// Re-encode a public key from its components as DER `SubjectPublicKeyInfo`, and name its kind.
///
/// A token holds raw components, and callers want something that a standard library takes. What
/// comes out decodes to a key again, and to the very point where that was an uncompressed one.
pub fn public_key_to_spki_der(kind: PublicKeyKind, components: &Vec<Attribute>) -> (result: Result<
    (Vec<u8>, String),
    CryptoError,
>)
    ensures
        match result {
            Ok((der, name)) => {
                &&& spki_of(kind, attribute_views(components@)) == Ok::<_, CryptoError>(der@)
                &&& name@ == kind.spec_name()
                &&& match kind {
                    PublicKeyKind::Ec => {
                        let wrapped = first_point(attribute_views(components@))->0;
                        let sec1 = sec1_point(wrapped)->Ok_0;
                        &&& primitives::p256_point_of_spki(der@) is Some
                        &&& sec1.len() == 65 ==> primitives::p256_point_of_spki(der@) == Some(sec1)
                    },
                    PublicKeyKind::Rsa => primitives::rsa_spki_valid(der@),
                }
            },
            Err(error) => spki_of(kind, attribute_views(components@)) == Err::<Seq<u8>, _>(error),
        },
{
    let der = match kind {
        PublicKeyKind::Ec => ec_spki(components)?,
        PublicKeyKind::Rsa => rsa_spki(components)?,
    };
    Ok((der, kind.name().to_owned()))
}

/// Take the uncompressed SEC1 point out of a DER `SubjectPublicKeyInfo`.
pub fn sec1_point_from_spki(spki_der: &[u8]) -> (result: Result<Vec<u8>, CryptoError>)
    ensures
        match result {
            Ok(point) => {
                &&& primitives::p256_point_of_spki(spki_der@) == Some(point@)
                &&& point@.len() == 65
                &&& point@[0] == 4
            },
            Err(error) => {
                &&& primitives::p256_point_of_spki(spki_der@) is None
                &&& error == CryptoError::NotP256Spki
            },
        },
{
    match primitives::p256_decode_point(spki_der) {
        Some(point) => Ok(point),
        None => Err(CryptoError::NotP256Spki),
    }
}

/// Does the signature check out, under the key that `spki` holds? Or why can that not be said?
pub open spec fn verified(
    spki: Seq<u8>,
    mechanism: i32,
    input: SigningInputView,
    signature: Seq<u8>,
) -> Result<bool, CryptoError> {
    match SignatureMechanism::of_number(mechanism) {
        None => Err(CryptoError::UnknownVerifyMechanism),
        Some(SignatureMechanism::Unspecified) => Err(CryptoError::MechanismUnspecified),
        Some(SignatureMechanism::EcdsaSha256) => match input {
            SigningInputView::Message(message) => match primitives::p256_point_of_spki(spki) {
                None => Err(CryptoError::NotP256Spki),
                Some(point) => Ok(primitives::ring_p256_accepts(point, message, signature)),
            },
            SigningInputView::Digest(digest) => if !digest_len_ok(digest) {
                Err(CryptoError::DigestLength(digest.len() as usize))
            } else if primitives::p256_point_of_spki(spki) is None {
                Err(CryptoError::CachedNotP256)
            } else {
                Ok(
                    primitives::p256_signature_in_range(signature) && primitives::p256_accepts(
                        spki,
                        digest,
                        signature,
                    ),
                )
            },
        },
        Some(rsa) => match input_digest(input) {
            Err(error) => Err(error),
            Ok(digest) => if !primitives::rsa_spki_valid(spki) {
                Err(CryptoError::CachedNotRsa)
            } else if rsa is RsaPssSha256 {
                Ok(primitives::rsa_pss_accepts(spki, digest, signature))
            } else {
                Ok(primitives::rsa_pkcs1_accepts(spki, digest, signature))
            },
        },
    }
}

/// Does the mechanism accept the signature over a digest, under the key that `spki` holds?
pub open spec fn digest_accepted(
    spki: Seq<u8>,
    mechanism: i32,
    digest: Seq<u8>,
    signature: Seq<u8>,
) -> bool {
    match SignatureMechanism::of_number(mechanism) {
        Some(SignatureMechanism::EcdsaSha256) => primitives::p256_signature_in_range(signature)
            && primitives::p256_accepts(spki, digest, signature),
        Some(SignatureMechanism::RsaPkcsSha256) => primitives::rsa_pkcs1_accepts(
            spki,
            digest,
            signature,
        ),
        Some(SignatureMechanism::RsaPssSha256) => primitives::rsa_pss_accepts(
            spki,
            digest,
            signature,
        ),
        _ => false,
    }
}

/// Is it right to say of the signature that it is valid, or that it is not? The number of the
/// mechanism is 1 for ECDSA, 2 for RSASSA-PKCS1-v1_5 and 3 for RSASSA-PSS.
pub open spec fn mechanism_accepts(
    spki: Seq<u8>,
    mechanism: i32,
    digest: Seq<u8>,
    signature: Seq<u8>,
    valid: bool,
) -> bool {
    ||| mechanism == 1 && valid == (primitives::p256_signature_in_range(signature)
        && primitives::p256_accepts(spki, digest, signature))
    ||| mechanism == 2 && valid == primitives::rsa_pkcs1_accepts(spki, digest, signature)
    ||| mechanism == 3 && valid == primitives::rsa_pss_accepts(spki, digest, signature)
}

fn verify_ecdsa_ring(spki_der: &[u8], message: &[u8], signature: &[u8]) -> (result: Result<
    bool,
    CryptoError,
>)
    ensures
        result == (match primitives::p256_point_of_spki(spki_der@) {
            None => Err::<bool, CryptoError>(CryptoError::NotP256Spki),
            Some(point) => Ok(primitives::ring_p256_accepts(point, message@, signature@)),
        }),
        result matches Ok(valid) ==> valid == (primitives::p256_signature_in_range(signature@)
            && primitives::p256_accepts(spki_der@, primitives::sha256(message@), signature@)),
{
    let point = sec1_point_from_spki(spki_der)?;
    Ok(primitives::ring_verify_p256(point.as_slice(), message, signature))
}

fn verify_ecdsa_prehash(spki_der: &[u8], digest: &[u8], signature: &[u8]) -> (result: Result<
    bool,
    CryptoError,
>)
    ensures
        result == (if primitives::p256_point_of_spki(spki_der@) is None {
            Err::<bool, CryptoError>(CryptoError::CachedNotP256)
        } else {
            Ok(
                primitives::p256_signature_in_range(signature@) && primitives::p256_accepts(
                    spki_der@,
                    digest@,
                    signature@,
                ),
            )
        }),
{
    if !primitives::p256_verifying_key_valid(spki_der) {
        return Err(CryptoError::CachedNotP256);
    }
    // The token emits raw r || s, so bytes of any other shape are no signature of its.
    if !primitives::p256_signature_valid(signature) {
        return Ok(false);
    }
    Ok(primitives::p256_verify_prehash(spki_der, digest, signature))
}

fn verify_rsa(spki_der: &[u8], digest: &[u8], signature: &[u8], pss: bool) -> (result: Result<
    bool,
    CryptoError,
>)
    ensures
        result == (if !primitives::rsa_spki_valid(spki_der@) {
            Err::<bool, CryptoError>(CryptoError::CachedNotRsa)
        } else if pss {
            Ok(primitives::rsa_pss_accepts(spki_der@, digest@, signature@))
        } else {
            Ok(primitives::rsa_pkcs1_accepts(spki_der@, digest@, signature@))
        }),
{
    if !primitives::rsa_key_valid(spki_der) {
        return Err(CryptoError::CachedNotRsa);
    }
    if pss {
        Ok(primitives::rsa_verify_pss(spki_der, digest, signature))
    } else {
        Ok(primitives::rsa_verify_pkcs1(spki_der, digest, signature))
    }
}

/// Check a signature in this process, against a DER `SubjectPublicKeyInfo`.
///
/// A signature that does not check out is `Ok(false)`. An error means that the request itself
/// is malformed, or that the key is none for the mechanism.
///
/// The answer hangs on the digest that the input stands for, and on nothing else of it: a message
/// and its digest are answered alike, though `ring` checks the one and `p256` the other.
pub fn verify_public(
    spki_der: &[u8],
    mechanism: i32,
    input: &SigningInput,
    signature: &[u8],
) -> (result: Result<bool, CryptoError>)
    ensures
        result == verified(spki_der@, mechanism, input@, signature@),
        result matches Ok(valid) ==> valid == digest_accepted(
            spki_der@,
            mechanism,
            input_digest(input@)->Ok_0,
            signature@,
        ),
        result matches Ok(valid) ==> match input {
            SigningInput::Message(message) => mechanism_accepts(
                spki_der@,
                mechanism,
                primitives::sha256(message@),
                signature@,
                valid,
            ),
            SigningInput::Digest(digest) => digest@.len() == 32 && mechanism_accepts(
                spki_der@,
                mechanism,
                digest@,
                signature@,
                valid,
            ),
        },
{
    let known = match SignatureMechanism::from_number(mechanism) {
        Some(known) => known,
        None => return Err(CryptoError::UnknownVerifyMechanism),
    };
    match known {
        SignatureMechanism::Unspecified => Err(CryptoError::MechanismUnspecified),
        SignatureMechanism::EcdsaSha256 => match input {
            SigningInput::Message(message) => verify_ecdsa_ring(
                spki_der,
                message.as_slice(),
                signature,
            ),
            SigningInput::Digest(digest) => {
                check_digest_len(digest.as_slice())?;
                verify_ecdsa_prehash(spki_der, digest.as_slice(), signature)
            },
        },
        SignatureMechanism::RsaPkcsSha256 => {
            let digest = digest_of(input)?;
            verify_rsa(spki_der, digest.as_slice(), signature, false)
        },
        SignatureMechanism::RsaPssSha256 => {
            let digest = digest_of(input)?;
            verify_rsa(spki_der, digest.as_slice(), signature, true)
        },
    }
}

/// A check fails with the request at fault exactly where the request is malformed: it names no
/// mechanism, or its digest has the wrong length. Whatever else stops a check lies in the key.
pub proof fn law_a_malformed_check_is_the_callers_fault(
    spki: Seq<u8>,
    mechanism: i32,
    input: SigningInputView,
    signature: Seq<u8>,
)
    ensures
        (verified(spki, mechanism, input, signature) matches Err(error) && error.in_request())
            <==> !(1 <= mechanism <= 3) || input_digest(input) is Err,
{
}

/// What the token signs is what is checked: a signature that the mechanism accepts over the digest
/// that the prepared operation is over is accepted over the digest that [`verify_public`] answers
/// for, and one that it refuses is refused.
pub proof fn law_what_is_signed_is_what_is_checked(
    spki: Seq<u8>,
    mechanism: i32,
    input: SigningInputView,
    signature: Seq<u8>,
)
    requires
        prepared(mechanism, input) is Ok,
    ensures
        ({
            let (algorithm, payload) = prepared(mechanism, input)->Ok_0;
            digest_accepted(
                spki,
                mechanism,
                recovered_digest(algorithm, payload)->Ok_0,
                signature,
            ) == digest_accepted(spki, mechanism, input_digest(input)->Ok_0, signature)
        }),
{
    law_recovered_digest_is_the_inputs(mechanism, input);
}

/// What RSASSA-PKCS1-v1_5 pads and raises for an operation: the payload as it is given to
/// `CKM_RSA_PKCS`, and the `DigestInfo` of the payload's digest, which the token builds, for
/// `CKM_SHA256_RSA_PKCS`.
pub open spec fn pkcs1_digest_info(algorithm: SignAlgorithm, payload: Seq<u8>) -> Seq<u8> {
    if algorithm.token_hashes() {
        digest_info_prefix() + primitives::sha256(payload)
    } else {
        payload
    }
}

/// A message and its digest come to the same `DigestInfo`, so that PKCS#1 v1.5, which is
/// deterministic, signs both alike, byte for byte.
pub proof fn law_pkcs1_forms_have_one_digest_info(mechanism: i32, message: Seq<u8>)
    requires
        SignatureMechanism::of_number(mechanism) == Some(SignatureMechanism::RsaPkcsSha256),
    ensures
        ({
            let (sent, hashed) = (
                prepared(mechanism, SigningInputView::Message(message)),
                prepared(mechanism, SigningInputView::Digest(primitives::sha256(message))),
            );
            &&& sent is Ok
            &&& hashed is Ok
            &&& pkcs1_digest_info(sent->Ok_0.0, sent->Ok_0.1) == pkcs1_digest_info(
                hashed->Ok_0.0,
                hashed->Ok_0.1,
            )
        }),
{
}

/// What the token is called with, mechanism by mechanism: ECDSA signs the digest, PKCS#1 v1.5 a
/// `DigestInfo` around it, and PSS the digest under a salt of its length; a message that the token
/// can hash itself is handed over as it is.
pub proof fn law_each_mechanism_has_its_call(message: Seq<u8>, digest: Seq<u8>)
    requires
        digest.len() == 32,
    ensures
        ({
            let sent = SigningInputView::Message(message);
            let hashed = SigningInputView::Digest(digest);
            let call = |number: i32, input: SigningInputView|
                (
                    prepared(number, input)->Ok_0.0.spec_mechanism(),
                    prepared(number, input)->Ok_0.1,
                );
            let pss = PssParams {
                hash: HashAlgorithm::Sha256,
                mgf: MaskGeneration::Mgf1Sha256,
                salt_len: 32,
            };
            &&& call(1, sent) == (Mechanism::Ecdsa, primitives::sha256(message))
            &&& call(1, hashed) == (Mechanism::Ecdsa, digest)
            &&& call(2, sent) == (Mechanism::Sha256RsaPkcs, message)
            &&& call(2, hashed) == (Mechanism::RsaPkcs, digest_info_prefix() + digest)
            &&& call(3, sent) == (Mechanism::Sha256RsaPkcsPss(pss), message)
            &&& call(3, hashed) == (Mechanism::RsaPkcsPss(pss), digest)
        }),
{
}

/// A request that cannot be prepared is refused for what is wrong with it: its mechanism first, and
/// then the length of its digest.
pub proof fn law_what_cannot_be_prepared_is_refused(mechanism: i32, input: SigningInputView)
    ensures
        mechanism < 0 || mechanism > 3 ==> prepared(mechanism, input) == Err::<
            (SignAlgorithm, Seq<u8>),
            _,
        >(CryptoError::UnknownMechanism(mechanism)),
        mechanism == 0 ==> prepared(mechanism, input) == Err::<(SignAlgorithm, Seq<u8>), _>(
            CryptoError::MechanismUnspecified,
        ),
        1 <= mechanism <= 3 ==> (prepared(mechanism, input) is Err <==> (
        input matches SigningInputView::Digest(digest) && digest.len() != 32)),
        1 <= mechanism <= 3 && prepared(mechanism, input) is Err ==> prepared(
            mechanism,
            input,
        )->Err_0 is DigestLength,
{
}

/// An input stands for one digest: a message for its SHA-256, and a digest of 32 bytes for itself.
pub proof fn law_an_input_stands_for_its_digest(bytes: Seq<u8>)
    ensures
        input_digest(SigningInputView::Message(bytes)) == Ok::<_, CryptoError>(
            primitives::sha256(bytes),
        ),
        bytes.len() == 32 <==> input_digest(SigningInputView::Digest(bytes)) == Ok::<
            _,
            CryptoError,
        >(bytes),
        bytes.len() != 32 <==> input_digest(SigningInputView::Digest(bytes)) is Err,
{
}

/// The header is the DER of a SHA-256 `DigestInfo` up to the digest: a sequence of 49 bytes that
/// holds the algorithm, 2.16.840.1.101.3.4.2.1 without parameters, and an octet string of 32.
pub proof fn law_the_header_is_der()
    ensures
        digest_info_prefix() == seq![0x30u8, 49u8] + seq![0x30u8, 13u8] + seq![
            0x06u8,
            9u8,
            (2 * 40 + 16) as u8,
            0x86u8,
            0x48u8,
            1u8,
            101u8,
            3u8,
            4u8,
            2u8,
            1u8,
        ] + seq![0x05u8, 0u8] + seq![0x04u8, 32u8],
        digest_info_prefix().len() + 32 == 2 + 49,
{
    assert(digest_info_prefix() =~= seq![0x30u8, 49u8] + seq![0x30u8, 13u8] + seq![
        0x06u8,
        9u8,
        (2 * 40 + 16) as u8,
        0x86u8,
        0x48u8,
        1u8,
        101u8,
        3u8,
        4u8,
        2u8,
        1u8,
    ] + seq![0x05u8, 0u8] + seq![0x04u8, 32u8]);
}

/// A digest comes out of a payload only where it went in: a payload of PKCS#1 v1.5 has one exactly
/// where it is the header and 32 bytes behind it, and those are the digest.
pub proof fn law_only_a_digest_info_has_a_digest(payload: Seq<u8>, digest: Seq<u8>)
    ensures
        recovered_digest(SignAlgorithm::RsaPkcs, payload) == Ok::<_, CryptoError>(digest) <==> (
        payload == digest_info_prefix() + digest && digest.len() == 32),
        recovered_digest(SignAlgorithm::Ecdsa, digest) == Ok::<_, CryptoError>(digest),
        recovered_digest(SignAlgorithm::RsaPkcsPss, digest) == Ok::<_, CryptoError>(digest),
        recovered_digest(SignAlgorithm::Sha256RsaPkcs, payload) == Ok::<_, CryptoError>(
            primitives::sha256(payload),
        ),
        recovered_digest(SignAlgorithm::Sha256RsaPkcsPss, payload) == Ok::<_, CryptoError>(
            primitives::sha256(payload),
        ),
{
    let prefix = digest_info_prefix();
    let n = prefix.len() as int;
    let whole = prefix + digest;
    assert(whole.skip(n) =~= digest);
    assert(whole.subrange(0, n) =~= prefix);
    if payload.len() == n + 32 && prefix.is_prefix_of(payload) {
        assert(payload =~= prefix + payload.skip(n));
    }
}

/// A bare uncompressed point is taken as it is.
pub proof fn law_a_bare_point_is_itself(point: Seq<u8>)
    requires
        point.len() == 65,
        point[0] == 4,
    ensures
        sec1_point(point) == Ok::<_, CryptoError>(point),
{
}

/// Whatever comes out of a wrapped point was in it, behind a header that gave its length, and
/// nothing comes out of bytes with another tag, with a longer form of length, or that end too soon.
pub proof fn law_a_point_is_not_made_up(bytes: Seq<u8>)
    requires
        bytes.len() != 65,
    ensures
        sec1_point(bytes) matches Ok(point) ==> {
            &&& bytes.len() >= 2
            &&& bytes[0] == 4
            &&& bytes[1] < 128 ==> point.len() == bytes[1] && seq![4u8, bytes[1]]
                + point == bytes.take(2 + point.len() as int)
            &&& bytes[1] >= 128 ==> bytes[1] == 129 && point.len() == bytes[2] && seq![
                4u8,
                129u8,
                bytes[2],
            ] + point == bytes.take(3 + point.len() as int)
        },
        bytes.len() == 0 || bytes[0] != 4 ==> sec1_point(bytes) == Err::<Seq<u8>, _>(
            CryptoError::NotAnEcPoint,
        ),
        bytes.len() >= 2 && bytes[0] == 4 && bytes[1] < 128 ==> (sec1_point(bytes) is Ok
            <==> bytes.len() >= 2 + bytes[1]),
        bytes.len() >= 3 && bytes[0] == 4 && bytes[1] == 129 ==> (sec1_point(bytes) is Ok
            <==> bytes.len() >= 3 + bytes[2]),
{
    if let Ok(point) = sec1_point(bytes) {
        if bytes[1] < 128 {
            assert(seq![4u8, bytes[1]] + point =~= bytes.take(2 + point.len() as int));
        } else {
            assert(seq![4u8, 129u8, bytes[2]] + point =~= bytes.take(3 + point.len() as int));
        }
    }
}

proof fn lemma_first_point_is_least(attributes: Seq<AttributeView>, at: int)
    requires
        0 <= at < attributes.len(),
        attributes[at] is EcPoint,
        forall|i: int| 0 <= i < at ==> !((#[trigger] attributes[i]) is EcPoint),
    ensures
        first_point(attributes) == Some(attributes[at]->EcPoint_0),
    decreases at,
{
    if at > 0 {
        assert(!(attributes[0] is EcPoint));
        assert forall|i: int| 0 <= i < at - 1 implies !((#[trigger] attributes.skip(1)[i])
            is EcPoint) by {
            assert(attributes.skip(1)[i] == attributes[i + 1]);
        }
        lemma_first_point_is_least(attributes.skip(1), at - 1);
    }
}

/// An EC public key is encoded from the first point that the token gave, at whatever place it is
/// and whether it was wrapped or bare.
pub proof fn law_an_ec_key_is_its_first_point(
    attributes: Seq<AttributeView>,
    at: int,
    point: Seq<u8>,
)
    requires
        point.len() == 65,
        point[0] == 4,
        primitives::p256_point_on_curve(point),
        0 <= at < attributes.len(),
        attributes[at] == AttributeView::EcPoint(point) || attributes[at] == AttributeView::EcPoint(
            seq![4u8, 65u8] + point,
        ),
        forall|i: int| 0 <= i < at ==> !((#[trigger] attributes[i]) is EcPoint),
    ensures
        primitives::p256_spki_of_point(point) matches Some(der) ==> spki_of(
            PublicKeyKind::Ec,
            attributes,
        ) == Ok::<_, CryptoError>(der),
        primitives::p256_spki_of_point(point) is None ==> spki_of(
            PublicKeyKind::Ec,
            attributes,
        ) is Err,
{
    lemma_first_point_is_least(attributes, at);
    let wrapped = seq![4u8, 65u8] + point;
    assert(wrapped.subrange(2, 67) =~= point);
}

proof fn lemma_last_modulus_is_greatest(attributes: Seq<AttributeView>, at: int)
    requires
        0 <= at < attributes.len(),
        attributes[at] is Modulus,
        forall|i: int| at < i < attributes.len() ==> !((#[trigger] attributes[i]) is Modulus),
    ensures
        last_modulus(attributes) == Some(attributes[at]->Modulus_0),
    decreases attributes.len(),
{
    if at < attributes.len() - 1 {
        assert(!(attributes[attributes.len() - 1] is Modulus));
        lemma_last_modulus_is_greatest(attributes.drop_last(), at);
    }
}

proof fn lemma_last_exponent_is_greatest(attributes: Seq<AttributeView>, at: int)
    requires
        0 <= at < attributes.len(),
        attributes[at] is PublicExponent,
        forall|i: int|
            at < i < attributes.len() ==> !((#[trigger] attributes[i]) is PublicExponent),
    ensures
        last_exponent(attributes) == Some(attributes[at]->PublicExponent_0),
    decreases attributes.len(),
{
    if at < attributes.len() - 1 {
        assert(!(attributes[attributes.len() - 1] is PublicExponent));
        lemma_last_exponent_is_greatest(attributes.drop_last(), at);
    }
}

/// An RSA public key is encoded from the modulus and the exponent that the token gave, whatever
/// their places, each under its own name.
pub proof fn law_an_rsa_key_is_its_components(attributes: Seq<AttributeView>, n: int, e: int)
    requires
        0 <= n < attributes.len(),
        attributes[n] is Modulus,
        forall|i: int| n < i < attributes.len() ==> !((#[trigger] attributes[i]) is Modulus),
        0 <= e < attributes.len(),
        attributes[e] is PublicExponent,
        forall|i: int| e < i < attributes.len() ==> !((#[trigger] attributes[i]) is PublicExponent),
    ensures
        ({
            let modulus = attributes[n]->Modulus_0;
            let exponent = attributes[e]->PublicExponent_0;
            let spki = spki_of(PublicKeyKind::Rsa, attributes);
            &&& !primitives::rsa_components_valid(modulus, exponent) ==> spki == Err::<Seq<u8>, _>(
                CryptoError::InvalidRsaKey,
            )
            &&& primitives::rsa_components_valid(modulus, exponent) ==> (
            primitives::rsa_spki_of_components(modulus, exponent) matches Some(der) ==> spki == Ok::<
                _,
                CryptoError,
            >(der))
        }),
{
    lemma_last_modulus_is_greatest(attributes, n);
    lemma_last_exponent_is_greatest(attributes, e);
}

/// A key is of the kind that the token's first answer names, and its components are what that kind
/// is made of.
pub proof fn law_a_key_is_of_the_kind_it_names(rest: Seq<AttributeView>, other: KeyType)
    requires
        !(other is Ec),
        !(other is Rsa),
    ensures
        kind_named(seq![AttributeView::KeyType(KeyType::Ec)] + rest) == Some(PublicKeyKind::Ec),
        kind_named(seq![AttributeView::KeyType(KeyType::Rsa)] + rest) == Some(PublicKeyKind::Rsa),
        kind_named(seq![AttributeView::KeyType(other)] + rest) is None,
        kind_named(seq![]) is None,
        PublicKeyKind::Ec.spec_components().contains(AttributeType::EcPoint),
        PublicKeyKind::Rsa.spec_components().contains(AttributeType::Modulus),
        PublicKeyKind::Rsa.spec_components().contains(AttributeType::PublicExponent),
        PublicKeyKind::Ec.spec_name() != PublicKeyKind::Rsa.spec_name(),
{
    assert(PublicKeyKind::Ec.spec_components()[0] == AttributeType::EcPoint);
    assert(PublicKeyKind::Rsa.spec_components()[0] == AttributeType::Modulus);
    assert(PublicKeyKind::Rsa.spec_components()[1] == AttributeType::PublicExponent);
    reveal_strlit("EC");
    reveal_strlit("RSA");
    assert("EC"@.len() == 2);
    assert("RSA"@.len() == 3);
}

/// An input is known by all of it.
pub proof fn law_an_input_is_known_by_all_of_it(one: SigningInput, another: SigningInput)
    requires
        one@ == another@,
    ensures
        match (one, another) {
            (SigningInput::Message(a), SigningInput::Message(b)) => a@ == b@,
            (SigningInput::Digest(a), SigningInput::Digest(b)) => a@ == b@,
            _ => false,
        },
{
}

/// What is wrong with a request is said with the number that is wrong, and a request without a
/// mechanism is told to name one.
pub proof fn law_an_error_gives_the_number(number: i32, len: usize)
    ensures
        text::occurs_in(
            text::decimal_int(number as int),
            CryptoError::UnknownMechanism(number).text(),
        ),
        text::occurs_in(text::decimal(len as nat), CryptoError::DigestLength(len).text()),
        text::occurs_in(text::decimal(len as nat), CryptoError::TruncatedPoint(len).text()),
        CryptoError::MechanismUnspecified.text() == "signature mechanism must be specified"@,
        CryptoError::UnknownVerifyMechanism.text().is_prefix_of(
            CryptoError::UnknownMechanism(number).text(),
        ),
{
    let told = CryptoError::UnknownMechanism(number).text();
    let at = "unknown signature mechanism "@.len() as int;
    let given = text::decimal_int(number as int);
    assert(told.subrange(at, at + given.len()) =~= given);
    assert(text::occurs_at(given, told, at));
    let given = text::decimal(len as nat);
    let told_digest = CryptoError::DigestLength(len).text();
    let at = "expected a 32-byte SHA-256 digest, got "@.len() as int;
    assert(told_digest.subrange(at, at + given.len()) =~= given);
    assert(text::occurs_at(given, told_digest, at));
    let told_point = CryptoError::TruncatedPoint(len).text();
    let at = "CKA_EC_POINT declares "@.len() as int;
    assert(told_point.subrange(at, at + given.len()) =~= given);
    assert(text::occurs_at(given, told_point, at));
    reveal_strlit("unknown signature mechanism");
    reveal_strlit("unknown signature mechanism ");
    let short = "unknown signature mechanism"@;
    assert(told.subrange(0, short.len() as int) =~= short);
}

proof fn lemma_no_modulus(attributes: Seq<AttributeView>)
    requires
        forall|i: int| 0 <= i < attributes.len() ==> !((#[trigger] attributes[i]) is Modulus),
    ensures
        last_modulus(attributes) is None,
    decreases attributes.len(),
{
    if attributes.len() > 0 {
        assert(!(attributes[attributes.len() - 1] is Modulus));
        lemma_no_modulus(attributes.drop_last());
    }
}

proof fn lemma_no_exponent(attributes: Seq<AttributeView>)
    requires
        forall|i: int| 0 <= i < attributes.len() ==> !((#[trigger] attributes[i]) is PublicExponent),
    ensures
        last_exponent(attributes) is None,
    decreases attributes.len(),
{
    if attributes.len() > 0 {
        assert(!(attributes[attributes.len() - 1] is PublicExponent));
        lemma_no_exponent(attributes.drop_last());
    }
}

proof fn lemma_no_point(attributes: Seq<AttributeView>)
    requires
        forall|i: int| 0 <= i < attributes.len() ==> !((#[trigger] attributes[i]) is EcPoint),
    ensures
        first_point(attributes) is None,
    decreases attributes.len(),
{
    if attributes.len() > 0 {
        assert(!(attributes[0] is EcPoint));
        assert forall|i: int| 0 <= i < attributes.len() - 1 implies !((#[trigger] attributes.skip(
            1,
        )[i]) is EcPoint) by {
            assert(attributes.skip(1)[i] == attributes[i + 1]);
        }
        lemma_no_point(attributes.skip(1));
    }
}

/// A key that the token does not describe in full is refused for what is missing: its point, its
/// modulus, or, where it has one, its exponent.
pub proof fn law_an_incomplete_key_is_refused(attributes: Seq<AttributeView>, n: int)
    ensures
        (forall|i: int| 0 <= i < attributes.len() ==> !((#[trigger] attributes[i]) is EcPoint))
            ==> spki_of(PublicKeyKind::Ec, attributes) == Err::<Seq<u8>, _>(CryptoError::NoEcPoint),
        (forall|i: int| 0 <= i < attributes.len() ==> !((#[trigger] attributes[i]) is Modulus))
            ==> spki_of(PublicKeyKind::Rsa, attributes) == Err::<Seq<u8>, _>(
            CryptoError::NoModulus,
        ),
        ({
            &&& 0 <= n < attributes.len()
            &&& attributes[n] is Modulus
            &&& forall|i: int| n < i < attributes.len() ==> !((#[trigger] attributes[i]) is Modulus)
            &&& forall|i: int|
                0 <= i < attributes.len() ==> !((#[trigger] attributes[i]) is PublicExponent)
        }) ==> spki_of(PublicKeyKind::Rsa, attributes) == Err::<Seq<u8>, _>(
            CryptoError::NoExponent,
        ),
{
    if forall|i: int| 0 <= i < attributes.len() ==> !((#[trigger] attributes[i]) is EcPoint) {
        lemma_no_point(attributes);
    }
    if forall|i: int| 0 <= i < attributes.len() ==> !((#[trigger] attributes[i]) is Modulus) {
        lemma_no_modulus(attributes);
    }
    if {
        &&& 0 <= n < attributes.len()
        &&& attributes[n] is Modulus
        &&& forall|i: int| n < i < attributes.len() ==> !((#[trigger] attributes[i]) is Modulus)
        &&& forall|i: int|
            0 <= i < attributes.len() ==> !((#[trigger] attributes[i]) is PublicExponent)
    } {
        lemma_last_modulus_is_greatest(attributes, n);
        lemma_no_exponent(attributes);
    }
}

/// A point that is none of the curve is refused, and one that cannot be unwrapped is refused for
/// the reason that it cannot.
pub proof fn law_a_wrong_point_is_refused(attributes: Seq<AttributeView>, at: int)
    requires
        0 <= at < attributes.len(),
        attributes[at] is EcPoint,
        forall|i: int| 0 <= i < at ==> !((#[trigger] attributes[i]) is EcPoint),
    ensures
        ({
            let wrapped = attributes[at]->EcPoint_0;
            let spki = spki_of(PublicKeyKind::Ec, attributes);
            &&& sec1_point(wrapped) matches Err(error) ==> spki == Err::<Seq<u8>, _>(error)
            &&& (sec1_point(wrapped) is Ok && !primitives::p256_point_on_curve(
                sec1_point(wrapped)->Ok_0,
            )) ==> spki == Err::<Seq<u8>, _>(CryptoError::NotOnCurve)
        }),
{
    lemma_first_point_is_least(attributes, at);
}

/// What is wrong with a key is said in words of its own.
pub proof fn law_a_key_error_is_said_in_its_own_words()
    ensures
        CryptoError::NotDigestInfo.text() == "payload is not a SHA-256 DigestInfo"@,
        CryptoError::NoEcPoint.text() == "public key has no CKA_EC_POINT"@,
        CryptoError::NotAnEcPoint.text()
            == "CKA_EC_POINT is neither a DER OCTET STRING nor a SEC1 point"@,
        CryptoError::TruncatedLength.text() == "truncated EC point"@,
        CryptoError::UnsupportedLength.text() == "unsupported CKA_EC_POINT length encoding"@,
        CryptoError::NotOnCurve.text()
            == "CKA_EC_POINT is not a valid P-256 point: crypto error"@,
        CryptoError::EcEncoding.text() == "failed to DER-encode the EC public key"@,
        CryptoError::NoModulus.text() == "public key has no modulus"@,
        CryptoError::NoExponent.text() == "public key has no exponent"@,
        CryptoError::InvalidRsaKey.text() == "token returned an invalid RSA public key"@,
        CryptoError::RsaEncoding.text() == "failed to DER-encode the RSA public key"@,
        CryptoError::NotP256Spki.text() == "not a valid P-256 SPKI"@,
        CryptoError::CachedNotP256.text() == "cached public key is not a valid P-256 SPKI"@,
        CryptoError::CachedNotRsa.text() == "cached public key is not a valid RSA SPKI"@,
{
}

/// A key of another kind is reported as the token describes it.
pub proof fn law_another_kind_is_reported_as_it_is(shown: Seq<char>)
    ensures
        text::occurs_in(shown, unsupported(shown)),
{
    let at = "unsupported public key type: "@.len() as int;
    assert(unsupported(shown).subrange(at, at + shown.len()) =~= shown);
    assert(text::occurs_at(shown, unsupported(shown), at));
}

} // verus!
