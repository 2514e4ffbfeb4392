//! The cryptographic primitives, as `sha2`, `p256`, `ring` and `rsa` provide them.
//!
//! Every function here takes and returns plain bytes. What each crate computes is named by a
//! spec function over those bytes; beside the names stand only the facts that the crates'
//! sources show and that the proxy relies on.

use p256::ecdsa::signature::hazmat::PrehashVerifier;
use p256::elliptic_curve::sec1::ToEncodedPoint;
use p256::pkcs8::{DecodePublicKey, EncodePublicKey};
use rand::RngCore;
use sha2::Digest;
use vstd::arithmetic::power2::pow2;
use vstd::prelude::*;

verus! {

/// The SHA-256 digest of `data`, as an array.
pub uninterp spec fn sha256_array(data: Seq<u8>) -> [u8; 32];

/// The SHA-256 digest of `data`.
pub open spec fn sha256(data: Seq<u8>) -> Seq<u8> {
    sha256_array(data)@
}

/// The uncompressed SEC1 point of the P-256 public key that a DER `SubjectPublicKeyInfo`
/// holds, or nothing where the bytes are no such key.
pub uninterp spec fn p256_point_of_spki(spki: Seq<u8>) -> Option<Seq<u8>>;

/// Are the bytes the SEC1 encoding of a point of P-256 that can be a public key?
pub uninterp spec fn p256_point_on_curve(sec1: Seq<u8>) -> bool;

/// The DER `SubjectPublicKeyInfo` of the P-256 public key that a SEC1 point encodes, or
/// nothing where the bytes are no point of the curve.
pub uninterp spec fn p256_spki_of_point(sec1: Seq<u8>) -> Option<Seq<u8>>;

/// The number that the bytes write, the most significant first.
pub open spec fn big_endian(bytes: Seq<u8>) -> nat
    decreases bytes.len(),
{
    if bytes.len() == 0 {
        0
    } else {
        256 * big_endian(bytes.drop_last()) + bytes.last() as nat
    }
}

/// The order of the group of P-256.
pub open spec fn p256_order() -> nat {
    0xffffffff00000000ffffffffffffffffbce6faada7179e84f3b9cac2fc632551nat
}

/// Are the bytes a raw `r || s` signature whose halves are in range for P-256?
pub open spec fn p256_signature_in_range(signature: Seq<u8>) -> bool {
    &&& signature.len() == 64
    &&& 0 < big_endian(signature.take(32)) < p256_order()
    &&& 0 < big_endian(signature.skip(32)) < p256_order()
}

/// Does P-256 ECDSA accept `signature` over `digest`, under the key that `spki` holds?
pub uninterp spec fn p256_accepts(spki: Seq<u8>, digest: Seq<u8>, signature: Seq<u8>) -> bool;

/// Does P-256 ECDSA with SHA-256 accept `signature` over `message`, under the key that is the
/// uncompressed SEC1 `point`?
pub uninterp spec fn ring_p256_accepts(
    point: Seq<u8>,
    message: Seq<u8>,
    signature: Seq<u8>,
) -> bool;

/// Does the DER `SubjectPublicKeyInfo` hold an RSA public key?
pub uninterp spec fn rsa_spki_valid(spki: Seq<u8>) -> bool;

/// Do a big-endian modulus and exponent form an RSA public key: an odd modulus of at most 4096
/// bits, and an odd exponent below it, from 2 on and of at most 33 bits?
pub open spec fn rsa_components_valid(modulus: Seq<u8>, exponent: Seq<u8>) -> bool {
    let n = big_endian(modulus);
    let e = big_endian(exponent);
    &&& n < pow2(4096)
    &&& n % 2 == 1
    &&& e % 2 == 1
    &&& 2 <= e < n
    &&& e < pow2(33)
}

/// The DER `SubjectPublicKeyInfo` of the RSA public key with this modulus and exponent, or
/// nothing where it cannot be encoded.
pub uninterp spec fn rsa_spki_of_components(modulus: Seq<u8>, exponent: Seq<u8>) -> Option<
    Seq<u8>,
>;

/// Does RSASSA-PKCS1-v1_5 with SHA-256 accept `signature` over `digest`, under the key that
/// `spki` holds?
pub uninterp spec fn rsa_pkcs1_accepts(spki: Seq<u8>, digest: Seq<u8>, signature: Seq<u8>) -> bool;

/// Does RSASSA-PSS with SHA-256 and a salt as long as the digest accept `signature` over
/// `digest`, under the key that `spki` holds?
pub uninterp spec fn rsa_pss_accepts(spki: Seq<u8>, digest: Seq<u8>, signature: Seq<u8>) -> bool;

/// `sha2::Sha256::digest`: the digest, which is 32 bytes long, is named.
#[verifier::external_body]
pub(crate) fn sha256_digest(data: &[u8]) -> (digest: [u8; 32])
    ensures
        digest == sha256_array(data@),
{
    sha2::Sha256::digest(data).into()
}

/// `p256::PublicKey::from_public_key_der`, and the key's `to_encoded_point(false)`.
///
/// The point is named. An uncompressed P-256 point is the tag 4 and two 32-byte coordinates.
#[verifier::external_body]
pub(crate) fn p256_decode_point(spki_der: &[u8]) -> (point: Option<Vec<u8>>)
    ensures
        point is Some <==> p256_point_of_spki(spki_der@) is Some,
        point matches Some(bytes) ==> {
            &&& p256_point_of_spki(spki_der@) == Some(bytes@)
            &&& bytes@.len() == 65
            &&& bytes@[0] == 4
        },
{
    match p256::PublicKey::from_public_key_der(spki_der) {
        Ok(key) => Some(key.to_encoded_point(false).as_bytes().to_vec()),
        Err(_) => None,
    }
}

/// `p256::PublicKey::from_sec1_bytes`: whether it finds a point of the curve is named.
#[verifier::external_body]
pub(crate) fn p256_point_valid(sec1: &[u8]) -> (valid: bool)
    ensures
        valid == p256_point_on_curve(sec1@),
{
    p256::PublicKey::from_sec1_bytes(sec1).is_ok()
}

/// `p256::PublicKey::to_public_key_der`, on the key that `from_sec1_bytes` makes of the bytes.
///
/// The encoding is named. It holds the uncompressed point, so that decoding it finds a key
/// again, and finds the very bytes where they were an uncompressed point.
#[verifier::external_body]
pub(crate) fn p256_encode_spki(sec1: &[u8]) -> (spki: Option<Vec<u8>>)
    ensures
        spki is Some <==> p256_spki_of_point(sec1@) is Some,
        spki matches Some(der) ==> {
            &&& p256_spki_of_point(sec1@) == Some(der@)
            &&& p256_point_of_spki(der@) is Some
            &&& sec1@.len() == 65 ==> p256_point_of_spki(der@) == Some(sec1@)
        },
{
    let key = p256::PublicKey::from_sec1_bytes(sec1).ok()?;
    let document = key.to_public_key_der().ok()?;
    Some(document.as_bytes().to_vec())
}

/// `p256::ecdsa::VerifyingKey::from_public_key_der`: it finds a key exactly where
/// `p256::PublicKey::from_public_key_der`, which it calls, finds one.
#[verifier::external_body]
pub(crate) fn p256_verifying_key_valid(spki_der: &[u8]) -> (valid: bool)
    ensures
        valid == (p256_point_of_spki(spki_der@) is Some),
{
    p256::ecdsa::VerifyingKey::from_public_key_der(spki_der).is_ok()
}

/// `p256::ecdsa::Signature::from_slice`: it takes 64 bytes whose halves, as big-endian numbers,
/// lie between zero and the order of the group, and no others.
#[verifier::external_body]
pub(crate) fn p256_signature_valid(signature: &[u8]) -> (valid: bool)
    ensures
        valid == p256_signature_in_range(signature@),
{
    p256::ecdsa::Signature::from_slice(signature).is_ok()
}

/// `verify_prehash` of `p256::ecdsa::VerifyingKey`: whether it accepts is named.
#[verifier::external_body]
pub(crate) fn p256_verify_prehash(spki_der: &[u8], digest: &[u8], signature: &[u8]) -> (accepted:
    bool)
    requires
        p256_point_of_spki(spki_der@) is Some,
        p256_signature_in_range(signature@),
    ensures
        accepted == p256_accepts(spki_der@, digest@, signature@),
{
    let key = p256::ecdsa::VerifyingKey::from_public_key_der(spki_der).unwrap();
    let signature = p256::ecdsa::Signature::from_slice(signature).unwrap();
    key.verify_prehash(digest, &signature).is_ok()
}

/// `ring::signature::UnparsedPublicKey::verify` with `ECDSA_P256_SHA256_FIXED`: whether it
/// accepts is named.
///
/// `ring` documents this algorithm as the verification of fixed-length `r || s` ECDSA
/// signatures on P-256 with SHA-256, the same algorithm that `p256::ecdsa` documents for the
/// digest. So the two answer alike, for every encoding of the point: on the message here, on
/// its SHA-256 digest there.
#[verifier::external_body]
pub(crate) fn ring_verify_p256(point: &[u8], message: &[u8], signature: &[u8]) -> (accepted: bool)
    ensures
        accepted == ring_p256_accepts(point@, message@, signature@),
        forall|spki: Seq<u8>| #[trigger]
            p256_point_of_spki(spki) == Some(point@) ==> accepted == (p256_signature_in_range(
                signature@,
            ) && p256_accepts(spki, sha256(message@), signature@)),
{
    let algorithm = &ring::signature::ECDSA_P256_SHA256_FIXED;
    ring::signature::UnparsedPublicKey::new(algorithm, point).verify(message, signature).is_ok()
}

/// `rsa::RsaPublicKey::from_public_key_der`: whether it finds a key is named.
#[verifier::external_body]
pub(crate) fn rsa_key_valid(spki_der: &[u8]) -> (valid: bool)
    ensures
        valid == rsa_spki_valid(spki_der@),
{
    rsa::RsaPublicKey::from_public_key_der(spki_der).is_ok()
}

/// `rsa::RsaPublicKey::verify` with `Pkcs1v15Sign::new::<Sha256>()`: whether it accepts is
/// named.
#[verifier::external_body]
pub(crate) fn rsa_verify_pkcs1(spki_der: &[u8], digest: &[u8], signature: &[u8]) -> (accepted: bool)
    requires
        rsa_spki_valid(spki_der@),
    ensures
        accepted == rsa_pkcs1_accepts(spki_der@, digest@, signature@),
{
    let key = rsa::RsaPublicKey::from_public_key_der(spki_der).unwrap();
    key.verify(rsa::Pkcs1v15Sign::new::<sha2::Sha256>(), digest, signature).is_ok()
}

/// `rsa::RsaPublicKey::verify` with `Pss::new::<Sha256>()`: whether it accepts is named.
#[verifier::external_body]
pub(crate) fn rsa_verify_pss(spki_der: &[u8], digest: &[u8], signature: &[u8]) -> (accepted: bool)
    requires
        rsa_spki_valid(spki_der@),
    ensures
        accepted == rsa_pss_accepts(spki_der@, digest@, signature@),
{
    let key = rsa::RsaPublicKey::from_public_key_der(spki_der).unwrap();
    key.verify(rsa::pss::Pss::new::<sha2::Sha256>(), digest, signature).is_ok()
}

/// `rsa::RsaPublicKey::new`, on the numbers that the bytes write: it takes components of the sizes
/// and the parity that [`rsa_components_valid`] asks for, and no others.
#[verifier::external_body]
pub(crate) fn rsa_components_ok(modulus: &[u8], exponent: &[u8]) -> (valid: bool)
    ensures
        valid == rsa_components_valid(modulus@, exponent@),
{
    let n = rsa::BigUint::from_bytes_be(modulus);
    let e = rsa::BigUint::from_bytes_be(exponent);
    rsa::RsaPublicKey::new(n, e).is_ok()
}

/// `rsa::RsaPublicKey::to_public_key_der`, on the key that `new` makes of the components.
///
/// The encoding is named. It holds the same modulus and exponent, so that decoding it finds a
/// key again.
#[verifier::external_body]
pub(crate) fn rsa_encode_spki(modulus: &[u8], exponent: &[u8]) -> (spki: Option<Vec<u8>>)
    ensures
        spki is Some <==> rsa_spki_of_components(modulus@, exponent@) is Some,
        spki matches Some(der) ==> {
            &&& rsa_spki_of_components(modulus@, exponent@) == Some(der@)
            &&& rsa_spki_valid(der@)
        },
{
    let n = rsa::BigUint::from_bytes_be(modulus);
    let e = rsa::BigUint::from_bytes_be(exponent);
    let key = rsa::RsaPublicKey::new(n, e).ok()?;
    let document = key.to_public_key_der().ok()?;
    Some(document.as_bytes().to_vec())
}

/// `rand::thread_rng().fill_bytes`, on as many bytes as asked for.
///
/// What the bytes are is chance: only their number is stated.
#[verifier::external_body]
pub(crate) fn random_bytes(len: usize) -> (bytes: Vec<u8>)
    ensures
        bytes@.len() == len,
{
    let mut bytes = vec![0u8; len];
    rand::thread_rng().fill_bytes(&mut bytes);
    bytes
}

} // verus!
