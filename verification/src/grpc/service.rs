//! Requests that are served over one session.
//!
//! This is the plain design: every request has the one session to itself, and searches for its
//! key each time. It is there to measure the worker pool against. The decisions stand here; the
//! thread that holds the session makes the calls in between.

use vstd::prelude::*;

use crate::crypto::{self, CryptoError, Mechanism, PublicKeyKind, SigningInput};
use crate::grpc::pooled::pool_status;
use crate::grpc::request;
use crate::pkcs11::errors::PoolErrorView;
use crate::pkcs11::session;
use crate::pkcs11::token::{
    attribute_views, Attribute, GcmParams, KeyTypeAnswer, ObjectHandle, Rv, TokenError,
    TokenErrorView,
};
use crate::pkcs11::worker::{CipherFailure, GCM_TAG_BITS};
use crate::primitives;
use crate::status::{status_of, Code, Status, StatusView};
use crate::wire::{
    DecryptRequest, DecryptResponse, EncryptRequest, EncryptResponse, GetPublicKeyResponse,
    SignResponse, VerifyResponse,
};

verus! {

/// What the caller is told where a call into the token failed: which one, and nothing of the
/// token's internals.
pub open spec fn failed_call(operation: Seq<char>) -> StatusView {
    status_of(Code::Internal, operation + " failed"@)
}

fn hsm_failure(operation: &str) -> (status: Status)
    ensures
        status@ == failed_call(operation@),
{
    let mut message = operation.to_owned();
    message.append(" failed");
    Status { code: Code::Internal, message }
}

/// A call to `C_Sign` or `C_Verify`: the mechanism and the payload.
#[derive(Debug)]
pub struct SigningCall {
    pub mechanism: Mechanism,
    pub payload: Vec<u8>,
}

/// The call that a mechanism and an input ask for.
pub fn signing_call(mechanism: i32, input: Option<SigningInput>) -> (result: Result<
    SigningCall,
    Status,
>)
    ensures
        match (request::signing_operation(mechanism, request::input_view(input)), result) {
            (Ok((algorithm, payload)), Ok(call)) => call.mechanism == algorithm.spec_mechanism()
                && call.payload@ == payload,
            (Err(told), Err(status)) => status@ == told,
            _ => false,
        },
{
    let operation = request::prepare_signing(mechanism, input)?;
    Ok(
        SigningCall {
            mechanism: operation.algorithm.mechanism(),
            payload: operation.payload,
        },
    )
}

/// The key that a search found, which is the first object.
pub fn require_object(found: Result<Vec<ObjectHandle>, TokenError>, label: &str) -> (result: Result<
    ObjectHandle,
    Status,
>)
    ensures
        match (found, result) {
            (Ok(objects), Ok(key)) => objects@.len() > 0 && key == objects@[0],
            (Ok(objects), Err(status)) => objects@.len() == 0 && status@ == request::no_such_key(
                label@,
            ),
            (Err(_), Err(status)) => status@ == failed_call("C_FindObjects"@),
            (Err(_), Ok(_)) => false,
        },
{
    match found {
        Ok(objects) => match session::find_object(&objects) {
            Some(key) => Ok(key),
            None => Err(request::key_not_found(label)),
        },
        Err(_) => Err(hsm_failure("C_FindObjects")),
    }
}

/// Answer a request for a signature, given what came of `C_Sign`.
pub fn signed(key_label: String, outcome: Result<Vec<u8>, TokenError>) -> (result: Result<
    SignResponse,
    Status,
>)
    ensures
        match (outcome, result) {
            (Ok(signature), Ok(response)) => response.signature@ == signature@
                && response.key_label@ == key_label@,
            (Err(_), Err(status)) => status@ == failed_call("C_Sign"@),
            _ => false,
        },
{
    match outcome {
        Ok(signature) => Ok(SignResponse { signature, key_label }),
        Err(_) => Err(hsm_failure("C_Sign")),
    }
}

/// Answer a request to check a signature, given what came of `C_Verify`.
///
/// A wrong signature is an answer, not a failure: the caller asked a yes-or-no question.
pub fn verified(outcome: Result<(), TokenError>) -> (result: Result<VerifyResponse, Status>)
    ensures
        match (outcome, result) {
            (Ok(()), Ok(response)) => response == (VerifyResponse {
                valid: true,
                served_from_cache: false,
            }),
            (Err(error), Ok(response)) => {
                &&& error.rv is SignatureInvalid || error.rv is SignatureLenRange
                &&& response == (VerifyResponse { valid: false, served_from_cache: false })
            },
            (Err(error), Err(status)) => {
                &&& !(error.rv is SignatureInvalid || error.rv is SignatureLenRange)
                &&& status@ == failed_call("C_Verify"@)
            },
            (Ok(()), Err(_)) => false,
        },
{
    match outcome {
        Ok(()) => Ok(VerifyResponse { valid: true, served_from_cache: false }),
        Err(error) => match error.rv {
            Rv::SignatureInvalid | Rv::SignatureLenRange => Ok(
                VerifyResponse { valid: false, served_from_cache: false },
            ),
            _ => Err(hsm_failure("C_Verify")),
        },
    }
}

/// The parameters of an encryption, under an IV that the proxy draws for the request.
///
/// What was drawn is chance: only its length is stated.
pub fn encryption_params(encrypt: &EncryptRequest) -> (result: Result<GcmParams, Status>)
    ensures
        match result {
            Ok(params) => {
                &&& request::is_aes_gcm(encrypt.mechanism)
                &&& params.iv@.len() == request::GCM_IV_LEN
                &&& params.associated_data@ == encrypt.associated_data@
                &&& params.tag_bits == GCM_TAG_BITS
            },
            Err(status) => {
                &&& !request::is_aes_gcm(encrypt.mechanism)
                &&& status@ == request::cipher_unsupported()
            },
        },
{
    request::require_aes_gcm(encrypt.mechanism)?;
    let iv = primitives::random_bytes(request::GCM_IV_LEN);
    Ok(gcm_params(iv, encrypt.associated_data.as_slice()))
}

/// The parameters of AES-GCM under an IV, with the tag that the proxy uses.
pub fn gcm_params(iv: Vec<u8>, associated_data: &[u8]) -> (params: GcmParams)
    ensures
        params.iv@ == iv@,
        params.associated_data@ == associated_data@,
        params.tag_bits == GCM_TAG_BITS,
{
    GcmParams {
        iv,
        associated_data: vstd::slice::slice_to_vec(associated_data),
        tag_bits: GCM_TAG_BITS,
    }
}

/// What the caller is told where an encryption failed.
pub open spec fn encryption_failure(failure: CipherFailure) -> StatusView {
    match failure {
        CipherFailure::Params(message) => status_of(Code::InvalidArgument, message@),
        CipherFailure::Call(_) => failed_call("C_Encrypt"@),
    }
}

/// Answer a request for encryption, given what came of `C_Encrypt`.
pub fn encrypted(iv: Vec<u8>, outcome: Result<Vec<u8>, CipherFailure>) -> (result: Result<
    EncryptResponse,
    Status,
>)
    ensures
        match (outcome, result) {
            (Ok(ciphertext), Ok(response)) => response.ciphertext@ == ciphertext@ && response.iv@
                == iv@,
            (Err(failure), Err(status)) => status@ == encryption_failure(failure),
            _ => false,
        },
{
    match outcome {
        Ok(ciphertext) => Ok(EncryptResponse { ciphertext, iv }),
        Err(CipherFailure::Params(message)) => Err(
            Status { code: Code::InvalidArgument, message },
        ),
        Err(CipherFailure::Call(_)) => Err(hsm_failure("C_Encrypt")),
    }
}

/// The parameters of a decryption, or what the caller is told.
pub fn decryption_params(decrypt: &DecryptRequest) -> (result: Result<GcmParams, Status>)
    ensures
        match result {
            Ok(params) => {
                &&& request::is_aes_gcm(decrypt.mechanism)
                &&& decrypt.iv@.len() == request::GCM_IV_LEN
                &&& params.iv@ == decrypt.iv@
                &&& params.associated_data@ == decrypt.associated_data@
                &&& params.tag_bits == GCM_TAG_BITS
            },
            Err(status) => if !request::is_aes_gcm(decrypt.mechanism) {
                status@ == request::cipher_unsupported()
            } else {
                &&& decrypt.iv@.len() != request::GCM_IV_LEN
                &&& status@ == request::iv_length_wrong(decrypt.iv@.len())
            },
        },
{
    request::require_aes_gcm(decrypt.mechanism)?;
    request::require_iv_len(&decrypt.iv)?;
    let iv = vstd::slice::slice_to_vec(decrypt.iv.as_slice());
    Ok(gcm_params(iv, decrypt.associated_data.as_slice()))
}

/// What the caller is told where a decryption failed. A ciphertext that fails authentication is
/// the caller's problem, not a fault of the server.
pub open spec fn decryption_failure(failure: CipherFailure) -> StatusView {
    match failure {
        CipherFailure::Params(message) => status_of(Code::InvalidArgument, message@),
        CipherFailure::Call(error) => if error.rv is EncryptedDataInvalid || error.rv
            is EncryptedDataLenRange {
            status_of(Code::InvalidArgument, "ciphertext failed authentication"@)
        } else {
            failed_call("C_Decrypt"@)
        },
    }
}

/// Answer a request for decryption, given what came of `C_Decrypt`.
pub fn decrypted(outcome: Result<Vec<u8>, CipherFailure>) -> (result: Result<
    DecryptResponse,
    Status,
>)
    ensures
        match (outcome, result) {
            (Ok(plaintext), Ok(response)) => response.plaintext@ == plaintext@,
            (Err(failure), Err(status)) => status@ == decryption_failure(failure),
            _ => false,
        },
{
    match outcome {
        Ok(plaintext) => Ok(DecryptResponse { plaintext }),
        Err(CipherFailure::Params(message)) => Err(
            Status { code: Code::InvalidArgument, message },
        ),
        Err(CipherFailure::Call(error)) => match error.rv {
            Rv::EncryptedDataInvalid | Rv::EncryptedDataLenRange => Err(
                Status::new(Code::InvalidArgument, "ciphertext failed authentication"),
            ),
            _ => Err(hsm_failure("C_Decrypt")),
        },
    }
}

/// The kind of a public key whose type was read.
pub fn public_key_kind(answer: Result<KeyTypeAnswer, TokenError>) -> (result: Result<
    PublicKeyKind,
    Status,
>)
    ensures
        match (answer, result) {
            (Ok(answer), Ok(kind)) => crypto::kind_named(attribute_views(answer.attributes@))
                == Some(kind),
            (Ok(answer), Err(status)) => crypto::kind_named(
                attribute_views(answer.attributes@),
            ) is None && status@ == failed_call("public key encoding"@),
            (Err(_), Err(status)) => status@ == failed_call("public key encoding"@),
            (Err(_), Ok(_)) => false,
        },
{
    match answer {
        Ok(answer) => match PublicKeyKind::of_key_type(&answer.attributes) {
            Some(kind) => Ok(kind),
            None => Err(hsm_failure("public key encoding")),
        },
        Err(_) => Err(hsm_failure("public key encoding")),
    }
}

/// Answer a request for a public key whose components were read.
pub fn public_key_read(
    kind: PublicKeyKind,
    components: Result<Vec<Attribute>, TokenError>,
) -> (result: Result<GetPublicKeyResponse, Status>)
    ensures
        match (components, result) {
            (Ok(attributes), Ok(response)) => {
                &&& crypto::spki_of(kind, attribute_views(attributes@)) == Ok::<_, CryptoError>(
                    response.spki_der@,
                )
                &&& response.key_type@ == kind.spec_name()
                &&& !response.served_from_cache
            },
            (Ok(attributes), Err(status)) => {
                &&& crypto::spki_of(kind, attribute_views(attributes@)) is Err
                &&& status@ == failed_call("public key encoding"@)
            },
            (Err(_), Err(status)) => status@ == failed_call("public key encoding"@),
            (Err(_), Ok(_)) => false,
        },
{
    match components {
        Ok(attributes) => match crypto::public_key_to_spki_der(kind, &attributes) {
            Ok((spki_der, key_type)) => Ok(
                GetPublicKeyResponse { spki_der, key_type, served_from_cache: false },
            ),
            Err(_) => Err(hsm_failure("public key encoding")),
        },
        Err(_) => Err(hsm_failure("public key encoding")),
    }
}

/// One session and the pool answer a failed call alike: by the call's name, as an internal error,
/// whatever the token said.
pub proof fn law_a_failed_call_is_told_as_the_pool_tells_it(
    operation: Seq<char>,
    source: TokenErrorView,
)
    ensures
        failed_call(operation) == pool_status(PoolErrorView::Hsm { operation, source }),
        failed_call(operation).code is Internal,
        operation.is_prefix_of(failed_call(operation).message),
{
    assert(failed_call(operation).message.subrange(0, operation.len() as int) =~= operation);
}

/// A failed cipher is the caller's mistake where the parameters were refused or the ciphertext does
/// not authenticate, and the token's fault otherwise; a decryption tells the two apart, and an
/// encryption has no ciphertext that could be at fault.
pub proof fn law_a_failed_cipher_is_told_whose_fault_it_is(message: String, error: TokenError)
    ensures
        encryption_failure(CipherFailure::Params(message)) == status_of(
            Code::InvalidArgument,
            message@,
        ),
        decryption_failure(CipherFailure::Params(message)) == status_of(
            Code::InvalidArgument,
            message@,
        ),
        encryption_failure(CipherFailure::Call(error)).code is Internal,
        decryption_failure(CipherFailure::Call(error)).code is InvalidArgument <==> error.rv
            is EncryptedDataInvalid || error.rv is EncryptedDataLenRange,
        decryption_failure(CipherFailure::Call(error)).code is Internal <==> !(error.rv
            is EncryptedDataInvalid || error.rv is EncryptedDataLenRange),
{
}

} // verus!
