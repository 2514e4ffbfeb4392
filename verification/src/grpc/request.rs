//! What is asked of a request before it goes any further.

use vstd::prelude::*;

use crate::crypto::{self, PreparedOperation, SignAlgorithm, SigningInput, SigningInputView};
use crate::status::{status_of, Code, Status, StatusView};
use crate::text;
use crate::wire::CipherMechanism;

verus! {

/// The length of an AES-GCM IV: 96 bits, the standard size.
pub const GCM_IV_LEN: usize = 12;

/// The value of an input that may be missing.
pub open spec fn input_view(input: Option<SigningInput>) -> Option<SigningInputView> {
    match input {
        Some(input) => Some(input@),
        None => None,
    }
}

/// What a request without an input is told.
pub open spec fn input_missing() -> StatusView {
    status_of(Code::InvalidArgument, "input must be set to either message or digest"@)
}

/// The input of a request, which has to have one.
pub fn extract_input(input: Option<SigningInput>) -> (result: Result<SigningInput, Status>)
    ensures
        match (input, result) {
            (Some(given), Ok(input)) => input == given,
            (None, Err(status)) => status@ == input_missing(),
            _ => false,
        },
{
    match input {
        Some(input) => Ok(input),
        None => Err(
            Status::new(Code::InvalidArgument, "input must be set to either message or digest"),
        ),
    }
}

/// What the token is to be called with for a mechanism and an input, or what the caller is told.
pub open spec fn signing_operation(mechanism: i32, input: Option<SigningInputView>) -> Result<
    (SignAlgorithm, Seq<u8>),
    StatusView,
> {
    match input {
        None => Err(input_missing()),
        Some(input) => match crypto::prepared(mechanism, input) {
            Ok(operation) => Ok(operation),
            Err(error) => Err(status_of(Code::InvalidArgument, error.text())),
        },
    }
}

/// What the token is to be called with for a mechanism and an input.
pub fn prepare_signing(mechanism: i32, input: Option<SigningInput>) -> (result: Result<
    PreparedOperation,
    Status,
>)
    ensures
        match result {
            Ok(operation) => signing_operation(mechanism, input_view(input)) == Ok::<_, StatusView>(
                (operation.algorithm, operation.payload@),
            ),
            Err(status) => signing_operation(mechanism, input_view(input)) == Err::<
                (SignAlgorithm, Seq<u8>),
                _,
            >(status@),
        },
{
    let input = extract_input(input)?;
    match crypto::prepare(mechanism, input) {
        Ok(operation) => Ok(operation),
        Err(error) => Err(Status { code: Code::InvalidArgument, message: error.message() }),
    }
}

/// What a request for any cipher but AES-GCM is told.
pub open spec fn cipher_unsupported() -> StatusView {
    status_of(Code::InvalidArgument, "only CIPHER_MECHANISM_AES_GCM is supported"@)
}

/// Does the number stand for AES-GCM?
pub open spec fn is_aes_gcm(mechanism: i32) -> bool {
    CipherMechanism::of_number(mechanism) == Some(CipherMechanism::AesGcm)
}

/// Refuse every cipher but AES-GCM.
pub fn require_aes_gcm(mechanism: i32) -> (result: Result<(), Status>)
    ensures
        match result {
            Ok(()) => is_aes_gcm(mechanism),
            Err(status) => !is_aes_gcm(mechanism) && status@ == cipher_unsupported(),
        },
{
    match CipherMechanism::from_number(mechanism) {
        Some(CipherMechanism::AesGcm) => Ok(()),
        _ => Err(
            Status::new(Code::InvalidArgument, "only CIPHER_MECHANISM_AES_GCM is supported"),
        ),
    }
}

/// What a request with an IV of another length is told.
pub open spec fn iv_length_wrong(len: nat) -> StatusView {
    status_of(Code::InvalidArgument, "iv must be 12 bytes, got "@ + text::decimal(len))
}

/// Refuse an IV of any length but the one that the proxy uses.
pub fn require_iv_len(iv: &Vec<u8>) -> (result: Result<(), Status>)
    ensures
        match result {
            Ok(()) => iv@.len() == GCM_IV_LEN,
            Err(status) => iv@.len() != GCM_IV_LEN && status@ == iv_length_wrong(iv@.len()),
        },
{
    if iv.len() != GCM_IV_LEN {
        let mut message = "iv must be 12 bytes, got ".to_owned();
        message.append(text::decimal_text(iv.len() as u64).as_str());
        return Err(Status { code: Code::InvalidArgument, message });
    }
    Ok(())
}

/// What a request for a key that the token does not have is told.
pub open spec fn no_such_key(label: Seq<char>) -> StatusView {
    status_of(Code::NotFound, "no key labelled '"@ + label + "' on the token"@)
}

/// What a request for a key that the token does not have is told.
pub fn key_not_found(label: &str) -> (status: Status)
    ensures
        status@ == no_such_key(label@),
{
    Status {
        code: Code::NotFound,
        message: text::joined("no key labelled '", label, "' on the token"),
    }
}

/// A request is refused as the caller's mistake: without an input, with a mechanism that there is
/// not, or with a digest of the wrong length; and is otherwise prepared.
pub proof fn law_a_mistaken_request_is_the_callers(mechanism: i32, input: SigningInputView)
    ensures
        signing_operation(mechanism, None) matches Err(status) && status.code is InvalidArgument,
        crypto::prepared(mechanism, input) matches Ok(operation) ==> signing_operation(
            mechanism,
            Some(input),
        ) == Ok::<_, StatusView>(operation),
        crypto::prepared(mechanism, input) matches Err(error) ==> (signing_operation(
            mechanism,
            Some(input),
        ) matches Err(status) && status.code is InvalidArgument && status.message
            == error.text()),
{
}

/// AES-GCM is the one cipher, and its IV has 96 bits.
pub proof fn law_aes_gcm_is_the_one_cipher(mechanism: i32, len: nat)
    ensures
        is_aes_gcm(mechanism) <==> mechanism == 1,
        8 * GCM_IV_LEN == 96,
        cipher_unsupported().code is InvalidArgument,
        iv_length_wrong(len).code is InvalidArgument,
        text::occurs_in(text::decimal(len), iv_length_wrong(len).message),
{
    let told = iv_length_wrong(len).message;
    let at = "iv must be 12 bytes, got "@.len() as int;
    assert(told.subrange(at, at + text::decimal(len).len()) =~= text::decimal(len));
    assert(text::occurs_at(text::decimal(len), told, at));
}

/// A caller who asks for a key that is not there is told which.
pub proof fn law_a_missing_key_is_named(label: Seq<char>)
    ensures
        no_such_key(label).code is NotFound,
        text::occurs_in(label, no_such_key(label).message),
{
    let told = no_such_key(label).message;
    let at = "no key labelled '"@.len() as int;
    assert(told.subrange(at, at + label.len()) =~= label);
    assert(text::occurs_at(label, told, at));
}

} // verus!
