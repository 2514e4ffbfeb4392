//! The `hsm.v1` messages, as plain values.
//!
//! Enumerations travel as numbers, as they do on the wire: a number that no variant stands for
//! is an ordinary input, and the functions that read one say what becomes of it.

use vstd::prelude::*;

use crate::crypto::SigningInput;

verus! {

/// How a signature is computed.
#[derive(Clone, Copy, Debug, PartialEq, Eq, Structural)]
pub enum SignatureMechanism {
    Unspecified,
    EcdsaSha256,
    RsaPkcsSha256,
    RsaPssSha256,
}

impl SignatureMechanism {
    /// The mechanism that `number` stands for.
    pub open spec fn of_number(number: i32) -> Option<SignatureMechanism> {
        if number == 0 {
            Some(SignatureMechanism::Unspecified)
        } else if number == 1 {
            Some(SignatureMechanism::EcdsaSha256)
        } else if number == 2 {
            Some(SignatureMechanism::RsaPkcsSha256)
        } else if number == 3 {
            Some(SignatureMechanism::RsaPssSha256)
        } else {
            None
        }
    }

    /// The mechanism that `number` stands for, if there is one.
    pub fn from_number(number: i32) -> (mechanism: Option<SignatureMechanism>)
        ensures
            mechanism == Self::of_number(number),
    {
        match number {
            0 => Some(SignatureMechanism::Unspecified),
            1 => Some(SignatureMechanism::EcdsaSha256),
            2 => Some(SignatureMechanism::RsaPkcsSha256),
            3 => Some(SignatureMechanism::RsaPssSha256),
            _ => None,
        }
    }
}

/// How data is encrypted.
#[derive(Clone, Copy, Debug, PartialEq, Eq, Structural)]
pub enum CipherMechanism {
    Unspecified,
    AesGcm,
}

impl CipherMechanism {
    /// The mechanism that `number` stands for.
    pub open spec fn of_number(number: i32) -> Option<CipherMechanism> {
        if number == 0 {
            Some(CipherMechanism::Unspecified)
        } else if number == 1 {
            Some(CipherMechanism::AesGcm)
        } else {
            None
        }
    }

    /// The mechanism that `number` stands for, if there is one.
    pub fn from_number(number: i32) -> (mechanism: Option<CipherMechanism>)
        ensures
            mechanism == Self::of_number(number),
    {
        match number {
            0 => Some(CipherMechanism::Unspecified),
            1 => Some(CipherMechanism::AesGcm),
            _ => None,
        }
    }
}

/// Sign a message or a digest.
#[derive(Clone, Debug)]
pub struct SignRequest {
    pub key_label: String,
    pub mechanism: i32,
    pub input: Option<SigningInput>,
}

#[derive(Clone, Debug)]
pub struct SignResponse {
    pub signature: Vec<u8>,
    pub key_label: String,
}

/// Check a signature over a message or a digest.
#[derive(Clone, Debug)]
pub struct VerifyRequest {
    pub key_label: String,
    pub mechanism: i32,
    pub input: Option<SigningInput>,
    pub signature: Vec<u8>,
}

#[derive(Clone, Copy, Debug, PartialEq, Eq, Structural)]
pub struct VerifyResponse {
    pub valid: bool,
    pub served_from_cache: bool,
}

/// Encrypt a plaintext.
#[derive(Clone, Debug)]
pub struct EncryptRequest {
    pub key_label: String,
    pub mechanism: i32,
    pub plaintext: Vec<u8>,
    pub associated_data: Vec<u8>,
}

#[derive(Clone, Debug)]
pub struct EncryptResponse {
    pub ciphertext: Vec<u8>,
    pub iv: Vec<u8>,
}

/// Decrypt a ciphertext.
#[derive(Clone, Debug)]
pub struct DecryptRequest {
    pub key_label: String,
    pub mechanism: i32,
    pub ciphertext: Vec<u8>,
    pub associated_data: Vec<u8>,
    pub iv: Vec<u8>,
}

#[derive(Clone, Debug)]
pub struct DecryptResponse {
    pub plaintext: Vec<u8>,
}

/// Hand out a public key.
#[derive(Clone, Debug)]
pub struct GetPublicKeyRequest {
    pub key_label: String,
}

#[derive(Clone, Debug)]
pub struct GetPublicKeyResponse {
    pub spki_der: Vec<u8>,
    pub key_type: String,
    pub served_from_cache: bool,
}

/// The numbers on the wire: each mechanism has its own, and no other number stands for one.
pub proof fn law_every_mechanism_has_its_number(number: i32)
    ensures
        SignatureMechanism::of_number(number) == Some(SignatureMechanism::Unspecified) <==> number
            == 0,
        SignatureMechanism::of_number(number) == Some(SignatureMechanism::EcdsaSha256) <==> number
            == 1,
        SignatureMechanism::of_number(number) == Some(SignatureMechanism::RsaPkcsSha256)
            <==> number == 2,
        SignatureMechanism::of_number(number) == Some(SignatureMechanism::RsaPssSha256) <==> number
            == 3,
        SignatureMechanism::of_number(number) is None <==> number < 0 || number > 3,
        CipherMechanism::of_number(number) == Some(CipherMechanism::Unspecified) <==> number == 0,
        CipherMechanism::of_number(number) == Some(CipherMechanism::AesGcm) <==> number == 1,
        CipherMechanism::of_number(number) is None <==> number < 0 || number > 1,
{
}

} // verus!
