//! The unit of work that is handed to a pool worker.

use vstd::prelude::*;

use crate::authz::policy::Operation;
use crate::crypto::SignAlgorithm;
use crate::pkcs11::token::ObjectClass;

verus! {

/// Which class of object a label refers to.
#[derive(Clone, Copy, Debug, PartialEq, Eq, Hash, Structural)]
pub enum KeyKind {
    Private,
    Public,
    Secret,
}

impl KeyKind {
    /// The class of the objects of this kind.
    pub open spec fn spec_object_class(self) -> ObjectClass {
        match self {
            KeyKind::Private => ObjectClass::PrivateKey,
            KeyKind::Public => ObjectClass::PublicKey,
            KeyKind::Secret => ObjectClass::SecretKey,
        }
    }

    /// The class of the objects of this kind.
    pub fn object_class(self) -> (class: ObjectClass)
        ensures
            class == self.spec_object_class(),
    {
        match self {
            KeyKind::Private => ObjectClass::PrivateKey,
            KeyKind::Public => ObjectClass::PublicKey,
            KeyKind::Secret => ObjectClass::SecretKey,
        }
    }
}

/// What a worker is asked to do.
#[derive(Clone, Debug)]
pub enum JobRequest {
    Sign { key_label: String, algorithm: SignAlgorithm, payload: Vec<u8> },
    Verify { key_label: String, algorithm: SignAlgorithm, payload: Vec<u8>, signature: Vec<u8> },
    Encrypt { key_label: String, plaintext: Vec<u8>, associated_data: Vec<u8>, iv: Vec<u8> },
    Decrypt { key_label: String, ciphertext: Vec<u8>, associated_data: Vec<u8>, iv: Vec<u8> },
    GetPublicKey { key_label: String },
}

/// The value of a [`JobRequest`].
#[verifier::ext_equal]
pub enum JobRequestView {
    Sign { key_label: Seq<char>, algorithm: SignAlgorithm, payload: Seq<u8> },
    Verify {
        key_label: Seq<char>,
        algorithm: SignAlgorithm,
        payload: Seq<u8>,
        signature: Seq<u8>,
    },
    Encrypt {
        key_label: Seq<char>,
        plaintext: Seq<u8>,
        associated_data: Seq<u8>,
        iv: Seq<u8>,
    },
    Decrypt {
        key_label: Seq<char>,
        ciphertext: Seq<u8>,
        associated_data: Seq<u8>,
        iv: Seq<u8>,
    },
    GetPublicKey { key_label: Seq<char> },
}

impl View for JobRequest {
    type V = JobRequestView;

    open spec fn view(&self) -> JobRequestView {
        match self {
            JobRequest::Sign { key_label, algorithm, payload } => JobRequestView::Sign {
                key_label: key_label@,
                algorithm: *algorithm,
                payload: payload@,
            },
            JobRequest::Verify { key_label, algorithm, payload, signature } =>
                JobRequestView::Verify {
                key_label: key_label@,
                algorithm: *algorithm,
                payload: payload@,
                signature: signature@,
            },
            JobRequest::Encrypt { key_label, plaintext, associated_data, iv } =>
                JobRequestView::Encrypt {
                key_label: key_label@,
                plaintext: plaintext@,
                associated_data: associated_data@,
                iv: iv@,
            },
            JobRequest::Decrypt { key_label, ciphertext, associated_data, iv } =>
                JobRequestView::Decrypt {
                key_label: key_label@,
                ciphertext: ciphertext@,
                associated_data: associated_data@,
                iv: iv@,
            },
            JobRequest::GetPublicKey { key_label } => JobRequestView::GetPublicKey {
                key_label: key_label@,
            },
        }
    }
}

impl JobRequestView {
    /// A short name for the operation.
    pub open spec fn operation(self) -> Seq<char> {
        match self {
            JobRequestView::Sign { .. } => "sign"@,
            JobRequestView::Verify { .. } => "verify"@,
            JobRequestView::Encrypt { .. } => "encrypt"@,
            JobRequestView::Decrypt { .. } => "decrypt"@,
            JobRequestView::GetPublicKey { .. } => "get_public_key"@,
        }
    }

    /// The label of the key that the operation needs.
    pub open spec fn label(self) -> Seq<char> {
        match self {
            JobRequestView::Sign { key_label, .. } => key_label,
            JobRequestView::Verify { key_label, .. } => key_label,
            JobRequestView::Encrypt { key_label, .. } => key_label,
            JobRequestView::Decrypt { key_label, .. } => key_label,
            JobRequestView::GetPublicKey { key_label } => key_label,
        }
    }

    /// The kind of key that the operation needs.
    pub open spec fn kind(self) -> KeyKind {
        match self {
            JobRequestView::Sign { .. } => KeyKind::Private,
            JobRequestView::Verify { .. } | JobRequestView::GetPublicKey { .. } => KeyKind::Public,
            JobRequestView::Encrypt { .. } | JobRequestView::Decrypt { .. } => KeyKind::Secret,
        }
    }
}

impl JobRequest {
    /// A short name for the operation, for metrics and logs.
    pub fn operation(&self) -> (operation: &'static str)
        ensures
            operation@ == self@.operation(),
    {
        match self {
            JobRequest::Sign { .. } => "sign",
            JobRequest::Verify { .. } => "verify",
            JobRequest::Encrypt { .. } => "encrypt",
            JobRequest::Decrypt { .. } => "decrypt",
            JobRequest::GetPublicKey { .. } => "get_public_key",
        }
    }

    /// The label of the key that the operation needs.
    pub fn label(&self) -> (label: &str)
        ensures
            label@ == self@.label(),
    {
        match self {
            JobRequest::Sign { key_label, .. } => key_label.as_str(),
            JobRequest::Verify { key_label, .. } => key_label.as_str(),
            JobRequest::Encrypt { key_label, .. } => key_label.as_str(),
            JobRequest::Decrypt { key_label, .. } => key_label.as_str(),
            JobRequest::GetPublicKey { key_label } => key_label.as_str(),
        }
    }

    /// The kind of key that the operation needs.
    pub fn kind(&self) -> (kind: KeyKind)
        ensures
            kind == self@.kind(),
    {
        match self {
            JobRequest::Sign { .. } => KeyKind::Private,
            JobRequest::Verify { .. } | JobRequest::GetPublicKey { .. } => KeyKind::Public,
            JobRequest::Encrypt { .. } | JobRequest::Decrypt { .. } => KeyKind::Secret,
        }
    }
}

/// What a worker answers.
#[derive(Clone, Debug)]
pub enum JobResponse {
    Signature(Vec<u8>),
    /// `false` means that the signature did not check out: an answer, not an error.
    Verified(bool),
    Ciphertext(Vec<u8>),
    Plaintext(Vec<u8>),
    PublicKey { spki_der: Vec<u8>, key_type: String },
}

/// The value of a [`JobResponse`].
#[verifier::ext_equal]
pub enum JobResponseView {
    Signature(Seq<u8>),
    Verified(bool),
    Ciphertext(Seq<u8>),
    Plaintext(Seq<u8>),
    PublicKey { spki_der: Seq<u8>, key_type: Seq<char> },
}

impl View for JobResponse {
    type V = JobResponseView;

    open spec fn view(&self) -> JobResponseView {
        match self {
            JobResponse::Signature(bytes) => JobResponseView::Signature(bytes@),
            JobResponse::Verified(valid) => JobResponseView::Verified(*valid),
            JobResponse::Ciphertext(bytes) => JobResponseView::Ciphertext(bytes@),
            JobResponse::Plaintext(bytes) => JobResponseView::Plaintext(bytes@),
            JobResponse::PublicKey { spki_der, key_type } => JobResponseView::PublicKey {
                spki_der: spki_der@,
                key_type: key_type@,
            },
        }
    }
}

/// A job is for the key that it names, of the kind that its operation needs: a private key to
/// sign, a secret one to encrypt and decrypt, and a public one for the rest.
pub proof fn law_a_job_is_for_the_key_that_it_names(
    key_label: Seq<char>,
    algorithm: SignAlgorithm,
    a: Seq<u8>,
    b: Seq<u8>,
    c: Seq<u8>,
)
    ensures
        ({
            let sign = JobRequestView::Sign { key_label, algorithm, payload: a };
            let verify = JobRequestView::Verify { key_label, algorithm, payload: a, signature: b };
            let encrypt = JobRequestView::Encrypt {
                key_label,
                plaintext: a,
                associated_data: b,
                iv: c,
            };
            let decrypt = JobRequestView::Decrypt {
                key_label,
                ciphertext: a,
                associated_data: b,
                iv: c,
            };
            let get = JobRequestView::GetPublicKey { key_label };
            &&& sign.label() == key_label && sign.kind() is Private
            &&& verify.label() == key_label && verify.kind() is Public
            &&& encrypt.label() == key_label && encrypt.kind() is Secret
            &&& decrypt.label() == key_label && decrypt.kind() is Secret
            &&& get.label() == key_label && get.kind() is Public
            &&& sign.operation() == Operation::Sign.name()
            &&& verify.operation() == Operation::Verify.name()
            &&& encrypt.operation() == Operation::Encrypt.name()
            &&& decrypt.operation() == Operation::Decrypt.name()
            &&& get.operation() == Operation::GetPublicKey.name()
        }),
{
}

/// A job is known by all of it: jobs with the same value ask for the same, byte for byte.
pub proof fn law_a_job_is_known_by_all_of_it(one: JobRequest, another: JobRequest)
    requires
        one@ == another@,
    ensures
        match (one, another) {
            (
                JobRequest::Sign { key_label: l, algorithm: a, payload: p },
                JobRequest::Sign { key_label: m, algorithm: b, payload: q },
            ) => l@ == m@ && a == b && p@ == q@,
            (
                JobRequest::Verify { key_label: l, algorithm: a, payload: p, signature: s },
                JobRequest::Verify { key_label: m, algorithm: b, payload: q, signature: t },
            ) => l@ == m@ && a == b && p@ == q@ && s@ == t@,
            (
                JobRequest::Encrypt { key_label: l, plaintext: p, associated_data: a, iv: i },
                JobRequest::Encrypt { key_label: m, plaintext: q, associated_data: b, iv: j },
            ) => l@ == m@ && p@ == q@ && a@ == b@ && i@ == j@,
            (
                JobRequest::Decrypt { key_label: l, ciphertext: p, associated_data: a, iv: i },
                JobRequest::Decrypt { key_label: m, ciphertext: q, associated_data: b, iv: j },
            ) => l@ == m@ && p@ == q@ && a@ == b@ && i@ == j@,
            (
                JobRequest::GetPublicKey { key_label: l },
                JobRequest::GetPublicKey { key_label: m },
            ) => l@ == m@,
            _ => false,
        },
{
}

/// An answer is known by all of it: answers with the same value say the same, byte for byte.
pub proof fn law_an_answer_is_known_by_all_of_it(one: JobResponse, another: JobResponse)
    requires
        one@ == another@,
    ensures
        match (one, another) {
            (JobResponse::Signature(a), JobResponse::Signature(b)) => a@ == b@,
            (JobResponse::Verified(a), JobResponse::Verified(b)) => a == b,
            (JobResponse::Ciphertext(a), JobResponse::Ciphertext(b)) => a@ == b@,
            (JobResponse::Plaintext(a), JobResponse::Plaintext(b)) => a@ == b@,
            (
                JobResponse::PublicKey { spki_der: a, key_type: s },
                JobResponse::PublicKey { spki_der: b, key_type: t },
            ) => a@ == b@ && s@ == t@,
            _ => false,
        },
{
}

} // verus!
