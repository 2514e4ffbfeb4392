//! Errors that cross the boundary of the worker pool.

use vstd::prelude::*;

use crate::pkcs11::token::{Rv, TokenError, TokenErrorView};
use crate::text;

verus! {

/// A failure from the pool, phrased so that the gRPC layer can pick a status code without
/// knowing anything about PKCS#11.
#[derive(Clone, Debug)]
pub enum PoolError {
    /// No key on the token has this label.
    KeyNotFound(String),
    /// The request is at fault.
    InvalidRequest(String),
    /// The bounded queue was full.
    Overloaded,
    /// No worker answered in time.
    Timeout,
    /// The pool takes no more work.
    ShuttingDown,
    /// A PKCS#11 call failed.
    Hsm { operation: &'static str, source: TokenError },
    /// Something else failed on this side.
    Internal(String),
}

/// The value of a [`PoolError`].
#[verifier::ext_equal]
pub enum PoolErrorView {
    KeyNotFound(Seq<char>),
    InvalidRequest(Seq<char>),
    Overloaded,
    Timeout,
    ShuttingDown,
    Hsm { operation: Seq<char>, source: TokenErrorView },
    Internal(Seq<char>),
}

impl View for PoolError {
    type V = PoolErrorView;

    open spec fn view(&self) -> PoolErrorView {
        match self {
            PoolError::KeyNotFound(label) => PoolErrorView::KeyNotFound(label@),
            PoolError::InvalidRequest(message) => PoolErrorView::InvalidRequest(message@),
            PoolError::Overloaded => PoolErrorView::Overloaded,
            PoolError::Timeout => PoolErrorView::Timeout,
            PoolError::ShuttingDown => PoolErrorView::ShuttingDown,
            PoolError::Hsm { operation, source } => PoolErrorView::Hsm {
                operation: operation@,
                source: source@,
            },
            PoolError::Internal(message) => PoolErrorView::Internal(message@),
        }
    }
}

impl PoolErrorView {
    /// The text that describes the failure.
    pub open spec fn text(self) -> Seq<char> {
        match self {
            PoolErrorView::KeyNotFound(label) => "no key labelled '"@ + label + "' on the token"@,
            PoolErrorView::InvalidRequest(message) => "invalid request: "@ + message,
            PoolErrorView::Overloaded => "overloaded: the request queue is full"@,
            PoolErrorView::Timeout => "timed out waiting for a worker"@,
            PoolErrorView::ShuttingDown => "the worker pool is shutting down"@,
            PoolErrorView::Hsm { operation, source } => operation + " failed: "@ + source.text,
            PoolErrorView::Internal(message) => message,
        }
    }
}

impl PoolError {
    /// A failed PKCS#11 call.
    pub fn hsm(operation: &'static str, source: TokenError) -> (error: Self)
        ensures
            error@ == (PoolErrorView::Hsm { operation: operation@, source: source@ }),
    {
        PoolError::Hsm { operation, source }
    }

    /// The text that describes the failure.
    pub fn message(&self) -> (message: String)
        ensures
            message@ == self@.text(),
    {
        match self {
            PoolError::KeyNotFound(label) => text::joined(
                "no key labelled '",
                label.as_str(),
                "' on the token",
            ),
            PoolError::InvalidRequest(message) => {
                let mut text = "invalid request: ".to_owned();
                text.append(message.as_str());
                text
            },
            PoolError::Overloaded => "overloaded: the request queue is full".to_owned(),
            PoolError::Timeout => "timed out waiting for a worker".to_owned(),
            PoolError::ShuttingDown => "the worker pool is shutting down".to_owned(),
            PoolError::Hsm { operation, source } => text::joined(
                operation,
                " failed: ",
                source.text.as_str(),
            ),
            PoolError::Internal(message) => message.clone(),
        }
    }
}

/// Does this return value mean that the session itself is unusable?
pub open spec fn session_fatal(rv: Rv) -> bool {
    rv is SessionHandleInvalid || rv is SessionClosed || rv is DeviceError || rv is DeviceRemoved
        || rv is TokenNotPresent || rv is UserNotLoggedIn
}

/// Does this error mean that the session itself is unusable?
///
/// Retrying on the same session is then pointless. The worker opens a fresh one, logs in again
/// and forgets its object handles, because handles belong to the session that found them.
pub fn is_session_fatal(error: &TokenError) -> (fatal: bool)
    ensures
        fatal == session_fatal(error.rv),
{
    match error.rv {
        Rv::SessionHandleInvalid
        | Rv::SessionClosed
        | Rv::DeviceError
        | Rv::DeviceRemoved
        | Rv::TokenNotPresent
        | Rv::UserNotLoggedIn => true,
        _ => false,
    }
}

/// A session survives every failure that is about the data or about being logged in already: a
/// signature or a ciphertext that does not check out costs no session, and neither does a call
/// that failed for a reason that is not known. Every other failure costs it.
pub proof fn law_what_costs_a_session(rv: Rv)
    ensures
        !session_fatal(rv) <==> rv is UserAlreadyLoggedIn || rv is SignatureInvalid || rv
            is SignatureLenRange || rv is EncryptedDataInvalid || rv is EncryptedDataLenRange || rv
            is Other,
{
}

/// A failure is described by what failed: a missing key by its label, a refused request by the
/// reason, and a failed call by its name and by what the token said.
pub proof fn law_a_failure_says_what_failed(
    label: Seq<char>,
    message: Seq<char>,
    operation: Seq<char>,
    source: TokenErrorView,
)
    ensures
        text::occurs_in(label, PoolErrorView::KeyNotFound(label).text()),
        text::occurs_in(message, PoolErrorView::InvalidRequest(message).text()),
        PoolErrorView::Internal(message).text() == message,
        operation.is_prefix_of(PoolErrorView::Hsm { operation, source }.text()),
        text::occurs_in(source.text, PoolErrorView::Hsm { operation, source }.text()),
{
    let missing = PoolErrorView::KeyNotFound(label).text();
    let at = "no key labelled '"@.len() as int;
    assert(missing.subrange(at, at + label.len()) =~= label);
    assert(text::occurs_at(label, missing, at));
    let refused = PoolErrorView::InvalidRequest(message).text();
    let at = "invalid request: "@.len() as int;
    assert(refused.subrange(at, at + message.len()) =~= message);
    assert(text::occurs_at(message, refused, at));
    let failed = PoolErrorView::Hsm { operation, source }.text();
    assert(failed.subrange(0, operation.len() as int) =~= operation);
    let at = (operation + " failed: "@).len() as int;
    assert(failed.subrange(at, at + source.text.len()) =~= source.text);
    assert(text::occurs_at(source.text, failed, at));
}

} // verus!
