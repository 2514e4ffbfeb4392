//! Requests that are dispatched to the worker pool.
//!
//! Every request is served in two halves, with the work of the pool, or of the cache in front of
//! it, in between. The first half admits the request and says what to submit; the second turns
//! the outcome into the answer, and reports it to the circuit breaker.

use vstd::prelude::*;
use vstd::slice::slice_to_vec;

use crate::authz::authorizer::{check_counted, denial, identity_view, verdict, Authorizer};
use crate::authz::policy::Operation;
use crate::cache::{Lookup, LookupView};
use crate::crypto::{self, SigningInput, SigningInputView};
use crate::grpc::request;
use crate::pkcs11::errors::{PoolError, PoolErrorView};
use crate::pkcs11::job::{JobRequest, JobRequestView, JobResponse, JobResponseView};
use crate::pkcs11::metrics::counted;
use crate::pkcs11::token::{ObjectHandle, TokenErrorView};
use crate::pkcs11::worker::{is_call, result_view, Step};
use crate::primitives;
use crate::resilience::breaker::{elapsed, CircuitBreaker};
use crate::resilience::ratelimit::{asked, within_burst, RateLimiter};
use crate::status::{status_of, Code, Status, StatusView};
use crate::wire::{
    DecryptRequest, DecryptResponse, EncryptRequest, EncryptResponse, GetPublicKeyResponse,
    SignRequest, SignResponse, VerifyResponse,
};

verus! {

/// What guards the worker pool.
pub struct PooledService {
    /// `None` where TLS is off: without a client certificate there is no identity to authorize.
    pub authorizer: Option<Authorizer>,
    /// `None` where no limit is configured.
    pub rate_limiter: Option<RateLimiter>,
    pub breaker: CircuitBreaker,
}

/// What a request is told while the circuit is open.
pub open spec fn circuit_open() -> StatusView {
    status_of(
        Code::Unavailable,
        "circuit breaker is open; the HSM is failing. Retry after backoff."@,
    )
}

/// What a caller is told who is over their limit.
pub open spec fn over_limit() -> StatusView {
    status_of(Code::ResourceExhausted, "rate limit exceeded for this workload identity"@)
}

/// How a request fared with the guards.
#[derive(Clone, Copy, Debug, PartialEq, Eq, Structural)]
pub enum Admission {
    /// The circuit breaker turned it away.
    CircuitOpen,
    /// Its caller has no identity.
    Unidentified,
    /// The policy does not permit it.
    Denied,
    /// The policy permits it, and its caller is over their limit.
    OverLimit,
    /// The policy permits it, and it is let in.
    Permitted,
    /// There is no policy, and it is let in.
    Unchecked,
}

impl Admission {
    /// Is the request let in?
    pub open spec fn lets_in(self) -> bool {
        self is Permitted || self is Unchecked
    }
}

/// What a caller is told whose request is not let in.
pub open spec fn refusal(
    admission: Admission,
    identity: Result<Seq<char>, StatusView>,
    key_label: Seq<char>,
    operation: Operation,
) -> StatusView {
    match admission {
        Admission::CircuitOpen => circuit_open(),
        Admission::Unidentified => identity->Err_0,
        Admission::Denied => denial(identity->Ok_0, key_label, operation),
        _ => over_limit(),
    }
}

/// The limiter after it was asked about a caller.
pub open spec fn limited(
    before: RateLimiter,
    after: RateLimiter,
    identity: Seq<char>,
    allowed: bool,
) -> bool {
    &&& after.well_formed()
    &&& after.per_second == before.per_second
    &&& after.burst == before.burst
    &&& after.limit() == before.limit()
    &&& asked(
        before.held(),
        after.held(),
        identity,
        before.burst as nat,
        before.limit(),
        allowed,
    )
    &&& after.allowed == counted(
        before.allowed,
        if allowed {
            1
        } else {
            0
        },
    )
    &&& after.rejected == counted(
        before.rejected,
        if allowed {
            0
        } else {
            1
        },
    )
}

/// How a request is admitted, and what that does to the guards. `goes_on` says whether it goes on
/// to the token.
///
/// The circuit breaker comes first, because it is the cheapest, then the policy, and then the
/// rate limit, so that a caller without permission cannot spend another's tokens. A guard that
/// is not reached does not change. A request that the breaker let through and that does not go on
/// is taken back from it.
pub open spec fn admission(
    before: PooledService,
    after: PooledService,
    now: u128,
    identity: Result<Seq<char>, StatusView>,
    key_label: Seq<char>,
    operation: Operation,
    outcome: Admission,
    goes_on: bool,
) -> bool {
    &&& goes_on ==> outcome.lets_in()
    &&& after.breaker == (if outcome is CircuitOpen || goes_on {
        before.breaker.after_asked(now)
    } else {
        before.breaker.after_asked(now).after_abandoned()
    })
    &&& if !before.breaker.allows(now) {
        &&& after.authorizer == before.authorizer
        &&& after.rate_limiter == before.rate_limiter
        &&& outcome is CircuitOpen
    } else {
        match before.authorizer {
            None => {
                &&& after.authorizer is None
                &&& after.rate_limiter == before.rate_limiter
                &&& outcome is Unchecked
            },
            Some(authorizer) => {
                let checked = verdict(authorizer.policy@, identity, key_label, operation);
                &&& after.authorizer matches Some(then) && then.policy == authorizer.policy
                    && then.metrics == check_counted(authorizer.metrics, identity, checked)
                &&& if checked is Err {
                    &&& after.rate_limiter == before.rate_limiter
                    &&& if identity is Err {
                        outcome is Unidentified
                    } else {
                        outcome is Denied
                    }
                } else {
                    match before.rate_limiter {
                        None => after.rate_limiter is None && outcome is Permitted,
                        Some(limiter) => {
                            &&& after.rate_limiter matches Some(then) && limited(
                                limiter,
                                then,
                                checked->Ok_0,
                                outcome is Permitted,
                            )
                            &&& outcome is Permitted || outcome is OverLimit
                        },
                    }
                }
            },
        }
    }
}

/// Is the request answered as its admission says: with the refusal, or with `served` where it is
/// let in?
pub open spec fn admitted_then<T>(
    before: PooledService,
    after: PooledService,
    now: u128,
    identity: Result<Seq<char>, StatusView>,
    key_label: Seq<char>,
    operation: Operation,
    served: Result<T, StatusView>,
    outcome: Admission,
    answer: Result<T, StatusView>,
) -> bool {
    &&& admission(before, after, now, identity, key_label, operation, outcome, answer is Ok)
    &&& answer == if outcome.lets_in() {
        served
    } else {
        Err(refusal(outcome, identity, key_label, operation))
    }
}

/// How a failure in the pool is answered.
///
/// The distinctions matter to a caller who decides whether to retry: an exhausted resource and an
/// unavailable service are worth it, an invalid argument and a missing key never are, and an
/// internal error means that the token misbehaved.
pub open spec fn pool_status(error: PoolErrorView) -> StatusView {
    match error {
        PoolErrorView::KeyNotFound(label) => request::no_such_key(label),
        PoolErrorView::InvalidRequest(message) => status_of(Code::InvalidArgument, message),
        PoolErrorView::Overloaded => status_of(
            Code::ResourceExhausted,
            "request queue is full; retry after backing off"@,
        ),
        PoolErrorView::Timeout => status_of(
            Code::DeadlineExceeded,
            "timed out waiting for a worker"@,
        ),
        PoolErrorView::ShuttingDown => status_of(Code::Unavailable, "server is shutting down"@),
        PoolErrorView::Hsm { operation, .. } => status_of(
            Code::Internal,
            operation + " failed"@,
        ),
        PoolErrorView::Internal(_) => status_of(Code::Internal, "internal error"@),
    }
}

/// How a failure in the pool is answered.
///
/// The caller learns which operation failed, and nothing of the token's internals.
pub fn to_status(error: PoolError) -> (status: Status)
    ensures
        status@ == pool_status(error@),
        match error {
            PoolError::KeyNotFound(_) => status.code is NotFound,
            PoolError::InvalidRequest(message) => status.code is InvalidArgument && status.message@
                == message@,
            PoolError::Overloaded => status.code is ResourceExhausted,
            PoolError::Timeout => status.code is DeadlineExceeded,
            PoolError::ShuttingDown => status.code is Unavailable,
            PoolError::Hsm { .. } | PoolError::Internal(_) => status.code is Internal,
        },
{
    match error {
        PoolError::KeyNotFound(label) => request::key_not_found(label.as_str()),
        PoolError::InvalidRequest(message) => Status { code: Code::InvalidArgument, message },
        PoolError::Overloaded => Status::new(
            Code::ResourceExhausted,
            "request queue is full; retry after backing off",
        ),
        PoolError::Timeout => Status::new(
            Code::DeadlineExceeded,
            "timed out waiting for a worker",
        ),
        PoolError::ShuttingDown => Status::new(Code::Unavailable, "server is shutting down"),
        PoolError::Hsm { operation, .. } => {
            let mut message = operation.to_owned();
            message.append(" failed");
            Status { code: Code::Internal, message }
        },
        PoolError::Internal(_) => Status::new(Code::Internal, "internal error"),
    }
}

/// Does an answer with this code say that the token is unhealthy?
///
/// A fault of the caller does not: counting it would let one misbehaving caller trip the circuit
/// for everyone. Neither does overload, which says that there is more work than slots.
pub open spec fn token_at_fault(code: Code) -> bool {
    code is Internal || code is DeadlineExceeded
}

/// The breaker after an outcome was reported to it.
pub open spec fn reported(breaker: CircuitBreaker, now: u128, failure: Option<StatusView>) -> CircuitBreaker {
    if failure matches Some(status) && token_at_fault(status.code) {
        breaker.after_failure(now)
    } else {
        breaker.after_success(now)
    }
}

/// Did the token fail, by what came back: did a call into it fail, did something break inside the
/// proxy, or did no worker answer in time?
pub open spec fn token_failed<T>(outcome: Result<T, PoolError>) -> bool {
    outcome matches Err(error) && (error is Hsm || error is Internal || error is Timeout)
}

/// What the breaker is told of an outcome of the pool: the status that the failure is answered
/// with, or nothing where there was no failure.
pub open spec fn failure_of<T>(outcome: Result<T, PoolErrorView>) -> Option<StatusView> {
    match outcome {
        Ok(_) => None,
        Err(error) => Some(pool_status(error)),
    }
}

/// What is said where a worker answers a question that it was not asked.
pub open spec fn wrong_variant() -> StatusView {
    status_of(Code::Internal, "internal error"@)
}

impl PooledService {
    /// A service behind these guards.
    pub fn new(
        authorizer: Option<Authorizer>,
        rate_limiter: Option<RateLimiter>,
        breaker: CircuitBreaker,
    ) -> (service: PooledService)
        ensures
            service.authorizer == authorizer,
            service.rate_limiter == rate_limiter,
            service.breaker == breaker,
    {
        PooledService { authorizer, rate_limiter, breaker }
    }

    /// What every service keeps to.
    pub open spec fn well_formed(self) -> bool {
        &&& self.breaker.well_formed()
        &&& self.rate_limiter matches Some(limiter) ==> limiter.well_formed()
    }

    /// Is it looked at who the caller is? It is not while the circuit turns requests away, nor
    /// where there is no policy.
    pub open spec fn spec_asks_who(self, now: u128) -> bool {
        self.breaker.allows(now) && self.authorizer is Some
    }

    /// Is it looked at who the caller is?
    pub fn asks_who(&self, now: u128) -> (asks: bool)
        ensures
            asks == self.spec_asks_who(now),
    {
        self.breaker.would_allow(now) && self.authorizer.is_some()
    }

    /// Admit a request or refuse it, before any work is done.
    pub fn admit_request(
        &mut self,
        now: u128,
        identity: Result<String, Status>,
        key_label: &str,
        operation: Operation,
    ) -> (result: (Admission, Result<(), Status>))
        requires
            old(self).well_formed(),
        ensures
            final(self).well_formed(),
            admitted_then(
                *old(self),
                *final(self),
                now,
                identity_view(identity),
                key_label@,
                operation,
                Ok(()),
                result.0,
                match result.1 {
                    Ok(()) => Ok(()),
                    Err(status) => Err(status@),
                },
            ),
    {
        if !self.breaker.allow(now) {
            let status = Status::new(
                Code::Unavailable,
                "circuit breaker is open; the HSM is failing. Retry after backoff.",
            );
            return (Admission::CircuitOpen, Err(status));
        }
        let identified = identity.is_ok();
        let checked = match &mut self.authorizer {
            Some(authorizer) => authorizer.authorize(identity, key_label, operation),
            None => return (Admission::Unchecked, Ok(())),
        };
        let who = match checked {
            Ok(who) => who,
            Err(status) => {
                self.breaker.abandon();
                let refused = if identified {
                    Admission::Denied
                } else {
                    Admission::Unidentified
                };
                return (refused, Err(status));
            },
        };
        let within = match &mut self.rate_limiter {
            Some(limiter) => limiter.check(who.as_str()),
            None => true,
        };
        if !within {
            self.breaker.abandon();
            let status = Status::new(
                Code::ResourceExhausted,
                "rate limit exceeded for this workload identity",
            );
            return (Admission::OverLimit, Err(status));
        }
        (Admission::Permitted, Ok(()))
    }

    /// Take note that a request that was begun will not be finished.
    pub fn abandon(&mut self)
        requires
            old(self).well_formed(),
        ensures
            final(self).well_formed(),
            final(self).authorizer == old(self).authorizer,
            final(self).rate_limiter == old(self).rate_limiter,
            final(self).breaker == old(self).breaker.after_abandoned(),
    {
        self.breaker.abandon();
    }

    /// Report an outcome to the breaker.
    fn observe(&mut self, now: u128, failure: Option<Code>)
        requires
            old(self).well_formed(),
            old(self).breaker.spec_has_room(),
        ensures
            final(self).well_formed(),
            final(self).authorizer == old(self).authorizer,
            final(self).rate_limiter == old(self).rate_limiter,
            final(self).breaker == (if failure matches Some(code) && token_at_fault(code) {
                old(self).breaker.after_failure(now)
            } else {
                old(self).breaker.after_success(now)
            }),
    {
        match failure {
            Some(Code::Internal) | Some(Code::DeadlineExceeded) => {
                self.breaker.record_failure(now);
            },
            _ => {
                self.breaker.record_success(now);
            },
        }
    }

    /// Report an outcome of the pool to the breaker, and turn a failure into its answer.
    fn settle(&mut self, now: u128, outcome: Result<JobResponse, PoolError>) -> (result: Result<
        JobResponse,
        Status,
    >)
        requires
            old(self).well_formed(),
            old(self).breaker.spec_has_room(),
        ensures
            final(self).well_formed(),
            final(self).authorizer == old(self).authorizer,
            final(self).rate_limiter == old(self).rate_limiter,
            final(self).breaker == reported(
                old(self).breaker,
                now,
                failure_of(result_view(outcome)),
            ),
            match (outcome, result) {
                (Ok(response), Ok(passed)) => passed == response,
                (Err(error), Err(status)) => status@ == pool_status(error@),
                _ => false,
            },
    {
        match outcome {
            Ok(response) => {
                self.observe(now, None);
                Ok(response)
            },
            Err(error) => {
                let status = to_status(error);
                self.observe(now, Some(status.code));
                Err(status)
            },
        }
    }
}

/// The job that a request for a signature is, or what the caller is told.
pub open spec fn sign_job(
    key_label: Seq<char>,
    mechanism: i32,
    input: Option<SigningInputView>,
) -> Result<JobRequestView, StatusView> {
    match request::signing_operation(mechanism, input) {
        Ok((algorithm, payload)) => Ok(JobRequestView::Sign { key_label, algorithm, payload }),
        Err(status) => Err(status),
    }
}

/// The answer to a request for a signature, given what came of the job.
pub open spec fn sign_answer(outcome: Result<JobResponseView, PoolErrorView>) -> Result<
    Seq<u8>,
    StatusView,
> {
    match outcome {
        Ok(JobResponseView::Signature(signature)) => Ok(signature),
        Ok(_) => Err(wrong_variant()),
        Err(error) => Err(pool_status(error)),
    }
}

/// The job that a request for encryption is, under the IV that the proxy chose for it.
pub open spec fn encrypt_job(
    key_label: Seq<char>,
    plaintext: Seq<u8>,
    associated_data: Seq<u8>,
    iv: Seq<u8>,
) -> JobRequestView {
    JobRequestView::Encrypt { key_label, plaintext, associated_data, iv }
}

/// The answer to a request for encryption, given what came of the job.
pub open spec fn encrypt_answer(outcome: Result<JobResponseView, PoolErrorView>) -> Result<
    Seq<u8>,
    StatusView,
> {
    match outcome {
        Ok(JobResponseView::Ciphertext(ciphertext)) => Ok(ciphertext),
        Ok(_) => Err(wrong_variant()),
        Err(error) => Err(pool_status(error)),
    }
}

/// The job that a request for decryption is, or what the caller is told.
pub open spec fn decrypt_job(
    key_label: Seq<char>,
    mechanism: i32,
    ciphertext: Seq<u8>,
    associated_data: Seq<u8>,
    iv: Seq<u8>,
) -> Result<JobRequestView, StatusView> {
    if !request::is_aes_gcm(mechanism) {
        Err(request::cipher_unsupported())
    } else if iv.len() != request::GCM_IV_LEN {
        Err(request::iv_length_wrong(iv.len()))
    } else {
        Ok(JobRequestView::Decrypt { key_label, ciphertext, associated_data, iv })
    }
}

/// The answer to a request for decryption, given what came of the job.
pub open spec fn decrypt_answer(outcome: Result<JobResponseView, PoolErrorView>) -> Result<
    Seq<u8>,
    StatusView,
> {
    match outcome {
        Ok(JobResponseView::Plaintext(plaintext)) => Ok(plaintext),
        Ok(_) => Err(wrong_variant()),
        Err(error) => Err(pool_status(error)),
    }
}

/// The value of a lookup in the cache, and of whether the cache held it.
pub open spec fn lookup_view(found: Result<(Lookup, bool), PoolError>) -> Result<
    (LookupView, bool),
    PoolErrorView,
> {
    match found {
        Ok((lookup, served_from_cache)) => Ok((lookup@, served_from_cache)),
        Err(error) => Err(error@),
    }
}

/// The public key that a lookup found, or what the caller is told.
pub open spec fn key_answer(
    key_label: Seq<char>,
    found: Result<(LookupView, bool), PoolErrorView>,
) -> Result<(Seq<u8>, Seq<char>, bool), StatusView> {
    match found {
        Ok((LookupView::Found { spki_der, key_type }, served_from_cache)) => Ok(
            (spki_der, key_type, served_from_cache),
        ),
        Ok((LookupView::NotFound, _)) => Err(request::no_such_key(key_label)),
        Err(error) => Err(pool_status(error)),
    }
}

/// The answer to a request to check a signature, given what the lookup of the key came to.
pub open spec fn verify_answer(
    key_label: Seq<char>,
    mechanism: i32,
    input: SigningInputView,
    signature: Seq<u8>,
    found: Result<(LookupView, bool), PoolErrorView>,
) -> Result<VerifyResponse, StatusView> {
    match key_answer(key_label, found) {
        Err(status) => Err(status),
        Ok((spki_der, _, served_from_cache)) => match crypto::verified(
            spki_der,
            mechanism,
            input,
            signature,
        ) {
            Ok(valid) => Ok(VerifyResponse { valid, served_from_cache }),
            Err(error) => Err(
                if error.in_request() {
                    status_of(Code::InvalidArgument, error.text())
                } else {
                    status_of(Code::Internal, "verification failed"@)
                },
            ),
        },
    }
}

/// Are the guards as they were, but for the breaker, which was told of the outcome?
pub open spec fn only_reported<T>(
    before: PooledService,
    after: PooledService,
    now: u128,
    outcome: Result<T, PoolErrorView>,
) -> bool {
    &&& after.authorizer == before.authorizer
    &&& after.rate_limiter == before.rate_limiter
    &&& after.breaker == reported(before.breaker, now, failure_of(outcome))
}

impl PooledService {
    /// Admit a request for a signature; the job is what to submit.
    pub fn begin_sign(
        &mut self,
        now: u128,
        identity: Result<String, Status>,
        sign: SignRequest,
    ) -> (result: (Admission, Result<JobRequest, Status>))
        requires
            old(self).well_formed(),
        ensures
            final(self).well_formed(),
            admitted_then(
                *old(self),
                *final(self),
                now,
                identity_view(identity),
                sign.key_label@,
                Operation::Sign,
                sign_job(sign.key_label@, sign.mechanism, request::input_view(sign.input)),
                result.0,
                match result.1 {
                    Ok(job) => Ok(job@),
                    Err(status) => Err(status@),
                },
            ),
            result.1 matches Ok(job) ==> (job matches JobRequest::Sign { key_label, .. }
                && key_label@ == sign.key_label@),
    {
        let (fared, admitted) = self.admit_request(
            now,
            identity,
            sign.key_label.as_str(),
            Operation::Sign,
        );
        if let Err(status) = admitted {
            return (fared, Err(status));
        }
        match request::prepare_signing(sign.mechanism, sign.input) {
            Ok(operation) => {
                let job = JobRequest::Sign {
                    key_label: sign.key_label,
                    algorithm: operation.algorithm,
                    payload: operation.payload,
                };
                (fared, Ok(job))
            },
            Err(status) => {
                self.breaker.abandon();
                (fared, Err(status))
            },
        }
    }

    /// Answer a request for a signature, given what came of its job.
    pub fn finish_sign(
        &mut self,
        now: u128,
        key_label: String,
        outcome: Result<JobResponse, PoolError>,
    ) -> (result: Result<SignResponse, Status>)
        requires
            old(self).well_formed(),
            old(self).breaker.spec_has_room(),
        ensures
            final(self).well_formed(),
            only_reported(*old(self), *final(self), now, result_view(outcome)),
            match result {
                Ok(response) => {
                    &&& sign_answer(result_view(outcome)) == Ok::<_, StatusView>(
                        response.signature@,
                    )
                    &&& response.key_label@ == key_label@
                },
                Err(status) => sign_answer(result_view(outcome)) == Err::<Seq<u8>, _>(status@),
            },
            outcome matches Ok(JobResponse::Signature(signature)) ==> {
                &&& result matches Ok(response)
                &&& response.signature@ == signature@
                &&& response.key_label@ == key_label@
            },
            result matches Ok(response) ==> {
                &&& outcome matches Ok(JobResponse::Signature(signature))
                &&& response.signature@ == signature@
            },
            token_failed(outcome) ==> final(self).breaker == old(self).breaker.after_failure(now),
            !token_failed(outcome) ==> final(self).breaker == old(self).breaker.after_success(now),
    {
        match self.settle(now, outcome)? {
            JobResponse::Signature(signature) => Ok(SignResponse { signature, key_label }),
            _ => Err(Status::new(Code::Internal, "internal error")),
        }
    }

    /// Admit a request to check a signature; the input is what to check it over.
    ///
    /// The public key is looked up next, and the token is reached only where the cache does not
    /// hold it.
    pub fn begin_verify(
        &mut self,
        now: u128,
        identity: Result<String, Status>,
        key_label: &str,
        input: Option<SigningInput>,
    ) -> (result: (Admission, Result<SigningInput, Status>))
        requires
            old(self).well_formed(),
        ensures
            final(self).well_formed(),
            admitted_then(
                *old(self),
                *final(self),
                now,
                identity_view(identity),
                key_label@,
                Operation::Verify,
                match request::input_view(input) {
                    Some(input) => Ok(input),
                    None => Err(request::input_missing()),
                },
                result.0,
                match result.1 {
                    Ok(input) => Ok(input@),
                    Err(status) => Err(status@),
                },
            ),
            result.1 matches Ok(kept) ==> input == Some(kept),
    {
        let (fared, admitted) = self.admit_request(now, identity, key_label, Operation::Verify);
        if let Err(status) = admitted {
            return (fared, Err(status));
        }
        match request::extract_input(input) {
            Ok(input) => (fared, Ok(input)),
            Err(status) => {
                self.breaker.abandon();
                (fared, Err(status))
            },
        }
    }

    /// Report a lookup to the breaker, and turn it into the key or the refusal.
    fn settle_lookup(
        &mut self,
        now: u128,
        key_label: &str,
        found: Result<(Lookup, bool), PoolError>,
    ) -> (result: Result<(Vec<u8>, String, bool), Status>)
        requires
            old(self).well_formed(),
            old(self).breaker.spec_has_room(),
        ensures
            final(self).well_formed(),
            only_reported(*old(self), *final(self), now, lookup_view(found)),
            match result {
                Ok((spki_der, key_type, served)) => key_answer(key_label@, lookup_view(found))
                    == Ok::<_, StatusView>((spki_der@, key_type@, served)),
                Err(status) => key_answer(key_label@, lookup_view(found)) == Err::<
                    (Seq<u8>, Seq<char>, bool),
                    _,
                >(status@),
            },
    {
        match found {
            Ok((lookup, served_from_cache)) => {
                self.observe(now, None);
                match lookup {
                    Lookup::Found(key) => Ok((key.spki_der, key.key_type, served_from_cache)),
                    Lookup::NotFound => Err(request::key_not_found(key_label)),
                }
            },
            Err(error) => {
                let status = to_status(error);
                self.observe(now, Some(status.code));
                Err(status)
            },
        }
    }

    /// Answer a request to check a signature, given what the lookup of the key came to.
    ///
    /// The check needs the public key alone and runs in this process, so a key that is cached
    /// keeps the token out of it altogether. A malformed request is the caller's error; a key that
    /// cannot be read is not.
    pub fn finish_verify(
        &mut self,
        now: u128,
        key_label: &str,
        mechanism: i32,
        input: &SigningInput,
        signature: &[u8],
        found: Result<(Lookup, bool), PoolError>,
    ) -> (result: Result<VerifyResponse, Status>)
        requires
            old(self).well_formed(),
            old(self).breaker.spec_has_room(),
        ensures
            final(self).well_formed(),
            only_reported(*old(self), *final(self), now, lookup_view(found)),
            ({
                let answer = verify_answer(
                    key_label@,
                    mechanism,
                    input@,
                    signature@,
                    lookup_view(found),
                );
                match result {
                    Ok(response) => answer == Ok::<_, StatusView>(response),
                    Err(status) => answer == Err::<VerifyResponse, _>(status@),
                }
            }),
            result matches Ok(response) ==> {
                &&& found matches Ok((Lookup::Found(key), served))
                &&& response.served_from_cache == served
                &&& input matches SigningInput::Message(message) ==> crypto::mechanism_accepts(
                    key.spki_der@,
                    mechanism,
                    primitives::sha256(message@),
                    signature@,
                    response.valid,
                )
                &&& input matches SigningInput::Digest(digest) ==> digest@.len() == 32
                    && crypto::mechanism_accepts(
                    key.spki_der@,
                    mechanism,
                    digest@,
                    signature@,
                    response.valid,
                )
            },
            token_failed(found) ==> final(self).breaker == old(self).breaker.after_failure(now),
            !token_failed(found) ==> final(self).breaker == old(self).breaker.after_success(now),
    {
        let (spki_der, _key_type, served_from_cache) = self.settle_lookup(now, key_label, found)?;
        match crypto::verify_public(spki_der.as_slice(), mechanism, input, signature) {
            Ok(valid) => Ok(VerifyResponse { valid, served_from_cache }),
            Err(error) => if error.is_in_request() {
                Err(Status { code: Code::InvalidArgument, message: error.message() })
            } else {
                Err(Status::new(Code::Internal, "verification failed"))
            },
        }
    }

    /// Admit a request for encryption; the job is what to submit, and the IV goes into the
    /// answer.
    ///
    /// A reused IV breaks AES-GCM, so the proxy draws one for each request rather than trusting
    /// the caller to. What was drawn is chance: the contract says what is done with it.
    pub fn begin_encrypt(
        &mut self,
        now: u128,
        identity: Result<String, Status>,
        encrypt: EncryptRequest,
    ) -> (result: (Admission, Result<(JobRequest, Vec<u8>), Status>))
        requires
            old(self).well_formed(),
        ensures
            final(self).well_formed(),
            result.1 matches Ok((job, iv)) ==> {
                &&& iv@.len() == 12
                &&& job matches JobRequest::Encrypt {
                    key_label,
                    plaintext,
                    associated_data,
                    iv: used,
                }
                &&& key_label@ == encrypt.key_label@
                &&& plaintext@ == encrypt.plaintext@
                &&& associated_data@ == encrypt.associated_data@
                &&& used@ == iv@
                &&& iv@.len() == request::GCM_IV_LEN
                &&& job@ == encrypt_job(
                    encrypt.key_label@,
                    encrypt.plaintext@,
                    encrypt.associated_data@,
                    iv@,
                )
            },
            admitted_then(
                *old(self),
                *final(self),
                now,
                identity_view(identity),
                encrypt.key_label@,
                Operation::Encrypt,
                if request::is_aes_gcm(encrypt.mechanism) {
                    Ok(())
                } else {
                    Err(request::cipher_unsupported())
                },
                result.0,
                match result.1 {
                    Ok(_) => Ok(()),
                    Err(status) => Err(status@),
                },
            ),
    {
        let (fared, admitted) = self.admit_request(
            now,
            identity,
            encrypt.key_label.as_str(),
            Operation::Encrypt,
        );
        if let Err(status) = admitted {
            return (fared, Err(status));
        }
        if let Err(status) = request::require_aes_gcm(encrypt.mechanism) {
            self.breaker.abandon();
            return (fared, Err(status));
        }
        let iv = primitives::random_bytes(request::GCM_IV_LEN);
        let job = encryption(encrypt, iv.as_slice());
        (fared, Ok((job, iv)))
    }

    /// Answer a request for encryption, given what came of its job.
    pub fn finish_encrypt(
        &mut self,
        now: u128,
        iv: Vec<u8>,
        outcome: Result<JobResponse, PoolError>,
    ) -> (result: Result<EncryptResponse, Status>)
        requires
            old(self).well_formed(),
            old(self).breaker.spec_has_room(),
        ensures
            final(self).well_formed(),
            only_reported(*old(self), *final(self), now, result_view(outcome)),
            match result {
                Ok(response) => {
                    &&& encrypt_answer(result_view(outcome)) == Ok::<_, StatusView>(
                        response.ciphertext@,
                    )
                    &&& response.iv@ == iv@
                },
                Err(status) => encrypt_answer(result_view(outcome)) == Err::<Seq<u8>, _>(status@),
            },
            outcome matches Ok(JobResponse::Ciphertext(ciphertext)) ==> {
                &&& result matches Ok(response)
                &&& response.ciphertext@ == ciphertext@
                &&& response.iv@ == iv@
            },
            result matches Ok(response) ==> {
                &&& outcome matches Ok(JobResponse::Ciphertext(ciphertext))
                &&& response.ciphertext@ == ciphertext@
            },
            token_failed(outcome) ==> final(self).breaker == old(self).breaker.after_failure(now),
            !token_failed(outcome) ==> final(self).breaker == old(self).breaker.after_success(now),
    {
        match self.settle(now, outcome)? {
            JobResponse::Ciphertext(ciphertext) => Ok(EncryptResponse { ciphertext, iv }),
            _ => Err(Status::new(Code::Internal, "internal error")),
        }
    }

    /// Admit a request for decryption; the job is what to submit.
    pub fn begin_decrypt(
        &mut self,
        now: u128,
        identity: Result<String, Status>,
        decrypt: DecryptRequest,
    ) -> (result: (Admission, Result<JobRequest, Status>))
        requires
            old(self).well_formed(),
        ensures
            final(self).well_formed(),
            admitted_then(
                *old(self),
                *final(self),
                now,
                identity_view(identity),
                decrypt.key_label@,
                Operation::Decrypt,
                decrypt_job(
                    decrypt.key_label@,
                    decrypt.mechanism,
                    decrypt.ciphertext@,
                    decrypt.associated_data@,
                    decrypt.iv@,
                ),
                result.0,
                match result.1 {
                    Ok(job) => Ok(job@),
                    Err(status) => Err(status@),
                },
            ),
            result.1 matches Ok(job) ==> {
                &&& job matches JobRequest::Decrypt { key_label, ciphertext, associated_data, iv }
                &&& key_label@ == decrypt.key_label@
                &&& ciphertext@ == decrypt.ciphertext@
                &&& associated_data@ == decrypt.associated_data@
                &&& iv@ == decrypt.iv@
                &&& iv@.len() == 12
            },
    {
        let (fared, admitted) = self.admit_request(
            now,
            identity,
            decrypt.key_label.as_str(),
            Operation::Decrypt,
        );
        if let Err(status) = admitted {
            return (fared, Err(status));
        }
        if let Err(status) = request::require_aes_gcm(decrypt.mechanism) {
            self.breaker.abandon();
            return (fared, Err(status));
        }
        if let Err(status) = request::require_iv_len(&decrypt.iv) {
            self.breaker.abandon();
            return (fared, Err(status));
        }
        let job = JobRequest::Decrypt {
            key_label: decrypt.key_label,
            ciphertext: decrypt.ciphertext,
            associated_data: decrypt.associated_data,
            iv: decrypt.iv,
        };
        (fared, Ok(job))
    }

    /// Answer a request for decryption, given what came of its job.
    pub fn finish_decrypt(&mut self, now: u128, outcome: Result<JobResponse, PoolError>) -> (result:
        Result<DecryptResponse, Status>)
        requires
            old(self).well_formed(),
            old(self).breaker.spec_has_room(),
        ensures
            final(self).well_formed(),
            only_reported(*old(self), *final(self), now, result_view(outcome)),
            match result {
                Ok(response) => decrypt_answer(result_view(outcome)) == Ok::<_, StatusView>(
                    response.plaintext@,
                ),
                Err(status) => decrypt_answer(result_view(outcome)) == Err::<Seq<u8>, _>(status@),
            },
            outcome matches Ok(JobResponse::Plaintext(plaintext)) ==> {
                &&& result matches Ok(response)
                &&& response.plaintext@ == plaintext@
            },
            result matches Ok(response) ==> {
                &&& outcome matches Ok(JobResponse::Plaintext(plaintext))
                &&& response.plaintext@ == plaintext@
            },
            token_failed(outcome) ==> final(self).breaker == old(self).breaker.after_failure(now),
            !token_failed(outcome) ==> final(self).breaker == old(self).breaker.after_success(now),
    {
        match self.settle(now, outcome)? {
            JobResponse::Plaintext(plaintext) => Ok(DecryptResponse { plaintext }),
            _ => Err(Status::new(Code::Internal, "internal error")),
        }
    }

    /// Admit a request for a public key, which is looked up next.
    pub fn begin_get_public_key(
        &mut self,
        now: u128,
        identity: Result<String, Status>,
        key_label: &str,
    ) -> (result: (Admission, Result<(), Status>))
        requires
            old(self).well_formed(),
        ensures
            final(self).well_formed(),
            admitted_then(
                *old(self),
                *final(self),
                now,
                identity_view(identity),
                key_label@,
                Operation::GetPublicKey,
                Ok(()),
                result.0,
                match result.1 {
                    Ok(()) => Ok(()),
                    Err(status) => Err(status@),
                },
            ),
    {
        self.admit_request(now, identity, key_label, Operation::GetPublicKey)
    }

    /// Answer a request for a public key, given what the lookup of it came to.
    pub fn finish_get_public_key(
        &mut self,
        now: u128,
        key_label: &str,
        found: Result<(Lookup, bool), PoolError>,
    ) -> (result: Result<GetPublicKeyResponse, Status>)
        requires
            old(self).well_formed(),
            old(self).breaker.spec_has_room(),
        ensures
            final(self).well_formed(),
            only_reported(*old(self), *final(self), now, lookup_view(found)),
            match result {
                Ok(response) => key_answer(key_label@, lookup_view(found)) == Ok::<_, StatusView>(
                    (response.spki_der@, response.key_type@, response.served_from_cache),
                ),
                Err(status) => key_answer(key_label@, lookup_view(found)) == Err::<
                    (Seq<u8>, Seq<char>, bool),
                    _,
                >(status@),
            },
            found matches Ok((Lookup::Found(key), served)) ==> {
                &&& result matches Ok(response)
                &&& response.spki_der@ == key.spki_der@
                &&& response.key_type@ == key.key_type@
                &&& response.served_from_cache == served
            },
            result is Ok ==> found matches Ok((Lookup::Found(_), _)),
            token_failed(found) ==> final(self).breaker == old(self).breaker.after_failure(now),
            !token_failed(found) ==> final(self).breaker == old(self).breaker.after_success(now),
    {
        let (spki_der, key_type, served_from_cache) = self.settle_lookup(now, key_label, found)?;
        Ok(GetPublicKeyResponse { spki_der, key_type, served_from_cache })
    }
}

/// The job that a request for encryption is, under the given IV.
pub fn encryption(encrypt: EncryptRequest, iv: &[u8]) -> (job: JobRequest)
    ensures
        job@ == encrypt_job(
            encrypt.key_label@,
            encrypt.plaintext@,
            encrypt.associated_data@,
            iv@,
        ),
        job matches JobRequest::Encrypt { key_label, plaintext, associated_data, iv: used }
            && key_label@ == encrypt.key_label@ && plaintext@ == encrypt.plaintext@
            && associated_data@ == encrypt.associated_data@ && used@ == iv@,
{
    JobRequest::Encrypt {
        key_label: encrypt.key_label,
        plaintext: encrypt.plaintext,
        associated_data: encrypt.associated_data,
        iv: slice_to_vec(iv),
    }
}

/// An unpermitted caller spends no one's tokens: a request that the policy refuses leaves the rate
/// limiter as it was.
pub proof fn law_the_unpermitted_spend_no_tokens(
    before: PooledService,
    after: PooledService,
    now: u128,
    identity: Result<Seq<char>, StatusView>,
    key_label: Seq<char>,
    operation: Operation,
    outcome: Admission,
    goes_on: bool,
)
    requires
        admission(before, after, now, identity, key_label, operation, outcome, goes_on),
        before.authorizer matches Some(authorizer) && verdict(
            authorizer.policy@,
            identity,
            key_label,
            operation,
        ) is Err,
    ensures
        !outcome.lets_in(),
        after.rate_limiter == before.rate_limiter,
{
}

/// While the circuit is open, nothing else is consulted: the request is refused, and neither the
/// policy's counters nor the rate limiter change.
pub proof fn law_an_open_circuit_refuses_first(
    before: PooledService,
    after: PooledService,
    now: u128,
    identity: Result<Seq<char>, StatusView>,
    key_label: Seq<char>,
    operation: Operation,
    outcome: Admission,
    goes_on: bool,
)
    requires
        admission(before, after, now, identity, key_label, operation, outcome, goes_on),
        !before.breaker.allows(now),
    ensures
        outcome is CircuitOpen,
        refusal(outcome, identity, key_label, operation) == circuit_open(),
        after.authorizer == before.authorizer,
        after.rate_limiter == before.rate_limiter,
{
}

/// With an authorizer in place, whoever is let in is permitted the operation on the key.
pub proof fn law_the_admitted_are_permitted(
    before: PooledService,
    after: PooledService,
    now: u128,
    identity: Result<Seq<char>, StatusView>,
    key_label: Seq<char>,
    operation: Operation,
    outcome: Admission,
    goes_on: bool,
)
    requires
        admission(before, after, now, identity, key_label, operation, outcome, goes_on),
        outcome.lets_in(),
        before.authorizer is Some,
    ensures
        outcome is Permitted,
        identity is Ok,
        before.authorizer->0.policy@.allows(identity->Ok_0, key_label, operation),
{
}

/// Where it is not looked at who the caller is, it makes no difference who they are.
pub proof fn law_an_identity_that_is_not_asked_for_does_not_matter(
    before: PooledService,
    after: PooledService,
    now: u128,
    one: Result<Seq<char>, StatusView>,
    another: Result<Seq<char>, StatusView>,
    key_label: Seq<char>,
    operation: Operation,
    outcome: Admission,
    goes_on: bool,
)
    requires
        !before.spec_asks_who(now),
        admission(before, after, now, one, key_label, operation, outcome, goes_on),
    ensures
        admission(before, after, now, another, key_label, operation, outcome, goes_on),
        !outcome.lets_in() ==> refusal(outcome, one, key_label, operation) == refusal(
            outcome,
            another,
            key_label,
            operation,
        ),
{
}

/// A request that does not go on to the token takes no probe's place: it leaves a half-open circuit
/// with no more probes out than it had.
pub proof fn law_refused_requests_are_no_probes(
    before: PooledService,
    after: PooledService,
    now: u128,
    identity: Result<Seq<char>, StatusView>,
    key_label: Seq<char>,
    operation: Operation,
    outcome: Admission,
)
    requires
        before.well_formed(),
        admission(before, after, now, identity, key_label, operation, outcome, false),
    ensures
        after.breaker.window.probes_out <= before.breaker.window.probes_out,
{
}

/// A caller's mistakes and an overloaded pool never count against the token: no outcome but an
/// internal error and a missed deadline is reported as a failure.
pub proof fn law_callers_cannot_trip_the_circuit(breaker: CircuitBreaker, now: u128, error: PoolErrorView)
    requires
        error is KeyNotFound || error is InvalidRequest || error is Overloaded || error
            is ShuttingDown,
    ensures
        reported(breaker, now, Some(pool_status(error))) == breaker.after_success(now),
{
}

/// What is worth retrying can be told from what is not: a caller is told to try again exactly
/// where the pool had no room or was going away, and is told that the request is at fault exactly
/// where it is.
pub proof fn law_statuses_tell_what_to_retry(error: PoolErrorView)
    ensures
        ({
            let code = pool_status(error).code;
            &&& (code is ResourceExhausted || code is Unavailable) <==> (error is Overloaded
                || error is ShuttingDown)
            &&& (code is InvalidArgument || code is NotFound) <==> (error is InvalidRequest
                || error is KeyNotFound)
            &&& (code is Internal || code is DeadlineExceeded) <==> (error is Hsm
                || error is Internal || error is Timeout)
        }),
{
}

/// Nothing of the token's internals reaches a caller: the answer to a failed call names the call
/// and no more, and the answer to any other failure of the proxy is always the same.
pub proof fn law_internals_stay_inside(
    operation: Seq<char>,
    a: TokenErrorView,
    b: TokenErrorView,
    m: Seq<char>,
    n: Seq<char>,
)
    ensures
        pool_status(PoolErrorView::Hsm { operation, source: a }) == pool_status(
            PoolErrorView::Hsm { operation, source: b },
        ),
        pool_status(PoolErrorView::Internal(m)) == pool_status(PoolErrorView::Internal(n)),
{
}

/// What a caller asks to be signed is what the token is asked to sign: the call that the job comes
/// to is on the key that was found, with a mechanism and a payload that stand for the digest of the
/// caller's input.
pub proof fn law_the_token_signs_what_was_asked(
    key_label: Seq<char>,
    mechanism: i32,
    input: SigningInputView,
    key: ObjectHandle,
    step: Step,
)
    requires
        sign_job(key_label, mechanism, Some(input)) is Ok,
        is_call(step, sign_job(key_label, mechanism, Some(input))->Ok_0, key),
    ensures
        step is Sign,
        step->Sign_key == key,
        ({
            let (algorithm, payload) = crypto::prepared(mechanism, input)->Ok_0;
            &&& step->Sign_mechanism == algorithm.spec_mechanism()
            &&& step->Sign_payload@ == payload
            &&& crypto::recovered_digest(algorithm, payload) == crypto::input_digest(input)
        }),
{
    crypto::law_recovered_digest_is_the_inputs(mechanism, input);
}

/// A decryption asks the token for the reverse of the encryption: with the IV that came with the
/// ciphertext and the same associated data, the token is called with the parameters that it
/// encrypted with.
pub proof fn law_decryption_uses_the_parameters_of_the_encryption(
    key_label: Seq<char>,
    mechanism: i32,
    plaintext: Seq<u8>,
    ciphertext: Seq<u8>,
    associated_data: Seq<u8>,
    iv: Seq<u8>,
    key: ObjectHandle,
    encryption: Step,
    decryption: Step,
)
    requires
        request::is_aes_gcm(mechanism),
        iv.len() == request::GCM_IV_LEN,
        is_call(encryption, encrypt_job(key_label, plaintext, associated_data, iv), key),
        is_call(
            decryption,
            decrypt_job(key_label, mechanism, ciphertext, associated_data, iv)->Ok_0,
            key,
        ),
    ensures
        encryption is Encrypt,
        decryption is Decrypt,
        encryption->Encrypt_key == decryption->Decrypt_key,
        encryption->Encrypt_params.iv@ == decryption->Decrypt_params.iv@,
        encryption->Encrypt_params.associated_data@ == decryption->Decrypt_params.associated_data@,
        encryption->Encrypt_params.tag_bits == decryption->Decrypt_params.tag_bits,
        decryption->Decrypt_ciphertext@ == ciphertext,
{
}

/// A signature reaches the caller whole: whatever bytes the worker answers with are the bytes of
/// the response, and no other answer of a worker makes a response of any bytes.
pub proof fn law_a_signature_reaches_the_caller_whole(
    signature: Seq<u8>,
    outcome: Result<JobResponseView, PoolErrorView>,
)
    ensures
        sign_answer(Ok(JobResponseView::Signature(signature))) == Ok::<_, StatusView>(signature),
        sign_answer(outcome) == Ok::<_, StatusView>(signature) ==> outcome == Ok::<
            _,
            PoolErrorView,
        >(JobResponseView::Signature(signature)),
{
}

/// A ciphertext reaches the caller whole, and nothing else passes for one.
pub proof fn law_a_ciphertext_reaches_the_caller_whole(
    ciphertext: Seq<u8>,
    outcome: Result<JobResponseView, PoolErrorView>,
)
    ensures
        encrypt_answer(Ok(JobResponseView::Ciphertext(ciphertext))) == Ok::<_, StatusView>(
            ciphertext,
        ),
        encrypt_answer(outcome) == Ok::<_, StatusView>(ciphertext) ==> outcome == Ok::<
            _,
            PoolErrorView,
        >(JobResponseView::Ciphertext(ciphertext)),
{
}

/// A plaintext reaches the caller whole, and nothing else passes for one.
pub proof fn law_a_plaintext_reaches_the_caller_whole(
    plaintext: Seq<u8>,
    outcome: Result<JobResponseView, PoolErrorView>,
)
    ensures
        decrypt_answer(Ok(JobResponseView::Plaintext(plaintext))) == Ok::<_, StatusView>(plaintext),
        decrypt_answer(outcome) == Ok::<_, StatusView>(plaintext) ==> outcome == Ok::<
            _,
            PoolErrorView,
        >(JobResponseView::Plaintext(plaintext)),
{
}

/// A public key reaches the caller as it was found, with its type and with whether the cache held
/// it, and a key that was not found is said to be missing, under the label that was asked for.
pub proof fn law_a_public_key_reaches_the_caller_whole(
    key_label: Seq<char>,
    spki_der: Seq<u8>,
    key_type: Seq<char>,
    served_from_cache: bool,
    found: Result<(LookupView, bool), PoolErrorView>,
)
    ensures
        key_answer(key_label, Ok((LookupView::Found { spki_der, key_type }, served_from_cache)))
            == Ok::<_, StatusView>((spki_der, key_type, served_from_cache)),
        key_answer(key_label, found) == Ok::<_, StatusView>((spki_der, key_type, served_from_cache))
            ==> found == Ok::<_, PoolErrorView>(
            (LookupView::Found { spki_der, key_type }, served_from_cache),
        ),
        key_answer(key_label, Ok((LookupView::NotFound, served_from_cache))) matches Err(status)
            && status.code is NotFound && status.message == "no key labelled '"@ + key_label
            + "' on the token"@,
{
}

/// What a job failed with is what every kind of request is told of it.
pub proof fn law_failures_are_told_alike(
    key_label: Seq<char>,
    mechanism: i32,
    input: SigningInputView,
    signature: Seq<u8>,
    error: PoolErrorView,
)
    ensures
        sign_answer(Err(error)) == Err::<Seq<u8>, _>(pool_status(error)),
        encrypt_answer(Err(error)) == Err::<Seq<u8>, _>(pool_status(error)),
        decrypt_answer(Err(error)) == Err::<Seq<u8>, _>(pool_status(error)),
        key_answer(key_label, Err(error)) == Err::<(Seq<u8>, Seq<char>, bool), _>(
            pool_status(error),
        ),
        verify_answer(key_label, mechanism, input, signature, Err(error)) == Err::<
            VerifyResponse,
            _,
        >(pool_status(error)),
{
}

/// Where a key came from changes nothing but what is said of where it came from: a check under a
/// key that the cache held is answered as one under a key that the token gave.
pub proof fn law_the_cache_does_not_change_a_check(
    key_label: Seq<char>,
    mechanism: i32,
    input: SigningInputView,
    signature: Seq<u8>,
    lookup: LookupView,
)
    ensures
        match (
            verify_answer(key_label, mechanism, input, signature, Ok((lookup, true))),
            verify_answer(key_label, mechanism, input, signature, Ok((lookup, false))),
        ) {
            (Ok(cached), Ok(fetched)) => {
                &&& cached.valid == fetched.valid
                &&& cached.served_from_cache
                &&& !fetched.served_from_cache
            },
            (Err(cached), Err(fetched)) => cached == fetched,
            _ => false,
        },
{
}

/// A check over a digest says `valid` exactly where the mechanism accepts the signature over that
/// digest under the key that was found, wherever the key came from. It is answered wherever the
/// key is one for the mechanism.
pub proof fn law_a_digest_is_valid_where_the_mechanism_accepts_it(
    key_label: Seq<char>,
    digest: Seq<u8>,
    signature: Seq<u8>,
    spki_der: Seq<u8>,
    key_type: Seq<char>,
    served: bool,
)
    requires
        digest.len() == 32,
    ensures
        ({
            let found = Ok((LookupView::Found { spki_der, key_type }, served));
            let input = SigningInputView::Digest(digest);
            &&& primitives::p256_point_of_spki(spki_der) is Some ==> verify_answer(
                key_label,
                1,
                input,
                signature,
                found,
            ) == Ok::<_, StatusView>(
                VerifyResponse {
                    valid: primitives::p256_signature_in_range(signature)
                        && primitives::p256_accepts(spki_der, digest, signature),
                    served_from_cache: served,
                },
            )
            &&& primitives::rsa_spki_valid(spki_der) ==> {
                &&& verify_answer(key_label, 2, input, signature, found) == Ok::<_, StatusView>(
                    VerifyResponse {
                        valid: primitives::rsa_pkcs1_accepts(spki_der, digest, signature),
                        served_from_cache: served,
                    },
                )
                &&& verify_answer(key_label, 3, input, signature, found) == Ok::<_, StatusView>(
                    VerifyResponse {
                        valid: primitives::rsa_pss_accepts(spki_der, digest, signature),
                        served_from_cache: served,
                    },
                )
            }
        }),
{
}

/// A check over a message says `valid` exactly where the mechanism accepts the signature over the
/// message's digest under the key that was found, wherever the key came from. For ECDSA, where
/// `ring` hashes the message itself, the law holds wherever `ring` and `p256` answer alike, which
/// they do on every message that is checked.
pub proof fn law_a_message_is_valid_where_the_mechanism_accepts_its_digest(
    key_label: Seq<char>,
    message: Seq<u8>,
    signature: Seq<u8>,
    spki_der: Seq<u8>,
    key_type: Seq<char>,
    served: bool,
)
    ensures
        ({
            let found = Ok((LookupView::Found { spki_der, key_type }, served));
            let input = SigningInputView::Message(message);
            let digest = primitives::sha256(message);
            let by_p256 = primitives::p256_signature_in_range(signature)
                && primitives::p256_accepts(spki_der, digest, signature);
            &&& (primitives::p256_point_of_spki(spki_der) matches Some(point)
                && primitives::ring_p256_accepts(point, message, signature) == by_p256)
                ==> verify_answer(key_label, 1, input, signature, found) == Ok::<_, StatusView>(
                VerifyResponse { valid: by_p256, served_from_cache: served },
            )
            &&& primitives::rsa_spki_valid(spki_der) ==> {
                &&& verify_answer(key_label, 2, input, signature, found) == Ok::<_, StatusView>(
                    VerifyResponse {
                        valid: primitives::rsa_pkcs1_accepts(spki_der, digest, signature),
                        served_from_cache: served,
                    },
                )
                &&& verify_answer(key_label, 3, input, signature, found) == Ok::<_, StatusView>(
                    VerifyResponse {
                        valid: primitives::rsa_pss_accepts(spki_der, digest, signature),
                        served_from_cache: served,
                    },
                )
            }
        }),
{
}

/// A check that cannot be made is refused: the caller is at fault where the request is malformed,
/// and the proxy where the key is none for the mechanism.
pub proof fn law_a_check_that_cannot_be_made_is_refused(
    key_label: Seq<char>,
    mechanism: i32,
    input: SigningInputView,
    signature: Seq<u8>,
    spki_der: Seq<u8>,
    key_type: Seq<char>,
    served: bool,
)
    ensures
        ({
            let answer = verify_answer(
                key_label,
                mechanism,
                input,
                signature,
                Ok((LookupView::Found { spki_der, key_type }, served)),
            );
            let malformed = !(1 <= mechanism <= 3) || (input matches SigningInputView::Digest(d)
                && d.len() != 32);
            let readable = if mechanism == 1 {
                primitives::p256_point_of_spki(spki_der) is Some
            } else {
                primitives::rsa_spki_valid(spki_der)
            };
            &&& malformed <==> (answer matches Err(status) && status.code is InvalidArgument)
            &&& !malformed && !readable <==> (answer matches Err(status) && status.code is Internal)
            &&& !malformed && readable <==> answer is Ok
        }),
{
}

/// The breaker after a run of jobs failed, given when and how each did.
pub open spec fn after_failed_jobs(
    breaker: CircuitBreaker,
    jobs: Seq<(u128, PoolErrorView)>,
) -> CircuitBreaker
    decreases jobs.len(),
{
    if jobs.len() == 0 {
        breaker
    } else {
        let (now, error) = jobs.last();
        reported(
            after_failed_jobs(breaker, jobs.drop_last()),
            now,
            failure_of(Err::<JobResponseView, _>(error)),
        )
    }
}

/// A job that ends in a failed PKCS#11 call, in an internal error or in a missed deadline is one
/// more failure in the window of a closed circuit, and opens a half-open one.
pub proof fn law_a_failing_token_is_counted(breaker: CircuitBreaker, now: u128, error: PoolErrorView)
    requires
        error is Hsm || error is Internal || error is Timeout,
        breaker.spec_has_room(),
    ensures
        ({
            let then = reported(breaker, now, failure_of(Err::<JobResponseView, _>(error)));
            &&& then == breaker.after_failure(now)
            &&& !(breaker.state is HalfOpen) && elapsed(breaker.window.started, now)
                < breaker.config.window ==> {
                &&& then.window.failures == breaker.window.failures + 1
                &&& then.window.successes == breaker.window.successes
            }
            &&& breaker.state is HalfOpen ==> then.state is Open
        }),
{
}

/// Enough failures of the token open a closed circuit: where nothing else is in the window, the
/// circuit opens with the failure that makes up the minimum of requests, and not before, whichever
/// of the three kinds each failure is.
pub proof fn law_enough_failures_open_the_circuit(
    breaker: CircuitBreaker,
    jobs: Seq<(u128, PoolErrorView)>,
)
    requires
        breaker.state is Closed,
        breaker.window.successes == 0,
        breaker.window.failures == 0,
        breaker.config.failure_ratio.numerator <= breaker.config.failure_ratio.denominator,
        0 < jobs.len() <= breaker.config.minimum_requests,
        forall|i: int|
            0 <= i < jobs.len() ==> {
                &&& (#[trigger] jobs[i]).1 is Hsm || jobs[i].1 is Internal || jobs[i].1 is Timeout
                &&& elapsed(breaker.window.started, jobs[i].0) < breaker.config.window
            },
    ensures
        after_failed_jobs(breaker, jobs).state is Open <==> jobs.len()
            == breaker.config.minimum_requests,
        jobs.len() == breaker.config.minimum_requests && elapsed(jobs.last().0, jobs.last().0)
            < breaker.config.cooldown ==> !after_failed_jobs(breaker, jobs).allows(jobs.last().0),
        after_failed_jobs(breaker, jobs).window.failures == jobs.len(),
        after_failed_jobs(breaker, jobs).window.successes == 0,
        after_failed_jobs(breaker, jobs).window.started == breaker.window.started,
        after_failed_jobs(breaker, jobs).config == breaker.config,
        !(after_failed_jobs(breaker, jobs).state is HalfOpen),
    decreases jobs.len(),
{
    let before = jobs.drop_last();
    assert(jobs.last() == jobs[jobs.len() - 1]);
    if before.len() > 0 {
        assert forall|i: int| 0 <= i < before.len() implies {
            &&& (#[trigger] before[i]).1 is Hsm || before[i].1 is Internal || before[i].1 is Timeout
            &&& elapsed(breaker.window.started, before[i].0) < breaker.config.window
        } by {
            assert(before[i] == jobs[i]);
        }
        law_enough_failures_open_the_circuit(breaker, before);
    }
    let n = breaker.config.failure_ratio.numerator;
    let d = breaker.config.failure_ratio.denominator;
    let f = jobs.len() as int;
    assert(f * d >= n * f) by (nonlinear_arith)
        requires
            0 <= n <= d,
            0 <= f,
    ;
}

/// A request for a signature becomes a job on the key that it names, with what its mechanism and
/// its input are prepared as.
pub proof fn law_a_signing_job_is_what_was_asked(
    key_label: Seq<char>,
    mechanism: i32,
    input: SigningInputView,
)
    ensures
        crypto::prepared(mechanism, input) matches Ok((algorithm, payload)) ==> sign_job(
            key_label,
            mechanism,
            Some(input),
        ) == Ok::<_, StatusView>(JobRequestView::Sign { key_label, algorithm, payload }),
        crypto::prepared(mechanism, input) is Err ==> (sign_job(key_label, mechanism, Some(input))
            matches Err(status) && status.code is InvalidArgument),
        sign_job(key_label, mechanism, None) matches Err(status) && status.code is InvalidArgument,
{
}

/// The token is called with the mechanism and the payload that the caller's mechanism stands for,
/// on the key that was found.
pub proof fn law_the_token_signs_by_the_callers_mechanism(
    key_label: Seq<char>,
    message: Seq<u8>,
    digest: Seq<u8>,
    mechanism: i32,
    key: ObjectHandle,
    over_message: Step,
    over_digest: Step,
)
    requires
        1 <= mechanism <= 3,
        digest.len() == 32,
        is_call(
            over_message,
            sign_job(key_label, mechanism, Some(SigningInputView::Message(message)))->Ok_0,
            key,
        ),
        is_call(
            over_digest,
            sign_job(key_label, mechanism, Some(SigningInputView::Digest(digest)))->Ok_0,
            key,
        ),
    ensures
        over_message is Sign,
        over_digest is Sign,
        over_message->Sign_key == key,
        over_digest->Sign_key == key,
        mechanism == 1 ==> {
            &&& over_message->Sign_mechanism is Ecdsa
            &&& over_message->Sign_payload@ == primitives::sha256(message)
            &&& over_digest->Sign_mechanism is Ecdsa
            &&& over_digest->Sign_payload@ == digest
        },
        mechanism == 2 ==> {
            &&& over_message->Sign_mechanism is Sha256RsaPkcs
            &&& over_message->Sign_payload@ == message
            &&& over_digest->Sign_mechanism is RsaPkcs
            &&& over_digest->Sign_payload@ == crypto::digest_info_prefix() + digest
        },
        mechanism == 3 ==> {
            &&& over_message->Sign_mechanism matches crypto::Mechanism::Sha256RsaPkcsPss(params)
            &&& params.salt_len == 32
            &&& over_message->Sign_payload@ == message
            &&& over_digest->Sign_mechanism matches crypto::Mechanism::RsaPkcsPss(params)
            &&& params.salt_len == 32
            &&& over_digest->Sign_payload@ == digest
        },
{
}

/// What the token encrypts is what the caller sent, under the associated data that the caller sent
/// and the IV that the caller is answered with.
pub proof fn law_the_token_encrypts_what_was_asked(
    key_label: Seq<char>,
    plaintext: Seq<u8>,
    associated_data: Seq<u8>,
    iv: Seq<u8>,
    key: ObjectHandle,
    step: Step,
)
    requires
        is_call(step, encrypt_job(key_label, plaintext, associated_data, iv), key),
    ensures
        step is Encrypt,
        step->Encrypt_key == key,
        step->Encrypt_plaintext@ == plaintext,
        step->Encrypt_params.associated_data@ == associated_data,
        step->Encrypt_params.iv@ == iv,
        encrypt_job(key_label, plaintext, associated_data, iv).label() == key_label,
{
}

/// What the token decrypts is what the caller sent, under the associated data and the IV that the
/// caller sent. A request is refused exactly where it asks for another cipher, or has an IV of
/// another length.
pub proof fn law_the_token_decrypts_what_was_asked(
    key_label: Seq<char>,
    mechanism: i32,
    ciphertext: Seq<u8>,
    associated_data: Seq<u8>,
    iv: Seq<u8>,
    key: ObjectHandle,
    step: Step,
)
    ensures
        ({
            let job = decrypt_job(key_label, mechanism, ciphertext, associated_data, iv);
            &&& job is Ok <==> mechanism == 1 && iv.len() == 12
            &&& job matches Err(status) ==> status.code is InvalidArgument
            &&& job is Ok ==> job->Ok_0.label() == key_label
            &&& job is Ok && is_call(step, job->Ok_0, key) ==> {
                &&& step is Decrypt
                &&& step->Decrypt_key == key
                &&& step->Decrypt_ciphertext@ == ciphertext
                &&& step->Decrypt_params.associated_data@ == associated_data
                &&& step->Decrypt_params.iv@ == iv
            }
        }),
{
}

/// A failure is answered with the code that says what it was: any two can be told apart by their
/// answers, but for a failed call and a failure in the proxy, which are both internal.
pub proof fn law_a_failure_has_its_code(error: PoolErrorView)
    ensures
        pool_status(error).code is NotFound <==> error is KeyNotFound,
        pool_status(error).code is InvalidArgument <==> error is InvalidRequest,
        pool_status(error).code is ResourceExhausted <==> error is Overloaded,
        pool_status(error).code is DeadlineExceeded <==> error is Timeout,
        pool_status(error).code is Unavailable <==> error is ShuttingDown,
        pool_status(error).code is Internal <==> error is Hsm || error is Internal,
        error is KeyNotFound ==> pool_status(error).message == error.text(),
        error matches PoolErrorView::InvalidRequest(message) ==> pool_status(error).message
            == message,
        error matches PoolErrorView::Hsm { operation, .. } ==> pool_status(error).message
            == operation + " failed"@,
{
}

/// An outcome that is no failure of the token is a success to the breaker, whatever the answer.
pub proof fn law_an_answer_is_a_success(
    breaker: CircuitBreaker,
    now: u128,
    response: JobResponseView,
    lookup: (LookupView, bool),
)
    ensures
        reported(breaker, now, failure_of(Ok::<_, PoolErrorView>(response)))
            == breaker.after_success(now),
        reported(breaker, now, failure_of(Ok::<_, PoolErrorView>(lookup)))
            == breaker.after_success(now),
{
}

/// Whoever may is let in: where the circuit lets requests through, a caller whom the policy permits
/// the operation on the key is let in, unless they are over their limit, and never before their
/// burst is spent. Where there is no policy, everyone is.
pub proof fn law_the_permitted_are_let_in(
    before: PooledService,
    after: PooledService,
    now: u128,
    identity: Result<Seq<char>, StatusView>,
    key_label: Seq<char>,
    operation: Operation,
    outcome: Admission,
    goes_on: bool,
)
    requires
        admission(before, after, now, identity, key_label, operation, outcome, goes_on),
        before.breaker.allows(now),
    ensures
        before.authorizer is None ==> outcome is Unchecked,
        (before.authorizer matches Some(authorizer) && identity matches Ok(who)
            && authorizer.policy@.allows(who, key_label, operation)) ==> {
            &&& outcome is Permitted || outcome is OverLimit
            &&& before.rate_limiter is None ==> outcome is Permitted
            &&& before.rate_limiter is Some && within_burst(
                before.rate_limiter->0.held(),
                identity->Ok_0,
            ) ==> outcome is Permitted
        },
{
}

/// Whoever may not is told why: that the circuit is open, why there is no identity, that the policy
/// does not permit it, or that they are over their limit.
pub proof fn law_the_refused_are_told_why(
    before: PooledService,
    after: PooledService,
    now: u128,
    identity: Result<Seq<char>, StatusView>,
    key_label: Seq<char>,
    operation: Operation,
    outcome: Admission,
    goes_on: bool,
)
    requires
        admission(before, after, now, identity, key_label, operation, outcome, goes_on),
        before.breaker.allows(now),
        before.authorizer is Some,
    ensures
        identity matches Err(reason) ==> outcome is Unidentified && refusal(
            outcome,
            identity,
            key_label,
            operation,
        ) == reason,
        (identity matches Ok(who) && !before.authorizer->0.policy@.allows(
            who,
            key_label,
            operation,
        )) ==> {
            &&& outcome is Denied
            &&& refusal(outcome, identity, key_label, operation).code is PermissionDenied
        },
        outcome is OverLimit ==> refusal(outcome, identity, key_label, operation).code
            is ResourceExhausted,
        refusal(Admission::CircuitOpen, identity, key_label, operation).code is Unavailable,
{
}

/// A request that is let in is answered with what serves it, and any other with its refusal.
pub proof fn law_the_admitted_are_served<T>(
    before: PooledService,
    after: PooledService,
    now: u128,
    identity: Result<Seq<char>, StatusView>,
    key_label: Seq<char>,
    operation: Operation,
    served: Result<T, StatusView>,
    outcome: Admission,
    answer: Result<T, StatusView>,
)
    requires
        admitted_then(
            before,
            after,
            now,
            identity,
            key_label,
            operation,
            served,
            outcome,
            answer,
        ),
    ensures
        outcome is Permitted || outcome is Unchecked ==> answer == served,
        !(outcome is Permitted || outcome is Unchecked) ==> answer is Err,
        before.breaker.allows(now) && before.authorizer is None ==> answer == served,
        !before.breaker.allows(now) ==> (answer matches Err(status) && status.code is Unavailable),
{
}

/// A request that goes on to the token holds the place that the breaker gave it, and a closed
/// circuit has none to give.
pub proof fn law_a_request_that_goes_on_holds_its_place(
    before: PooledService,
    after: PooledService,
    now: u128,
    identity: Result<Seq<char>, StatusView>,
    key_label: Seq<char>,
    operation: Operation,
    outcome: Admission,
    goes_on: bool,
)
    requires
        before.well_formed(),
        admission(before, after, now, identity, key_label, operation, outcome, goes_on),
    ensures
        before.breaker.state is Closed ==> after.breaker == before.breaker,
        goes_on && before.breaker.state is HalfOpen ==> after.breaker.window.probes_out
            == before.breaker.window.probes_out + 1,
        goes_on && before.breaker.state is Open ==> after.breaker.state is HalfOpen
            && after.breaker.window.probes_out == 1,
        !goes_on && outcome.lets_in() && before.breaker.state is HalfOpen ==> after.breaker
            == before.breaker,
        goes_on ==> outcome.lets_in(),
{
}

/// The limiter counts who it is asked about, and no one else: whoever is let through takes a token,
/// and each answer is counted once.
pub proof fn law_the_limiter_counts_its_answers(
    before: RateLimiter,
    after: RateLimiter,
    identity: Seq<char>,
    allowed: bool,
)
    requires
        limited(before, after, identity, allowed),
        before.allowed < u64::MAX,
        before.rejected < u64::MAX,
    ensures
        after.allowed == before.allowed + (if allowed {
            1int
        } else {
            0int
        }),
        after.rejected == before.rejected + (if allowed {
            0int
        } else {
            1int
        }),
        after.per_second == before.per_second,
        after.burst == before.burst,
        after.limit() == before.limit(),
        within_burst(before.held(), identity) ==> allowed,
{
}

/// A worker that answers another question has failed the caller, not the caller the worker: the
/// answer is an internal error.
pub proof fn law_another_answer_is_an_internal_error(response: JobResponseView)
    ensures
        !(response is Signature) ==> (sign_answer(Ok(response)) matches Err(status) && status.code
            is Internal),
        !(response is Ciphertext) ==> (encrypt_answer(Ok(response)) matches Err(status)
            && status.code is Internal),
        !(response is Plaintext) ==> (decrypt_answer(Ok(response)) matches Err(status)
            && status.code is Internal),
{
}

/// It is looked at who the caller is exactly where it matters: a caller without an identity is
/// refused for that where it is, and for nothing of the kind where it is not.
pub proof fn law_who_the_caller_is_is_asked_where_it_matters(
    before: PooledService,
    after: PooledService,
    now: u128,
    reason: StatusView,
    key_label: Seq<char>,
    operation: Operation,
    outcome: Admission,
    goes_on: bool,
)
    requires
        admission(before, after, now, Err(reason), key_label, operation, outcome, goes_on),
    ensures
        before.spec_asks_who(now) <==> outcome is Unidentified,
{
}

/// Answering a request touches nothing but the breaker: the policy, its counters and the limiter
/// stay as they were, and the breaker is told of the outcome once.
pub proof fn law_an_answer_touches_the_breaker_alone<T>(
    before: PooledService,
    after: PooledService,
    now: u128,
    outcome: Result<T, PoolErrorView>,
)
    requires
        only_reported(before, after, now, outcome),
    ensures
        after.authorizer == before.authorizer,
        after.rate_limiter == before.rate_limiter,
        (outcome matches Err(error) && (error is Hsm || error is Internal || error is Timeout))
            ==> after.breaker == before.breaker.after_failure(now),
        !(outcome matches Err(error) && (error is Hsm || error is Internal || error is Timeout))
            ==> after.breaker == before.breaker.after_success(now),
{
}

} // verus!
