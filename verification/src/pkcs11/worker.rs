//! A pool worker: one thread that owns one PKCS#11 session for its entire life.
//!
//! The worker decides; the thread that owns the session performs. A job runs as a series of
//! [`Step`]s. Each names one call into the token, and the call's outcome goes back to the
//! method of [`Worker`] that the step calls for, until a step is [`Step::Done`]. The worker
//! remembers which objects its session has found, so that a key is searched for once.

use vstd::hash_map::StringHashMap;
use vstd::prelude::*;

use crate::crypto::{self, kind_named, Mechanism, PublicKeyKind};
use crate::pkcs11::errors::{is_session_fatal, session_fatal, PoolError, PoolErrorView};
use crate::pkcs11::job::{JobRequest, JobRequestView, JobResponse, JobResponseView, KeyKind};
use crate::pkcs11::metrics::{counted, PoolMetrics};
use crate::pkcs11::session;
use crate::pkcs11::token::{
    attribute_views, Attribute, AttributeType, AttributeView, GcmParams, KeyTypeAnswer,
    ObjectClass, ObjectHandle, Rv, TokenError,
};

verus! {

/// The length of an AES-GCM tag in bits.
pub const GCM_TAG_BITS: u64 = 128;

/// The handles for one label, filled in as each class is first needed.
#[derive(Clone, Copy, Debug, PartialEq, Eq, Structural)]
pub struct KeyHandles {
    private: Option<ObjectHandle>,
    public: Option<ObjectHandle>,
    secret: Option<ObjectHandle>,
}

impl KeyHandles {
    closed spec fn spec_get(self, kind: KeyKind) -> Option<ObjectHandle> {
        match kind {
            KeyKind::Private => self.private,
            KeyKind::Public => self.public,
            KeyKind::Secret => self.secret,
        }
    }

    fn none() -> (handles: KeyHandles)
        ensures
            forall|kind: KeyKind| handles.spec_get(kind) is None,
    {
        KeyHandles { private: None, public: None, secret: None }
    }

    fn get(&self, kind: KeyKind) -> (handle: Option<ObjectHandle>)
        ensures
            handle == self.spec_get(kind),
    {
        match kind {
            KeyKind::Private => self.private,
            KeyKind::Public => self.public,
            KeyKind::Secret => self.secret,
        }
    }

    fn set(&mut self, kind: KeyKind, handle: ObjectHandle)
        ensures
            forall|other: KeyKind| #[trigger]
                final(self).spec_get(other) == if other == kind {
                    Some(handle)
                } else {
                    old(self).spec_get(other)
                },
    {
        match kind {
            KeyKind::Private => {
                self.private = Some(handle);
            },
            KeyKind::Public => {
                self.public = Some(handle);
            },
            KeyKind::Secret => {
                self.secret = Some(handle);
            },
        }
    }
}

/// How a job ended, and whether the worker's session has to be opened anew before the next.
#[derive(Debug)]
pub struct Finished {
    pub result: Result<JobResponse, PoolError>,
    pub reopen: bool,
}

/// What has to happen next for a job.
#[derive(Debug)]
pub enum Step {
    /// Search for objects; the handles found go to [`Worker::found`].
    Find { template: Vec<Attribute>, request: JobRequest },
    /// Sign; the outcome goes to [`Worker::signed`].
    Sign { key: ObjectHandle, mechanism: Mechanism, payload: Vec<u8> },
    /// Verify; the outcome goes to [`Worker::verified`].
    Verify { key: ObjectHandle, mechanism: Mechanism, payload: Vec<u8>, signature: Vec<u8> },
    /// Encrypt; the outcome goes to [`Worker::encrypted`].
    Encrypt { key: ObjectHandle, params: GcmParams, plaintext: Vec<u8> },
    /// Decrypt; the outcome goes to [`Worker::decrypted`].
    Decrypt { key: ObjectHandle, params: GcmParams, ciphertext: Vec<u8> },
    /// Read a public key's type; the attributes go to [`Worker::key_type_read`].
    ReadKeyType { key: ObjectHandle, types: Vec<AttributeType> },
    /// Read a public key's components; the attributes go to [`Worker::components_read`].
    ReadComponents { key: ObjectHandle, kind: PublicKeyKind, types: Vec<AttributeType> },
    /// The job is done.
    Done(Finished),
}

/// Why an encryption or a decryption failed.
#[derive(Clone, Debug)]
pub enum CipherFailure {
    /// The parameters were refused before the token was called.
    Params(String),
    /// The call failed.
    Call(TokenError),
}

/// The value of a job's result.
pub open spec fn result_view(result: Result<JobResponse, PoolError>) -> Result<
    JobResponseView,
    PoolErrorView,
> {
    match result {
        Ok(response) => Ok(response@),
        Err(error) => Err(error@),
    }
}

/// Is this an answer that a worker gives? A worker has done the job, or says that the key is
/// missing, that the request is at fault, or what failed; that the pool is full, late or going away
/// is for the pool to say.
pub open spec fn is_workers_own(answer: Result<JobResponseView, PoolErrorView>) -> bool {
    match answer {
        Ok(_) => true,
        Err(error) => error is KeyNotFound || error is InvalidRequest || error is Hsm || error
            is Internal,
    }
}

/// Is the step the search for the key that the request needs?
pub open spec fn is_search(step: Step, request: JobRequestView) -> bool {
    step matches Step::Find { template, request: kept } && kept@ == request && attribute_views(
        template@,
    ) == session::find_template_of(request.kind().spec_object_class(), request.label())
}

/// Is the step the first call that the request needs on its key?
pub open spec fn is_call(step: Step, request: JobRequestView, key: ObjectHandle) -> bool {
    match request {
        JobRequestView::Sign { algorithm, payload, .. } => {
            step matches Step::Sign { key: k, mechanism, payload: p } && k == key && mechanism
                == algorithm.spec_mechanism() && p@ == payload
        },
        JobRequestView::Verify { algorithm, payload, signature, .. } => {
            step matches Step::Verify { key: k, mechanism, payload: p, signature: s } && k == key
                && mechanism == algorithm.spec_mechanism() && p@ == payload && s@ == signature
        },
        JobRequestView::Encrypt { plaintext, associated_data, iv, .. } => {
            step matches Step::Encrypt { key: k, params, plaintext: p } && k == key && params.iv@
                == iv && params.associated_data@ == associated_data && params.tag_bits
                == GCM_TAG_BITS && p@ == plaintext
        },
        JobRequestView::Decrypt { ciphertext, associated_data, iv, .. } => {
            step matches Step::Decrypt { key: k, params, ciphertext: c } && k == key && params.iv@
                == iv && params.associated_data@ == associated_data && params.tag_bits
                == GCM_TAG_BITS && c@ == ciphertext
        },
        JobRequestView::GetPublicKey { .. } => {
            step matches Step::ReadKeyType { key: k, types } && k == key && types@
                == seq![AttributeType::KeyType]
        },
    }
}

/// Does the call carry what the request holds, byte for byte?
pub open spec fn carries(step: Step, request: JobRequest) -> bool {
    match request {
        JobRequest::Sign { payload, .. } => step is Sign && step->Sign_payload@ == payload@,
        JobRequest::Verify { payload, signature, .. } => step is Verify && step->Verify_payload@
            == payload@ && step->Verify_signature@ == signature@,
        JobRequest::Encrypt { plaintext, associated_data, iv, .. } => step is Encrypt
            && step->Encrypt_plaintext@ == plaintext@ && step->Encrypt_params.associated_data@
            == associated_data@ && step->Encrypt_params.iv@ == iv@,
        JobRequest::Decrypt { ciphertext, associated_data, iv, .. } => step is Decrypt
            && step->Decrypt_ciphertext@ == ciphertext@ && step->Decrypt_params.associated_data@
            == associated_data@ && step->Decrypt_params.iv@ == iv@,
        JobRequest::GetPublicKey { .. } => step is ReadKeyType,
    }
}

/// Does a worker that knows these objects have to search for the key that the request needs?
pub open spec fn must_search(known: Map<(Seq<char>, KeyKind), ObjectHandle>, request: JobRequestView) -> bool {
    !known.contains_key((request.label(), request.kind()))
}

/// What a worker knows after a search for the key that the request needs found it.
pub open spec fn learned(
    known: Map<(Seq<char>, KeyKind), ObjectHandle>,
    request: JobRequestView,
    handle: ObjectHandle,
) -> Map<(Seq<char>, KeyKind), ObjectHandle> {
    known.insert((request.label(), request.kind()), handle)
}

/// What a worker knows after a call failed with this return value: nothing where the session is
/// unusable, for its handles went with it.
pub open spec fn kept(known: Map<(Seq<char>, KeyKind), ObjectHandle>, fatal: bool) -> Map<
    (Seq<char>, KeyKind),
    ObjectHandle,
> {
    if fatal {
        Map::empty()
    } else {
        known
    }
}

/// The counters after a job ended, of which `fatal` says whether it cost the session.
pub open spec fn reset_counted(metrics: PoolMetrics, fatal: bool) -> PoolMetrics {
    if fatal {
        PoolMetrics { session_resets: counted(metrics.session_resets, 1), ..metrics }
    } else {
        metrics
    }
}

/// Did the call fail in a way that leaves the session unusable?
pub open spec fn lost_session<T>(outcome: Result<T, TokenError>) -> bool {
    outcome matches Err(error) && session_fatal(error.rv)
}

/// One pool worker.
pub struct Worker {
    id: usize,
    handles: StringHashMap<KeyHandles>,
}

impl View for Worker {
    type V = Map<(Seq<char>, KeyKind), ObjectHandle>;

    closed spec fn view(&self) -> Map<(Seq<char>, KeyKind), ObjectHandle> {
        Map::new(
            |at: (Seq<char>, KeyKind)|
                self.handles@.contains_key(at.0) && self.handles@[at.0].spec_get(at.1) is Some,
            |at: (Seq<char>, KeyKind)| self.handles@[at.0].spec_get(at.1)->0,
        )
    }
}

impl Worker {
    /// The worker's number.
    pub closed spec fn spec_id(&self) -> usize {
        self.id
    }

    /// A worker whose session has found nothing yet.
    pub fn new(id: usize) -> (worker: Worker)
        ensures
            worker@ == Map::<(Seq<char>, KeyKind), ObjectHandle>::empty(),
            worker.spec_id() == id,
    {
        let worker = Worker { id, handles: StringHashMap::new() };
        assert(worker@ =~= Map::<(Seq<char>, KeyKind), ObjectHandle>::empty());
        worker
    }

    /// The worker's number.
    pub fn id(&self) -> (id: usize)
        ensures
            id == self.spec_id(),
    {
        self.id
    }

    /// The handle that the session found for a label and a kind, if it did.
    fn handle(&self, kind: KeyKind, label: &str) -> (handle: Option<ObjectHandle>)
        ensures
            match handle {
                Some(handle) => self@.contains_key((label@, kind)) && self@[(label@, kind)]
                    == handle,
                None => !self@.contains_key((label@, kind)),
            },
    {
        match self.handles.get(label) {
            Some(handles) => handles.get(kind),
            None => None,
        }
    }

    /// Remember the handle that the session found for a label and a kind.
    fn remember(&mut self, kind: KeyKind, label: &str, handle: ObjectHandle)
        ensures
            final(self)@ == old(self)@.insert((label@, kind), handle),
            final(self).spec_id() == old(self).spec_id(),
    {
        let mut handles = match self.handles.get(label) {
            Some(handles) => *handles,
            None => KeyHandles::none(),
        };
        handles.set(kind, handle);
        self.handles.insert(label.to_owned(), handles);
        assert(self@ =~= old(self)@.insert((label@, kind), handle));
    }

    /// Forget every handle: those of a session that is gone mean nothing in a new one.
    fn reset_session(&mut self, metrics: &mut PoolMetrics)
        ensures
            final(self)@ == Map::<(Seq<char>, KeyKind), ObjectHandle>::empty(),
            final(self).spec_id() == old(self).spec_id(),
            *final(metrics) == reset_counted(*old(metrics), true),
    {
        self.handles.clear();
        PoolMetrics::incr(&mut metrics.session_resets);
        assert(self@ =~= Map::<(Seq<char>, KeyKind), ObjectHandle>::empty());
    }

    /// End a job, and give the session up where the job found it unusable.
    fn finish(
        &mut self,
        metrics: &mut PoolMetrics,
        result: Result<JobResponse, PoolError>,
        fatal: bool,
    ) -> (finished: Finished)
        ensures
            finished.result == result,
            finished.reopen == fatal,
            final(self)@ == kept(old(self)@, fatal),
            final(self).spec_id() == old(self).spec_id(),
            *final(metrics) == reset_counted(*old(metrics), fatal),
    {
        if fatal {
            self.reset_session(metrics);
        }
        Finished { result, reopen: fatal }
    }

    /// The first call that a request needs on its key.
    fn call(request: JobRequest, key: ObjectHandle) -> (step: Step)
        ensures
            is_call(step, request@, key),
            carries(step, request),
    {
        match request {
            JobRequest::Sign { algorithm, payload, .. } => Step::Sign {
                key,
                mechanism: algorithm.mechanism(),
                payload,
            },
            JobRequest::Verify { algorithm, payload, signature, .. } => Step::Verify {
                key,
                mechanism: algorithm.mechanism(),
                payload,
                signature,
            },
            JobRequest::Encrypt { plaintext, associated_data, iv, .. } => Step::Encrypt {
                key,
                params: GcmParams { iv, associated_data, tag_bits: GCM_TAG_BITS },
                plaintext,
            },
            JobRequest::Decrypt { ciphertext, associated_data, iv, .. } => Step::Decrypt {
                key,
                params: GcmParams { iv, associated_data, tag_bits: GCM_TAG_BITS },
                ciphertext,
            },
            JobRequest::GetPublicKey { .. } => {
                let types: Vec<AttributeType> = vec![AttributeType::KeyType];
                assert(types@ =~= seq![AttributeType::KeyType]);
                Step::ReadKeyType { key, types }
            },
        }
    }

    /// Take up a job.
    ///
    /// Where the session has found the key before, the call follows at once; else the key is
    /// searched for first.
    pub fn begin(&self, metrics: &mut PoolMetrics, request: JobRequest) -> (step: Step)
        ensures
            if must_search(self@, request@) {
                &&& is_search(step, request@)
                &&& step matches Step::Find { request: kept, .. } && kept == request
                &&& *final(metrics) == (PoolMetrics {
                    handle_cache_misses: counted(old(metrics).handle_cache_misses, 1),
                    ..*old(metrics)
                })
            } else {
                &&& is_call(step, request@, self@[(request@.label(), request@.kind())])
                &&& carries(step, request)
                &&& *final(metrics) == (PoolMetrics {
                    handle_cache_hits: counted(old(metrics).handle_cache_hits, 1),
                    ..*old(metrics)
                })
            },
    {
        match self.handle(request.kind(), request.label()) {
            Some(key) => {
                PoolMetrics::incr(&mut metrics.handle_cache_hits);
                Worker::call(request, key)
            },
            None => {
                PoolMetrics::incr(&mut metrics.handle_cache_misses);
                let template = session::find_template(
                    request.kind().object_class(),
                    request.label(),
                );
                Step::Find { template, request }
            },
        }
    }

    /// The search for a request's key ended.
    ///
    /// The first object found is the key, and is remembered. A label under which nothing was
    /// found is not.
    pub fn found(
        &mut self,
        metrics: &mut PoolMetrics,
        request: JobRequest,
        objects: Result<Vec<ObjectHandle>, TokenError>,
    ) -> (step: Step)
        ensures
            match objects {
                Ok(objects) => if objects@.len() > 0 {
                    &&& is_call(step, request@, objects@[0])
                    &&& carries(step, request)
                    &&& final(self)@ == learned(old(self)@, request@, objects@[0])
                } else {
                    &&& step matches Step::Done(finished)
                    &&& result_view(finished.result) == Err::<JobResponseView, PoolErrorView>(
                        PoolErrorView::KeyNotFound(request@.label()),
                    )
                    &&& !finished.reopen
                    &&& final(self)@ == old(self)@
                },
                Err(error) => {
                    &&& step matches Step::Done(finished)
                    &&& result_view(finished.result) == Err::<JobResponseView, PoolErrorView>(
                        PoolErrorView::Internal("C_FindObjects failed"@),
                    )
                    &&& finished.reopen == session_fatal(error.rv)
                    &&& final(self)@ == kept(old(self)@, session_fatal(error.rv))
                },
            },
            step matches Step::Done(finished) ==> is_workers_own(result_view(finished.result)),
            *final(metrics) == reset_counted(*old(metrics), lost_session(objects)),
            final(self).spec_id() == old(self).spec_id(),
    {
        match objects {
            Ok(objects) => match session::find_object(&objects) {
                Some(key) => {
                    self.remember(request.kind(), request.label(), key);
                    Worker::call(request, key)
                },
                None => {
                    let missing = PoolError::KeyNotFound(request.label().to_owned());
                    Step::Done(Finished { result: Err(missing), reopen: false })
                },
            },
            Err(error) => {
                let fatal = is_session_fatal(&error);
                let failure = PoolError::Internal("C_FindObjects failed".to_owned());
                Step::Done(self.finish(metrics, Err(failure), fatal))
            },
        }
    }

    /// `C_Sign` ended.
    pub fn signed(
        &mut self,
        metrics: &mut PoolMetrics,
        outcome: Result<Vec<u8>, TokenError>,
    ) -> (finished: Finished)
        ensures
            result_view(finished.result) == (match outcome {
                Ok(signature) => Ok::<_, PoolErrorView>(JobResponseView::Signature(signature@)),
                Err(error) => Err(
                    PoolErrorView::Hsm { operation: "C_Sign"@, source: error@ },
                ),
            }),
            is_workers_own(result_view(finished.result)),
            finished.reopen == lost_session(outcome),
            final(self)@ == kept(old(self)@, lost_session(outcome)),
            *final(metrics) == reset_counted(*old(metrics), lost_session(outcome)),
            final(self).spec_id() == old(self).spec_id(),
    {
        match outcome {
            Ok(signature) => self.finish(metrics, Ok(JobResponse::Signature(signature)), false),
            Err(error) => {
                let fatal = is_session_fatal(&error);
                self.finish(metrics, Err(PoolError::hsm("C_Sign", error)), fatal)
            },
        }
    }

    /// `C_Verify` ended. A wrong signature is an answer, not a failure.
    pub fn verified(&mut self, metrics: &mut PoolMetrics, outcome: Result<(), TokenError>) -> (finished:
        Finished)
        ensures
            result_view(finished.result) == (match outcome {
                Ok(()) => Ok::<_, PoolErrorView>(JobResponseView::Verified(true)),
                Err(error) => if error.rv is SignatureInvalid || error.rv is SignatureLenRange {
                    Ok(JobResponseView::Verified(false))
                } else {
                    Err(PoolErrorView::Hsm { operation: "C_Verify"@, source: error@ })
                },
            }),
            is_workers_own(result_view(finished.result)),
            finished.reopen == lost_session(outcome),
            final(self)@ == kept(old(self)@, lost_session(outcome)),
            *final(metrics) == reset_counted(*old(metrics), lost_session(outcome)),
            final(self).spec_id() == old(self).spec_id(),
    {
        match outcome {
            Ok(()) => self.finish(metrics, Ok(JobResponse::Verified(true)), false),
            Err(error) => match error.rv {
                Rv::SignatureInvalid | Rv::SignatureLenRange => self.finish(
                    metrics,
                    Ok(JobResponse::Verified(false)),
                    false,
                ),
                _ => {
                    let fatal = is_session_fatal(&error);
                    self.finish(metrics, Err(PoolError::hsm("C_Verify", error)), fatal)
                },
            },
        }
    }

    /// `C_Encrypt` ended, or its parameters were refused.
    pub fn encrypted(
        &mut self,
        metrics: &mut PoolMetrics,
        outcome: Result<Vec<u8>, CipherFailure>,
    ) -> (finished: Finished)
        ensures
            result_view(finished.result) == (match outcome {
                Ok(ciphertext) => Ok::<_, PoolErrorView>(JobResponseView::Ciphertext(ciphertext@)),
                Err(CipherFailure::Params(message)) => Err(
                    PoolErrorView::InvalidRequest(message@),
                ),
                Err(CipherFailure::Call(error)) => Err(
                    PoolErrorView::Hsm { operation: "C_Encrypt"@, source: error@ },
                ),
            }),
            is_workers_own(result_view(finished.result)),
            ({
                let fatal = outcome matches Err(CipherFailure::Call(error)) && session_fatal(
                    error.rv,
                );
                &&& finished.reopen == fatal
                &&& final(self)@ == kept(old(self)@, fatal)
                &&& *final(metrics) == reset_counted(*old(metrics), fatal)
            }),
            final(self).spec_id() == old(self).spec_id(),
    {
        match outcome {
            Ok(ciphertext) => self.finish(metrics, Ok(JobResponse::Ciphertext(ciphertext)), false),
            Err(CipherFailure::Params(message)) => self.finish(
                metrics,
                Err(PoolError::InvalidRequest(message)),
                false,
            ),
            Err(CipherFailure::Call(error)) => {
                let fatal = is_session_fatal(&error);
                self.finish(metrics, Err(PoolError::hsm("C_Encrypt", error)), fatal)
            },
        }
    }

    /// `C_Decrypt` ended, or its parameters were refused.
    ///
    /// A ciphertext that fails authentication is the caller's problem, not a broken token.
    pub fn decrypted(
        &mut self,
        metrics: &mut PoolMetrics,
        outcome: Result<Vec<u8>, CipherFailure>,
    ) -> (finished: Finished)
        ensures
            result_view(finished.result) == (match outcome {
                Ok(plaintext) => Ok::<_, PoolErrorView>(JobResponseView::Plaintext(plaintext@)),
                Err(CipherFailure::Params(message)) => Err(
                    PoolErrorView::InvalidRequest(message@),
                ),
                Err(CipherFailure::Call(error)) => Err(
                    if error.rv is EncryptedDataInvalid || error.rv is EncryptedDataLenRange {
                        PoolErrorView::InvalidRequest("ciphertext failed authentication"@)
                    } else {
                        PoolErrorView::Hsm { operation: "C_Decrypt"@, source: error@ }
                    },
                ),
            }),
            is_workers_own(result_view(finished.result)),
            ({
                let fatal = outcome matches Err(CipherFailure::Call(error)) && session_fatal(
                    error.rv,
                );
                &&& finished.reopen == fatal
                &&& final(self)@ == kept(old(self)@, fatal)
                &&& *final(metrics) == reset_counted(*old(metrics), fatal)
            }),
            final(self).spec_id() == old(self).spec_id(),
    {
        match outcome {
            Ok(plaintext) => self.finish(metrics, Ok(JobResponse::Plaintext(plaintext)), false),
            Err(CipherFailure::Params(message)) => self.finish(
                metrics,
                Err(PoolError::InvalidRequest(message)),
                false,
            ),
            Err(CipherFailure::Call(error)) => match error.rv {
                Rv::EncryptedDataInvalid | Rv::EncryptedDataLenRange => self.finish(
                    metrics,
                    Err(PoolError::InvalidRequest("ciphertext failed authentication".to_owned())),
                    false,
                ),
                _ => {
                    let fatal = is_session_fatal(&error);
                    self.finish(metrics, Err(PoolError::hsm("C_Decrypt", error)), fatal)
                },
            },
        }
    }

    /// The type of a public key was read: its components are next, where the type is one that
    /// the proxy serves.
    pub fn key_type_read(
        &mut self,
        metrics: &mut PoolMetrics,
        key: ObjectHandle,
        answer: Result<KeyTypeAnswer, TokenError>,
    ) -> (step: Step)
        ensures
            match answer {
                Ok(answer) => match kind_named(attribute_views(answer.attributes@)) {
                    Some(kind) => {
                        &&& step matches Step::ReadComponents { key: k, kind: read, types }
                        &&& k == key
                        &&& read == kind
                        &&& types@ == kind.spec_components()
                    },
                    None => {
                        &&& step matches Step::Done(finished)
                        &&& result_view(finished.result) == Err::<JobResponseView, PoolErrorView>(
                            PoolErrorView::Internal(crypto::unsupported(answer.text@)),
                        )
                        &&& !finished.reopen
                    },
                },
                Err(error) => {
                    &&& step matches Step::Done(finished)
                    &&& result_view(finished.result) == Err::<JobResponseView, PoolErrorView>(
                        PoolErrorView::Internal("C_GetAttributeValue(CKA_KEY_TYPE) failed"@),
                    )
                    &&& finished.reopen == session_fatal(error.rv)
                },
            },
            step matches Step::Done(finished) ==> is_workers_own(result_view(finished.result)),
            final(self)@ == kept(old(self)@, lost_session(answer)),
            *final(metrics) == reset_counted(*old(metrics), lost_session(answer)),
            final(self).spec_id() == old(self).spec_id(),
    {
        match answer {
            Ok(answer) => match PublicKeyKind::of_key_type(&answer.attributes) {
                Some(kind) => Step::ReadComponents { key, kind, types: kind.components() },
                None => {
                    let message = crypto::unsupported_key_type(answer.text.as_str());
                    Step::Done(self.finish(metrics, Err(PoolError::Internal(message)), false))
                },
            },
            Err(error) => {
                let fatal = is_session_fatal(&error);
                let failure = PoolError::Internal(
                    "C_GetAttributeValue(CKA_KEY_TYPE) failed".to_owned(),
                );
                Step::Done(self.finish(metrics, Err(failure), fatal))
            },
        }
    }

    /// The components of a public key were read: the key is re-encoded.
    pub fn components_read(
        &mut self,
        metrics: &mut PoolMetrics,
        kind: PublicKeyKind,
        attributes: Result<Vec<Attribute>, TokenError>,
    ) -> (finished: Finished)
        ensures
            result_view(finished.result) == (match attributes {
                Ok(attributes) => match crypto::spki_of(kind, attribute_views(attributes@)) {
                    Ok(der) => Ok::<_, PoolErrorView>(
                        JobResponseView::PublicKey { spki_der: der, key_type: kind.spec_name() },
                    ),
                    Err(error) => Err(PoolErrorView::Internal(error.text())),
                },
                Err(_) => Err(
                    PoolErrorView::Internal(
                        match kind {
                            PublicKeyKind::Ec => "C_GetAttributeValue(CKA_EC_POINT) failed"@,
                            PublicKeyKind::Rsa =>
                                "C_GetAttributeValue(CKA_MODULUS/CKA_PUBLIC_EXPONENT) failed"@,
                        },
                    ),
                ),
            }),
            is_workers_own(result_view(finished.result)),
            finished.reopen == lost_session(attributes),
            final(self)@ == kept(old(self)@, lost_session(attributes)),
            *final(metrics) == reset_counted(*old(metrics), lost_session(attributes)),
            final(self).spec_id() == old(self).spec_id(),
    {
        match attributes {
            Ok(attributes) => match crypto::public_key_to_spki_der(kind, &attributes) {
                Ok((spki_der, key_type)) => self.finish(
                    metrics,
                    Ok(JobResponse::PublicKey { spki_der, key_type }),
                    false,
                ),
                Err(error) => self.finish(
                    metrics,
                    Err(PoolError::Internal(error.message())),
                    false,
                ),
            },
            Err(error) => {
                let fatal = is_session_fatal(&error);
                let failure = match kind {
                    PublicKeyKind::Ec => "C_GetAttributeValue(CKA_EC_POINT) failed",
                    PublicKeyKind::Rsa =>
                        "C_GetAttributeValue(CKA_MODULUS/CKA_PUBLIC_EXPONENT) failed",
                };
                self.finish(metrics, Err(PoolError::Internal(failure.to_owned())), fatal)
            },
        }
    }
}

/// Once a session has found a key, no later request for the same label and kind searches for it
/// again, and the call is made on the object that was found.
pub proof fn law_a_key_is_searched_for_once(
    known: Map<(Seq<char>, KeyKind), ObjectHandle>,
    first: JobRequestView,
    handle: ObjectHandle,
    later: JobRequestView,
)
    requires
        first.label() == later.label(),
        first.kind() == later.kind(),
    ensures
        !must_search(learned(known, first, handle), later),
        learned(known, first, handle)[(later.label(), later.kind())] == handle,
{
}

/// What a session learns of one key leaves what it knows of every other label and kind as it was.
pub proof fn law_other_keys_stay_known(
    known: Map<(Seq<char>, KeyKind), ObjectHandle>,
    first: JobRequestView,
    handle: ObjectHandle,
    other: JobRequestView,
)
    requires
        first.label() != other.label() || first.kind() != other.kind(),
    ensures
        must_search(learned(known, first, handle), other) == must_search(known, other),
        !must_search(known, other) ==> learned(known, first, handle)[(other.label(), other.kind())]
            == known[(other.label(), other.kind())],
{
}

/// A worker whose session became unusable searches for every key anew: no handle of the old
/// session is ever used in the next.
pub proof fn law_a_lost_session_leaves_no_handle(
    known: Map<(Seq<char>, KeyKind), ObjectHandle>,
    request: JobRequestView,
)
    ensures
        must_search(kept(known, true), request),
{
}

/// An encryption is made with what was asked for: the token is called on the key that was found,
/// with the request's own IV, associated data and plaintext, and for a tag of 16 bytes.
pub proof fn law_an_encryption_is_made_with_what_was_asked(
    step: Step,
    key_label: Seq<char>,
    plaintext: Seq<u8>,
    associated_data: Seq<u8>,
    iv: Seq<u8>,
    key: ObjectHandle,
)
    requires
        is_call(step, JobRequestView::Encrypt { key_label, plaintext, associated_data, iv }, key),
    ensures
        step is Encrypt,
        step->Encrypt_key == key,
        step->Encrypt_params.iv@ == iv,
        step->Encrypt_params.associated_data@ == associated_data,
        step->Encrypt_params.tag_bits == 8 * 16,
        step->Encrypt_plaintext@ == plaintext,
{
}

/// A decryption is made with what was asked for: the token is called on the key that was found,
/// with the request's own IV, associated data and ciphertext, and for a tag of 16 bytes.
pub proof fn law_a_decryption_is_made_with_what_was_asked(
    step: Step,
    key_label: Seq<char>,
    ciphertext: Seq<u8>,
    associated_data: Seq<u8>,
    iv: Seq<u8>,
    key: ObjectHandle,
)
    requires
        is_call(step, JobRequestView::Decrypt { key_label, ciphertext, associated_data, iv }, key),
    ensures
        step is Decrypt,
        step->Decrypt_key == key,
        step->Decrypt_params.iv@ == iv,
        step->Decrypt_params.associated_data@ == associated_data,
        step->Decrypt_params.tag_bits == 8 * 16,
        step->Decrypt_ciphertext@ == ciphertext,
{
}

/// A signature is made, and checked, on the key that was found, over the request's own payload.
pub proof fn law_a_signature_is_made_over_what_was_asked(
    signing: Step,
    checking: Step,
    key_label: Seq<char>,
    algorithm: crypto::SignAlgorithm,
    payload: Seq<u8>,
    signature: Seq<u8>,
    key: ObjectHandle,
)
    requires
        is_call(signing, JobRequestView::Sign { key_label, algorithm, payload }, key),
        is_call(checking, JobRequestView::Verify { key_label, algorithm, payload, signature }, key),
    ensures
        signing is Sign,
        signing->Sign_key == key,
        signing->Sign_payload@ == payload,
        checking is Verify,
        checking->Verify_key == key,
        checking->Verify_payload@ == payload,
        checking->Verify_signature@ == signature,
        checking->Verify_mechanism == signing->Sign_mechanism,
{
}

/// One call serves one request: two requests that come to the same call on the same key are the
/// same but for the label, by which the key was found.
pub proof fn law_a_call_tells_its_request(
    step: Step,
    one: JobRequestView,
    another: JobRequestView,
    key: ObjectHandle,
)
    requires
        is_call(step, one, key),
        is_call(step, another, key),
        one.label() == another.label(),
    ensures
        one == another,
{
}

/// The search for a key names its class and its label, and the request that it is made for is
/// kept: signing needs the private key, ciphers the secret one, and the others the public one.
pub proof fn law_a_search_is_for_the_requests_key(step: Step, request: JobRequestView)
    requires
        is_search(step, request),
    ensures
        step is Find,
        step->Find_request@ == request,
        ({
            let asked = attribute_views(step->Find_template@);
            let class = match request {
                JobRequestView::Sign { .. } => ObjectClass::PrivateKey,
                JobRequestView::Encrypt { .. } | JobRequestView::Decrypt { .. } =>
                    ObjectClass::SecretKey,
                _ => ObjectClass::PublicKey,
            };
            &&& asked.len() == 2
            &&& asked.contains(AttributeView::Class(class))
            &&& asked.contains(
                AttributeView::Label(vstd::utf8::encode_utf8(request.label())),
            )
        }),
{
    let asked = attribute_views(step->Find_template@);
    assert(asked.contains(asked[0]));
    assert(asked.contains(asked[1]));
}

/// A session is reopened, its loss counted and every handle forgotten together: all three happen
/// where a call leaves the session unusable, and none where it does not.
pub proof fn law_a_lost_session_is_counted_once<T>(
    known: Map<(Seq<char>, KeyKind), ObjectHandle>,
    metrics: PoolMetrics,
    outcome: Result<T, TokenError>,
)
    requires
        metrics.session_resets < u64::MAX,
    ensures
        ({
            let lost = lost_session(outcome);
            &&& reset_counted(metrics, lost).session_resets == metrics.session_resets + if lost {
                1int
            } else {
                0int
            }
            &&& !lost ==> kept(known, lost) == known && reset_counted(metrics, lost) == metrics
            &&& outcome is Ok ==> !lost
            &&& outcome matches Err(error) ==> (lost <==> error.rv is SessionHandleInvalid
                || error.rv is SessionClosed || error.rv is DeviceError || error.rv is DeviceRemoved
                || error.rv is TokenNotPresent || error.rv is UserNotLoggedIn)
        }),
{
}

/// What a call carries is what its job asks for: the bytes that reach the token are those of the
/// job itself, whatever else is known of the job.
pub proof fn law_a_call_carries_its_job(step: Step, request: JobRequest, key: ObjectHandle)
    requires
        is_call(step, request@, key),
    ensures
        carries(step, request),
{
}

} // verus!
