//! What is cached of the token: public keys, and that there is none under a label.
//!
//! Only public material is ever cached. The cache exists to take the token out of paths that do
//! not need it, never to shorten paths that do.

use vstd::prelude::*;

use crate::pkcs11::errors::{PoolError, PoolErrorView};
use crate::pkcs11::job::{JobResponse, JobResponseView};
use crate::pkcs11::metrics::counted;
use crate::text;

verus! {

/// A public key as the token gave it, re-encoded as DER `SubjectPublicKeyInfo`.
#[derive(Clone, Debug)]
pub struct CachedPublicKey {
    pub spki_der: Vec<u8>,
    pub key_type: String,
}

/// What a search for a public key came to.
///
/// That nothing was found is cached too, for a much shorter time: otherwise a caller that keeps
/// asking for a label that does not exist turns every request into a search on the token.
#[derive(Clone, Debug)]
pub enum Lookup {
    Found(CachedPublicKey),
    NotFound,
}

/// The value of a [`Lookup`].
#[verifier::ext_equal]
pub enum LookupView {
    Found { spki_der: Seq<u8>, key_type: Seq<char> },
    NotFound,
}

impl View for Lookup {
    type V = LookupView;

    open spec fn view(&self) -> LookupView {
        match self {
            Lookup::Found(key) => LookupView::Found {
                spki_der: key.spki_der@,
                key_type: key.key_type@,
            },
            Lookup::NotFound => LookupView::NotFound,
        }
    }
}

/// What the cache keeps of a worker's answer to the question for a public key, or the failure
/// that it does not keep.
pub open spec fn lookup_of(answer: Result<JobResponseView, PoolErrorView>) -> Result<
    LookupView,
    PoolErrorView,
> {
    match answer {
        Ok(JobResponseView::PublicKey { spki_der, key_type }) => Ok(
            LookupView::Found { spki_der, key_type },
        ),
        Ok(_) => Err(
            PoolErrorView::Internal("worker returned the wrong response variant"@),
        ),
        Err(PoolErrorView::KeyNotFound(_)) => Ok(LookupView::NotFound),
        Err(other) => Err(other),
    }
}

/// What the cache keeps of a worker's answer to the question for a public key.
///
/// A missing key is an outcome like any other and is kept; any other failure is not.
pub fn loaded(answer: Result<JobResponse, PoolError>) -> (result: Result<Lookup, PoolError>)
    ensures
        ({
            let answered = match answer {
                Ok(response) => Ok::<_, PoolErrorView>(response@),
                Err(error) => Err(error@),
            };
            match result {
                Ok(lookup) => lookup_of(answered) == Ok::<_, PoolErrorView>(lookup@),
                Err(error) => lookup_of(answered) == Err::<LookupView, _>(error@),
            }
        }),
        answer matches Ok(JobResponse::PublicKey { spki_der, key_type }) ==> {
            &&& result matches Ok(Lookup::Found(key))
            &&& key.spki_der@ == spki_der@
            &&& key.key_type@ == key_type@
        },
        answer matches Err(PoolError::KeyNotFound(_)) ==> result matches Ok(Lookup::NotFound),
{
    match answer {
        Ok(JobResponse::PublicKey { spki_der, key_type }) => Ok(
            Lookup::Found(CachedPublicKey { spki_der, key_type }),
        ),
        Ok(_) => Err(
            PoolError::Internal("worker returned the wrong response variant".to_owned()),
        ),
        Err(PoolError::KeyNotFound(_)) => Ok(Lookup::NotFound),
        Err(other) => Err(other),
    }
}

/// How the lookups were served, counted.
#[derive(Clone, Copy, Debug, PartialEq, Eq, Structural)]
pub struct CacheMetrics {
    pub hits: u64,
    pub misses: u64,
    pub negative_hits: u64,
}

impl Default for CacheMetrics {
    fn default() -> (metrics: CacheMetrics)
        ensures
            metrics == (CacheMetrics { hits: 0, misses: 0, negative_hits: 0 }),
    {
        CacheMetrics { hits: 0, misses: 0, negative_hits: 0 }
    }
}

impl CacheMetrics {
    /// The counters after a lookup.
    pub open spec fn served(self, was_present: bool, lookup: LookupView) -> CacheMetrics {
        if !was_present {
            CacheMetrics { misses: counted(self.misses, 1), ..self }
        } else if lookup is NotFound {
            CacheMetrics {
                hits: counted(self.hits, 1),
                negative_hits: counted(self.negative_hits, 1),
                ..self
            }
        } else {
            CacheMetrics { hits: counted(self.hits, 1), ..self }
        }
    }

    /// Count a lookup, by whether the cache held its outcome and what the outcome is.
    pub fn count(&mut self, was_present: bool, lookup: &Lookup)
        ensures
            *final(self) == old(self).served(was_present, lookup@),
    {
        if was_present {
            self.hits = self.hits.wrapping_add(1);
            if let Lookup::NotFound = lookup {
                self.negative_hits = self.negative_hits.wrapping_add(1);
            }
        } else {
            self.misses = self.misses.wrapping_add(1);
        }
    }
}

/// How long outcomes are kept, and how many.
#[derive(Clone, Copy, Debug, PartialEq, Eq, Structural)]
pub struct CacheConfig {
    /// How long a key is kept, in seconds: long enough to matter, and short enough that a key
    /// rotated under the same label takes effect within minutes.
    pub ttl: u64,
    /// How long it is kept that there is no key, in seconds.
    pub negative_ttl: u64,
    pub max_entries: u64,
}

impl CacheConfig {
    /// The settings where nothing else is configured.
    pub open spec fn spec_default() -> CacheConfig {
        CacheConfig { ttl: 300, negative_ttl: 30, max_entries: 1024 }
    }

    /// The settings from the values of `CACHE_TTL_SECS`, `CACHE_NEGATIVE_TTL_SECS` and
    /// `CACHE_MAX_ENTRIES`. A value that is missing or is no number leaves the default.
    pub fn from_env(
        ttl_secs: Option<String>,
        negative_ttl_secs: Option<String>,
        max_entries: Option<String>,
    ) -> (config: CacheConfig)
        ensures
            config.ttl == text::setting_or(ttl_secs, u64::MAX, 300),
            config.negative_ttl == text::setting_or(negative_ttl_secs, u64::MAX, 30),
            config.max_entries == text::setting_or(max_entries, u64::MAX, 1024),
    {
        let defaults = CacheConfig::default();
        CacheConfig {
            ttl: text::read_setting_or(&ttl_secs, u64::MAX, defaults.ttl),
            negative_ttl: text::read_setting_or(
                &negative_ttl_secs,
                u64::MAX,
                defaults.negative_ttl,
            ),
            max_entries: text::read_setting_or(&max_entries, u64::MAX, defaults.max_entries),
        }
    }

    /// How long an outcome is kept, in seconds.
    pub fn ttl_of(&self, lookup: &Lookup) -> (secs: u64)
        ensures
            secs == (if lookup@ is NotFound {
                self.negative_ttl
            } else {
                self.ttl
            }),
    {
        match lookup {
            Lookup::Found(_) => self.ttl,
            Lookup::NotFound => self.negative_ttl,
        }
    }
}

impl Default for CacheConfig {
    fn default() -> (config: CacheConfig)
        ensures
            config == CacheConfig::spec_default(),
    {
        CacheConfig { ttl: 300, negative_ttl: 30, max_entries: 1024 }
    }
}

/// The cache holds nothing but public keys and the absence of keys: of every other answer of a
/// worker, and of every failure but a missing key, it keeps nothing.
pub proof fn law_only_public_keys_are_kept(answer: Result<JobResponseView, PoolErrorView>)
    ensures
        lookup_of(answer) is Ok <==> (answer matches Ok(JobResponseView::PublicKey { .. }))
            || (answer matches Err(PoolErrorView::KeyNotFound(_))),
{
}

/// A key is kept as the token gave it, a missing key is kept as missing, and any other failure is
/// passed on as it is.
pub proof fn law_a_key_is_kept_as_it_was_given(
    spki_der: Seq<u8>,
    key_type: Seq<char>,
    label: Seq<char>,
    error: PoolErrorView,
)
    requires
        !(error is KeyNotFound),
    ensures
        lookup_of(Ok(JobResponseView::PublicKey { spki_der, key_type })) == Ok::<_, PoolErrorView>(
            LookupView::Found { spki_der, key_type },
        ),
        lookup_of(Err(PoolErrorView::KeyNotFound(label))) == Ok::<_, PoolErrorView>(
            LookupView::NotFound,
        ),
        lookup_of(Err(error)) == Err::<LookupView, _>(error),
{
}

/// A worker that answers something else has failed.
pub proof fn law_another_answer_is_a_failure(answer: JobResponseView)
    requires
        !(answer is PublicKey),
    ensures
        lookup_of(Ok(answer)) matches Err(PoolErrorView::Internal(_)),
{
}

/// Every lookup is counted once, as a hit or as a miss, and a hit that is the absence of a key
/// once more as that.
pub proof fn law_every_lookup_is_counted(
    metrics: CacheMetrics,
    was_present: bool,
    lookup: LookupView,
)
    requires
        metrics.hits < u64::MAX,
        metrics.misses < u64::MAX,
        metrics.negative_hits < u64::MAX,
    ensures
        ({
            let after = metrics.served(was_present, lookup);
            &&& after.hits == metrics.hits + (if was_present {
                1int
            } else {
                0int
            })
            &&& after.misses == metrics.misses + (if was_present {
                0int
            } else {
                1int
            })
            &&& after.negative_hits == metrics.negative_hits + (if was_present
                && lookup is NotFound {
                1int
            } else {
                0int
            })
        }),
{
}

/// The absence of a key is kept for a shorter time than a key, where nothing else is configured.
pub proof fn law_absence_is_kept_for_a_shorter_time()
    ensures
        CacheConfig::spec_default().negative_ttl < CacheConfig::spec_default().ttl,
        CacheConfig::spec_default().ttl == 5 * 60,
        CacheConfig::spec_default().max_entries > 0,
{
}

} // verus!
