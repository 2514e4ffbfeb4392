//! What is measured, under which names, and what each event and sample counts.

use vstd::prelude::*;

use crate::cache::CacheMetrics;
use crate::grpc::pooled::Admission;
use crate::pkcs11::metrics::PoolMetrics;
use crate::resilience::breaker::CircuitBreaker;
use crate::status::{self, Code};

verus! {

pub const REQUESTS_TOTAL: &'static str = "hsm_requests_total";

pub const REQUEST_DURATION: &'static str = "hsm_request_duration_seconds";

pub const QUEUE_WAIT: &'static str = "hsm_queue_wait_seconds";

pub const HSM_SERVICE: &'static str = "hsm_service_duration_seconds";

pub const QUEUE_DEPTH: &'static str = "hsm_queue_depth";

pub const WORKERS: &'static str = "hsm_workers";

pub const CACHE_HITS: &'static str = "hsm_cache_hits_total";

pub const CACHE_MISSES: &'static str = "hsm_cache_misses_total";

pub const CACHE_ENTRIES: &'static str = "hsm_cache_entries";

pub const AUTHZ_DENIED: &'static str = "hsm_authz_denied_total";

pub const AUTHZ_ALLOWED: &'static str = "hsm_authz_allowed_total";

pub const UNAUTHENTICATED: &'static str = "hsm_unauthenticated_total";

pub const SHED_TOTAL: &'static str = "hsm_shed_total";

pub const RATE_LIMITED: &'static str = "hsm_rate_limited_total";

pub const BREAKER_STATE: &'static str = "hsm_circuit_breaker_state";

pub const BREAKER_TRIPS: &'static str = "hsm_circuit_breaker_trips_total";

pub const SESSION_RESETS: &'static str = "hsm_session_resets_total";

/// The kinds of metric.
#[derive(Clone, Copy, Debug, PartialEq, Eq, Structural)]
pub enum MetricKind {
    Counter,
    Gauge,
    /// A histogram of seconds.
    Histogram,
}

/// A metric and what it says.
#[derive(Clone, Copy, Debug)]
pub struct Description {
    pub kind: MetricKind,
    pub name: &'static str,
    pub text: &'static str,
}

/// The value of a [`Description`].
#[verifier::ext_equal]
pub struct DescriptionView {
    pub kind: MetricKind,
    pub name: Seq<char>,
    pub text: Seq<char>,
}

impl View for Description {
    type V = DescriptionView;

    open spec fn view(&self) -> DescriptionView {
        DescriptionView { kind: self.kind, name: self.name@, text: self.text@ }
    }
}

/// A described metric.
pub open spec fn described(kind: MetricKind, name: Seq<char>, text: Seq<char>) -> DescriptionView {
    DescriptionView { kind, name, text }
}

fn description(kind: MetricKind, name: &'static str, text: &'static str) -> (description:
    Description)
    ensures
        description@ == described(kind, name@, text@),
{
    Description { kind, name, text }
}

/// Every metric, with what it says.
pub open spec fn descriptions() -> Seq<DescriptionView> {
    seq![
        described(
            MetricKind::Counter,
            REQUESTS_TOTAL@,
            "gRPC requests by operation and result"@,
        ),
        described(
            MetricKind::Histogram,
            REQUEST_DURATION@,
            "End-to-end request latency, measured inside the handler"@,
        ),
        described(MetricKind::Histogram, QUEUE_WAIT@, "Time a job waited for a worker"@),
        described(MetricKind::Histogram, HSM_SERVICE@, "Time a worker spent in PKCS#11"@),
        described(MetricKind::Gauge, QUEUE_DEPTH@, "Jobs currently waiting for a worker"@),
        described(
            MetricKind::Gauge,
            WORKERS@,
            "Worker threads, each owning one PKCS#11 session"@,
        ),
        described(MetricKind::Counter, CACHE_HITS@, "Public key cache hits"@),
        described(MetricKind::Counter, CACHE_MISSES@, "Public key cache misses"@),
        described(MetricKind::Gauge, CACHE_ENTRIES@, "Public keys currently cached"@),
        described(
            MetricKind::Counter,
            AUTHZ_DENIED@,
            "Requests denied by the authorization policy"@,
        ),
        described(
            MetricKind::Counter,
            AUTHZ_ALLOWED@,
            "Requests permitted by the authorization policy"@,
        ),
        described(
            MetricKind::Counter,
            UNAUTHENTICATED@,
            "Requests with no usable client certificate"@,
        ),
        described(
            MetricKind::Counter,
            SHED_TOTAL@,
            "Requests shed because the queue was full"@,
        ),
        described(
            MetricKind::Counter,
            RATE_LIMITED@,
            "Requests rejected by the per-identity rate limit"@,
        ),
        described(
            MetricKind::Gauge,
            BREAKER_STATE@,
            "Circuit breaker: 0 closed, 1 open, 2 half-open"@,
        ),
        described(
            MetricKind::Counter,
            BREAKER_TRIPS@,
            "Times the circuit breaker has opened"@,
        ),
        described(
            MetricKind::Counter,
            SESSION_RESETS@,
            "PKCS#11 sessions reopened after a fatal error"@,
        ),
    ]
}

/// Every metric, with what it says, so that the metrics endpoint documents itself.
pub fn describe() -> (all: Vec<Description>)
    ensures
        all@.map_values(|d: Description| d@) == descriptions(),
{
    let all: Vec<Description> = vec![
        description(
            MetricKind::Counter,
            REQUESTS_TOTAL,
            "gRPC requests by operation and result",
        ),
        description(
            MetricKind::Histogram,
            REQUEST_DURATION,
            "End-to-end request latency, measured inside the handler",
        ),
        description(MetricKind::Histogram, QUEUE_WAIT, "Time a job waited for a worker"),
        description(MetricKind::Histogram, HSM_SERVICE, "Time a worker spent in PKCS#11"),
        description(MetricKind::Gauge, QUEUE_DEPTH, "Jobs currently waiting for a worker"),
        description(
            MetricKind::Gauge,
            WORKERS,
            "Worker threads, each owning one PKCS#11 session",
        ),
        description(MetricKind::Counter, CACHE_HITS, "Public key cache hits"),
        description(MetricKind::Counter, CACHE_MISSES, "Public key cache misses"),
        description(MetricKind::Gauge, CACHE_ENTRIES, "Public keys currently cached"),
        description(
            MetricKind::Counter,
            AUTHZ_DENIED,
            "Requests denied by the authorization policy",
        ),
        description(
            MetricKind::Counter,
            AUTHZ_ALLOWED,
            "Requests permitted by the authorization policy",
        ),
        description(
            MetricKind::Counter,
            UNAUTHENTICATED,
            "Requests with no usable client certificate",
        ),
        description(
            MetricKind::Counter,
            SHED_TOTAL,
            "Requests shed because the queue was full",
        ),
        description(
            MetricKind::Counter,
            RATE_LIMITED,
            "Requests rejected by the per-identity rate limit",
        ),
        description(
            MetricKind::Gauge,
            BREAKER_STATE,
            "Circuit breaker: 0 closed, 1 open, 2 half-open",
        ),
        description(
            MetricKind::Counter,
            BREAKER_TRIPS,
            "Times the circuit breaker has opened",
        ),
        description(
            MetricKind::Counter,
            SESSION_RESETS,
            "PKCS#11 sessions reopened after a fatal error",
        ),
    ];
    assert(all@.map_values(|d: Description| d@) =~= descriptions());
    all
}

/// The upper bounds of the request latency histogram, in microseconds.
///
/// They are dense from 100 microseconds to 2 milliseconds, where the latency budget lies, and
/// sparse above, where the only question is how bad it is.
pub open spec fn request_bounds() -> Seq<u64> {
    seq![
        100u64, 250, 500, 750, 1_000, 1_250, 1_500, 1_750, 2_000, 3_000, 5_000, 7_500, 10_000,
        25_000, 50_000, 100_000, 500_000, 1_000_000,
    ]
}

/// The upper bounds of the histograms of queue wait and service time, in microseconds.
pub open spec fn internal_bounds() -> Seq<u64> {
    seq![
        10u64, 25, 50, 100, 250, 500, 750, 1_000, 2_500, 5_000, 10_000, 50_000, 100_000,
    ]
}

/// The upper bounds of the request latency histogram, in microseconds.
pub fn request_buckets_micros() -> (bounds: Vec<u64>)
    ensures
        bounds@ == request_bounds(),
{
    let bounds: Vec<u64> = vec![
        100u64, 250, 500, 750, 1_000, 1_250, 1_500, 1_750, 2_000, 3_000, 5_000, 7_500, 10_000,
        25_000, 50_000, 100_000, 500_000, 1_000_000,
    ];
    assert(bounds@ =~= request_bounds());
    bounds
}

/// The upper bounds of the histograms of queue wait and service time, in microseconds.
pub fn internal_buckets_micros() -> (bounds: Vec<u64>)
    ensures
        bounds@ == internal_bounds(),
{
    let bounds: Vec<u64> = vec![
        10u64, 25, 50, 100, 250, 500, 750, 1_000, 2_500, 5_000, 10_000, 50_000, 100_000,
    ];
    assert(bounds@ =~= internal_bounds());
    bounds
}

/// How a finished request is counted: the result that it is labelled with, and the counters that
/// it adds to besides.
///
/// None of them holds anything that a caller chose: an unbounded set of labels is how a metrics
/// endpoint runs out of memory.
#[derive(Clone, Debug)]
pub struct RequestRecord {
    pub result: &'static str,
    /// Each counter, and whether it is labelled with the operation.
    pub counters: Vec<(&'static str, bool)>,
}

/// The counters that a finished request adds to, each with whether it is labelled with the
/// operation. They go by how the request fared with the guards, whatever came of it then: one that
/// is over its limit was permitted first, and one that a full queue shed is not over any limit.
pub open spec fn counters_of(fared: Admission) -> Seq<(Seq<char>, bool)> {
    match fared {
        Admission::CircuitOpen | Admission::Unchecked => seq![],
        Admission::Unidentified => seq![(UNAUTHENTICATED@, false)],
        Admission::Denied => seq![(AUTHZ_DENIED@, true)],
        Admission::OverLimit => seq![(AUTHZ_ALLOWED@, true), (RATE_LIMITED@, true)],
        Admission::Permitted => seq![(AUTHZ_ALLOWED@, true)],
    }
}

/// The values of a list of counters.
pub open spec fn counter_views(counters: Seq<(&'static str, bool)>) -> Seq<(Seq<char>, bool)> {
    counters.map_values(|counter: (&'static str, bool)| (counter.0@, counter.1))
}

/// How a finished request is counted, given how it fared with the guards, and the code of its
/// failure where it failed.
pub fn record(fared: Admission, failure: Option<Code>) -> (record: RequestRecord)
    ensures
        record.result@ == (match failure {
            None => "ok"@,
            Some(code) => code.spec_description(),
        }),
        counter_views(record.counters@) == counters_of(fared),
{
    let result = match failure {
        None => "ok",
        Some(code) => status::description(code),
    };
    let counters: Vec<(&'static str, bool)> = match fared {
        Admission::CircuitOpen | Admission::Unchecked => Vec::new(),
        Admission::Unidentified => vec![(UNAUTHENTICATED, false)],
        Admission::Denied => vec![(AUTHZ_DENIED, true)],
        Admission::OverLimit => vec![(AUTHZ_ALLOWED, true), (RATE_LIMITED, true)],
        Admission::Permitted => vec![(AUTHZ_ALLOWED, true)],
    };
    assert(counter_views(counters@) =~= counters_of(fared));
    RequestRecord { result, counters }
}

/// The totals that were last sampled.
#[derive(Clone, Copy, Debug, PartialEq, Eq, Structural)]
pub struct Sampler {
    pub hits: u64,
    pub misses: u64,
    pub shed: u64,
    pub resets: u64,
}

/// What a sample adds to the counters, and the levels that it reads.
#[derive(Clone, Copy, Debug, PartialEq, Eq, Structural)]
pub struct Sample {
    pub hits: u64,
    pub misses: u64,
    pub shed: u64,
    pub resets: u64,
    pub breaker_state: u8,
    pub breaker_trips: u64,
}

/// What a total gained since it was last sampled; nothing where it shrank.
pub open spec fn gained(last: u64, total: u64) -> u64 {
    if total >= last {
        (total - last) as u64
    } else {
        0
    }
}

impl Sampler {
    /// A sampler that has sampled nothing.
    pub fn new() -> (sampler: Sampler)
        ensures
            sampler == (Sampler { hits: 0, misses: 0, shed: 0, resets: 0 }),
    {
        Sampler { hits: 0, misses: 0, shed: 0, resets: 0 }
    }

    /// Sample the totals.
    ///
    /// An exported counter is added to, so what it is given is what a total gained since the last
    /// sample, not the total.
    pub fn sample(&mut self, cache: &CacheMetrics, pool: &PoolMetrics, breaker: &CircuitBreaker) -> (sample:
        Sample)
        ensures
            *final(self) == (Sampler {
                hits: cache.hits,
                misses: cache.misses,
                shed: pool.jobs_rejected_queue_full,
                resets: pool.session_resets,
            }),
            sample == (Sample {
                hits: gained(old(self).hits, cache.hits),
                misses: gained(old(self).misses, cache.misses),
                shed: gained(old(self).shed, pool.jobs_rejected_queue_full),
                resets: gained(old(self).resets, pool.session_resets),
                breaker_state: breaker.state.spec_as_u8(),
                breaker_trips: breaker.trips,
            }),
    {
        let sample = Sample {
            hits: cache.hits.saturating_sub(self.hits),
            misses: cache.misses.saturating_sub(self.misses),
            shed: pool.jobs_rejected_queue_full.saturating_sub(self.shed),
            resets: pool.session_resets.saturating_sub(self.resets),
            breaker_state: breaker.state().as_u8(),
            breaker_trips: breaker.trips,
        };
        self.hits = cache.hits;
        self.misses = cache.misses;
        self.shed = pool.jobs_rejected_queue_full;
        self.resets = pool.session_resets;
        sample
    }
}

/// What a series of samples of one total adds to the exported counter, from nothing.
pub open spec fn exported(totals: Seq<u64>) -> int
    decreases totals.len(),
{
    if totals.len() == 0 {
        0
    } else {
        let last = if totals.len() == 1 {
            0
        } else {
            totals[totals.len() - 2]
        };
        exported(totals.drop_last()) + gained(last, totals.last())
    }
}

/// The exported counter follows the total: after any series of samples of a total that never
/// shrank, it stands where the total stood at the last one.
pub proof fn law_the_exported_counter_follows_the_total(totals: Seq<u64>)
    requires
        totals.len() > 0,
        forall|i: int, j: int| 0 <= i <= j < totals.len() ==> totals[i] <= totals[j],
    ensures
        exported(totals) == totals.last(),
    decreases totals.len(),
{
    if totals.len() > 1 {
        law_the_exported_counter_follows_the_total(totals.drop_last());
    } else {
        assert(exported(totals.drop_last()) == 0);
    }
}

/// A request is counted by how it fared: whoever the policy permitted is counted as permitted,
/// within their limit or not, and every refusal under its own name.
pub proof fn law_a_request_is_counted_by_how_it_fared(fared: Admission)
    ensures
        counters_of(fared).contains((AUTHZ_ALLOWED@, true)) <==> fared is Permitted || fared
            is OverLimit,
        counters_of(fared).contains((RATE_LIMITED@, true)) <==> fared is OverLimit,
        counters_of(fared).contains((AUTHZ_DENIED@, true)) <==> fared is Denied,
        counters_of(fared).contains((UNAUTHENTICATED@, false)) <==> fared is Unidentified,
        fared is CircuitOpen || fared is Unchecked ==> counters_of(fared).len() == 0,
        counters_of(fared).no_duplicates(),
{
    reveal_strlit("hsm_authz_allowed_total");
    reveal_strlit("hsm_rate_limited_total");
    reveal_strlit("hsm_authz_denied_total");
    reveal_strlit("hsm_unauthenticated_total");
    assert(AUTHZ_ALLOWED@.len() == 23);
    assert(RATE_LIMITED@.len() == 22);
    assert(AUTHZ_DENIED@.len() == 22);
    assert(UNAUTHENTICATED@.len() == 25);
    assert(RATE_LIMITED@[4] == 'r');
    assert(AUTHZ_DENIED@[4] == 'a');
    let counters = counters_of(fared);
    if counters.len() > 0 {
        assert(counters.contains(counters[0]));
    }
    if counters.len() > 1 {
        assert(counters.contains(counters[1]));
    }
}

/// The bounds of a histogram rise, and the latency budget of two milliseconds is one of them.
pub proof fn law_the_bounds_rise(i: int, j: int)
    ensures
        0 <= i < j < request_bounds().len() ==> request_bounds()[i] < request_bounds()[j],
        0 <= i < j < internal_bounds().len() ==> internal_bounds()[i] < internal_bounds()[j],
        request_bounds().contains(2_000u64),
{
    assert(request_bounds()[8] == 2_000);
}

/// What a total gained is what brings its last sample up to it; a total that shrank gained nothing.
pub proof fn law_a_gain_is_the_difference(last: u64, total: u64)
    ensures
        total >= last ==> last + gained(last, total) == total,
        total < last ==> gained(last, total) == 0,
{
}

/// The bounds reach from the quickest request to the slowest: they are no more than a quarter of a
/// millisecond apart within the latency budget, and end at a second, and at a tenth of one inside
/// the proxy.
pub proof fn law_the_bounds_cover_the_budget(i: int)
    ensures
        request_bounds()[0] == 100,
        request_bounds().last() == 1_000_000,
        internal_bounds()[0] == 10,
        internal_bounds().last() == 100_000,
        0 <= i < request_bounds().len() - 1 && request_bounds()[i + 1] <= 2_000
            ==> request_bounds()[i + 1] - request_bounds()[i] <= 250,
        request_bounds().len() == 18,
        internal_bounds().len() == 13,
{
}

/// Does the name end like this?
pub open spec fn ends_with(name: Seq<char>, end: Seq<char>) -> bool {
    name.len() >= end.len() && name.skip(name.len() - end.len()) == end
}

proof fn lemma_ends(name: Seq<char>, end: Seq<char>, at: int)
    requires
        0 <= at < end.len() <= name.len(),
        name[name.len() - end.len() + at] != end[at],
    ensures
        !ends_with(name, end),
{
    assert(name.skip(name.len() - end.len())[at] == name[name.len() - end.len() + at]);
}

/// A metric is what its name says: a counter is a total, and a histogram is of seconds.
pub proof fn law_a_metric_is_what_its_name_says(i: int)
    requires
        0 <= i < descriptions().len(),
    ensures
        descriptions()[i].kind is Counter <==> ends_with(descriptions()[i].name, "_total"@),
        descriptions()[i].kind is Histogram <==> ends_with(descriptions()[i].name, "_seconds"@),
{
    reveal_strlit("_total");
    reveal_strlit("_seconds");
    reveal_strlit("hsm_requests_total");
    reveal_strlit("hsm_request_duration_seconds");
    reveal_strlit("hsm_queue_wait_seconds");
    reveal_strlit("hsm_service_duration_seconds");
    reveal_strlit("hsm_queue_depth");
    reveal_strlit("hsm_workers");
    reveal_strlit("hsm_cache_hits_total");
    reveal_strlit("hsm_cache_misses_total");
    reveal_strlit("hsm_cache_entries");
    reveal_strlit("hsm_authz_denied_total");
    reveal_strlit("hsm_authz_allowed_total");
    reveal_strlit("hsm_unauthenticated_total");
    reveal_strlit("hsm_shed_total");
    reveal_strlit("hsm_rate_limited_total");
    reveal_strlit("hsm_circuit_breaker_state");
    reveal_strlit("hsm_circuit_breaker_trips_total");
    reveal_strlit("hsm_session_resets_total");
    let described = descriptions()[i];
    let name = described.name;
    let total = "_total"@;
    let seconds = "_seconds"@;
    if described.kind is Counter {
        assert(name.skip(name.len() - 6) =~= total);
        lemma_ends(name, seconds, 7);
    } else if described.kind is Histogram {
        assert(name.skip(name.len() - 8) =~= seconds);
        lemma_ends(name, total, 5);
    } else {
        lemma_ends(name, total, 5);
        if name.last() != 's' {
            lemma_ends(name, seconds, 7);
        } else {
            lemma_ends(name, seconds, 6);
        }
    }
}

} // verus!
