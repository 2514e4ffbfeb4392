//! Per-identity rate limiting with token buckets.
//!
//! The key is the workload identity rather than a connection or an address, because what is
//! worth protecting is fair share between callers. `governor` keeps the buckets, and `moka`
//! bounds how many of them there are.

use std::sync::Arc;

use vstd::prelude::*;

use crate::pkcs11::metrics::counted;
use crate::text;

verus! {

/// A `moka::sync::Cache` of `governor` rate limiters, one for each identity.
#[verifier::external_body]
pub struct Buckets {
    cache: moka::sync::Cache<String, Arc<governor::DefaultDirectRateLimiter>>,
}

/// The buckets that the cache holds: for each identity, how many tokens were taken from its
/// bucket since the bucket was made, and how many a full bucket holds.
pub uninterp spec fn bucket_states(buckets: Buckets) -> Map<Seq<char>, (nat, nat)>;

/// How many buckets the cache was made to hold.
pub uninterp spec fn bucket_limit(buckets: Buckets) -> nat;

/// The rates of the buckets that the cache holds: for each identity, how many tokens its bucket
/// gains each second.
pub uninterp spec fn bucket_rates(buckets: Buckets) -> Map<Seq<char>, nat>;

/// No rates.
pub open spec fn no_rates() -> Map<Seq<char>, nat> {
    Map::empty()
}

/// No buckets.
pub open spec fn no_buckets() -> Map<Seq<char>, (nat, nat)> {
    Map::empty()
}

/// Has the identity tokens left that its full bucket held? One without a bucket has, for a new
/// bucket is full.
pub open spec fn within_burst(held: Map<Seq<char>, (nat, nat)>, identity: Seq<char>) -> bool {
    held.contains_key(identity) ==> held[identity].0 < held[identity].1
}

/// Is there room for the identity's bucket, in a cache that holds `limit` of them, beside those
/// that are there?
pub open spec fn has_room(
    held: Map<Seq<char>, (nat, nat)>,
    identity: Seq<char>,
    limit: nat,
) -> bool {
    let together = held.dom().insert(identity);
    together.finite() && together.len() <= limit
}

/// What is left of the buckets after one token was asked for, of a bucket of this size, in a
/// cache that holds `limit` of them.
///
/// Where there is room for the identity's bucket, every bucket is still there; elsewhere the cache
/// may have dropped any. The asked identity's bucket has given a token or none, or is a new one
/// that gave its first, and every other bucket that is still there is untouched.
pub open spec fn asked(
    before: Map<Seq<char>, (nat, nat)>,
    after: Map<Seq<char>, (nat, nat)>,
    identity: Seq<char>,
    burst: nat,
    limit: nat,
    allowed: bool,
) -> bool {
    &&& within_burst(before, identity) ==> allowed
    &&& has_room(before, identity, limit) ==> after.dom() == before.dom().insert(identity)
    &&& forall|other: Seq<char>|
        other != identity && #[trigger] after.contains_key(other) ==> before.contains_key(other)
            && after[other] == before[other]
    &&& after.contains_key(identity) ==> {
        ||| allowed && after[identity] == (1nat, burst) && !(before.contains_key(identity)
            && has_room(before, identity, limit))
        ||| before.contains_key(identity) && after[identity] == (
            before[identity].0 + if allowed {
                1nat
            } else {
                0nat
            },
            before[identity].1,
        )
    }
}

/// The rates of the buckets after one token was asked for, of a bucket of this rate: every bucket
/// has one, and each that was there keeps its own, unless it is a new one of the asked identity.
pub open spec fn rated(
    before: Map<Seq<char>, nat>,
    after: Map<Seq<char>, nat>,
    identity: Seq<char>,
    rate: nat,
) -> bool {
    forall|other: Seq<char>| #[trigger]
        after.contains_key(other) ==> (other == identity && after[other] == rate) || (
        before.contains_key(other) && after[other] == before[other])
}

/// `moka::sync::Cache::builder`, `max_capacity` and `build`: a cache that holds nothing, and is
/// made to hold as many buckets as are asked for.
#[verifier::external_body]
fn new_buckets(max_identities: u64) -> (buckets: Buckets)
    ensures
        bucket_states(buckets) == no_buckets(),
        bucket_rates(buckets) == no_rates(),
        bucket_limit(buckets) == max_identities,
{
    Buckets { cache: moka::sync::Cache::builder().max_capacity(max_identities).build() }
}

/// `governor::RateLimiter::check` on the bucket that `moka::sync::Cache::get_with_by_ref` gives
/// for the identity, which is a new and full one of this rate and size where the cache holds none.
///
/// A bucket refuses no one before as many tokens were taken as it holds when full, and a refusal
/// takes none. Whether a bucket from which more were taken has been refilled depends on the
/// time, so nothing is said of that. The cache takes a new bucket in while there is room, and
/// drops none unless it holds more than it was made for; which ones it drops then is not said.
#[verifier::external_body]
fn take_token(buckets: &mut Buckets, identity: &str, per_second: u32, burst: u32) -> (allowed: bool)
    requires
        per_second > 0,
        burst > 0,
    ensures
        bucket_limit(*final(buckets)) == bucket_limit(*old(buckets)),
        bucket_rates(*final(buckets)).dom() == bucket_states(*final(buckets)).dom(),
        rated(
            bucket_rates(*old(buckets)),
            bucket_rates(*final(buckets)),
            identity@,
            per_second as nat,
        ),
        asked(
            bucket_states(*old(buckets)),
            bucket_states(*final(buckets)),
            identity@,
            burst as nat,
            bucket_limit(*old(buckets)),
            allowed,
        ),
{
    let per_second = std::num::NonZeroU32::new(per_second).unwrap();
    let burst = std::num::NonZeroU32::new(burst).unwrap();
    let quota = governor::Quota::per_second(per_second).allow_burst(burst);
    let full = Arc::new(governor::RateLimiter::direct(quota));
    buckets.cache.get_with_by_ref(identity, || full).check().is_ok()
}

/// How much each identity may ask for.
#[derive(Clone, Copy, Debug, PartialEq, Eq, Structural)]
pub struct RateLimitConfig {
    /// Requests per second that each identity may sustain.
    pub per_second: u32,
    /// Requests that are tolerated in a burst.
    pub burst: u32,
    /// How many identities are kept track of, so that the map cannot grow without bound.
    pub max_identities: u64,
}

impl RateLimitConfig {
    /// The settings where nothing else is configured.
    ///
    /// They are high on purpose: they exist to stop one caller from monopolising the service,
    /// not to be a quota.
    pub open spec fn spec_default() -> RateLimitConfig {
        RateLimitConfig { per_second: 20_000, burst: 2_000, max_identities: 4_096 }
    }

    /// The settings from the values of `RATE_LIMIT_PER_SECOND` and `RATE_LIMIT_BURST`.
    ///
    /// Without a rate there is no rate limiting: a guessed limit would risk rejecting load that
    /// nobody asked to reject.
    pub fn from_env(per_second: Option<String>, burst: Option<String>) -> (config: Option<
        RateLimitConfig,
    >)
        ensures
            config == (match text::setting(per_second, u32::MAX as u64) {
                None => None::<RateLimitConfig>,
                Some(rate) => Some(
                    RateLimitConfig {
                        per_second: rate as u32,
                        burst: match text::setting(burst, u32::MAX as u64) {
                            Some(burst) => burst as u32,
                            None => RateLimitConfig::spec_default().burst,
                        },
                        max_identities: RateLimitConfig::spec_default().max_identities,
                    },
                ),
            }),
    {
        let rate = match text::read_setting(&per_second, u32::MAX as u64) {
            Some(rate) => rate,
            None => return None,
        };
        let defaults = RateLimitConfig::default();
        Some(
            RateLimitConfig {
                per_second: rate as u32,
                burst: match text::read_setting(&burst, u32::MAX as u64) {
                    Some(burst) => burst as u32,
                    None => defaults.burst,
                },
                max_identities: defaults.max_identities,
            },
        )
    }
}

impl Default for RateLimitConfig {
    fn default() -> (config: RateLimitConfig)
        ensures
            config == RateLimitConfig::spec_default(),
    {
        RateLimitConfig { per_second: 20_000, burst: 2_000, max_identities: 4_096 }
    }
}

/// A setting of zero counts as one.
pub open spec fn at_least_one(setting: u32) -> u32 {
    if setting == 0 {
        1
    } else {
        setting
    }
}

/// Token buckets, one for each identity.
pub struct RateLimiter {
    pub buckets: Buckets,
    /// How many tokens a bucket gains each second.
    pub per_second: u32,
    /// How many tokens a full bucket holds.
    pub burst: u32,
    /// How many requests were let through.
    pub allowed: u64,
    /// How many requests were refused.
    pub rejected: u64,
}

impl RateLimiter {
    /// The buckets that are held.
    pub open spec fn held(&self) -> Map<Seq<char>, (nat, nat)> {
        bucket_states(self.buckets)
    }

    /// The rates of the buckets that are held.
    pub open spec fn rates(&self) -> Map<Seq<char>, nat> {
        bucket_rates(self.buckets)
    }

    /// How many buckets are held at once.
    pub open spec fn limit(&self) -> nat {
        bucket_limit(self.buckets)
    }

    /// What every limiter keeps to: its rate and its buckets are not empty, and each bucket that
    /// is held has the limiter's size and the limiter's rate.
    pub open spec fn well_formed(&self) -> bool {
        &&& self.per_second > 0
        &&& self.burst > 0
        &&& forall|identity: Seq<char>| #[trigger]
            self.held().contains_key(identity) ==> self.held()[identity].1 == self.burst
        &&& self.rates().dom() == self.held().dom()
        &&& forall|identity: Seq<char>| #[trigger]
            self.rates().contains_key(identity) ==> self.rates()[identity] == self.per_second
    }

    /// A limiter that has seen no one yet.
    pub fn new(config: RateLimitConfig) -> (limiter: RateLimiter)
        ensures
            limiter.well_formed(),
            limiter.held() == no_buckets(),
            limiter.limit() == config.max_identities,
            limiter.per_second == at_least_one(config.per_second),
            limiter.burst == at_least_one(config.burst),
            limiter.allowed == 0,
            limiter.rejected == 0,
    {
        let per_second: u32 = if config.per_second == 0 {
            1
        } else {
            config.per_second
        };
        let burst: u32 = if config.burst == 0 {
            1
        } else {
            config.burst
        };
        RateLimiter {
            buckets: new_buckets(config.max_identities),
            per_second,
            burst,
            allowed: 0,
            rejected: 0,
        }
    }

    /// Take one token for the identity. `false` means that the caller is over their limit.
    pub fn check(&mut self, identity: &str) -> (allowed: bool)
        requires
            old(self).well_formed(),
        ensures
            final(self).well_formed(),
            final(self).per_second == old(self).per_second,
            final(self).burst == old(self).burst,
            final(self).limit() == old(self).limit(),
            asked(
                old(self).held(),
                final(self).held(),
                identity@,
                old(self).burst as nat,
                old(self).limit(),
                allowed,
            ),
            final(self).allowed == counted(
                old(self).allowed,
                if allowed {
                    1
                } else {
                    0
                },
            ),
            final(self).rejected == counted(
                old(self).rejected,
                if allowed {
                    0
                } else {
                    1
                },
            ),
    {
        let allowed = take_token(&mut self.buckets, identity, self.per_second, self.burst);
        if allowed {
            self.allowed = self.allowed.wrapping_add(1);
        } else {
            self.rejected = self.rejected.wrapping_add(1);
        }
        assert forall|other: Seq<char>| #[trigger] self.held().contains_key(other) implies
            self.held()[other].1 == self.burst by {
            let before = old(self).held();
            if other == identity@ && before.contains_key(other) {
                assert(before[other].1 == self.burst);
            }
        }
        allowed
    }
}

/// One caller's requests never cost another caller a token: whoever was within their burst before
/// someone else asked is within it afterwards.
pub proof fn law_identities_are_isolated(
    before: Map<Seq<char>, (nat, nat)>,
    after: Map<Seq<char>, (nat, nat)>,
    identity: Seq<char>,
    burst: nat,
    limit: nat,
    allowed: bool,
    other: Seq<char>,
)
    requires
        asked(before, after, identity, burst, limit, allowed),
        other != identity,
        within_burst(before, other),
    ensures
        within_burst(after, other),
{
}

/// How many of the first `count` requests are by the identity.
pub open spec fn requests_by(identities: Seq<Seq<char>>, count: int, identity: Seq<char>) -> nat
    decreases count,
{
    if count <= 0 {
        0
    } else {
        requests_by(identities, count - 1, identity) + if identities[count - 1] == identity {
            1nat
        } else {
            0nat
        }
    }
}

/// A run of requests on a limiter that had seen no one: `held[i]` are the buckets before request
/// `i`, which is by `identities[i]` and is let through where `allowed[i]`; the cache holds `limit`
/// buckets.
pub open spec fn is_run(
    held: Seq<Map<Seq<char>, (nat, nat)>>,
    identities: Seq<Seq<char>>,
    allowed: Seq<bool>,
    burst: nat,
    limit: nat,
) -> bool {
    &&& held.len() == identities.len() + 1
    &&& allowed.len() == identities.len()
    &&& held[0] == no_buckets()
    &&& burst > 0
    &&& forall|i: int|
        0 <= i < identities.len() ==> asked(
            held[i],
            #[trigger] held[i + 1],
            identities[i],
            burst,
            limit,
            allowed[i],
        )
}

proof fn lemma_tokens_taken_are_requests(
    held: Seq<Map<Seq<char>, (nat, nat)>>,
    identities: Seq<Seq<char>>,
    allowed: Seq<bool>,
    burst: nat,
    limit: nat,
    count: int,
    identity: Seq<char>,
)
    requires
        is_run(held, identities, allowed, burst, limit),
        0 <= count <= identities.len(),
        held[count].contains_key(identity),
    ensures
        held[count][identity].0 <= requests_by(identities, count, identity),
        held[count][identity].1 == burst,
    decreases count,
{
    if count > 0 {
        let before = held[count - 1];
        assert(asked(
            before,
            held[count - 1 + 1],
            identities[count - 1],
            burst,
            limit,
            allowed[count - 1],
        ));
        if before.contains_key(identity) {
            lemma_tokens_taken_are_requests(
                held,
                identities,
                allowed,
                burst,
                limit,
                count - 1,
                identity,
            );
        }
    }
}

/// Every caller's first requests, up to the size of a burst, are let through, whatever everyone
/// else does in between.
pub proof fn law_a_burst_is_let_through(
    held: Seq<Map<Seq<char>, (nat, nat)>>,
    identities: Seq<Seq<char>>,
    allowed: Seq<bool>,
    burst: nat,
    limit: nat,
    index: int,
)
    requires
        is_run(held, identities, allowed, burst, limit),
        0 <= index < identities.len(),
        requests_by(identities, index, identities[index]) < burst,
    ensures
        allowed[index],
{
    assert(asked(
        held[index],
        held[index + 1],
        identities[index],
        burst,
        limit,
        allowed[index],
    ));
    if held[index].contains_key(identities[index]) {
        lemma_tokens_taken_are_requests(
            held,
            identities,
            allowed,
            burst,
            limit,
            index,
            identities[index],
        );
    }
}

/// How many of the first `count` requests are by the identity and were let through.
pub open spec fn let_through_for(
    identities: Seq<Seq<char>>,
    allowed: Seq<bool>,
    count: int,
    identity: Seq<char>,
) -> nat
    decreases count,
{
    if count <= 0 {
        0
    } else {
        let_through_for(identities, allowed, count - 1, identity) + if identities[count - 1]
            == identity && allowed[count - 1] {
            1nat
        } else {
            0nat
        }
    }
}

/// No token is forgotten: while no more identities call than the limiter keeps track of, every
/// caller keeps one bucket, of which exactly the tokens of their own requests were taken.
pub proof fn law_no_token_is_forgotten(
    held: Seq<Map<Seq<char>, (nat, nat)>>,
    identities: Seq<Seq<char>>,
    allowed: Seq<bool>,
    burst: nat,
    limit: nat,
    callers: Set<Seq<char>>,
    count: int,
)
    requires
        is_run(held, identities, allowed, burst, limit),
        callers.finite(),
        callers.len() <= limit,
        forall|i: int| 0 <= i < identities.len() ==> callers.contains(#[trigger] identities[i]),
        0 <= count <= identities.len(),
    ensures
        held[count].dom().subset_of(callers),
        forall|i: int| 0 <= i < count ==> held[count].contains_key(#[trigger] identities[i]),
        forall|identity: Seq<char>| #[trigger]
            held[count].contains_key(identity) ==> held[count][identity] == (
                let_through_for(identities, allowed, count, identity),
                burst,
            ),
        forall|identity: Seq<char>|
            !held[count].contains_key(identity) ==> #[trigger] let_through_for(
                identities,
                allowed,
                count,
                identity,
            ) == 0,
    decreases count,
{
    if count > 0 {
        let before = held[count - 1];
        let who = identities[count - 1];
        law_no_token_is_forgotten(held, identities, allowed, burst, limit, callers, count - 1);
        assert(asked(before, held[count - 1 + 1], who, burst, limit, allowed[count - 1]));
        let together = before.dom().insert(who);
        assert(together.subset_of(callers));
        vstd::set_lib::lemma_len_subset(together, callers);
        assert(has_room(before, who, limit));
        assert(held[count].dom() == together);
        if !before.contains_key(who) {
            assert(let_through_for(identities, allowed, count - 1, who) == 0);
        }
        assert forall|identity: Seq<char>| #[trigger]
            held[count].contains_key(identity) implies held[count][identity] == (
            let_through_for(identities, allowed, count, identity),
            burst,
        ) by {
            if identity != who {
                assert(before.contains_key(identity));
            }
        }
        assert forall|identity: Seq<char>| !held[count].contains_key(identity) implies
            #[trigger] let_through_for(identities, allowed, count, identity) == 0 by {
            assert(!before.contains_key(identity));
            assert(let_through_for(identities, allowed, count - 1, identity) == 0);
        }
    }
}

/// A limit that is set counts as it is set; only none at all counts as one.
pub proof fn law_a_limit_counts_as_it_is_set(setting: u32)
    ensures
        at_least_one(setting) >= 1,
        setting >= 1 ==> at_least_one(setting) == setting,
        setting == 0 ==> at_least_one(setting) == 1,
{
}

/// A request takes a token where it is let through, and none where it is not, and a caller whom
/// the limiter keeps track of is kept track of.
pub proof fn law_a_token_is_taken_where_one_is_given(
    before: Map<Seq<char>, (nat, nat)>,
    after: Map<Seq<char>, (nat, nat)>,
    identity: Seq<char>,
    burst: nat,
    limit: nat,
    allowed: bool,
)
    requires
        asked(before, after, identity, burst, limit, allowed),
        has_room(before, identity, limit),
        burst > 0,
    ensures
        after.contains_key(identity),
        before.contains_key(identity) ==> after[identity].0 == before[identity].0 + (if allowed {
            1int
        } else {
            0int
        }),
        before.contains_key(identity) && before[identity].0 < before[identity].1 ==> allowed,
        !before.contains_key(identity) ==> allowed && after[identity] == (1nat, burst),
{
}

/// Where nothing else is configured, a caller may sustain twenty thousand requests a second, and
/// burst by a tenth of that.
pub proof fn law_the_default_limit_is_high()
    ensures
        RateLimitConfig::spec_default().per_second == 20 * 1_000,
        10 * RateLimitConfig::spec_default().burst == RateLimitConfig::spec_default().per_second,
        RateLimitConfig::spec_default().max_identities == 4 * 1_024,
{
}

} // verus!
