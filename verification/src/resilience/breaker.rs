//! A circuit breaker over a rolling window of request outcomes.
//!
//! The point is not to make failures succeed, but to stop paying for them: while the token is
//! broken, an open circuit turns a slow failure into a fast one.
//!
//! Time is a number of nanoseconds since some fixed instant, and every method that depends on
//! the time takes it as an argument.

use vstd::prelude::*;

use crate::pkcs11::metrics::counted;
use crate::text;

verus! {

/// The state of the circuit.
#[derive(Clone, Copy, Debug, PartialEq, Eq, Structural)]
pub enum State {
    /// Normal operation; requests pass through.
    Closed,
    /// Failing; requests are rejected at once, without touching the token.
    Open,
    /// Probing; a limited number of requests pass through to test whether the token has
    /// recovered.
    HalfOpen,
}

impl State {
    /// The number that stands for the state.
    pub open spec fn spec_as_u8(self) -> u8 {
        match self {
            State::Closed => 0,
            State::Open => 1,
            State::HalfOpen => 2,
        }
    }

    /// The state that a number stands for; every number that stands for no other state stands
    /// for the closed one.
    pub open spec fn spec_from_u8(value: u8) -> State {
        if value == 1 {
            State::Open
        } else if value == 2 {
            State::HalfOpen
        } else {
            State::Closed
        }
    }

    /// The number that stands for the state.
    pub fn as_u8(self) -> (value: u8)
        ensures
            value == self.spec_as_u8(),
    {
        match self {
            State::Closed => 0,
            State::Open => 1,
            State::HalfOpen => 2,
        }
    }

    /// The state that a number stands for.
    pub fn from_u8(value: u8) -> (state: State)
        ensures
            state == State::spec_from_u8(value),
    {
        match value {
            1 => State::Open,
            2 => State::HalfOpen,
            _ => State::Closed,
        }
    }

    /// The state's name.
    pub fn as_str(self) -> (name: &'static str)
        ensures
            name@ == (match self {
                State::Closed => "closed"@,
                State::Open => "open"@,
                State::HalfOpen => "half_open"@,
            }),
    {
        match self {
            State::Closed => "closed",
            State::Open => "open",
            State::HalfOpen => "half_open",
        }
    }
}

/// The number that stands for a state gives the state back.
pub proof fn law_state_number_reads_back(state: State)
    ensures
        State::spec_from_u8(state.spec_as_u8()) == state,
{
}

/// A fraction.
#[derive(Clone, Copy, Debug, PartialEq, Eq, Structural)]
pub struct Ratio {
    pub numerator: u64,
    pub denominator: u64,
}

/// Ten to the power of `k`.
pub open spec fn ten_to(k: nat) -> nat
    decreases k,
{
    if k == 0 {
        1
    } else {
        10 * ten_to((k - 1) as nat)
    }
}

/// Is the decimal point at this place the first in the text?
pub open spec fn point_at(text: Seq<char>, at: int) -> bool {
    0 <= at < text.len() && text[at] == '.' && forall|i: int| 0 <= i < at ==> text[i] != '.'
}

/// The fraction that a decimal number writes, given where its point is: its digits without the
/// point, over as many tens as there are digits behind it. At least one character stands before
/// the point, and from one to 18 stand behind it.
pub open spec fn decimal_with_point(text: Seq<char>, at: int) -> Option<Ratio> {
    let places = (text.len() - at - 1) as nat;
    if at == 0 || !(1 <= places <= 18) {
        None
    } else {
        match text::unsigned_up_to(text.take(at) + text.skip(at + 1), u64::MAX) {
            Some(numerator) => Some(Ratio { numerator, denominator: ten_to(places) as u64 }),
            None => None,
        }
    }
}

proof fn lemma_eighteen_places_fit(k: nat)
    requires
        k <= 18,
    ensures
        1 <= ten_to(k) <= 1_000_000_000_000_000_000,
{
    reveal_with_fuel(ten_to, 20);
}

/// Read a fraction that is written as a plain decimal number, with a point or without one.
pub fn read_ratio(text: &str) -> (ratio: Option<Ratio>)
    ensures
        (forall|i: int| 0 <= i < text@.len() ==> text@[i] != '.') ==> ratio == (
        match text::unsigned_up_to(text@, u64::MAX) {
            Some(numerator) => Some(Ratio { numerator, denominator: 1 }),
            None => None::<Ratio>,
        }),
        forall|at: int| #[trigger] point_at(text@, at) ==> ratio == decimal_with_point(text@, at),
        ratio matches Some(ratio) ==> ratio.denominator > 0,
{
    let len: usize = text.unicode_len();
    let mut at: usize = 0;
    while at < len
        invariant
            len == text@.len(),
            at <= len,
            forall|i: int| 0 <= i < at ==> text@[i] != '.',
        decreases len - at,
    {
        if text.get_char(at) == '.' {
            assert(point_at(text@, at as int));
            assert(forall|other: int| #[trigger] point_at(text@, other) ==> other == at);
            let places: usize = len - at - 1;
            if at == 0 || places == 0 || places > 18 {
                return None;
            }
            let mut digits = text.substring_char(0, at).to_owned();
            digits.append(text.substring_char(at + 1, len));
            assert(digits@ =~= text@.take(at as int) + text@.skip(at + 1));
            let numerator: u64 = match text::parse_unsigned(digits.as_str(), u64::MAX) {
                Some(numerator) => numerator,
                None => return None,
            };
            let mut denominator: u64 = 1;
            let mut place: usize = 0;
            while place < places
                invariant
                    place <= places <= 18,
                    denominator == ten_to(place as nat),
                decreases places - place,
            {
                proof {
                    lemma_eighteen_places_fit((place + 1) as nat);
                }
                denominator = denominator * 10;
                place += 1;
            }
            proof {
                lemma_eighteen_places_fit(places as nat);
            }
            return Some(Ratio { numerator, denominator });
        }
        at += 1;
    }
    match text::parse_unsigned(text, u64::MAX) {
        Some(numerator) => Some(Ratio { numerator, denominator: 1 }),
        None => None,
    }
}

/// When the circuit opens, and how it closes again.
#[derive(Clone, Copy, Debug, PartialEq, Eq, Structural)]
pub struct BreakerConfig {
    /// The fraction of failures in the window that trips the breaker.
    pub failure_ratio: Ratio,
    /// How many requests the window must hold before the ratio is trusted. Without this, the
    /// first failed request would be a failure rate of one and trip the circuit on noise.
    pub minimum_requests: u64,
    /// The width of the rolling window, in nanoseconds.
    pub window: u128,
    /// How long the circuit stays open before it probes, in nanoseconds.
    pub cooldown: u128,
    /// How many successes in a row close a half-open circuit.
    pub probe_successes: u32,
}

/// A second, in nanoseconds.
pub const NANOS_PER_SEC: u128 = 1_000_000_000;

impl BreakerConfig {
    /// The settings where nothing else is configured.
    pub open spec fn spec_default() -> BreakerConfig {
        BreakerConfig {
            failure_ratio: Ratio { numerator: 1, denominator: 2 },
            minimum_requests: 20,
            window: (10 * NANOS_PER_SEC) as u128,
            cooldown: (5 * NANOS_PER_SEC) as u128,
            probe_successes: 3,
        }
    }

    /// Can the breaker work with these settings?
    pub open spec fn valid(self) -> bool {
        self.failure_ratio.denominator > 0
    }

    /// The settings from the failure ratio that was configured, if one was, and the values of
    /// `BREAKER_MIN_REQUESTS`, `BREAKER_WINDOW_SECS`, `BREAKER_COOLDOWN_SECS` and
    /// `BREAKER_PROBE_SUCCESSES`. A value that is missing or is no number leaves the default.
    pub fn from_env(
        failure_ratio: Option<Ratio>,
        minimum_requests: Option<String>,
        window_secs: Option<String>,
        cooldown_secs: Option<String>,
        probe_successes: Option<String>,
    ) -> (config: BreakerConfig)
        ensures
            config.failure_ratio == (match failure_ratio {
                Some(ratio) => ratio,
                None => BreakerConfig::spec_default().failure_ratio,
            }),
            config.minimum_requests == text::setting_or(minimum_requests, u64::MAX, 20),
            config.window == NANOS_PER_SEC * text::setting_or(window_secs, u64::MAX, 10),
            config.cooldown == NANOS_PER_SEC * text::setting_or(cooldown_secs, u64::MAX, 5),
            config.probe_successes == text::setting_or(probe_successes, u32::MAX as u64, 3),
    {
        let defaults = BreakerConfig::default();
        BreakerConfig {
            failure_ratio: match failure_ratio {
                Some(ratio) => ratio,
                None => defaults.failure_ratio,
            },
            minimum_requests: text::read_setting_or(
                &minimum_requests,
                u64::MAX,
                defaults.minimum_requests,
            ),
            window: NANOS_PER_SEC * text::read_setting_or(&window_secs, u64::MAX, 10) as u128,
            cooldown: NANOS_PER_SEC * text::read_setting_or(&cooldown_secs, u64::MAX, 5) as u128,
            probe_successes: text::read_setting_or(
                &probe_successes,
                u32::MAX as u64,
                defaults.probe_successes as u64,
            ) as u32,
        }
    }
}

impl Default for BreakerConfig {
    fn default() -> (config: BreakerConfig)
        ensures
            config == BreakerConfig::spec_default(),
    {
        BreakerConfig {
            failure_ratio: Ratio { numerator: 1, denominator: 2 },
            minimum_requests: 20,
            window: 10 * NANOS_PER_SEC,
            cooldown: 5 * NANOS_PER_SEC,
            probe_successes: 3,
        }
    }
}

/// The outcomes in the current window.
#[derive(Clone, Copy, Debug, PartialEq, Eq, Structural)]
pub struct Window {
    /// When the window started.
    pub started: u128,
    pub successes: u64,
    pub failures: u64,
    /// When the breaker last opened, which times the cooldown.
    pub opened_at: Option<u128>,
    /// How many successes in a row were seen while half-open.
    pub probe_successes: u32,
    /// How many requests a half-open circuit has let through whose outcome is not known yet.
    pub probes_out: u32,
}

/// A circuit breaker.
#[derive(Clone, Copy, Debug, PartialEq, Eq, Structural)]
pub struct CircuitBreaker {
    pub config: BreakerConfig,
    pub state: State,
    pub window: Window,
    /// How often the circuit has opened.
    pub trips: u64,
    /// How many requests the circuit turned away.
    pub rejected: u64,
}

/// How much time lies between two instants; none where the later one is the earlier.
pub open spec fn elapsed(since: u128, now: u128) -> int {
    if now >= since {
        now - since
    } else {
        0
    }
}

/// Do `failures` of `total` requests reach the ratio?
pub open spec fn reaches(ratio: Ratio, failures: u64, total: u64) -> bool {
    failures * ratio.denominator >= ratio.numerator * total
}

impl CircuitBreaker {
    /// What every breaker keeps to: an open circuit knows when it opened, a half-open one is
    /// still short of the successes that close it and has no more probes out than that, and any
    /// other has none.
    pub open spec fn well_formed(self) -> bool {
        &&& self.config.valid()
        &&& self.state is Open ==> self.window.opened_at is Some
        &&& self.state is HalfOpen ==> self.window.probe_successes == 0
            || self.window.probe_successes < self.config.probe_successes
        &&& if self.state is HalfOpen {
            self.window.probes_out <= probes_needed(self.config)
        } else {
            self.window.probes_out == 0
        }
    }

    /// Can the window count one more outcome?
    pub open spec fn spec_has_room(self) -> bool {
        self.window.successes + self.window.failures < u64::MAX
    }

    /// The window with no outcomes in it, from now on.
    pub open spec fn emptied(window: Window, now: u128) -> Window {
        Window { started: now, successes: 0, failures: 0, ..window }
    }

    /// The window, emptied where it is as old as it is wide.
    pub open spec fn rolled(self, now: u128) -> Window {
        if elapsed(self.window.started, now) >= self.config.window {
            Self::emptied(self.window, now)
        } else {
            self.window
        }
    }

    /// May a request pass?
    ///
    /// A half-open circuit has no more probes out at once than the successes that it needs.
    pub open spec fn allows(self, now: u128) -> bool {
        match self.state {
            State::Closed => true,
            State::Open => self.window.opened_at matches Some(at) && elapsed(at, now)
                >= self.config.cooldown,
            State::HalfOpen => self.window.probes_out < probes_needed(self.config),
        }
    }

    /// The breaker after it was asked whether a request may pass.
    pub open spec fn after_asked(self, now: u128) -> CircuitBreaker {
        if !self.allows(now) {
            CircuitBreaker { rejected: counted(self.rejected, 1), ..self }
        } else {
            match self.state {
                State::Closed => self,
                State::Open => CircuitBreaker {
                    state: State::HalfOpen,
                    window: Window { probe_successes: 0, probes_out: 1, ..self.window },
                    ..self
                },
                State::HalfOpen => CircuitBreaker {
                    window: Window {
                        probes_out: (self.window.probes_out + 1) as u32,
                        ..self.window
                    },
                    ..self
                },
            }
        }
    }

    /// The window with one probe fewer out, where there is one.
    pub open spec fn one_back(window: Window) -> Window {
        Window {
            probes_out: if window.probes_out > 0 {
                (window.probes_out - 1) as u32
            } else {
                0
            },
            ..window
        }
    }

    /// The breaker after a request that it let through ended before it reached the token.
    pub open spec fn after_abandoned(self) -> CircuitBreaker {
        CircuitBreaker { window: Self::one_back(self.window), ..self }
    }

    /// The breaker after a success.
    pub open spec fn after_success(self, now: u128) -> CircuitBreaker {
        if self.state is HalfOpen {
            let probes = (self.window.probe_successes + 1) as u32;
            let window = Window { probe_successes: probes, ..Self::one_back(self.window) };
            if probes >= self.config.probe_successes {
                CircuitBreaker {
                    state: State::Closed,
                    window: Window { probes_out: 0, ..Self::emptied(window, now) },
                    ..self
                }
            } else {
                CircuitBreaker { window, ..self }
            }
        } else {
            let window = self.rolled(now);
            CircuitBreaker {
                window: Window { successes: (window.successes + 1) as u64, ..window },
                ..self
            }
        }
    }

    /// Does one more failure make the window's failures reach the ratio, with enough requests in
    /// the window to trust it?
    pub open spec fn trips_now(self, now: u128) -> bool {
        let window = self.rolled(now);
        let total = (window.successes + window.failures + 1) as u64;
        total >= self.config.minimum_requests && reaches(
            self.config.failure_ratio,
            (window.failures + 1) as u64,
            total,
        )
    }

    /// The breaker after a failure.
    pub open spec fn after_failure(self, now: u128) -> CircuitBreaker {
        if self.state is HalfOpen {
            CircuitBreaker {
                state: State::Open,
                window: Window {
                    opened_at: Some(now),
                    probe_successes: 0,
                    probes_out: 0,
                    ..self.window
                },
                trips: counted(self.trips, 1),
                ..self
            }
        } else {
            let window = self.rolled(now);
            let counted_in = Window { failures: (window.failures + 1) as u64, ..window };
            if self.trips_now(now) {
                CircuitBreaker {
                    state: State::Open,
                    window: Window { opened_at: Some(now), ..counted_in },
                    trips: if self.state is Open {
                        self.trips
                    } else {
                        counted(self.trips, 1)
                    },
                    ..self
                }
            } else {
                CircuitBreaker { window: counted_in, ..self }
            }
        }
    }

    /// A closed circuit whose window starts now.
    pub fn new(config: BreakerConfig, now: u128) -> (breaker: CircuitBreaker)
        requires
            config.valid(),
        ensures
            breaker.well_formed(),
            breaker == (CircuitBreaker {
                config,
                state: State::Closed,
                window: Window {
                    started: now,
                    successes: 0,
                    failures: 0,
                    opened_at: None,
                    probe_successes: 0,
                    probes_out: 0,
                },
                trips: 0,
                rejected: 0,
            }),
    {
        CircuitBreaker {
            config,
            state: State::Closed,
            window: Window {
                started: now,
                successes: 0,
                failures: 0,
                opened_at: None,
                probe_successes: 0,
                probes_out: 0,
            },
            trips: 0,
            rejected: 0,
        }
    }

    /// The state of the circuit.
    pub fn state(&self) -> (state: State)
        ensures
            state == self.state,
    {
        self.state
    }

    /// Can the window count one more outcome?
    pub fn has_room(&self) -> (room: bool)
        ensures
            room == self.spec_has_room(),
    {
        self.window.failures < u64::MAX - self.window.successes
    }

    /// Would a request pass?
    pub fn would_allow(&self, now: u128) -> (allowed: bool)
        ensures
            allowed == self.allows(now),
    {
        match self.state {
            State::Closed => true,
            State::HalfOpen => {
                let limit: u32 = if self.config.probe_successes == 0 {
                    1
                } else {
                    self.config.probe_successes
                };
                self.window.probes_out < limit
            },
            State::Open => match self.window.opened_at {
                Some(at) => now.saturating_sub(at) >= self.config.cooldown,
                None => false,
            },
        }
    }

    /// May a request pass?
    ///
    /// An open circuit turns requests away until the cooldown is over; the first request after
    /// that makes it half-open. A half-open one turns requests away while as many probes are out
    /// as it needs successes.
    pub fn allow(&mut self, now: u128) -> (allowed: bool)
        requires
            old(self).well_formed(),
        ensures
            final(self).well_formed(),
            allowed == old(self).allows(now),
            *final(self) == old(self).after_asked(now),
    {
        if !self.would_allow(now) {
            self.rejected = self.rejected.wrapping_add(1);
            return false;
        }
        match self.state {
            State::Closed => {},
            State::HalfOpen => {
                self.window.probes_out += 1;
            },
            State::Open => {
                self.window.probe_successes = 0;
                self.window.probes_out = 1;
                self.state = State::HalfOpen;
            },
        }
        true
    }

    /// Take note that a request that was let through ended before it reached the token, so that
    /// no outcome of it will be counted.
    pub fn abandon(&mut self)
        requires
            old(self).well_formed(),
        ensures
            final(self).well_formed(),
            *final(self) == old(self).after_abandoned(),
    {
        self.window.probes_out = self.window.probes_out.saturating_sub(1);
    }

    /// Count a success.
    ///
    /// Enough of them in a row close a half-open circuit.
    pub fn record_success(&mut self, now: u128)
        requires
            old(self).well_formed(),
            old(self).spec_has_room(),
        ensures
            final(self).well_formed(),
            *final(self) == old(self).after_success(now),
    {
        match self.state {
            State::HalfOpen => {
                self.window.probes_out = self.window.probes_out.saturating_sub(1);
                self.window.probe_successes += 1;
                if self.window.probe_successes >= self.config.probe_successes {
                    self.reset_window(now);
                    self.window.probes_out = 0;
                    self.state = State::Closed;
                }
            },
            _ => {
                self.roll_if_stale(now);
                self.window.successes += 1;
            },
        }
    }

    /// Count a failure of the token.
    ///
    /// A failed probe opens a half-open circuit again. Otherwise the circuit opens where the
    /// window holds enough requests and enough of them failed. A fault of the caller must not
    /// come here: counting it would let one misbehaving caller trip the circuit for everyone.
    pub fn record_failure(&mut self, now: u128)
        requires
            old(self).well_formed(),
            old(self).spec_has_room(),
        ensures
            final(self).well_formed(),
            *final(self) == old(self).after_failure(now),
    {
        if let State::HalfOpen = self.state {
            self.window.opened_at = Some(now);
            self.window.probe_successes = 0;
            self.window.probes_out = 0;
            self.state = State::Open;
            self.trips = self.trips.wrapping_add(1);
            return ;
        }
        self.roll_if_stale(now);
        self.window.failures += 1;
        let total: u64 = self.window.successes + self.window.failures;
        if total >= self.config.minimum_requests {
            let ratio = self.config.failure_ratio;
            proof {
                lemma_products_fit(
                    self.window.failures,
                    ratio.denominator,
                    ratio.numerator,
                    total,
                );
            }
            let weighed_failures: u128 = self.window.failures as u128 * ratio.denominator as u128;
            let weighed_total: u128 = ratio.numerator as u128 * total as u128;
            if weighed_failures >= weighed_total {
                self.window.opened_at = Some(now);
                if self.state != State::Open {
                    self.state = State::Open;
                    self.trips = self.trips.wrapping_add(1);
                }
            }
        }
    }

    fn roll_if_stale(&mut self, now: u128)
        ensures
            *final(self) == (CircuitBreaker { window: old(self).rolled(now), ..*old(self) }),
    {
        if now.saturating_sub(self.window.started) >= self.config.window {
            self.reset_window(now);
        }
    }

    fn reset_window(&mut self, now: u128)
        ensures
            *final(self) == (CircuitBreaker {
                window: CircuitBreaker::emptied(old(self).window, now),
                ..*old(self)
            }),
    {
        self.window.started = now;
        self.window.successes = 0;
        self.window.failures = 0;
    }
}

proof fn lemma_products_fit(a: u64, b: u64, c: u64, d: u64)
    ensures
        0 <= a * b <= u128::MAX,
        0 <= c * d <= u128::MAX,
{
    assert(0 <= a * b <= 0xffff_ffff_ffff_ffff * 0xffff_ffff_ffff_ffff) by (nonlinear_arith)
        requires
            0 <= a <= 0xffff_ffff_ffff_ffff,
            0 <= b <= 0xffff_ffff_ffff_ffff,
    ;
    assert(0 <= c * d <= 0xffff_ffff_ffff_ffff * 0xffff_ffff_ffff_ffff) by (nonlinear_arith)
        requires
            0 <= c <= 0xffff_ffff_ffff_ffff,
            0 <= d <= 0xffff_ffff_ffff_ffff,
    ;
}

/// The breaker after a run of successes, given when each came.
pub open spec fn after_successes(breaker: CircuitBreaker, times: Seq<u128>) -> CircuitBreaker
    decreases times.len(),
{
    if times.len() == 0 {
        breaker
    } else {
        after_successes(breaker, times.drop_last()).after_success(times.last())
    }
}

/// How many successes in a row close a half-open circuit: as many as are configured, and one
/// where none are.
pub open spec fn probes_needed(config: BreakerConfig) -> int {
    if config.probe_successes == 0 {
        1
    } else {
        config.probe_successes as int
    }
}

/// A healthy service never trips the circuit, however many requests it serves.
pub proof fn law_success_never_trips(breaker: CircuitBreaker, times: Seq<u128>)
    requires
        breaker.state is Closed,
    ensures
        after_successes(breaker, times).state is Closed,
        after_successes(breaker, times).trips == breaker.trips,
    decreases times.len(),
{
    if times.len() > 0 {
        law_success_never_trips(breaker, times.drop_last());
    }
}

/// A half-open circuit that has just begun to probe closes with the last of the successes in a
/// row that it needs, and not before.
pub proof fn law_probes_close_the_circuit(breaker: CircuitBreaker, times: Seq<u128>)
    requires
        breaker.state is HalfOpen,
        breaker.window.probe_successes == 0,
        times.len() <= probes_needed(breaker.config),
    ensures
        times.len() < probes_needed(breaker.config) ==> {
            &&& after_successes(breaker, times).state is HalfOpen
            &&& after_successes(breaker, times).window.probe_successes == times.len()
            &&& after_successes(breaker, times).config == breaker.config
        },
        times.len() == probes_needed(breaker.config) ==> {
            &&& after_successes(breaker, times).state is Closed
            &&& after_successes(breaker, times).window.successes == 0
            &&& after_successes(breaker, times).window.failures == 0
        },
    decreases times.len(),
{
    if times.len() > 0 {
        law_probes_close_the_circuit(breaker, times.drop_last());
    }
}

/// A failure trips a closed circuit exactly where the window, with that failure in it, holds at
/// least the minimum of requests and its failures reach the ratio.
pub proof fn law_a_closed_circuit_trips_exactly_when(breaker: CircuitBreaker, now: u128)
    requires
        breaker.state is Closed,
        breaker.spec_has_room(),
    ensures
        ({
            let window = breaker.rolled(now);
            let failures = window.failures + 1;
            let total = window.successes + failures;
            breaker.after_failure(now).state is Open <==> total >= breaker.config.minimum_requests
                && failures * breaker.config.failure_ratio.denominator
                >= breaker.config.failure_ratio.numerator * total
        }),
{
}

/// With fewer requests in the window than the minimum, no failure trips the circuit.
pub proof fn law_too_few_requests_never_trip(breaker: CircuitBreaker, now: u128)
    requires
        breaker.state is Closed,
        breaker.spec_has_room(),
        breaker.window.successes + breaker.window.failures + 1 < breaker.config.minimum_requests,
    ensures
        breaker.after_failure(now).state is Closed,
{
}

/// Outcomes older than the window's width do not count: the next failure is alone in its window.
pub proof fn law_old_outcomes_do_not_count(breaker: CircuitBreaker, now: u128)
    requires
        !(breaker.state is HalfOpen),
        elapsed(breaker.window.started, now) >= breaker.config.window,
    ensures
        breaker.after_failure(now).window.failures == 1,
        breaker.after_failure(now).window.successes == 0,
        breaker.after_failure(now).window.started == now,
{
}

/// An open circuit turns every request away until the cooldown is over, and then lets one pass
/// and is half-open.
pub proof fn law_an_open_circuit_waits_for_the_cooldown(
    breaker: CircuitBreaker,
    opened_at: u128,
    now: u128,
)
    requires
        breaker.state is Open,
        breaker.window.opened_at == Some(opened_at),
    ensures
        elapsed(opened_at, now) < breaker.config.cooldown ==> {
            &&& !breaker.allows(now)
            &&& breaker.after_asked(now).state is Open
            &&& breaker.after_asked(now).window == breaker.window
        },
        elapsed(opened_at, now) >= breaker.config.cooldown ==> {
            &&& breaker.allows(now)
            &&& breaker.after_asked(now).state is HalfOpen
            &&& breaker.after_asked(now).window.probe_successes == 0
            &&& breaker.after_asked(now).window.probes_out == 1
        },
{
}

/// The breaker after it was asked about a run of requests, given when each came.
pub open spec fn after_asks(breaker: CircuitBreaker, times: Seq<u128>) -> CircuitBreaker
    decreases times.len(),
{
    if times.len() == 0 {
        breaker
    } else {
        after_asks(breaker, times.drop_last()).after_asked(times.last())
    }
}

/// How many of a run of requests the breaker lets through.
pub open spec fn let_through(breaker: CircuitBreaker, times: Seq<u128>) -> int
    decreases times.len(),
{
    if times.len() == 0 {
        0
    } else {
        let_through(breaker, times.drop_last()) + if after_asks(breaker, times.drop_last()).allows(
            times.last(),
        ) {
            1int
        } else {
            0int
        }
    }
}

/// A half-open circuit lets a limited number of requests through: however many come before an
/// outcome is known, as many pass as it needs successes, less those that are out already.
pub proof fn law_probes_are_limited(breaker: CircuitBreaker, times: Seq<u128>)
    requires
        breaker.well_formed(),
        breaker.state is HalfOpen,
    ensures
        ({
            let room = probes_needed(breaker.config) - breaker.window.probes_out;
            let_through(breaker, times) == if times.len() <= room {
                times.len() as int
            } else {
                room
            }
        }),
        after_asks(breaker, times).state is HalfOpen,
        after_asks(breaker, times).config == breaker.config,
        after_asks(breaker, times).window.probes_out == breaker.window.probes_out + let_through(
            breaker,
            times,
        ),
    decreases times.len(),
{
    if times.len() > 0 {
        law_probes_are_limited(breaker, times.drop_last());
    }
}

/// A probe that ends, however it ends, makes room for another: a half-open circuit that stays
/// half-open lets the next request through.
pub proof fn law_an_ended_probe_makes_room(breaker: CircuitBreaker, ended: u128, now: u128)
    requires
        breaker.well_formed(),
        breaker.state is HalfOpen,
    ensures
        breaker.after_abandoned().allows(now),
        breaker.after_success(ended).allows(now),
{
}

/// Trips are the times that the circuit has opened: a failure adds one exactly where it opens a
/// circuit that was not open, and nothing else adds any.
pub proof fn law_trips_are_the_times_it_opened(breaker: CircuitBreaker, now: u128)
    ensures
        breaker.after_failure(now).trips == (if !(breaker.state is Open) && breaker.after_failure(
            now,
        ).state is Open {
            counted(breaker.trips, 1)
        } else {
            breaker.trips
        }),
        breaker.after_success(now).trips == breaker.trips,
        breaker.after_success(now).state is Open ==> breaker.state is Open,
        breaker.after_asked(now).trips == breaker.trips,
        breaker.after_asked(now).state is Open ==> breaker.state is Open,
        breaker.after_abandoned().trips == breaker.trips,
        breaker.after_abandoned().state == breaker.state,
{
}

/// A failed probe opens the circuit again and starts the cooldown anew.
pub proof fn law_a_failed_probe_restarts_the_cooldown(
    breaker: CircuitBreaker,
    failed_at: u128,
    now: u128,
)
    requires
        breaker.state is HalfOpen,
    ensures
        breaker.after_failure(failed_at).state is Open,
        breaker.after_failure(failed_at).allows(now) <==> elapsed(failed_at, now)
            >= breaker.config.cooldown,
{
}

/// Outcomes add up: while the window lasts, a success makes one success more and a failure one
/// failure more, and the other outcomes stay as they were.
pub proof fn law_outcomes_add_up(breaker: CircuitBreaker, now: u128)
    requires
        !(breaker.state is HalfOpen),
        breaker.spec_has_room(),
        now < breaker.window.started + breaker.config.window,
        breaker.config.window > 0,
    ensures
        breaker.after_success(now).window.successes == breaker.window.successes + 1,
        breaker.after_success(now).window.failures == breaker.window.failures,
        breaker.after_success(now).window.started == breaker.window.started,
        breaker.after_success(now).state == breaker.state,
        breaker.after_failure(now).window.failures == breaker.window.failures + 1,
        breaker.after_failure(now).window.successes == breaker.window.successes,
        breaker.after_failure(now).window.started == breaker.window.started,
{
}

/// The window ends when it is as old as it is wide, and the next outcome begins a new one.
pub proof fn law_a_window_ends(breaker: CircuitBreaker, now: u128)
    requires
        !(breaker.state is HalfOpen),
        breaker.config.window == 0 || now >= breaker.window.started + breaker.config.window,
    ensures
        breaker.after_success(now).window.successes == 1,
        breaker.after_success(now).window.failures == 0,
        breaker.after_success(now).window.started == now,
        breaker.after_failure(now).window.successes == 0,
        breaker.after_failure(now).window.failures == 1,
        breaker.after_failure(now).window.started == now,
{
}

/// A closed circuit lets everyone through, and an open one no one until the cooldown has passed
/// since it opened; a clock that steps back does not shorten it.
pub proof fn law_who_is_let_through(breaker: CircuitBreaker, at: u128, now: u128)
    ensures
        breaker.state is Closed ==> breaker.allows(now) && breaker.after_asked(now) == breaker,
        breaker.state is Open && breaker.window.opened_at == Some(at) ==> (breaker.allows(now)
            <==> breaker.config.cooldown == 0 || now >= at + breaker.config.cooldown),
        breaker.state is HalfOpen && breaker.config.probe_successes > 0 ==> (breaker.allows(now)
            <==> breaker.window.probes_out < breaker.config.probe_successes),
        breaker.state is HalfOpen && breaker.config.probe_successes == 0 ==> (breaker.allows(now)
            <==> breaker.window.probes_out == 0),
{
}

/// A request that is turned away is counted, and changes nothing else; one that is let through is
/// not counted as turned away.
pub proof fn law_the_turned_away_are_counted(breaker: CircuitBreaker, now: u128)
    ensures
        !breaker.allows(now) ==> {
            let then = breaker.after_asked(now);
            &&& then.rejected == counted(breaker.rejected, 1)
            &&& then.state == breaker.state
            &&& then.window == breaker.window
        },
        breaker.allows(now) ==> breaker.after_asked(now).rejected == breaker.rejected,
{
}

/// Nothing that happens changes the settings, and an outcome turns no one away.
pub proof fn law_the_settings_stay(breaker: CircuitBreaker, now: u128)
    ensures
        breaker.after_asked(now).config == breaker.config,
        breaker.after_abandoned().config == breaker.config,
        breaker.after_success(now).config == breaker.config,
        breaker.after_failure(now).config == breaker.config,
        breaker.after_abandoned().rejected == breaker.rejected,
        breaker.after_success(now).rejected == breaker.rejected,
        breaker.after_failure(now).rejected == breaker.rejected,
{
}

/// A failure that opens the circuit starts the cooldown at that time.
pub proof fn law_the_cooldown_starts_with_the_failure(breaker: CircuitBreaker, now: u128)
    requires
        !(breaker.state is Open),
        breaker.after_failure(now).state is Open,
    ensures
        breaker.after_failure(now).window.opened_at == Some(now),
        breaker.config.cooldown > 0 ==> !breaker.after_failure(now).allows(now),
{
}

/// A probe that ends gives its place back, and one that is let through takes one.
pub proof fn law_a_probe_has_one_place(breaker: CircuitBreaker, now: u128)
    requires
        breaker.well_formed(),
        breaker.state is HalfOpen,
        breaker.allows(now),
    ensures
        breaker.after_asked(now).window.probes_out == breaker.window.probes_out + 1,
        breaker.after_asked(now).after_abandoned() == breaker,
        breaker.window.probe_successes + 1 < breaker.config.probe_successes
            ==> breaker.after_asked(now).after_success(now).window.probes_out
            == breaker.window.probes_out,
{
}

proof fn lemma_ten_to_is_a_power(k: nat)
    ensures
        ten_to(k) == vstd::arithmetic::power::pow(10, k),
    decreases k,
{
    reveal(vstd::arithmetic::power::pow);
    if k > 0 {
        lemma_ten_to_is_a_power((k - 1) as nat);
    }
}

proof fn lemma_digits_behind(whole: Seq<char>, behind: Seq<char>)
    ensures
        text::digits_value(whole + behind) == text::digits_value(whole) * ten_to(behind.len())
            + text::digits_value(behind),
    decreases behind.len(),
{
    let all = whole + behind;
    if behind.len() > 0 {
        let fewer = behind.drop_last();
        lemma_digits_behind(whole, fewer);
        assert(all.drop_last() =~= whole + fewer);
        assert(all.last() == behind.last());
        let w = text::digits_value(whole);
        let t = ten_to(fewer.len());
        assert(ten_to(behind.len()) == 10 * t);
        assert(10 * (w * t) == w * (10 * t)) by (nonlinear_arith);
    } else {
        let w = text::digits_value(whole);
        assert(all =~= whole);
        assert(ten_to(behind.len()) == 1);
        assert(w * 1 == w) by (nonlinear_arith);
    }
}

/// A decimal number is its whole part and, behind the point, as many tenths, hundredths and so on
/// as its digits say.
pub proof fn law_a_decimal_is_its_digits(whole: Seq<char>, behind: Seq<char>)
    requires
        whole.len() > 0,
        1 <= behind.len() <= 18,
        forall|i: int| 0 <= i < whole.len() ==> text::is_digit(#[trigger] whole[i]),
        forall|i: int| 0 <= i < behind.len() ==> text::is_digit(#[trigger] behind[i]),
        text::digits_value(whole) * ten_to(behind.len()) + text::digits_value(behind) <= u64::MAX,
    ensures
        point_at(whole + seq!['.'] + behind, whole.len() as int),
        ({
            let ratio = decimal_with_point(whole + seq!['.'] + behind, whole.len() as int);
            let places = vstd::arithmetic::power::pow(10, behind.len());
            &&& ratio is Some
            &&& ratio->0.denominator == places
            &&& ratio->0.numerator == text::digits_value(whole) * places + text::digits_value(
                behind,
            )
        }),
{
    let all = whole + seq!['.'] + behind;
    let at = whole.len() as int;
    let digits = whole + behind;
    assert(all.take(at) + all.skip(at + 1) =~= digits);
    assert(text::is_digit(whole[0]));
    assert(text::without_plus(digits) == digits);
    assert forall|i: int| 0 <= i < digits.len() implies text::is_digit(digits[i]) by {
        if i < whole.len() {
            assert(digits[i] == whole[i]);
        } else {
            assert(digits[i] == behind[i - whole.len()]);
        }
    }
    lemma_digits_behind(whole, behind);
    lemma_ten_to_is_a_power(behind.len());
    lemma_eighteen_places_fit(behind.len());
    assert(all[at] == '.');
    assert forall|i: int| 0 <= i < at implies all[i] != '.' by {
        assert(text::is_digit(whole[i]));
    }
}

/// A failure that comes in while the circuit is open, of a request that was let through before,
/// starts the cooldown anew where the window still warrants it, and otherwise leaves it alone. It
/// does not close the circuit.
pub proof fn law_a_late_failure_renews_the_cooldown(breaker: CircuitBreaker, now: u128)
    requires
        breaker.state is Open,
        breaker.spec_has_room(),
        now < breaker.window.started + breaker.config.window,
        breaker.config.window > 0,
    ensures
        ({
            let failures = breaker.window.failures + 1;
            let total = breaker.window.successes + failures;
            let warranted = total >= breaker.config.minimum_requests && failures
                * breaker.config.failure_ratio.denominator
                >= breaker.config.failure_ratio.numerator * total;
            let then = breaker.after_failure(now);
            &&& then.state is Open
            &&& warranted ==> then.window.opened_at == Some(now)
            &&& !warranted ==> then.window.opened_at == breaker.window.opened_at
        }),
        breaker.after_success(now).state is Open,
        breaker.after_success(now).window.opened_at == breaker.window.opened_at,
{
}

/// Where nothing else is configured, the circuit opens when half of at least twenty requests within
/// ten seconds failed, and probes after five seconds, with three successes in a row.
pub proof fn law_the_defaults_are_lenient()
    ensures
        ({
            let config = BreakerConfig::spec_default();
            let second: int = 1_000_000_000;
            &&& 2 * config.failure_ratio.numerator == config.failure_ratio.denominator
            &&& config.failure_ratio.denominator > 0
            &&& config.minimum_requests == 20
            &&& config.window == 10 * second
            &&& config.cooldown == 5 * second
            &&& config.probe_successes == 3
            &&& config.valid()
        }),
{
}

} // verus!
