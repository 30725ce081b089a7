//! Per host: a token bucket, a cap on concurrent calls, and a circuit that opens after
//! repeated refusals. Hosts are kept apart, so that one source's refusals never touch
//! another channel.
//!
//! Time is a number of nanoseconds on a clock that never goes back. Tokens are counted in
//! trillionths, so that a rate in thousandths of a token per second adds a whole number
//! of units every nanosecond and no refill is ever rounded.

use vstd::prelude::*;

use crate::ai::error::{config_error, misconfigured, AiError};
use crate::text::{ascii_lowercase, str_eq, to_ascii_lower, trim, trimmed};

verus! {

/// The units of a thousandth of a token.
pub const UNITS_PER_MILLITOKEN: u128 = 1_000_000_000;

/// The units of one token.
pub const UNITS_PER_TOKEN: u128 = 1_000_000_000_000;

#[derive(Debug, Clone, Copy, PartialEq, Eq, Structural)]
pub struct HostLimitConfig {
    pub max_millitokens: u64,
    pub refill_millitokens_per_sec: u64,
    pub max_concurrency: u32,
    pub circuit_open_ns: u64,
    pub consecutive_429_threshold: u32,
}

impl Default for HostLimitConfig {
    /// Ten tokens, two more every second, two calls at a time, half a minute of pause
    /// after two refusals in a row.
    fn default() -> (r: HostLimitConfig)
        ensures
            r == (HostLimitConfig {
                max_millitokens: 10_000,
                refill_millitokens_per_sec: 2_000,
                max_concurrency: 2,
                circuit_open_ns: 30_000_000_000,
                consecutive_429_threshold: 2,
            }),
    {
        HostLimitConfig {
            max_millitokens: 10_000,
            refill_millitokens_per_sec: 2_000,
            max_concurrency: 2,
            circuit_open_ns: 30_000_000_000,
            consecutive_429_threshold: 2,
        }
    }
}

#[derive(Debug, Clone, Copy, PartialEq, Eq, Structural)]
pub struct HostState {
    pub units: u128,
    pub in_flight: u32,
    pub last_refill_ns: u64,
    pub consecutive_429: u32,
    pub circuit_open_until: Option<u128>,
    pub config: HostLimitConfig,
}

/// How a call ended.
#[derive(Debug, Clone, Copy, PartialEq, Eq, Structural)]
pub enum HostRelease {
    Success,
    RateLimited { retry_after_ns: Option<u64> },
    Error,
}

/// What an attempt to call came to.
#[derive(Debug, Clone, Copy, PartialEq, Eq, Structural)]
pub enum Admission {
    Granted,
    CircuitOpen,
    RateLimited,
}

impl HostState {
    /// The most units that the bucket holds.
    pub open spec fn capacity(self) -> int {
        self.config.max_millitokens * UNITS_PER_MILLITOKEN
    }

    /// The bucket is not overfull, and no more calls run than may.
    pub open spec fn wf(self) -> bool {
        self.units <= self.capacity() && self.in_flight <= self.config.max_concurrency
    }

    /// A host that has not been called yet.
    pub open spec fn fresh(config: HostLimitConfig, now_ns: u64) -> HostState {
        HostState {
            units: (config.max_millitokens * UNITS_PER_MILLITOKEN) as u128,
            in_flight: 0,
            last_refill_ns: now_ns,
            consecutive_429: 0,
            circuit_open_until: None,
            config,
        }
    }

    /// The bucket after the time that has passed.
    pub open spec fn refilled(self, now_ns: u64) -> HostState {
        if now_ns <= self.last_refill_ns {
            self
        } else {
            let filled = self.units + (now_ns - self.last_refill_ns)
                * self.config.refill_millitokens_per_sec;
            HostState {
                units: (if filled <= self.capacity() {
                    filled
                } else {
                    self.capacity()
                }) as u128,
                last_refill_ns: now_ns,
                ..self
            }
        }
    }

    /// What an attempt at this moment comes to, and the state that it leaves.
    pub open spec fn attempt(self, now_ns: u64) -> (HostState, Admission) {
        if self.circuit_open_until is Some && now_ns < self.circuit_open_until->0 {
            (self, Admission::CircuitOpen)
        } else {
            let ready = (HostState { circuit_open_until: None, ..self }).refilled(now_ns);
            if ready.in_flight >= ready.config.max_concurrency || ready.units < UNITS_PER_TOKEN {
                (ready, Admission::RateLimited)
            } else {
                (
                    HostState {
                        units: (ready.units - UNITS_PER_TOKEN) as u128,
                        in_flight: (ready.in_flight + 1) as u32,
                        ..ready
                    },
                    Admission::Granted,
                )
            }
        }
    }

    /// The state after a call has ended.
    pub open spec fn released(self, outcome: HostRelease, now_ns: u64) -> HostState {
        let free = HostState {
            in_flight: if self.in_flight > 0 {
                (self.in_flight - 1) as u32
            } else {
                0
            },
            ..self
        };
        match outcome {
            HostRelease::Success => HostState { consecutive_429: 0, ..free },
            HostRelease::Error => free,
            HostRelease::RateLimited { retry_after_ns } => {
                let count = if self.consecutive_429 < u32::MAX {
                    (self.consecutive_429 + 1) as u32
                } else {
                    u32::MAX
                };
                let pause = match retry_after_ns {
                    Some(ns) => ns,
                    None => self.config.circuit_open_ns,
                };
                HostState {
                    consecutive_429: count,
                    circuit_open_until: if count >= self.config.consecutive_429_threshold {
                        Some((now_ns + pause) as u128)
                    } else {
                        self.circuit_open_until
                    },
                    ..free
                }
            },
        }
    }

    pub fn new(config: HostLimitConfig, now_ns: u64) -> (r: HostState)
        ensures
            r == HostState::fresh(config, now_ns),
            r.wf(),
    {
        HostState {
            units: config.max_millitokens as u128 * UNITS_PER_MILLITOKEN,
            in_flight: 0,
            last_refill_ns: now_ns,
            consecutive_429: 0,
            circuit_open_until: None,
            config,
        }
    }

    fn refill(self, now_ns: u64) -> (r: HostState)
        requires
            self.wf(),
        ensures
            r == self.refilled(now_ns),
            r.wf(),
    {
        if now_ns <= self.last_refill_ns {
            return self;
        }
        let capacity: u128 = self.config.max_millitokens as u128 * UNITS_PER_MILLITOKEN;
        let elapsed: u64 = now_ns - self.last_refill_ns;
        let rate: u64 = self.config.refill_millitokens_per_sec;
        assert(elapsed * rate <= 0xffff_ffff_ffff_ffff * 0xffff_ffff_ffff_ffff)
            by (nonlinear_arith)
            requires
                0 <= elapsed <= 0xffff_ffff_ffff_ffff,
                0 <= rate <= 0xffff_ffff_ffff_ffff,
        ;
        let gained: u128 = elapsed as u128 * rate as u128;
        let room: u128 = capacity - self.units;
        let units: u128 = if gained <= room {
            self.units + gained
        } else {
            capacity
        };
        HostState { units, last_refill_ns: now_ns, ..self }
    }

    pub fn try_acquire(self, now_ns: u64) -> (r: (HostState, Admission))
        requires
            self.wf(),
        ensures
            r == self.attempt(now_ns),
            r.0.wf(),
            r.0.config == self.config,
    {
        match self.circuit_open_until {
            Some(until) => {
                if (now_ns as u128) < until {
                    return (self, Admission::CircuitOpen);
                }
            },
            None => {},
        }
        let ready = HostState { circuit_open_until: None, ..self }.refill(now_ns);
        if ready.in_flight >= ready.config.max_concurrency || ready.units < UNITS_PER_TOKEN {
            return (ready, Admission::RateLimited);
        }
        (
            HostState {
                units: ready.units - UNITS_PER_TOKEN,
                in_flight: ready.in_flight + 1,
                ..ready
            },
            Admission::Granted,
        )
    }

    pub fn release(self, outcome: HostRelease, now_ns: u64) -> (r: HostState)
        requires
            self.wf(),
        ensures
            r == self.released(outcome, now_ns),
            r.wf(),
            r.config == self.config,
    {
        let free = HostState {
            in_flight: if self.in_flight > 0 {
                self.in_flight - 1
            } else {
                0
            },
            ..self
        };
        match outcome {
            HostRelease::Success => HostState { consecutive_429: 0, ..free },
            HostRelease::Error => free,
            HostRelease::RateLimited { retry_after_ns } => {
                let count: u32 = if self.consecutive_429 < u32::MAX {
                    self.consecutive_429 + 1
                } else {
                    u32::MAX
                };
                let pause: u64 = match retry_after_ns {
                    Some(ns) => ns,
                    None => self.config.circuit_open_ns,
                };
                let until: Option<u128> = if count >= self.config.consecutive_429_threshold {
                    Some(now_ns as u128 + pause as u128)
                } else {
                    self.circuit_open_until
                };
                HostState { consecutive_429: count, circuit_open_until: until, ..free }
            },
        }
    }
}

// ---------------------------------------------------------------------------
// All hosts
// ---------------------------------------------------------------------------

#[derive(Debug)]
pub struct HostEntry {
    pub host: String,
    pub state: HostState,
}

/// The limiter of all hosts.
#[derive(Debug)]
pub struct HostLimiter {
    pub hosts: Vec<HostEntry>,
    pub default_config: HostLimitConfig,
}

/// The right to one call. It is given back with how the call ended; one that is not used
/// is given back as failed.
#[derive(Debug)]
pub struct HostPermit {
    host: String,
}

/// The state of a host that has been called.
pub open spec fn state_of(hosts: Seq<HostEntry>, host: Seq<char>) -> Option<HostState>
    decreases hosts.len(),
{
    if hosts.len() == 0 {
        None
    } else if hosts[0].host@ == host {
        Some(hosts[0].state)
    } else {
        state_of(hosts.drop_first(), host)
    }
}

/// The name under which a host is kept.
pub open spec fn host_name(host: Seq<char>) -> Seq<char> {
    to_ascii_lower(trimmed(host))
}

proof fn lemma_state_of_skip(hosts: Seq<HostEntry>, host: Seq<char>, i: int)
    requires
        0 <= i <= hosts.len(),
        forall|j: int| 0 <= j < i ==> (#[trigger] hosts[j]).host@ != host,
    ensures
        state_of(hosts, host) == state_of(hosts.skip(i), host),
    decreases i,
{
    if i == 0 {
        assert(hosts.skip(0) =~= hosts);
    } else {
        lemma_state_of_skip(hosts, host, i - 1);
        assert(hosts.skip(i - 1)[0] == hosts[i - 1]);
        assert(hosts.skip(i - 1).drop_first() =~= hosts.skip(i));
    }
}

/// Replacing the state of one entry leaves the other hosts as they were.
proof fn lemma_state_of_update(before: Seq<HostEntry>, after: Seq<HostEntry>, at: int)
    requires
        0 <= at < before.len(),
        after.len() == before.len(),
        after[at].host == before[at].host,
        forall|j: int| 0 <= j < before.len() && j != at ==> #[trigger] after[j] == before[j],
        forall|j: int| 0 <= j < at ==> (#[trigger] before[j]).host@ != before[at].host@,
    ensures
        state_of(after, before[at].host@) == Some(after[at].state),
        forall|h: Seq<char>|
            h != before[at].host@ ==> #[trigger] state_of(after, h) == state_of(before, h),
{
    let name = before[at].host@;
    assert forall|j: int| 0 <= j < at implies (#[trigger] after[j]).host@ != name by {
        assert(after[j] == before[j]);
    }
    lemma_state_of_skip(after, name, at);
    assert(after.skip(at)[0] == after[at]);
    assert forall|h: Seq<char>| h != name implies #[trigger] state_of(after, h) == state_of(
        before,
        h,
    ) by {
        lemma_state_of_other(before, after, at, h);
    }
}

proof fn lemma_state_of_other(
    before: Seq<HostEntry>,
    after: Seq<HostEntry>,
    at: int,
    h: Seq<char>,
)
    requires
        0 <= at < before.len(),
        after.len() == before.len(),
        after[at].host == before[at].host,
        before[at].host@ != h,
        forall|j: int| 0 <= j < before.len() && j != at ==> #[trigger] after[j] == before[j],
    ensures
        state_of(after, h) == state_of(before, h),
    decreases before.len(),
{
    if at == 0 {
        assert(after.drop_first() =~= before.drop_first()) by {
            assert forall|j: int| 0 <= j < after.drop_first().len() implies after.drop_first()[j]
                == before.drop_first()[j] by {
                assert(after[j + 1] == before[j + 1]);
            }
        }
    } else {
        assert(after[0] == before[0]);
        if before[0].host@ != h {
            assert forall|j: int|
                0 <= j < before.drop_first().len() && j != at - 1 implies #[trigger] after.drop_first()[j]
                == before.drop_first()[j] by {
                assert(after[j + 1] == before[j + 1]);
            }
            lemma_state_of_other(before.drop_first(), after.drop_first(), at - 1, h);
        }
    }
}

proof fn lemma_state_of_push(hosts: Seq<HostEntry>, entry: HostEntry)
    requires
        state_of(hosts, entry.host@) is None,
    ensures
        state_of(hosts.push(entry), entry.host@) == Some(entry.state),
        forall|h: Seq<char>|
            h != entry.host@ ==> #[trigger] state_of(hosts.push(entry), h) == state_of(hosts, h),
    decreases hosts.len(),
{
    if hosts.len() == 0 {
        assert(hosts.push(entry)[0] == entry);
        assert(hosts.push(entry).drop_first() =~= Seq::empty());
        assert forall|h: Seq<char>| h != entry.host@ implies #[trigger] state_of(
            hosts.push(entry),
            h,
        ) == state_of(hosts, h) by {
            assert(state_of(hosts.push(entry).drop_first(), h) is None);
        }
    } else {
        lemma_state_of_push(hosts.drop_first(), entry);
        assert(hosts.push(entry).drop_first() =~= hosts.drop_first().push(entry));
        assert(hosts.push(entry)[0] == hosts[0]);
        assert forall|h: Seq<char>| h != entry.host@ implies #[trigger] state_of(
            hosts.push(entry),
            h,
        ) == state_of(hosts, h) by {
            assert(state_of(hosts.drop_first().push(entry), h) == state_of(hosts.drop_first(), h));
        }
    }
}

impl HostPermit {
    /// The host that may be called.
    pub closed spec fn view(&self) -> Seq<char> {
        self.host@
    }

    /// Gives the permit back after a call that succeeded.
    pub fn success(self, limiter: &mut HostLimiter, now_ns: u64)
        requires
            old(limiter).wf(),
        ensures
            final(limiter).wf(),
            given_back(*final(limiter), *old(limiter), self@, HostRelease::Success, now_ns),
    {
        limiter.release(self.host.as_str(), HostRelease::Success, now_ns);
    }

    /// Gives the permit back after the host refused the call.
    pub fn rate_limited(self, limiter: &mut HostLimiter, retry_after_ns: Option<u64>, now_ns: u64)
        requires
            old(limiter).wf(),
        ensures
            final(limiter).wf(),
            given_back(
                *final(limiter),
                *old(limiter),
                self@,
                HostRelease::RateLimited { retry_after_ns },
                now_ns,
            ),
    {
        limiter.release(
            self.host.as_str(),
            HostRelease::RateLimited { retry_after_ns },
            now_ns,
        );
    }

    /// Gives the permit back after a call that failed, or that was never made.
    pub fn failed(self, limiter: &mut HostLimiter, now_ns: u64)
        requires
            old(limiter).wf(),
        ensures
            final(limiter).wf(),
            given_back(*final(limiter), *old(limiter), self@, HostRelease::Error, now_ns),
    {
        limiter.release(self.host.as_str(), HostRelease::Error, now_ns);
    }
}

/// How a permit ends: with the outcome that is told, or, where none is, like a call that
/// failed.
pub open spec fn permit_end(outcome: Option<HostRelease>) -> HostRelease {
    match outcome {
        Some(outcome) => outcome,
        None => HostRelease::Error,
    }
}

impl HostPermit {
    /// Gives the permit back, with the outcome of the call or, where it is dropped, without
    /// one.
    pub fn end(self, outcome: Option<HostRelease>, limiter: &mut HostLimiter, now_ns: u64)
        requires
            old(limiter).wf(),
        ensures
            final(limiter).wf(),
            given_back(*final(limiter), *old(limiter), self@, permit_end(outcome), now_ns),
    {
        match outcome {
            Some(HostRelease::Success) => self.success(limiter, now_ns),
            Some(HostRelease::RateLimited { retry_after_ns }) => {
                self.rate_limited(limiter, retry_after_ns, now_ns)
            },
            _ => self.failed(limiter, now_ns),
        }
    }
}

/// `new` is `old` after a call to `host` ended. No other host is touched.
pub open spec fn given_back(
    new: HostLimiter,
    old: HostLimiter,
    host: Seq<char>,
    outcome: HostRelease,
    now_ns: u64,
) -> bool {
    &&& new.default_config == old.default_config
    &&& state_of(new.hosts@, host) == (match state_of(old.hosts@, host) {
        Some(state) => Some(state.released(outcome, now_ns)),
        None => None,
    })
    &&& forall|h: Seq<char>|
        h != host ==> #[trigger] state_of(new.hosts@, h) == state_of(old.hosts@, h)
}

/// `new` is `old` after an attempt to call `host` that left it in `state`. No other host
/// is touched.
pub open spec fn attempted(
    new: HostLimiter,
    old: HostLimiter,
    host: Seq<char>,
    state: HostState,
) -> bool {
    &&& new.default_config == old.default_config
    &&& state_of(new.hosts@, host) == Some(state)
    &&& forall|h: Seq<char>|
        h != host ==> #[trigger] state_of(new.hosts@, h) == state_of(old.hosts@, h)
}

/// The state of a host, which starts fresh when it is first called.
pub open spec fn state_or_fresh(limiter: HostLimiter, host: Seq<char>, now_ns: u64) -> HostState {
    match state_of(limiter.hosts@, host) {
        Some(state) => state,
        None => HostState::fresh(limiter.default_config, now_ns),
    }
}

impl HostLimiter {
    pub open spec fn wf(self) -> bool {
        &&& forall|i: int| 0 <= i < self.hosts@.len() ==> (#[trigger] self.hosts@[i]).state.wf()
        &&& forall|i: int, j: int|
            0 <= i < j < self.hosts@.len() ==> (#[trigger] self.hosts@[i]).host@ != (
            #[trigger] self.hosts@[j]).host@
    }

    pub fn new(default_config: HostLimitConfig) -> (r: HostLimiter)
        ensures
            r.wf(),
            r.default_config == default_config,
            forall|h: Seq<char>| #[trigger] state_of(r.hosts@, h) is None,
    {
        HostLimiter { hosts: Vec::new(), default_config }
    }

    fn find(&self, host: &str) -> (r: Option<usize>)
        ensures
            match r {
                Some(i) => i < self.hosts@.len() && self.hosts@[i as int].host@ == host@
                    && state_of(self.hosts@, host@) == Some(self.hosts@[i as int].state)
                    && forall|j: int| 0 <= j < i ==> (#[trigger] self.hosts@[j]).host@ != host@,
                None => state_of(self.hosts@, host@) is None && forall|j: int|
                    0 <= j < self.hosts@.len() ==> (#[trigger] self.hosts@[j]).host@ != host@,
            },
    {
        let mut i: usize = 0;
        while i < self.hosts.len()
            invariant
                0 <= i <= self.hosts@.len(),
                forall|j: int| 0 <= j < i ==> (#[trigger] self.hosts@[j]).host@ != host@,
            decreases self.hosts@.len() - i,
        {
            if str_eq(self.hosts[i].host.as_str(), host) {
                proof {
                    lemma_state_of_skip(self.hosts@, host@, i as int);
                    assert(self.hosts@.skip(i as int)[0] == self.hosts@[i as int]);
                }
                return Some(i);
            }
            i = i + 1;
        }
        proof {
            lemma_state_of_skip(self.hosts@, host@, i as int);
            assert(self.hosts@.skip(i as int) =~= Seq::empty());
        }
        None
    }

    /// Asks for the right to call a host.
    pub fn try_acquire(&mut self, host: &str, now_ns: u64) -> (r: Result<HostPermit, AiError>)
        requires
            old(self).wf(),
        ensures
            final(self).wf(),
            host_name(host@).len() == 0 ==> misconfigured(
                r,
                "host is required for rate limiting"@,
            ) && *final(self) == *old(self),
            host_name(host@).len() > 0 ==> ({
                let name = host_name(host@);
                let (state, admission) = state_or_fresh(*old(self), name, now_ns).attempt(now_ns);
                &&& attempted(*final(self), *old(self), name, state)
                &&& match admission {
                    Admission::Granted => r matches Ok(permit) && permit@ == name,
                    Admission::CircuitOpen => r matches Err(e) && e is CircuitOpen,
                    Admission::RateLimited => r matches Err(e) && e is RateLimited,
                }
            }),
    {
        let name = ascii_lowercase(trim(host).as_str());
        if name.as_str().is_empty() {
            return Err(config_error("host is required for rate limiting"));
        }
        let ghost before = self.hosts@;
        let (at, known): (usize, bool) = match self.find(name.as_str()) {
            Some(i) => (i, true),
            None => (self.hosts.len(), false),
        };
        if !known {
            let entry = HostEntry {
                host: name.clone(),
                state: HostState::new(self.default_config, now_ns),
            };
            proof {
                lemma_state_of_push(before, entry);
            }
            self.hosts.push(entry);
        }
        let ghost middle = self.hosts@;
        let current: HostState = self.hosts[at].state;
        let (state, admission): (HostState, Admission) = current.try_acquire(now_ns);
        self.hosts[at].state = state;
        proof {
            assert forall|j: int| 0 <= j < at implies (#[trigger] middle[j]).host@
                != middle[at as int].host@ by {}
            lemma_state_of_update(middle, self.hosts@, at as int);
            assert forall|h: Seq<char>| h != name@ implies #[trigger] state_of(self.hosts@, h)
                == state_of(before, h) by {
                assert(state_of(self.hosts@, h) == state_of(middle, h));
                if !known {
                    assert(state_of(middle, h) == state_of(before, h));
                }
            }
            assert forall|i: int, j: int| 0 <= i < j < self.hosts@.len() implies (
            #[trigger] self.hosts@[i]).host@ != (#[trigger] self.hosts@[j]).host@ by {
                assert(self.hosts@[i].host == middle[i].host);
                assert(self.hosts@[j].host == middle[j].host);
            }
        }
        match admission {
            Admission::Granted => Ok(HostPermit { host: name }),
            Admission::CircuitOpen => Err(AiError::CircuitOpen),
            Admission::RateLimited => Err(AiError::RateLimited),
        }
    }

    /// Takes back the right to a call that has ended.
    pub fn release(&mut self, host: &str, outcome: HostRelease, now_ns: u64)
        requires
            old(self).wf(),
        ensures
            final(self).wf(),
            given_back(*final(self), *old(self), host@, outcome, now_ns),
    {
        let ghost before = self.hosts@;
        match self.find(host) {
            Some(at) => {
                let current: HostState = self.hosts[at].state;
                self.hosts[at].state = current.release(outcome, now_ns);
                proof {
                    lemma_state_of_update(before, self.hosts@, at as int);
                    assert forall|i: int, j: int| 0 <= i < j < self.hosts@.len() implies (
                    #[trigger] self.hosts@[i]).host@ != (#[trigger] self.hosts@[j]).host@ by {
                        assert(self.hosts@[i].host == before[i].host);
                        assert(self.hosts@[j].host == before[j].host);
                    }
                }
            },
            None => {},
        }
    }
}

impl Default for HostLimiter {
    fn default() -> (r: HostLimiter)
        ensures
            r.wf(),
            r.default_config == (HostLimitConfig {
                max_millitokens: 10_000,
                refill_millitokens_per_sec: 2_000,
                max_concurrency: 2,
                circuit_open_ns: 30_000_000_000,
                consecutive_429_threshold: 2,
            }),
            forall|h: Seq<char>| #[trigger] state_of(r.hosts@, h) is None,
    {
        HostLimiter::new(HostLimitConfig::default())
    }
}

/// No sequence of steps makes a host serve more calls at a time than its cap: whatever
/// the outcome of calls, the number in flight only rises with a grant, and a grant needs
/// room.
pub proof fn lemma_concurrency_stays_capped(
    state: HostState,
    outcome: HostRelease,
    now_ns: u64,
)
    requires
        state.wf(),
    ensures
        state.attempt(now_ns).0.in_flight <= state.config.max_concurrency,
        state.attempt(now_ns).1 is Granted ==> state.attempt(now_ns).0.in_flight
            == state.in_flight + 1,
        !(state.attempt(now_ns).1 is Granted) ==> state.attempt(now_ns).0.in_flight
            == state.in_flight,
        state.released(outcome, now_ns).in_flight <= state.in_flight,
        state.attempt(now_ns).0.config == state.config,
        state.released(outcome, now_ns).config == state.config,
{
}

/// What happens to a host: somebody asks for a permit, or a permit ends.
pub ghost enum HostEvent {
    Attempt { now_ns: u64 },
    End { outcome: Option<HostRelease>, now_ns: u64 },
}

/// The state after one event.
pub open spec fn after_event(state: HostState, event: HostEvent) -> HostState {
    match event {
        HostEvent::Attempt { now_ns } => state.attempt(now_ns).0,
        HostEvent::End { outcome, now_ns } => state.released(permit_end(outcome), now_ns),
    }
}

/// The state after events, one after the other.
pub open spec fn after_events(state: HostState, events: Seq<HostEvent>) -> HostState
    decreases events.len(),
{
    if events.len() == 0 {
        state
    } else {
        after_event(after_events(state, events.drop_last()), events.last())
    }
}

/// How many permits the events hand out.
pub open spec fn permits_granted(state: HostState, events: Seq<HostEvent>) -> nat
    decreases events.len(),
{
    if events.len() == 0 {
        0
    } else {
        let before = permits_granted(state, events.drop_last());
        match events.last() {
            HostEvent::Attempt { now_ns } => if after_events(state, events.drop_last()).attempt(
                now_ns,
            ).1 is Granted {
                before + 1
            } else {
                before
            },
            HostEvent::End { .. } => before,
        }
    }
}

/// How many permits the events end.
pub open spec fn permits_ended(events: Seq<HostEvent>) -> nat
    decreases events.len(),
{
    if events.len() == 0 {
        0
    } else {
        permits_ended(events.drop_last()) + (if events.last() is End {
            1nat
        } else {
            0
        })
    }
}

/// Every permit that ends was handed out before, and no permit ends twice: at no time have
/// more ended than were handed out.
pub open spec fn permits_are_held(state: HostState, events: Seq<HostEvent>) -> bool {
    forall|n: int|
        0 <= n <= events.len() ==> permits_ended(#[trigger] events.take(n)) <= permits_granted(
            state,
            events.take(n),
        )
}

/// Over its life each permit counts for one call in flight, from when it is handed out until
/// it ends, however it ends, and whatever others do in between.
pub proof fn lemma_permit_counts_once(state: HostState, events: Seq<HostEvent>)
    requires
        state.wf(),
        permits_are_held(state, events),
    ensures
        after_events(state, events).in_flight == state.in_flight + permits_granted(state, events)
            - permits_ended(events),
        after_events(state, events).wf(),
    decreases events.len(),
{
    if events.len() > 0 {
        let front = events.drop_last();
        assert forall|n: int| 0 <= n <= front.len() implies permits_ended(#[trigger] front.take(n))
            <= permits_granted(state, front.take(n)) by {
            assert(front.take(n) =~= events.take(n));
        }
        lemma_permit_counts_once(state, front);
        assert(events.take(events.len() as int) =~= events);
        match events.last() {
            HostEvent::Attempt { now_ns } => {
                lemma_attempt_keeps_wf(after_events(state, front), now_ns);
            },
            HostEvent::End { outcome, now_ns } => {},
        }
    }
}

proof fn lemma_attempt_keeps_wf(state: HostState, now_ns: u64)
    requires
        state.wf(),
    ensures
        state.attempt(now_ns).0.wf(),
{
    let ready = HostState { circuit_open_until: None, ..state };
    if now_ns > ready.last_refill_ns {
        let gained = (now_ns - ready.last_refill_ns) * ready.config.refill_millitokens_per_sec;
        assert(gained >= 0) by (nonlinear_arith)
            requires
                gained == (now_ns - ready.last_refill_ns)
                    * ready.config.refill_millitokens_per_sec,
                now_ns > ready.last_refill_ns,
        ;
    }
    assert(ready.capacity() <= 0xffff_ffff_ffff_ffff * UNITS_PER_MILLITOKEN);
}

/// A permit that is dropped without an outcome frees its place and leaves the run of refusals
/// and the circuit alone: two refusals with a dropped permit between them are two in a row.
pub proof fn lemma_dropped_permit_changes_no_run(
    state: HostState,
    retry_after_ns: Option<u64>,
    now_ns: u64,
    later_ns: u64,
)
    requires
        state.in_flight > 0,
    ensures
        ({
            let dropped = state.released(permit_end(None), now_ns);
            let refusal = HostRelease::RateLimited { retry_after_ns };
            let after = dropped.released(refusal, later_ns);
            let direct = state.released(refusal, later_ns);
            &&& dropped == (HostState { in_flight: (state.in_flight - 1) as u32, ..state })
            &&& after.consecutive_429 == direct.consecutive_429
            &&& after.circuit_open_until == direct.circuit_open_until
        }),
{
}

/// Once as many refusals in a row as the threshold have come, every attempt before the
/// pause is over is answered with an open circuit and changes nothing.
pub proof fn lemma_refusals_open_the_circuit(
    state: HostState,
    retry_after_ns: Option<u64>,
    now_ns: u64,
    later_ns: u64,
)
    requires
        state.consecutive_429 + 1 >= state.config.consecutive_429_threshold,
        later_ns < now_ns + (match retry_after_ns {
            Some(ns) => ns,
            None => state.config.circuit_open_ns,
        }),
    ensures
        ({
            let after = state.released(HostRelease::RateLimited { retry_after_ns }, now_ns);
            after.attempt(later_ns) == (after, Admission::CircuitOpen)
        }),
{
}

/// A permit that is given back makes room again: where the bucket holds a token and the
/// circuit is closed, the next attempt is granted.
pub proof fn lemma_released_permit_makes_room(state: HostState, now_ns: u64)
    requires
        state.wf(),
        1 <= state.in_flight,
        state.circuit_open_until is None,
        state.units >= UNITS_PER_TOKEN,
    ensures
        state.released(HostRelease::Success, now_ns).attempt(now_ns).1 is Granted,
{
    let after = state.released(HostRelease::Success, now_ns);
    let ready = after.refilled(now_ns);
    if now_ns > after.last_refill_ns {
        let e = now_ns - after.last_refill_ns;
        let rate = after.config.refill_millitokens_per_sec;
        assert(e * rate >= 0) by (nonlinear_arith)
            requires
                e >= 0,
                rate >= 0,
        ;
        assert(ready.units >= after.units);
    }
}

}
