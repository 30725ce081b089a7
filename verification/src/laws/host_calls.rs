//! Calls to outside hosts.

use vstd::prelude::*;

use crate::ai::error::AiError;
use crate::ai::host_limit::{
    host_name, state_of, Admission, HostLimitConfig, HostLimiter, HostPermit, HostRelease,
    HostState,
};
use crate::text::{to_ascii_lower, trimmed};

verus! {

/// A pause ends: from its end on, no attempt is answered that the circuit is open, and the
/// attempt leaves it closed.
pub proof fn law_circuit_closes_after_its_pause(
    state: HostState,
    now_ns: u64,
    r: (HostState, Admission),
)
    requires
        state.wf(),
        state.circuit_open_until matches Some(until) ==> until <= now_ns,
        call_ensures(HostState::try_acquire, (state, now_ns), r),
    ensures
        !(r.1 is CircuitOpen),
        r.0.circuit_open_until is None,
{
}

/// Before the end of a pause every attempt is answered that the circuit is open, and changes
/// nothing.
pub proof fn law_circuit_stays_open_for_its_pause(
    state: HostState,
    now_ns: u64,
    r: (HostState, Admission),
)
    requires
        state.wf(),
        state.circuit_open_until is Some,
        now_ns < state.circuit_open_until->0,
        call_ensures(HostState::try_acquire, (state, now_ns), r),
    ensures
        r.1 is CircuitOpen,
        r.0 == state,
{
}

/// With no pause, a whole token in the bucket and room under the cap, an attempt is granted; it
/// takes the room of one call and the token.
pub proof fn law_token_and_room_are_granted(
    state: HostState,
    now_ns: u64,
    r: (HostState, Admission),
)
    requires
        state.wf(),
        state.circuit_open_until matches Some(until) ==> until <= now_ns,
        state.units >= 1_000_000_000_000,
        state.in_flight < state.config.max_concurrency,
        call_ensures(HostState::try_acquire, (state, now_ns), r),
    ensures
        r.1 is Granted,
        r.0.in_flight == state.in_flight + 1,
        now_ns <= state.last_refill_ns ==> r.0.units == state.units - 1_000_000_000_000,
        r.0.units + 1_000_000_000_000 >= state.units,
        r.0.consecutive_429 == state.consecutive_429,
{
    if now_ns > state.last_refill_ns {
        let e = now_ns - state.last_refill_ns;
        let rate = state.config.refill_millitokens_per_sec as int;
        assert(e * rate >= 0) by (nonlinear_arith)
            requires
                e >= 0,
                rate >= 0,
        ;
    }
}

/// A granted attempt was owed: there was room under the cap, and the tokens that were there with
/// those that came since make up a whole one.
pub proof fn law_grants_are_paid_for(state: HostState, now_ns: u64, r: (HostState, Admission))
    requires
        state.wf(),
        call_ensures(HostState::try_acquire, (state, now_ns), r),
        r.1 is Granted,
    ensures
        state.in_flight < state.config.max_concurrency,
        r.0.in_flight == state.in_flight + 1,
        state.circuit_open_until matches Some(until) ==> until <= now_ns,
        now_ns <= state.last_refill_ns ==> state.units >= 1_000_000_000_000,
        now_ns > state.last_refill_ns ==> state.units + (now_ns - state.last_refill_ns)
            * state.config.refill_millitokens_per_sec >= 1_000_000_000_000,
        r.0.units + 1_000_000_000_000 <= state.config.max_millitokens * 1_000_000_000,
{
}

/// A refusal for want of a token or of room takes nothing: no call is added, and what came into
/// the bucket since stays there.
pub proof fn law_refusal_takes_nothing(state: HostState, now_ns: u64, r: (HostState, Admission))
    requires
        state.wf(),
        call_ensures(HostState::try_acquire, (state, now_ns), r),
        !(r.1 is Granted),
    ensures
        r.0.in_flight == state.in_flight,
        r.0.units >= state.units,
        r.0.consecutive_429 == state.consecutive_429,
        r.1 is RateLimited ==> state.in_flight >= state.config.max_concurrency || r.0.units
            < 1_000_000_000_000,
{
    if now_ns > state.last_refill_ns {
        let e = now_ns - state.last_refill_ns;
        let rate = state.config.refill_millitokens_per_sec as int;
        assert(e * rate >= 0) by (nonlinear_arith)
            requires
                e >= 0,
                rate >= 0,
        ;
    }
}

/// Time fills the bucket at its rate, a thousandth of a token for each thousandth per second,
/// and never over its brim.
pub proof fn law_time_fills_the_bucket(state: HostState, now_ns: u64, r: (HostState, Admission))
    requires
        state.wf(),
        state.circuit_open_until is None,
        now_ns >= state.last_refill_ns,
        call_ensures(HostState::try_acquire, (state, now_ns), r),
    ensures
        ({
            let spent: int = if r.1 is Granted {
                1_000_000_000_000
            } else {
                0
            };
            let come = state.units + (now_ns - state.last_refill_ns)
                * state.config.refill_millitokens_per_sec;
            let brim = state.config.max_millitokens * 1_000_000_000;
            &&& come <= brim ==> r.0.units + spent == come
            &&& come > brim ==> r.0.units + spent == brim
            &&& r.0.last_refill_ns == now_ns
        }),
{
    if now_ns == state.last_refill_ns {
        assert((now_ns - state.last_refill_ns) * state.config.refill_millitokens_per_sec == 0)
            by (nonlinear_arith)
            requires
                now_ns == state.last_refill_ns,
        ;
    }
}

/// A fresh host has a full bucket, no calls and no pause, and admits a call wherever the limits
/// allow any.
pub proof fn law_fresh_host_is_open(
    config: HostLimitConfig,
    now_ns: u64,
    fresh: HostState,
    r: (HostState, Admission),
)
    requires
        call_ensures(HostState::new, (config, now_ns), fresh),
        config.max_millitokens >= 1_000,
        config.max_concurrency >= 1,
        call_ensures(HostState::try_acquire, (fresh, now_ns), r),
    ensures
        fresh.units == config.max_millitokens * 1_000_000_000,
        fresh.in_flight == 0,
        fresh.consecutive_429 == 0,
        fresh.circuit_open_until is None,
        r.1 is Granted,
{
}

/// However a call ended, its place is free again, and the bucket is as it was.
pub proof fn law_release_frees_one_place(
    state: HostState,
    outcome: HostRelease,
    now_ns: u64,
    r: HostState,
)
    requires
        state.wf(),
        call_ensures(HostState::release, (state, outcome, now_ns), r),
    ensures
        state.in_flight > 0 ==> r.in_flight == state.in_flight - 1,
        state.in_flight == 0 ==> r.in_flight == 0,
        r.units == state.units,
        r.last_refill_ns == state.last_refill_ns,
        r.config == state.config,
{
}

/// Only a refusal adds to the run of refusals, only a success ends it, and only a refusal that
/// completes the run opens the circuit: for as long as the host asks, or else as configured.
pub proof fn law_refusals_in_a_row_open_the_circuit(
    state: HostState,
    outcome: HostRelease,
    now_ns: u64,
    r: HostState,
)
    requires
        state.wf(),
        call_ensures(HostState::release, (state, outcome, now_ns), r),
    ensures
        outcome is Success ==> r.consecutive_429 == 0 && r.circuit_open_until
            == state.circuit_open_until,
        outcome is Error ==> r.consecutive_429 == state.consecutive_429 && r.circuit_open_until
            == state.circuit_open_until,
        outcome matches HostRelease::RateLimited { retry_after_ns } ==> {
            &&& state.consecutive_429 < u32::MAX ==> r.consecutive_429 == state.consecutive_429 + 1
            &&& state.consecutive_429 == u32::MAX ==> r.consecutive_429 == u32::MAX
            &&& r.consecutive_429 < state.config.consecutive_429_threshold ==> r.circuit_open_until
                == state.circuit_open_until
            &&& r.consecutive_429 >= state.config.consecutive_429_threshold ==> {
                &&& r.circuit_open_until is Some
                &&& retry_after_ns matches Some(wait) ==> r.circuit_open_until->0 == now_ns + wait
                &&& retry_after_ns is None ==> r.circuit_open_until->0 == now_ns
                    + state.config.circuit_open_ns
            }
        },
{
}

/// Two refusals in a row, with two as the threshold: attempts in the pause meet an open circuit,
/// and the first one after it, with a token and room, is granted.
pub proof fn law_pause_begins_and_ends(
    state: HostState,
    wait: Option<u64>,
    first_ns: u64,
    second_ns: u64,
    now_ns: u64,
    once: HostState,
    twice: HostState,
    r: (HostState, Admission),
)
    requires
        state.wf(),
        state.consecutive_429 == 0,
        state.circuit_open_until is None,
        state.config.consecutive_429_threshold == 2,
        state.units >= 1_000_000_000_000,
        state.config.max_concurrency > 0,
        call_ensures(
            HostState::release,
            (state, HostRelease::RateLimited { retry_after_ns: wait }, first_ns),
            once,
        ),
        call_ensures(
            HostState::release,
            (once, HostRelease::RateLimited { retry_after_ns: wait }, second_ns),
            twice,
        ),
        call_ensures(HostState::try_acquire, (twice, now_ns), r),
        state.in_flight >= 1,
    ensures
        once.circuit_open_until is None,
        ({
            let pause = match wait {
                Some(ns) => ns as int,
                None => state.config.circuit_open_ns as int,
            };
            &&& now_ns < second_ns + pause ==> r.1 is CircuitOpen
            &&& now_ns >= second_ns + pause ==> r.1 is Granted && r.0.circuit_open_until is None
        }),
{
    law_release_frees_one_place(
        state,
        HostRelease::RateLimited { retry_after_ns: wait },
        first_ns,
        once,
    );
    law_refusals_in_a_row_open_the_circuit(
        state,
        HostRelease::RateLimited { retry_after_ns: wait },
        first_ns,
        once,
    );
    law_release_frees_one_place(
        once,
        HostRelease::RateLimited { retry_after_ns: wait },
        second_ns,
        twice,
    );
    law_refusals_in_a_row_open_the_circuit(
        once,
        HostRelease::RateLimited { retry_after_ns: wait },
        second_ns,
        twice,
    );
    let until = twice.circuit_open_until->0;
    if now_ns >= until {
        law_token_and_room_are_granted(twice, now_ns, r);
        law_circuit_closes_after_its_pause(twice, now_ns, r);
    }
}

/// The limits that hold where nothing else is said: ten tokens, two more a second, two calls at
/// a time, half a minute of pause after two refusals.
pub proof fn law_default_limits(r: HostLimitConfig)
    requires
        call_ensures(<HostLimitConfig as Default>::default, (), r),
    ensures
        r.max_millitokens == 10 * 1_000,
        r.refill_millitokens_per_sec == 2 * 1_000,
        r.max_concurrency == 2,
        r.circuit_open_ns == 30 * 1_000_000_000,
        r.consecutive_429_threshold == 2,
{
}

// ---------------------------------------------------------------------------
// Many hosts
// ---------------------------------------------------------------------------

/// A host goes by its name in lower case without the white space around it; one without a name
/// is refused and changes nothing.
pub proof fn law_hosts_need_a_name(host: &str, now_ns: u64)
    requires
        trimmed(host@).len() == 0,
    ensures
        forall|limiter: &mut HostLimiter, r: Result<HostPermit, AiError>| #[trigger]
            call_ensures(HostLimiter::try_acquire, (limiter, host, now_ns), r) && limiter.wf()
                ==> r is Err && r->Err_0 is Config && *final(limiter) == *limiter,
{
}

/// A limiter decides for a host as the host's own state does, keeps the state that comes of it,
/// and leaves every other host alone.
pub proof fn law_limiter_decides_by_the_host(
    host: &str,
    other: Seq<char>,
    state: HostState,
    now_ns: u64,
    decided: (HostState, Admission),
)
    requires
        trimmed(host@).len() > 0,
        other != to_ascii_lower(trimmed(host@)),
        state.wf(),
        call_ensures(HostState::try_acquire, (state, now_ns), decided),
    ensures
        forall|limiter: &mut HostLimiter, r: Result<HostPermit, AiError>| #[trigger]
            call_ensures(HostLimiter::try_acquire, (limiter, host, now_ns), r) && limiter.wf()
                && state_of(limiter.hosts@, to_ascii_lower(trimmed(host@))) == Some(state) ==> {
                &&& r is Ok <==> decided.1 is Granted
                &&& r is Err && r->Err_0 is CircuitOpen <==> decided.1 is CircuitOpen
                &&& r is Err && r->Err_0 is RateLimited <==> decided.1 is RateLimited
                &&& r is Ok ==> r->Ok_0@ == to_ascii_lower(trimmed(host@))
                &&& state_of(final(limiter).hosts@, to_ascii_lower(trimmed(host@))) == Some(
                    decided.0,
                )
                &&& state_of(final(limiter).hosts@, other) == state_of(limiter.hosts@, other)
            },
{
    assert(host_name(host@).len() > 0);
}

/// A permit that is given back gives its host one place back, and touches no other host.
pub proof fn law_permits_come_back_to_their_host(
    host: &str,
    other: Seq<char>,
    state: HostState,
    outcome: HostRelease,
    now_ns: u64,
    after: HostState,
)
    requires
        other != host@,
        state.wf(),
        call_ensures(HostState::release, (state, outcome, now_ns), after),
    ensures
        forall|limiter: &mut HostLimiter, r: ()| #[trigger]
            call_ensures(HostLimiter::release, (limiter, host, outcome, now_ns), r) && limiter.wf()
                && state_of(limiter.hosts@, host@) == Some(state) ==> {
                &&& state_of(final(limiter).hosts@, host@) == Some(after)
                &&& state_of(final(limiter).hosts@, other) == state_of(limiter.hosts@, other)
            },
{
}

/// The three ways to end a call, and the one that was never told: as a success, as a refusal for
/// too many calls, and otherwise as an error.
pub proof fn law_permits_end_as_told(
    permit: HostPermit,
    state: HostState,
    retry_after_ns: Option<u64>,
    now_ns: u64,
    well: HostState,
    refused: HostState,
    failed: HostState,
)
    requires
        state.wf(),
        call_ensures(HostState::release, (state, HostRelease::Success, now_ns), well),
        call_ensures(
            HostState::release,
            (state, HostRelease::RateLimited { retry_after_ns }, now_ns),
            refused,
        ),
        call_ensures(HostState::release, (state, HostRelease::Error, now_ns), failed),
    ensures
        forall|limiter: &mut HostLimiter, r: ()| #[trigger]
            call_ensures(HostPermit::success, (permit, limiter, now_ns), r) && limiter.wf()
                && state_of(limiter.hosts@, permit@) == Some(state) ==> state_of(
                final(limiter).hosts@,
                permit@,
            ) == Some(well),
        forall|limiter: &mut HostLimiter, r: ()| #[trigger]
            call_ensures(HostPermit::rate_limited, (permit, limiter, retry_after_ns, now_ns), r)
                && limiter.wf() && state_of(limiter.hosts@, permit@) == Some(state) ==> state_of(
                final(limiter).hosts@,
                permit@,
            ) == Some(refused),
        forall|limiter: &mut HostLimiter, r: ()| #[trigger]
            call_ensures(HostPermit::failed, (permit, limiter, now_ns), r) && limiter.wf()
                && state_of(limiter.hosts@, permit@) == Some(state) ==> state_of(
                final(limiter).hosts@,
                permit@,
            ) == Some(failed),
        forall|limiter: &mut HostLimiter, r: ()| #[trigger]
            call_ensures(HostPermit::end, (permit, None::<HostRelease>, limiter, now_ns), r)
                && limiter.wf() && state_of(limiter.hosts@, permit@) == Some(state) ==> state_of(
                final(limiter).hosts@,
                permit@,
            ) == Some(failed),
{
}

} // verus!
