//! Throttles that count the attempts of an identity within a window of time.

use std::collections::hash_map::DefaultHasher;
use std::collections::HashMap;
use std::hash::Hasher;

use vstd::prelude::*;
use vstd::std_specs::hash::DefaultHasherAdditionalSpecFns;

use crate::text::{ascii_lowercase, to_ascii_lower, trim, trimmed};

verus! {

/// How long a window stays open.
pub const WINDOW_NS: u64 = 60_000_000_000;

/// How many attempts one window admits.
pub const ATTEMPTS_PER_WINDOW: u32 = 10;

/// How many identities are counted at a time.
pub const MAX_IDENTITIES: usize = 100_000;

/// The window of one identity: when it opened, and what it has admitted since.
#[derive(Debug, Clone, Copy, PartialEq, Eq, Structural)]
pub struct AttemptCounter {
    pub started_ns: u64,
    pub attempts: u32,
}

impl AttemptCounter {
    /// The window is still open. Time that runs backwards does not close it.
    pub open spec fn live(self, now_ns: int) -> bool {
        now_ns - self.started_ns < WINDOW_NS
    }

    fn is_live(&self, now_ns: u64) -> (r: bool)
        ensures
            r == self.live(now_ns as int),
    {
        now_ns < self.started_ns || now_ns - self.started_ns < WINDOW_NS
    }
}

/// The counters whose window is open.
pub open spec fn live_counters(counters: Map<u64, AttemptCounter>, now_ns: int) -> Map<
    u64,
    AttemptCounter,
> {
    Map::new(
        |key: u64| counters.contains_key(key) && counters[key].live(now_ns),
        |key: u64| counters[key],
    )
}

/// A full table is swept before it is used.
pub open spec fn swept(counters: Map<u64, AttemptCounter>, now_ns: int) -> Map<
    u64,
    AttemptCounter,
> {
    if counters.dom().len() >= MAX_IDENTITIES {
        live_counters(counters, now_ns)
    } else {
        counters
    }
}

/// The window that an attempt falls into: the open one, or a new one.
pub open spec fn current_window(
    counters: Map<u64, AttemptCounter>,
    key: u64,
    now_ns: u64,
) -> AttemptCounter {
    if counters.contains_key(key) && counters[key].live(now_ns as int) {
        counters[key]
    } else {
        AttemptCounter { started_ns: now_ns, attempts: 0 }
    }
}

/// Whether an attempt is admitted.
pub open spec fn admits(counters: Map<u64, AttemptCounter>, key: u64, now_ns: u64) -> bool {
    let table = swept(counters, now_ns as int);
    table.dom().len() < MAX_IDENTITIES && current_window(table, key, now_ns).attempts
        < ATTEMPTS_PER_WINDOW
}

/// The counters after an attempt.
pub open spec fn after_attempt(counters: Map<u64, AttemptCounter>, key: u64, now_ns: u64) -> Map<
    u64,
    AttemptCounter,
> {
    let table = swept(counters, now_ns as int);
    if admits(counters, key, now_ns) {
        let window = current_window(table, key, now_ns);
        table.insert(
            key,
            AttemptCounter {
                started_ns: window.started_ns,
                attempts: (window.attempts + 1) as u32,
            },
        )
    } else {
        table
    }
}

/// Attempt counters, keyed by a hash of the identity: the names themselves are
/// never kept.
pub struct AttemptCounters {
    counters: HashMap<u64, AttemptCounter>,
}

impl View for AttemptCounters {
    type V = Map<u64, AttemptCounter>;

    closed spec fn view(&self) -> Map<u64, AttemptCounter> {
        self.counters@
    }
}

impl AttemptCounters {
    pub fn new() -> (r: AttemptCounters)
        ensures
            r@ == Map::<u64, AttemptCounter>::empty(),
    {
        broadcast use vstd::std_specs::hash::group_hash_axioms;

        AttemptCounters { counters: HashMap::new() }
    }

    /// Forgets the identities whose window is over.
    fn sweep(&mut self, now_ns: u64)
        ensures
            final(self)@ == live_counters(old(self)@, now_ns as int),
    {
        broadcast use vstd::std_specs::hash::group_hash_axioms;

        let mut kept: HashMap<u64, AttemptCounter> = HashMap::new();
        let ghost mut seen: Seq<u64> = Seq::empty();
        for key in it: self.counters.keys()
            invariant
                it.seq().unref().to_set() == self.counters@.dom(),
                seen == it.seq().unref().take(it.index() as int),
                it.index() == it.seq().len() ==> seen == it.seq().unref(),
                kept@ == live_counters(self.counters@, now_ns as int).restrict(seen.to_set()),
        {
            proof {
                assert(it.seq().unref()[it.index() as int] == *key);
                assert(it.seq().unref().to_set().contains(*key));
                assert(it.seq().unref().take(it.index() + 1) =~= seen.push(*key));
                assert(seen.push(*key).to_set() =~= seen.to_set().insert(*key)) by {
                    assert(seen.push(*key).last() == *key);
                    assert forall|k: u64| seen.to_set().contains(k) implies seen.push(
                        *key,
                    ).to_set().contains(k) by {
                        let j = choose|j: int| 0 <= j < seen.len() && seen[j] == k;
                        assert(seen.push(*key)[j] == k);
                    }
                }
                seen = seen.push(*key);
            }
            if let Some(counter) = self.counters.get(key) {
                if counter.is_live(now_ns) {
                    kept.insert(*key, *counter);
                }
            }
            assert(kept@ =~= live_counters(self.counters@, now_ns as int).restrict(seen.to_set()));
        }
        proof {
            assert(seen.to_set() == self.counters@.dom());
            assert(kept@ =~= live_counters(self.counters@, now_ns as int));
        }
        self.counters = kept;
    }

    /// Counts an attempt of the identity behind `key`; false when it is throttled.
    pub fn attempt(&mut self, key: u64, now_ns: u64) -> (r: bool)
        ensures
            r == admits(old(self)@, key, now_ns),
            final(self)@ == after_attempt(old(self)@, key, now_ns),
    {
        broadcast use vstd::std_specs::hash::group_hash_axioms;

        if self.counters.len() >= MAX_IDENTITIES {
            self.sweep(now_ns);
        }
        let ghost table = self@;
        if self.counters.len() >= MAX_IDENTITIES {
            return false;
        }
        let window = match self.counters.get(&key) {
            Some(counter) if counter.is_live(now_ns) => *counter,
            _ => AttemptCounter { started_ns: now_ns, attempts: 0 },
        };
        assert(window == current_window(table, key, now_ns));
        if window.attempts >= ATTEMPTS_PER_WINDOW {
            return false;
        }
        self.counters.insert(
            key,
            AttemptCounter { started_ns: window.started_ns, attempts: window.attempts + 1 },
        );
        true
    }
}

/// The key under which an identity is counted.
pub open spec fn identity_key(identity: Seq<char>) -> u64 {
    DefaultHasher::spec_finish(seq![vstd::utf8::encode_utf8(identity), seq![0xffu8]])
}

fn hash_identity(identity: &str) -> (r: u64)
    ensures
        r == identity_key(identity@),
{
    let mut hasher = DefaultHasher::new();
    hasher.write(identity.as_bytes());
    let end: [u8; 1] = [0xffu8];
    hasher.write(&end);
    proof {
        assert(end@ =~= seq![0xffu8]);
        assert(hasher@ =~= seq![vstd::utf8::encode_utf8(identity@), seq![0xffu8]]);
    }
    hasher.finish()
}

/// The throttle of sign-in attempts, by account name. It says nothing about
/// whether the account exists.
pub struct LoginAttemptLimiter {
    pub counters: AttemptCounters,
}

/// Spellings of a name that differ in case, or in white space around it, count
/// together.
pub open spec fn login_key(username: Seq<char>) -> u64 {
    identity_key(to_ascii_lower(trimmed(username)))
}

impl LoginAttemptLimiter {
    pub fn new() -> (r: LoginAttemptLimiter)
        ensures
            r.counters@ == Map::<u64, AttemptCounter>::empty(),
    {
        LoginAttemptLimiter { counters: AttemptCounters::new() }
    }

    pub fn allow(&mut self, username: &str, now_ns: u64) -> (r: bool)
        ensures
            r == admits(old(self).counters@, login_key(username@), now_ns),
            final(self).counters@ == after_attempt(
                old(self).counters@,
                login_key(username@),
                now_ns,
            ),
    {
        let name = ascii_lowercase(trim(username).as_str());
        let key: u64 = hash_identity(name.as_str());
        self.counters.attempt(key, now_ns)
    }
}

/// The throttle of calls to an AI provider, by account.
pub struct AiCallLimiter {
    pub counters: AttemptCounters,
}

impl AiCallLimiter {
    pub fn new() -> (r: AiCallLimiter)
        ensures
            r.counters@ == Map::<u64, AttemptCounter>::empty(),
    {
        AiCallLimiter { counters: AttemptCounters::new() }
    }

    pub fn allow(&mut self, user_id: &str, now_ns: u64) -> (r: bool)
        ensures
            r == admits(old(self).counters@, identity_key(user_id@), now_ns),
            final(self).counters@ == after_attempt(
                old(self).counters@,
                identity_key(user_id@),
                now_ns,
            ),
    {
        let key: u64 = hash_identity(user_id);
        self.counters.attempt(key, now_ns)
    }
}

/// How many of the attempts (key and time), made one after the other, are admitted
/// for `key`.
pub open spec fn admitted(
    counters: Map<u64, AttemptCounter>,
    attempts: Seq<(u64, u64)>,
    key: u64,
) -> nat
    decreases attempts.len(),
{
    if attempts.len() == 0 {
        0
    } else {
        let (k, now_ns) = attempts[0];
        let rest = admitted(after_attempt(counters, k, now_ns), attempts.drop_first(), key);
        if k == key && admits(counters, k, now_ns) {
            1 + rest
        } else {
            rest
        }
    }
}

/// Once a window is open, and until it is over, it admits no more than its limit,
/// whatever the identity and all the others try in the meantime.
pub proof fn lemma_window_admits_at_most_its_limit(
    counters: Map<u64, AttemptCounter>,
    attempts: Seq<(u64, u64)>,
    key: u64,
)
    requires
        counters.contains_key(key),
        counters[key].attempts <= ATTEMPTS_PER_WINDOW,
        forall|i: int|
            0 <= i < attempts.len() ==> counters[key].live((#[trigger] attempts[i]).1 as int),
    ensures
        counters[key].attempts + admitted(counters, attempts, key) <= ATTEMPTS_PER_WINDOW,
    decreases attempts.len(),
{
    if attempts.len() > 0 {
        let (k, now_ns) = attempts[0];
        let next = after_attempt(counters, k, now_ns);
        assert(counters[key].live(attempts[0].1 as int));
        assert(next.contains_key(key));
        assert(next[key].started_ns == counters[key].started_ns);
        assert forall|i: int| 0 <= i < attempts.drop_first().len() implies next[key].live(
            (#[trigger] attempts.drop_first()[i]).1 as int,
        ) by {
            assert(attempts.drop_first()[i] == attempts[i + 1]);
        }
        lemma_window_admits_at_most_its_limit(next, attempts.drop_first(), key);
    }
}

/// The counters after attempts (key and time), made one after the other on an empty table.
pub open spec fn counters_after(attempts: Seq<(u64, u64)>) -> Map<u64, AttemptCounter>
    decreases attempts.len(),
{
    if attempts.len() == 0 {
        Map::empty()
    } else {
        after_attempt(
            counters_after(attempts.drop_last()),
            attempts.last().0,
            attempts.last().1,
        )
    }
}

/// How many of the attempts were made for `key`.
pub open spec fn attempts_for(attempts: Seq<(u64, u64)>, key: u64) -> nat
    decreases attempts.len(),
{
    if attempts.len() == 0 {
        0
    } else {
        attempts_for(attempts.drop_last(), key) + (if attempts.last().0 == key {
            1nat
        } else {
            0
        })
    }
}

/// The keys for which attempts were made.
pub open spec fn keys_of(attempts: Seq<(u64, u64)>) -> Set<u64>
    decreases attempts.len(),
{
    if attempts.len() == 0 {
        Set::empty()
    } else {
        keys_of(attempts.drop_last()).insert(attempts.last().0)
    }
}

/// All the attempts, and the moment `now_ns`, lie within one window.
pub open spec fn within_a_window(attempts: Seq<(u64, u64)>, now_ns: u64) -> bool {
    &&& forall|i: int|
        0 <= i < attempts.len() ==> now_ns - (#[trigger] attempts[i]).1 < WINDOW_NS
    &&& forall|i: int, j: int|
        0 <= i < attempts.len() && 0 <= j < attempts.len() ==> (#[trigger] attempts[i]).1 - (
        #[trigger] attempts[j]).1 < WINDOW_NS
}

proof fn lemma_counters_of_a_run(attempts: Seq<(u64, u64)>)
    requires
        forall|i: int, j: int|
            0 <= i < attempts.len() && 0 <= j < attempts.len() ==> (#[trigger] attempts[i]).1 - (
            #[trigger] attempts[j]).1 < WINDOW_NS,
        keys_of(attempts).len() < MAX_IDENTITIES,
    ensures
        keys_of(attempts).finite(),
        counters_after(attempts).dom() == keys_of(attempts),
        forall|key: u64| #[trigger]
            counters_after(attempts).contains_key(key) <==> attempts_for(attempts, key) > 0,
        forall|key: u64| #[trigger]
            counters_after(attempts).contains_key(key) ==> {
                &&& counters_after(attempts)[key].attempts == (if attempts_for(attempts, key)
                    < ATTEMPTS_PER_WINDOW {
                    attempts_for(attempts, key)
                } else {
                    ATTEMPTS_PER_WINDOW as nat
                })
                &&& exists|i: int|
                    0 <= i < attempts.len() && counters_after(attempts)[key].started_ns == (
                    #[trigger] attempts[i]).1
            },
    decreases attempts.len(),
{
    if attempts.len() > 0 {
        let front = attempts.drop_last();
        let (k, now_ns) = attempts.last();
        lemma_keys_finite(front);
        assert(keys_of(front).subset_of(keys_of(attempts)));
        lemma_keys_finite(attempts);
        vstd::set_lib::lemma_len_subset(keys_of(front), keys_of(attempts));
        assert forall|i: int, j: int|
            0 <= i < front.len() && 0 <= j < front.len() implies (#[trigger] front[i]).1 - (
        #[trigger] front[j]).1 < WINDOW_NS by {
            assert(front[i] == attempts[i] && front[j] == attempts[j]);
        }
        lemma_counters_of_a_run(front);
        let before = counters_after(front);
        let after = counters_after(attempts);
        assert(swept(before, now_ns as int) == before);
        if before.contains_key(k) {
            let i = choose|i: int|
                0 <= i < front.len() && before[k].started_ns == (#[trigger] front[i]).1;
            assert(front[i] == attempts[i]);
            assert(attempts[attempts.len() - 1].1 - attempts[i].1 < WINDOW_NS);
            assert(before[k].live(now_ns as int));
        }
        assert(after.dom() =~= keys_of(attempts));
        assert forall|key: u64| #[trigger] after.contains_key(key) implies exists|i: int|
            0 <= i < attempts.len() && after[key].started_ns == (#[trigger] attempts[i]).1 by {
            if before.contains_key(key) {
                let i = choose|i: int|
                    0 <= i < front.len() && before[key].started_ns == (#[trigger] front[i]).1;
                assert(attempts[i] == front[i]);
            } else {
                assert(attempts[attempts.len() - 1].1 == now_ns);
            }
        }
        assert forall|key: u64| #[trigger] after.contains_key(key) <==> attempts_for(attempts, key)
            > 0 by {
            assert(before.contains_key(key) <==> attempts_for(front, key) > 0);
        }
    }
}

proof fn lemma_keys_finite(attempts: Seq<(u64, u64)>)
    ensures
        keys_of(attempts).finite(),
    decreases attempts.len(),
{
    if attempts.len() > 0 {
        lemma_keys_finite(attempts.drop_last());
    }
}

/// On a table that was empty, the attempt of an identity that has made `n` within the window
/// is admitted exactly when `n` is less than the limit, whatever other identities do, as long
/// as the table has room.
pub proof fn lemma_run_admits_exactly_its_limit(
    attempts: Seq<(u64, u64)>,
    key: u64,
    now_ns: u64,
)
    requires
        within_a_window(attempts, now_ns),
        keys_of(attempts).len() < MAX_IDENTITIES,
    ensures
        admits(counters_after(attempts), key, now_ns) <==> attempts_for(attempts, key)
            < ATTEMPTS_PER_WINDOW,
{
    lemma_counters_of_a_run(attempts);
    let counters = counters_after(attempts);
    if counters.contains_key(key) {
        let i = choose|i: int|
            0 <= i < attempts.len() && counters[key].started_ns == (#[trigger] attempts[i]).1;
        assert(now_ns - attempts[i].1 < WINDOW_NS);
        assert(counters[key].live(now_ns as int));
    } else {
        assert(attempts_for(attempts, key) == 0);
    }
}

/// The attempts to sign in (name and time), by the keys under which they are counted.
pub open spec fn login_attempts(tries: Seq<(Seq<char>, u64)>) -> Seq<(u64, u64)> {
    tries.map_values(|t: (Seq<char>, u64)| (login_key(t.0), t.1))
}

/// How many of the tries were made for a name, however it was spelt.
pub open spec fn tries_for(tries: Seq<(Seq<char>, u64)>, username: Seq<char>) -> nat
    decreases tries.len(),
{
    if tries.len() == 0 {
        0
    } else {
        tries_for(tries.drop_last(), username) + (if to_ascii_lower(trimmed(tries.last().0))
            == to_ascii_lower(trimmed(username)) {
            1nat
        } else {
            0
        })
    }
}

proof fn lemma_tries_are_attempts(tries: Seq<(Seq<char>, u64)>, username: Seq<char>)
    requires
        forall|i: int|
            0 <= i < tries.len() && login_key((#[trigger] tries[i]).0) == login_key(username)
                ==> to_ascii_lower(trimmed(tries[i].0)) == to_ascii_lower(trimmed(username)),
    ensures
        attempts_for(login_attempts(tries), login_key(username)) == tries_for(tries, username),
    decreases tries.len(),
{
    if tries.len() > 0 {
        let front = tries.drop_last();
        assert forall|i: int|
            0 <= i < front.len() && login_key((#[trigger] front[i]).0) == login_key(
                username,
            ) implies to_ascii_lower(trimmed(front[i].0)) == to_ascii_lower(trimmed(username)) by {
            assert(front[i] == tries[i]);
        }
        lemma_tries_are_attempts(front, username);
        assert(login_attempts(tries).drop_last() =~= login_attempts(front));
        assert(tries[tries.len() - 1] == tries.last());
    }
}

/// From an empty limiter, a try to sign in is admitted exactly when fewer than ten were made
/// within the window for the same name, however it was spelt: tries for other names do not
/// matter, nor does whether there is such an account. Names that happen to be counted under
/// one key are left out.
pub proof fn lemma_tenth_try_is_the_last(
    tries: Seq<(Seq<char>, u64)>,
    username: Seq<char>,
    now_ns: u64,
)
    requires
        within_a_window(login_attempts(tries), now_ns),
        keys_of(login_attempts(tries)).len() < MAX_IDENTITIES,
        forall|i: int|
            0 <= i < tries.len() && login_key((#[trigger] tries[i]).0) == login_key(username)
                ==> to_ascii_lower(trimmed(tries[i].0)) == to_ascii_lower(trimmed(username)),
    ensures
        admits(counters_after(login_attempts(tries)), login_key(username), now_ns) <==> tries_for(
            tries,
            username,
        ) < ATTEMPTS_PER_WINDOW,
{
    lemma_tries_are_attempts(tries, username);
    lemma_run_admits_exactly_its_limit(login_attempts(tries), login_key(username), now_ns);
}

/// The first attempt of an identity that is not counted yet opens a window, unless
/// the table is full of open ones.
pub proof fn lemma_first_attempt_is_admitted(
    counters: Map<u64, AttemptCounter>,
    key: u64,
    now_ns: u64,
)
    requires
        !counters.contains_key(key),
        counters.dom().len() < MAX_IDENTITIES,
    ensures
        admits(counters, key, now_ns),
        after_attempt(counters, key, now_ns)[key] == (AttemptCounter {
            started_ns: now_ns,
            attempts: 1,
        }),
{
}

} // verus!
