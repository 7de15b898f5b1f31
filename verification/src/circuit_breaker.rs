//! A per-skill circuit breaker: one state per tracked skill name, kept in
//! a bounded cache that forgets the least recently used name first and
//! drops states that have been idle for longer than their time to live.
//!
//! Times are milliseconds on a monotonic clock. Every operation exists in
//! two forms: one that takes the time as an argument, and one that reads
//! the breaker's own clock and then does the same.

use vstd::prelude::*;
use crate::cache_model::{
    distinct_keys, lemma_lookup, lemma_stored, lemma_stored_promoted, lemma_without,
    lemma_without_promoted, lemma_without_seam,
};
use crate::circuit_cache::{
    cache_cap, cache_entries, cache_get, cache_len, cache_limit, cache_new, cache_pop, cache_put,
    cache_snapshot, lookup, promoted, stored, without, Entries,
};
use crate::clock::MonotonicClock;

verus! {

/// The state of one circuit.
#[derive(Debug, Clone, Copy, PartialEq, Eq, Structural)]
pub enum CircuitState {
    Closed { failures: u32, last_updated: u64 },
    Open { opened_at: u64 },
    HalfOpen { trial_permits: u32, last_updated: u64 },
}

/// Configuration for circuit breaker behavior.
#[derive(Clone, Copy, Debug)]
pub struct CircuitBreakerConfig {
    /// Number of failures before opening circuit
    pub failure_threshold: u32,
    /// Time to wait before trying half-open, in milliseconds
    pub open_cooldown_ms: u64,
    /// Number of trial requests in half-open state
    pub half_open_trial: u32,
    /// Maximum number of circuits to track
    pub max_circuits: usize,
    /// Time to live for idle circuit states, in seconds
    pub state_ttl_secs: u64,
}

impl CircuitBreakerConfig {
    /// The default configuration: open after three failures, cool down
    /// for five seconds, let one trial through, track a thousand circuits
    /// and forget a state that has been idle for an hour.
    pub open spec fn standard() -> CircuitBreakerConfig {
        CircuitBreakerConfig {
            failure_threshold: 3,
            open_cooldown_ms: 5_000,
            half_open_trial: 1,
            max_circuits: 1000,
            state_ttl_secs: 3600,
        }
    }
}

impl Default for CircuitBreakerConfig {
    fn default() -> (config: Self)
        ensures
            config == CircuitBreakerConfig::standard(),
    {
        CircuitBreakerConfig {
            failure_threshold: 3,
            open_cooldown_ms: 5_000,
            half_open_trial: 1,
            max_circuits: 1000,
            state_ttl_secs: 3600,
        }
    }
}

/// Counts of tracked circuits by state, and the store's capacity.
#[derive(Debug, Clone, Copy)]
pub struct CircuitStats {
    pub total_circuits: usize,
    pub closed: usize,
    pub open: usize,
    pub half_open: usize,
    pub capacity: usize,
}

/// Milliseconds from `since` to `now`; zero where `now` is the earlier.
pub open spec fn elapsed_ms(since: u64, now: u64) -> nat {
    if now >= since {
        (now - since) as nat
    } else {
        0
    }
}

impl CircuitState {
    /// The time at which the state was last written.
    pub open spec fn last_touch(self) -> u64 {
        match self {
            CircuitState::Closed { last_updated, .. } => last_updated,
            CircuitState::Open { opened_at } => opened_at,
            CircuitState::HalfOpen { last_updated, .. } => last_updated,
        }
    }

    /// Whether the state has been idle for more than `ttl_secs` seconds at
    /// time `now_ms`.
    pub open spec fn expired_at(self, ttl_secs: u64, now_ms: u64) -> bool {
        elapsed_ms(self.last_touch(), now_ms) > ttl_secs * 1000
    }

    /// Whether a caller that checks the circuit at `now_ms` is turned away.
    /// A closed circuit never blocks; an open one blocks until its cooldown
    /// has passed; a half-open one blocks once its trial permits are used up.
    pub open spec fn blocks(self, config: CircuitBreakerConfig, now_ms: u64) -> bool {
        match self {
            CircuitState::Closed { .. } => false,
            CircuitState::Open { opened_at } => elapsed_ms(opened_at, now_ms)
                < config.open_cooldown_ms,
            CircuitState::HalfOpen { trial_permits, .. } => trial_permits == 0,
        }
    }

    /// The state that a check at `now_ms` leaves behind. The caller that
    /// finds the cooldown over becomes the first trial and turns the circuit
    /// half-open; each later caller that is let through takes one permit.
    pub open spec fn after_check(self, config: CircuitBreakerConfig, now_ms: u64) -> CircuitState {
        match self {
            CircuitState::Closed { .. } => self,
            CircuitState::Open { opened_at } => if elapsed_ms(opened_at, now_ms)
                >= config.open_cooldown_ms {
                CircuitState::HalfOpen {
                    trial_permits: if config.half_open_trial > 0 {
                        (config.half_open_trial - 1) as u32
                    } else {
                        0
                    },
                    last_updated: now_ms,
                }
            } else {
                self
            },
            CircuitState::HalfOpen { trial_permits, .. } => if trial_permits > 0 {
                CircuitState::HalfOpen {
                    trial_permits: (trial_permits - 1) as u32,
                    last_updated: now_ms,
                }
            } else {
                self
            },
        }
    }

    /// The state that a failure recorded at `now_ms` leaves behind, given
    /// the live state of the circuit (`None` where nothing is tracked or
    /// what is tracked has expired). A closed circuit counts the failure and
    /// opens at the threshold; a half-open one re-opens at once; an open
    /// one stays open, and its cooldown starts anew: a failure never closes
    /// a circuit. Where there is no live state the count starts at one,
    /// which already opens a circuit whose threshold is one or less.
    pub open spec fn after_failure(
        live: Option<CircuitState>,
        config: CircuitBreakerConfig,
        now_ms: u64,
    ) -> CircuitState {
        match live {
            Some(CircuitState::Closed { failures, .. }) => if failures + 1
                >= config.failure_threshold {
                CircuitState::Open { opened_at: now_ms }
            } else {
                CircuitState::Closed { failures: (failures + 1) as u32, last_updated: now_ms }
            },
            Some(CircuitState::HalfOpen { .. }) => CircuitState::Open { opened_at: now_ms },
            Some(CircuitState::Open { .. }) => CircuitState::Open { opened_at: now_ms },
            None => if config.failure_threshold <= 1 {
                CircuitState::Open { opened_at: now_ms }
            } else {
                CircuitState::Closed { failures: 1, last_updated: now_ms }
            },
        }
    }

    /// Check if the state has expired based on the time to live.
    pub fn is_expired(&self, ttl_secs: u64, now_ms: u64) -> (expired: bool)
        ensures
            expired == self.expired_at(ttl_secs, now_ms),
    {
        let last_touch: u64 = match self {
            CircuitState::Closed { last_updated, .. } => *last_updated,
            CircuitState::Open { opened_at } => *opened_at,
            CircuitState::HalfOpen { last_updated, .. } => *last_updated,
        };
        if now_ms <= last_touch {
            false
        } else {
            let elapsed: u64 = now_ms - last_touch;
            (elapsed as u128) > (ttl_secs as u128) * 1000
        }
    }

    /// Checks the circuit at `now_ms`: the state to keep, and whether the
    /// caller is turned away.
    pub fn check(&self, config: &CircuitBreakerConfig, now_ms: u64) -> (outcome: (
        CircuitState,
        bool,
    ))
        ensures
            outcome.0 == self.after_check(*config, now_ms),
            outcome.1 == self.blocks(*config, now_ms),
    {
        match self {
            CircuitState::Closed { .. } => (*self, false),
            CircuitState::Open { opened_at } => {
                let elapsed: u64 = if now_ms >= *opened_at {
                    now_ms - *opened_at
                } else {
                    0
                };
                if elapsed >= config.open_cooldown_ms {
                    let remaining: u32 = if config.half_open_trial > 0 {
                        config.half_open_trial - 1
                    } else {
                        0
                    };
                    (CircuitState::HalfOpen { trial_permits: remaining, last_updated: now_ms }, false)
                } else {
                    (*self, true)
                }
            },
            CircuitState::HalfOpen { trial_permits, .. } => {
                if *trial_permits > 0 {
                    (
                        CircuitState::HalfOpen {
                            trial_permits: *trial_permits - 1,
                            last_updated: now_ms,
                        },
                        false,
                    )
                } else {
                    (*self, true)
                }
            },
        }
    }

    /// The state after a failure recorded at `now_ms`.
    pub fn on_failure(live: Option<CircuitState>, config: &CircuitBreakerConfig, now_ms: u64) -> (next:
        CircuitState)
        ensures
            next == CircuitState::after_failure(live, *config, now_ms),
    {
        match live {
            Some(CircuitState::Closed { failures, .. }) => {
                if config.failure_threshold == 0 || failures >= config.failure_threshold - 1 {
                    CircuitState::Open { opened_at: now_ms }
                } else {
                    CircuitState::Closed { failures: failures + 1, last_updated: now_ms }
                }
            },
            Some(CircuitState::HalfOpen { .. }) => CircuitState::Open { opened_at: now_ms },
            Some(CircuitState::Open { .. }) => CircuitState::Open { opened_at: now_ms },
            None => {
                if config.failure_threshold <= 1 {
                    CircuitState::Open { opened_at: now_ms }
                } else {
                    CircuitState::Closed { failures: 1, last_updated: now_ms }
                }
            },
        }
    }
}

/// The state under `key` unless it has expired at `now_ms`.
pub open spec fn live_state(entries: Entries, key: Seq<char>, ttl_secs: u64, now_ms: u64) -> Option<
    CircuitState,
> {
    match lookup(entries, key) {
        Some(state) => if state.expired_at(ttl_secs, now_ms) {
            None
        } else {
            Some(state)
        },
        None => None,
    }
}

/// Whether a check of `key` at `now_ms` turns the caller away: only a
/// tracked, unexpired state can block.
pub open spec fn check_blocks(
    config: CircuitBreakerConfig,
    entries: Entries,
    key: Seq<char>,
    now_ms: u64,
) -> bool {
    match live_state(entries, key, config.state_ttl_secs, now_ms) {
        Some(state) => state.blocks(config, now_ms),
        None => false,
    }
}

/// What is tracked after a check of `key` at `now_ms`. An untracked name
/// starts closed; an expired state is dropped; otherwise the state moves on
/// as `after_check` says and becomes the most recently used.
pub open spec fn entries_after_check(
    config: CircuitBreakerConfig,
    limit: nat,
    entries: Entries,
    key: Seq<char>,
    now_ms: u64,
) -> Entries {
    match lookup(entries, key) {
        Some(state) => if state.expired_at(config.state_ttl_secs, now_ms) {
            without(entries, key)
        } else {
            stored(entries, limit, key, state.after_check(config, now_ms))
        },
        None => stored(
            entries,
            limit,
            key,
            CircuitState::Closed { failures: 0, last_updated: now_ms },
        ),
    }
}

/// What is tracked after a success of `key` at `now_ms`: the circuit is
/// closed with no failures, whatever it was before.
pub open spec fn entries_after_success(limit: nat, entries: Entries, key: Seq<char>, now_ms: u64) -> Entries {
    stored(entries, limit, key, CircuitState::Closed { failures: 0, last_updated: now_ms })
}

/// What is tracked after a failure of `key` at `now_ms`.
pub open spec fn entries_after_failure(
    config: CircuitBreakerConfig,
    limit: nat,
    entries: Entries,
    key: Seq<char>,
    now_ms: u64,
) -> Entries {
    stored(
        entries,
        limit,
        key,
        CircuitState::after_failure(
            live_state(entries, key, config.state_ttl_secs, now_ms),
            config,
            now_ms,
        ),
    )
}

/// The test that an entry has not expired at `now_ms`.
pub open spec fn is_fresh(ttl_secs: u64, now_ms: u64) -> spec_fn((Seq<char>, CircuitState)) -> bool {
    |e: (Seq<char>, CircuitState)| !e.1.expired_at(ttl_secs, now_ms)
}

/// What is tracked after a cleanup at `now_ms`: the unexpired states, in
/// their old order.
pub open spec fn entries_after_cleanup(config: CircuitBreakerConfig, entries: Entries, now_ms: u64) -> Entries {
    entries.filter(is_fresh(config.state_ttl_secs, now_ms))
}

/// The test that an entry's circuit is closed.
pub open spec fn is_closed() -> spec_fn((Seq<char>, CircuitState)) -> bool {
    |e: (Seq<char>, CircuitState)| e.1 is Closed
}

/// The test that an entry's circuit is open.
pub open spec fn is_opened() -> spec_fn((Seq<char>, CircuitState)) -> bool {
    |e: (Seq<char>, CircuitState)| e.1 is Open
}

/// The test that an entry's circuit is half-open.
pub open spec fn is_half_open() -> spec_fn((Seq<char>, CircuitState)) -> bool {
    |e: (Seq<char>, CircuitState)| e.1 is HalfOpen
}

/// The statistics of a store that tracks `entries` and has room for
/// `limit` of them.
pub open spec fn stats_of(limit: nat, entries: Entries, stats: CircuitStats) -> bool {
    &&& stats.total_circuits == entries.len()
    &&& stats.closed == entries.filter(is_closed()).len()
    &&& stats.open == entries.filter(is_opened()).len()
    &&& stats.half_open == entries.filter(is_half_open()).len()
    &&& stats.capacity == limit
}

/// The capacity that a store is created with: the configured maximum, and
/// one where that is zero.
pub open spec fn capacity_for(config: CircuitBreakerConfig) -> nat {
    if config.max_circuits == 0 {
        1
    } else {
        config.max_circuits as nat
    }
}

/// What holds of every store: it tracks each name once and never more
/// names than its capacity.
pub open spec fn well_formed(config: CircuitBreakerConfig, limit: nat, entries: Entries) -> bool {
    &&& limit == capacity_for(config)
    &&& entries.len() <= limit
    &&& distinct_keys(entries)
}

/// A circuit breaker store as a value: its configuration, its capacity and
/// what it tracks, most recently used first.
pub struct BreakerModel {
    pub config: CircuitBreakerConfig,
    pub limit: nat,
    pub entries: Entries,
}

impl BreakerModel {
    /// An empty store for `config`.
    pub open spec fn fresh(config: CircuitBreakerConfig) -> BreakerModel {
        BreakerModel { config, limit: capacity_for(config), entries: Seq::empty() }
    }

    /// The store tracks each name once and no more names than its
    /// capacity, which is the one that its configuration asks for.
    pub open spec fn wf(self) -> bool {
        well_formed(self.config, self.limit, self.entries)
    }

    /// The state tracked under `key`, if any.
    pub open spec fn state_of(self, key: Seq<char>) -> Option<CircuitState> {
        lookup(self.entries, key)
    }

    /// Whether a check of `key` at `now_ms` turns the caller away.
    pub open spec fn blocks(self, key: Seq<char>, now_ms: u64) -> bool {
        check_blocks(self.config, self.entries, key, now_ms)
    }

    /// The store after a check of `key` at `now_ms`.
    pub open spec fn checked(self, key: Seq<char>, now_ms: u64) -> BreakerModel {
        BreakerModel {
            entries: entries_after_check(self.config, self.limit, self.entries, key, now_ms),
            ..self
        }
    }

    /// The store after a success of `key` at `now_ms`.
    pub open spec fn succeeded(self, key: Seq<char>, now_ms: u64) -> BreakerModel {
        BreakerModel {
            entries: entries_after_success(self.limit, self.entries, key, now_ms),
            ..self
        }
    }

    /// The store after a failure of `key` at `now_ms`.
    pub open spec fn failed(self, key: Seq<char>, now_ms: u64) -> BreakerModel {
        BreakerModel {
            entries: entries_after_failure(self.config, self.limit, self.entries, key, now_ms),
            ..self
        }
    }

    /// The store after a cleanup at `now_ms`.
    pub open spec fn cleaned(self, now_ms: u64) -> BreakerModel {
        BreakerModel { entries: entries_after_cleanup(self.config, self.entries, now_ms), ..self }
    }
}

/// Circuit breaker manager with least-recently-used eviction and a time
/// to live.
pub struct CircuitBreakerManager {
    states: lru::LruCache<String, CircuitState>,
    config: CircuitBreakerConfig,
    clock: MonotonicClock,
}

impl View for CircuitBreakerManager {
    type V = BreakerModel;

    open spec fn view(&self) -> BreakerModel {
        BreakerModel { config: self.config(), limit: self.capacity(), entries: self.entries() }
    }
}

impl CircuitBreakerManager {
    /// The tracked circuits, most recently used first.
    pub closed spec fn entries(&self) -> Entries {
        cache_entries(self.states)
    }

    /// The number of circuits that can be tracked at once.
    pub closed spec fn capacity(&self) -> nat {
        cache_limit(self.states)
    }

    /// The configuration that the manager was created with.
    pub closed spec fn config(&self) -> CircuitBreakerConfig {
        self.config
    }

    /// The latest reading of the manager's clock.
    pub closed spec fn clock_ms(&self) -> u64 {
        self.clock.latest()
    }

    /// The manager tracks each name once and no more names than its
    /// capacity, which is the one that its configuration asks for.
    pub open spec fn wf(&self) -> bool {
        well_formed(self.config(), self.capacity(), self.entries())
    }

    pub fn new(config: CircuitBreakerConfig) -> (manager: Self)
        ensures
            manager.wf(),
            manager.config() == config,
            manager.capacity() == capacity_for(config),
            manager.entries() == Seq::<(Seq<char>, CircuitState)>::empty(),
            manager.clock_ms() == 0,
    {
        let capacity: usize = if config.max_circuits == 0 {
            1
        } else {
            config.max_circuits
        };
        CircuitBreakerManager {
            states: cache_new(capacity),
            config,
            clock: MonotonicClock::new(),
        }
    }

    /// Record successful execution at `now_ms`.
    pub fn record_success_at(&mut self, skill_name: &str, now_ms: u64)
        requires
            old(self).wf(),
        ensures
            final(self).wf(),
            final(self).config() == old(self).config(),
            final(self).capacity() == old(self).capacity(),
            final(self).clock_ms() == old(self).clock_ms(),
            final(self).entries() == entries_after_success(
                old(self).capacity(),
                old(self).entries(),
                skill_name@,
                now_ms,
            ),
    {
        proof {
            lemma_stored(
                self.entries(),
                self.capacity(),
                skill_name@,
                CircuitState::Closed { failures: 0, last_updated: now_ms },
            );
        }
        cache_put(
            &mut self.states,
            skill_name.to_owned(),
            CircuitState::Closed { failures: 0, last_updated: now_ms },
        );
    }

    /// Check if the circuit is open for a skill at `now_ms`. This is the one
    /// query and transition in one: the answer is whether the caller is
    /// turned away, and a caller that is let through a recovering circuit
    /// has taken a trial permit.
    pub fn is_open_at(&mut self, skill_name: &str, now_ms: u64) -> (blocked: bool)
        requires
            old(self).wf(),
        ensures
            final(self).wf(),
            final(self).config() == old(self).config(),
            final(self).capacity() == old(self).capacity(),
            final(self).clock_ms() == old(self).clock_ms(),
            final(self).entries() == entries_after_check(
                old(self).config(),
                old(self).capacity(),
                old(self).entries(),
                skill_name@,
                now_ms,
            ),
            blocked == check_blocks(old(self).config(), old(self).entries(), skill_name@, now_ms),
    {
        let ghost before = self.entries();
        let ghost limit = self.capacity();
        proof {
            lemma_lookup(before, skill_name@);
            lemma_without(before, skill_name@);
            lemma_without_promoted(before, skill_name@);
        }
        let found = cache_get(&mut self.states, skill_name);
        match found {
            None => {
                let fresh = CircuitState::Closed { failures: 0, last_updated: now_ms };
                proof {
                    lemma_stored(before, limit, skill_name@, fresh);
                }
                cache_put(&mut self.states, skill_name.to_owned(), fresh);
                false
            },
            Some(state) => {
                if state.is_expired(self.config.state_ttl_secs, now_ms) {
                    cache_pop(&mut self.states, skill_name);
                    false
                } else {
                    let (next, blocked) = state.check(&self.config, now_ms);
                    proof {
                        lemma_stored(before, limit, skill_name@, next);
                        lemma_stored_promoted(before, limit, skill_name@, next);
                    }
                    cache_put(&mut self.states, skill_name.to_owned(), next);
                    blocked
                }
            },
        }
    }

    /// Record failed execution at `now_ms`.
    pub fn record_failure_at(&mut self, skill_name: &str, now_ms: u64)
        requires
            old(self).wf(),
        ensures
            final(self).wf(),
            final(self).config() == old(self).config(),
            final(self).capacity() == old(self).capacity(),
            final(self).clock_ms() == old(self).clock_ms(),
            final(self).entries() == entries_after_failure(
                old(self).config(),
                old(self).capacity(),
                old(self).entries(),
                skill_name@,
                now_ms,
            ),
    {
        let ghost before = self.entries();
        let ghost limit = self.capacity();
        let found = cache_get(&mut self.states, skill_name);
        let live = match found {
            Some(state) => if state.is_expired(self.config.state_ttl_secs, now_ms) {
                None
            } else {
                Some(state)
            },
            None => None,
        };
        let next = CircuitState::on_failure(live, &self.config, now_ms);
        proof {
            lemma_stored(before, limit, skill_name@, next);
            lemma_stored_promoted(before, limit, skill_name@, next);
        }
        cache_put(&mut self.states, skill_name.to_owned(), next);
    }

    /// Get current statistics.
    pub fn stats(&self) -> (stats: CircuitStats)
        requires
            self.wf(),
        ensures
            stats_of(self.capacity(), self.entries(), stats),
            stats.total_circuits <= stats.capacity,
            stats.closed + stats.open + stats.half_open == stats.total_circuits,
    {
        let items = cache_snapshot(&self.states);
        let ghost entries = self.entries();
        let mut closed: usize = 0;
        let mut open: usize = 0;
        let mut half_open: usize = 0;
        let mut i: usize = 0;
        while i < items.len()
            invariant
                i <= items.len(),
                items@.len() == entries.len(),
                forall|j: int|
                    0 <= j < items@.len() ==> (#[trigger] items@[j]).0@ == entries[j].0
                        && items@[j].1 == entries[j].1,
                closed == entries.take(i as int).filter(is_closed()).len(),
                open == entries.take(i as int).filter(is_opened()).len(),
                half_open == entries.take(i as int).filter(is_half_open()).len(),
                closed + open + half_open == i,
            decreases items.len() - i,
        {
            proof {
                let seen = entries.take(i as int);
                entries.lemma_take_succ_push(i as int);
                seen.lemma_filter_push(entries[i as int], is_closed());
                seen.lemma_filter_push(entries[i as int], is_opened());
                seen.lemma_filter_push(entries[i as int], is_half_open());
                assert(items@[i as int].1 == entries[i as int].1);
            }
            match items[i].1 {
                CircuitState::Closed { .. } => {
                    closed += 1;
                },
                CircuitState::Open { .. } => {
                    open += 1;
                },
                CircuitState::HalfOpen { .. } => {
                    half_open += 1;
                },
            }
            i += 1;
        }
        proof {
            entries.lemma_take_len();
        }
        CircuitStats {
            total_circuits: cache_len(&self.states),
            closed,
            open,
            half_open,
            capacity: cache_cap(&self.states),
        }
    }

    /// Remove every state that has expired at `now_ms`.
    pub fn cleanup_expired_at(&mut self, now_ms: u64)
        requires
            old(self).wf(),
        ensures
            final(self).wf(),
            final(self).config() == old(self).config(),
            final(self).capacity() == old(self).capacity(),
            final(self).clock_ms() == old(self).clock_ms(),
            final(self).entries() == entries_after_cleanup(
                old(self).config(),
                old(self).entries(),
                now_ms,
            ),
    {
        let items = cache_snapshot(&self.states);
        let ghost before = self.entries();
        let ghost fresh = is_fresh(self.config.state_ttl_secs, now_ms);
        let mut i: usize = 0;
        assert(before.take(0).filter(fresh) + before.skip(0) == before);
        while i < items.len()
            invariant
                i <= items.len(),
                items@.len() == before.len(),
                forall|j: int|
                    0 <= j < items@.len() ==> (#[trigger] items@[j]).0@ == before[j].0
                        && items@[j].1 == before[j].1,
                self.wf(),
                self.config() == old(self).config(),
                self.capacity() == old(self).capacity(),
                self.clock_ms() == old(self).clock_ms(),
                fresh == is_fresh(self.config().state_ttl_secs, now_ms),
                self.entries() == before.take(i as int).filter(fresh) + before.skip(i as int),
            decreases items.len() - i,
        {
            let ghost kept = before.take(i as int).filter(fresh);
            let ghost rest = before.skip(i as int);
            proof {
                before.lemma_take_succ_push(i as int);
                before.take(i as int).lemma_filter_push(before[i as int], fresh);
                assert(items@[i as int].1 == before[i as int].1);
                assert(rest[0] == before[i as int]);
                assert(rest.drop_first() == before.skip(i + 1));
            }
            if items[i].1.is_expired(self.config.state_ttl_secs, now_ms) {
                proof {
                    lemma_without_seam(kept, rest, before[i as int].0);
                    lemma_without(self.entries(), before[i as int].0);
                }
                cache_pop(&mut self.states, items[i].0.as_str());
            } else {
                assert(kept.push(before[i as int]) + before.skip(i + 1) == kept + rest);
            }
            i += 1;
        }
        assert(before.take(before.len() as int) == before);
        assert(before.skip(before.len() as int) == Seq::<(Seq<char>, CircuitState)>::empty());
    }

    /// Reads the manager's clock.
    pub fn now_ms(&mut self) -> (now: u64)
        ensures
            now >= old(self).clock_ms(),
            final(self).clock_ms() == now,
            final(self)@ == old(self)@,
    {
        self.clock.now_ms()
    }

    /// Check if the circuit is open for a skill, at the time that the
    /// manager's clock shows.
    pub fn is_open(&mut self, skill_name: &str) -> (blocked: bool)
        requires
            old(self).wf(),
        ensures
            final(self).wf(),
            final(self).config() == old(self).config(),
            final(self).capacity() == old(self).capacity(),
            final(self).clock_ms() >= old(self).clock_ms(),
            final(self).entries() == entries_after_check(
                old(self).config(),
                old(self).capacity(),
                old(self).entries(),
                skill_name@,
                final(self).clock_ms(),
            ),
            blocked == check_blocks(
                old(self).config(),
                old(self).entries(),
                skill_name@,
                final(self).clock_ms(),
            ),
    {
        let now_ms = self.clock.now_ms();
        self.is_open_at(skill_name, now_ms)
    }

    /// Record successful execution, at the time that the manager's clock
    /// shows.
    pub fn record_success(&mut self, skill_name: &str)
        requires
            old(self).wf(),
        ensures
            final(self).wf(),
            final(self).config() == old(self).config(),
            final(self).capacity() == old(self).capacity(),
            final(self).clock_ms() >= old(self).clock_ms(),
            final(self).entries() == entries_after_success(
                old(self).capacity(),
                old(self).entries(),
                skill_name@,
                final(self).clock_ms(),
            ),
    {
        let now_ms = self.clock.now_ms();
        self.record_success_at(skill_name, now_ms)
    }

    /// Record failed execution, at the time that the manager's clock shows.
    pub fn record_failure(&mut self, skill_name: &str)
        requires
            old(self).wf(),
        ensures
            final(self).wf(),
            final(self).config() == old(self).config(),
            final(self).capacity() == old(self).capacity(),
            final(self).clock_ms() >= old(self).clock_ms(),
            final(self).entries() == entries_after_failure(
                old(self).config(),
                old(self).capacity(),
                old(self).entries(),
                skill_name@,
                final(self).clock_ms(),
            ),
    {
        let now_ms = self.clock.now_ms();
        self.record_failure_at(skill_name, now_ms)
    }

    /// Remove every expired state, at the time that the manager's clock
    /// shows. Meant to be called periodically.
    pub fn cleanup_expired(&mut self)
        requires
            old(self).wf(),
        ensures
            final(self).wf(),
            final(self).config() == old(self).config(),
            final(self).capacity() == old(self).capacity(),
            final(self).clock_ms() >= old(self).clock_ms(),
            final(self).entries() == entries_after_cleanup(
                old(self).config(),
                old(self).entries(),
                final(self).clock_ms(),
            ),
    {
        let now_ms = self.clock.now_ms();
        self.cleanup_expired_at(now_ms)
    }
}

} // verus!
