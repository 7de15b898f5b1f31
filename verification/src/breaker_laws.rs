//! What holds of the circuit breaker store, whatever it tracks.

use vstd::prelude::*;
use crate::circuit_breaker::{
    elapsed_ms, is_fresh, live_state, BreakerModel, CircuitBreakerConfig, CircuitState,
};
use crate::cache_model::{
    distinct_keys, has_key, lemma_lookup, lemma_lookup_at, lemma_stored, lemma_without,
};
use crate::circuit_cache::{lookup, stored, without, Entries};

verus! {

/// The store after failures of `key` recorded at each of `times` in turn.
pub open spec fn after_failures(breaker: BreakerModel, key: Seq<char>, times: Seq<u64>) -> BreakerModel
    decreases times.len(),
{
    if times.len() == 0 {
        breaker
    } else {
        after_failures(breaker, key, times.drop_last()).failed(key, times.last())
    }
}

/// The state that a failure of `key` at `now_ms` leaves under that name.
pub open spec fn state_after_failure(breaker: BreakerModel, key: Seq<char>, now_ms: u64) -> CircuitState {
    CircuitState::after_failure(
        live_state(breaker.entries, key, breaker.config.state_ttl_secs, now_ms),
        breaker.config,
        now_ms,
    )
}

/// The times are in order, and no two neighbours are further apart than
/// `ttl_secs` seconds.
pub open spec fn in_quick_succession(times: Seq<u64>, ttl_secs: u64) -> bool {
    forall|i: int|
        0 < i < times.len() ==> times[i - 1] <= #[trigger] times[i] && times[i] - times[i - 1]
            <= ttl_secs * 1000
}

/// Every operation keeps a well-formed store well formed: each name is
/// tracked once, and never more names than the capacity.
pub proof fn law_store_stays_bounded(breaker: BreakerModel, key: Seq<char>, now_ms: u64)
    requires
        breaker.wf(),
    ensures
        breaker.checked(key, now_ms).wf(),
        breaker.succeeded(key, now_ms).wf(),
        breaker.failed(key, now_ms).wf(),
        breaker.cleaned(now_ms).wf(),
        BreakerModel::fresh(breaker.config).wf(),
{
    lemma_without(breaker.entries, key);
    lemma_stored(
        breaker.entries,
        breaker.limit,
        key,
        CircuitState::Closed { failures: 0, last_updated: now_ms },
    );
    lemma_stored(breaker.entries, breaker.limit, key, state_after_failure(breaker, key, now_ms));
    match lookup(breaker.entries, key) {
        Some(state) => {
            lemma_stored(
                breaker.entries,
                breaker.limit,
                key,
                state.after_check(breaker.config, now_ms),
            );
        },
        None => {},
    }
    lemma_filter_keeps_order(
        breaker.entries,
        is_fresh(breaker.config.state_ttl_secs, now_ms),
    );
}

/// Filtering keeps names distinct and adds nothing.
pub proof fn lemma_filter_keeps_order(entries: Entries, keep: spec_fn((Seq<char>, CircuitState)) -> bool)
    ensures
        entries.filter(keep).len() <= entries.len(),
        forall|i: int|
            0 <= i < entries.filter(keep).len() ==> entries.contains(
                #[trigger] entries.filter(keep)[i],
            ) && keep(entries.filter(keep)[i]),
        distinct_keys(entries) ==> distinct_keys(entries.filter(keep)),
        forall|key: Seq<char>|
            distinct_keys(entries) && (#[trigger] lookup(entries.filter(keep), key)) is Some
                ==> lookup(entries.filter(keep), key) == lookup(entries, key),
    decreases entries.len(),
{
    reveal(Seq::filter);
    let out = entries.filter(keep);
    if entries.len() > 0 {
        let shorter = entries.drop_last();
        let kept = shorter.filter(keep);
        lemma_filter_keeps_order(shorter, keep);
        assert forall|i: int| 0 <= i < kept.len() implies entries.contains(#[trigger] kept[i]) by {
            let k = choose|k: int| 0 <= k < shorter.len() && shorter[k] == kept[i];
            assert(entries[k] == shorter[k]);
        }
        assert forall|i: int| 0 <= i < out.len() implies entries.contains(#[trigger] out[i])
            && keep(out[i]) by {
            if i < kept.len() {
                assert(out[i] == kept[i]);
            } else {
                assert(out[i] == entries.last());
                assert(entries[entries.len() - 1] == entries.last());
            }
        }
        if distinct_keys(entries) {
            assert(distinct_keys(shorter)) by {
                assert forall|a: int, b: int| 0 <= a < b < shorter.len() implies (
                #[trigger] shorter[a]).0 != (#[trigger] shorter[b]).0 by {
                    assert(shorter[a] == entries[a]);
                    assert(shorter[b] == entries[b]);
                }
            }
            assert forall|a: int, b: int| 0 <= a < b < out.len() implies (#[trigger] out[a]).0 != (
            #[trigger] out[b]).0 by {
                assert(out[a] == kept[a]);
                if b < kept.len() {
                    assert(out[b] == kept[b]);
                } else {
                    let k = choose|k: int| 0 <= k < shorter.len() && shorter[k] == kept[a];
                    assert(entries[k] == shorter[k]);
                    assert(entries[k].0 != entries[entries.len() - 1].0);
                }
            }
            assert forall|key: Seq<char>| (#[trigger] lookup(out, key)) is Some implies lookup(
                out,
                key,
            ) == lookup(entries, key) by {
                lemma_lookup(out, key);
                let found = (key, lookup(out, key)->0);
                let i = choose|i: int| 0 <= i < out.len() && out[i] == found;
                let k = choose|k: int| 0 <= k < entries.len() && entries[k] == out[i];
                lemma_lookup_at(entries, k);
            }
        }
    }
}

/// Counting failures from a circuit that has none on record: fewer than
/// the threshold leave it closed with that count, the one that reaches
/// the threshold opens it, and every one after that keeps it open.
pub proof fn lemma_failures_counted(breaker: BreakerModel, key: Seq<char>, times: Seq<u64>)
    requires
        breaker.wf(),
        1 <= times.len(),
        in_quick_succession(times, breaker.config.state_ttl_secs),
        match breaker.state_of(key) {
            Some(CircuitState::Closed { failures, .. }) => failures == 0,
            Some(_) => false,
            None => true,
        },
    ensures
        after_failures(breaker, key, times).wf(),
        after_failures(breaker, key, times).config == breaker.config,
        after_failures(breaker, key, times).state_of(key) == Some(
            if times.len() >= breaker.config.failure_threshold {
                CircuitState::Open { opened_at: times.last() }
            } else {
                CircuitState::Closed { failures: times.len() as u32, last_updated: times.last() }
            },
        ),
    decreases times.len(),
{
    let earlier = times.drop_last();
    let before = after_failures(breaker, key, earlier);
    if times.len() > 1 {
        assert forall|i: int| 0 < i < earlier.len() implies earlier[i - 1] <= #[trigger] earlier[i]
            && earlier[i] - earlier[i - 1] <= breaker.config.state_ttl_secs * 1000 by {
            assert(earlier[i] == times[i]);
            assert(earlier[i - 1] == times[i - 1]);
        }
        lemma_failures_counted(breaker, key, earlier);
        assert(earlier.last() == times[times.len() - 2]);
        assert(times.last() == times[times.len() - 1]);
    }
    law_store_stays_bounded(before, key, times.last());
    lemma_stored(
        before.entries,
        before.limit,
        key,
        state_after_failure(before, key, times.last()),
    );
}

/// After as many failures in a row as the threshold asks for, or more, on
/// a circuit that had none on record, the circuit blocks. The failures
/// come in time order and none so long after the one before that the
/// count has expired; the check comes before the state expires and before
/// the cooldown is over.
pub proof fn law_circuit_opens_at_threshold(
    breaker: BreakerModel,
    key: Seq<char>,
    times: Seq<u64>,
    now_ms: u64,
)
    requires
        breaker.wf(),
        breaker.config.failure_threshold >= 1,
        times.len() >= breaker.config.failure_threshold,
        in_quick_succession(times, breaker.config.state_ttl_secs),
        match breaker.state_of(key) {
            Some(CircuitState::Closed { failures, .. }) => failures == 0,
            Some(_) => false,
            None => true,
        },
        elapsed_ms(times.last(), now_ms) <= breaker.config.state_ttl_secs * 1000,
        elapsed_ms(times.last(), now_ms) < breaker.config.open_cooldown_ms,
    ensures
        after_failures(breaker, key, times).blocks(key, now_ms),
        after_failures(breaker, key, times).state_of(key) == Some(
            CircuitState::Open { opened_at: times.last() },
        ),
{
    lemma_failures_counted(breaker, key, times);
}

/// A failure never closes a circuit: recorded on a circuit that is open
/// or half-open and has not expired, it leaves the circuit open, with the
/// cooldown counted from the failure, so that a check before the cooldown
/// is over and before the state expires is turned away.
pub proof fn law_failure_keeps_circuit_open(
    breaker: BreakerModel,
    key: Seq<char>,
    failed_ms: u64,
    check_ms: u64,
)
    requires
        breaker.wf(),
        breaker.state_of(key) is Some,
        !(breaker.state_of(key)->0 is Closed),
        !breaker.state_of(key)->0.expired_at(breaker.config.state_ttl_secs, failed_ms),
    ensures
        breaker.failed(key, failed_ms).state_of(key) == Some(
            CircuitState::Open { opened_at: failed_ms },
        ),
        elapsed_ms(failed_ms, check_ms) < breaker.config.open_cooldown_ms && elapsed_ms(
            failed_ms,
            check_ms,
        ) <= breaker.config.state_ttl_secs * 1000 ==> breaker.failed(key, failed_ms).blocks(
            key,
            check_ms,
        ),
{
    lemma_stored(
        breaker.entries,
        breaker.limit,
        key,
        state_after_failure(breaker, key, failed_ms),
    );
}

/// After a success the circuit lets the next caller through, whatever the
/// state was and whenever the check comes; and fewer failures than the
/// threshold, whenever they come, still leave it letting callers through.
pub proof fn law_success_resets(
    breaker: BreakerModel,
    key: Seq<char>,
    success_ms: u64,
    check_ms: u64,
    failure_times: Seq<u64>,
    now_ms: u64,
)
    requires
        breaker.wf(),
        failure_times.len() < breaker.config.failure_threshold,
    ensures
        !breaker.succeeded(key, success_ms).blocks(key, check_ms),
        !after_failures(
            breaker.succeeded(key, success_ms).checked(key, check_ms),
            key,
            failure_times,
        ).blocks(key, now_ms),
{
    let closed = CircuitState::Closed { failures: 0, last_updated: success_ms };
    lemma_stored(breaker.entries, breaker.limit, key, closed);
    law_store_stays_bounded(breaker, key, success_ms);
    let reset = breaker.succeeded(key, success_ms);
    let checked = reset.checked(key, check_ms);
    law_store_stays_bounded(reset, key, check_ms);
    lemma_without(reset.entries, key);
    lemma_lookup(without(reset.entries, key), key);
    lemma_stored(reset.entries, reset.limit, key, closed);
    lemma_stays_closed(checked, key, failure_times);
}

/// Fewer failures than the threshold, on a circuit that is untracked or
/// closed with none on record, leave it untracked or closed.
pub proof fn lemma_stays_closed(breaker: BreakerModel, key: Seq<char>, times: Seq<u64>)
    requires
        breaker.wf(),
        times.len() < breaker.config.failure_threshold,
        match breaker.state_of(key) {
            Some(CircuitState::Closed { failures, .. }) => failures == 0,
            Some(_) => false,
            None => true,
        },
    ensures
        after_failures(breaker, key, times).wf(),
        after_failures(breaker, key, times).config == breaker.config,
        match after_failures(breaker, key, times).state_of(key) {
            Some(CircuitState::Closed { failures, .. }) => failures <= times.len(),
            Some(_) => false,
            None => true,
        },
    decreases times.len(),
{
    if times.len() > 0 {
        let before = after_failures(breaker, key, times.drop_last());
        lemma_stays_closed(breaker, key, times.drop_last());
        law_store_stays_bounded(before, key, times.last());
        lemma_stored(
            before.entries,
            before.limit,
            key,
            state_after_failure(before, key, times.last()),
        );
    }
}

/// A full store that takes in a new name forgets the least recently used
/// one and nothing else.
pub proof fn law_least_recently_used_goes(breaker: BreakerModel, key: Seq<char>, now_ms: u64)
    requires
        breaker.wf(),
        breaker.entries.len() == breaker.limit,
        breaker.state_of(key) is None,
    ensures
        breaker.failed(key, now_ms).entries.len() == breaker.limit,
        breaker.failed(key, now_ms).entries.drop_first() == breaker.entries.drop_last(),
        breaker.succeeded(key, now_ms).entries.drop_first() == breaker.entries.drop_last(),
        breaker.checked(key, now_ms).entries.drop_first() == breaker.entries.drop_last(),
        breaker.failed(key, now_ms).state_of(breaker.entries.last().0) is None,
{
    let state = state_after_failure(breaker, key, now_ms);
    lemma_stored(breaker.entries, breaker.limit, key, state);
    let out = breaker.failed(key, now_ms).entries;
    assert(out.drop_first() == breaker.entries.drop_last());
    assert(breaker.succeeded(key, now_ms).entries.drop_first() == breaker.entries.drop_last());
    assert(breaker.checked(key, now_ms).entries.drop_first() == breaker.entries.drop_last());
    let gone = breaker.entries.last().0;
    lemma_lookup(out, gone);
    lemma_lookup(breaker.entries, key);
    if has_key(out, gone) {
        let i = choose|i: int| 0 <= i < out.len() && (#[trigger] out[i]).0 == gone;
        if i == 0 {
            assert(breaker.entries[breaker.entries.len() - 1].0 == key);
        } else {
            assert(out[i] == breaker.entries[i - 1]);
            assert(breaker.entries[i - 1].0 != breaker.entries[breaker.entries.len() - 1].0);
        }
    }
}

/// With room for two circuits, failures of three different skills leave
/// the last two tracked and the first forgotten.
pub proof fn law_third_skill_evicts_first(
    config: CircuitBreakerConfig,
    first: Seq<char>,
    second: Seq<char>,
    third: Seq<char>,
    t1: u64,
    t2: u64,
    t3: u64,
)
    requires
        config.max_circuits == 2,
        first != second,
        first != third,
        second != third,
    ensures
        ({
            let end = BreakerModel::fresh(config).failed(first, t1).failed(second, t2).failed(
                third,
                t3,
            );
            &&& end.entries.len() == 2
            &&& end.state_of(first) is None
            &&& end.state_of(second) is Some
            &&& end.state_of(third) is Some
        }),
{
    let b0 = BreakerModel::fresh(config);
    let b1 = b0.failed(first, t1);
    let b2 = b1.failed(second, t2);
    let b3 = b2.failed(third, t3);
    law_store_stays_bounded(b0, first, t1);
    law_store_stays_bounded(b1, second, t2);
    law_store_stays_bounded(b2, third, t3);
    lemma_lookup(b0.entries, first);
    assert(b1.entries.len() == 1);
    assert(b1.entries[0].0 == first);
    lemma_lookup(b1.entries, second);
    assert(b2.entries =~= seq![b2.entries[0]] + b1.entries);
    assert(b2.entries[0].0 == second);
    assert(b2.entries[1].0 == first);
    lemma_lookup(b2.entries, third);
    assert(b3.entries =~= seq![b3.entries[0]] + b2.entries.drop_last());
    assert(b3.entries[0].0 == third);
    assert(b3.entries[1].0 == second);
    lemma_lookup(b3.entries, first);
    lemma_lookup(b3.entries, second);
    lemma_lookup(b3.entries, third);
}

/// A state that has outlived its time to live is dropped by the next
/// check of its name, which lets the caller through, and by the next
/// cleanup, which leaves no expired state behind.
pub proof fn law_expired_state_is_dropped(breaker: BreakerModel, key: Seq<char>, now_ms: u64)
    requires
        breaker.wf(),
        breaker.state_of(key) is Some,
        breaker.state_of(key)->0.expired_at(breaker.config.state_ttl_secs, now_ms),
    ensures
        !breaker.blocks(key, now_ms),
        breaker.checked(key, now_ms).state_of(key) is None,
        breaker.checked(key, now_ms).entries.len() + 1 == breaker.entries.len(),
        breaker.cleaned(now_ms).state_of(key) is None,
        forall|i: int|
            0 <= i < breaker.cleaned(now_ms).entries.len() ==> !(
            #[trigger] breaker.cleaned(now_ms).entries[i]).1.expired_at(
                breaker.config.state_ttl_secs,
                now_ms,
            ),
{
    lemma_lookup(breaker.entries, key);
    lemma_without(breaker.entries, key);
    lemma_lookup(without(breaker.entries, key), key);
    let keep = is_fresh(breaker.config.state_ttl_secs, now_ms);
    lemma_filter_keeps_order(breaker.entries, keep);
    let swept = breaker.cleaned(now_ms).entries;
    assert(swept == breaker.entries.filter(keep));
    if lookup(swept, key) is Some {
        lemma_lookup(swept, key);
        let found = (key, lookup(swept, key)->0);
        let i = choose|i: int| 0 <= i < swept.len() && swept[i] == found;
        assert(keep(swept[i]));
    }
}

/// With one trial permit or none, a circuit whose cooldown is over lets
/// exactly the next caller through: that caller is the trial, and the one
/// after it is turned away.
pub proof fn law_half_open_admits_one(
    breaker: BreakerModel,
    key: Seq<char>,
    opened_at: u64,
    trial_ms: u64,
    next_ms: u64,
)
    requires
        breaker.wf(),
        breaker.config.half_open_trial <= 1,
        breaker.state_of(key) == Some(CircuitState::Open { opened_at }),
        elapsed_ms(opened_at, trial_ms) >= breaker.config.open_cooldown_ms,
        elapsed_ms(opened_at, trial_ms) <= breaker.config.state_ttl_secs * 1000,
        elapsed_ms(trial_ms, next_ms) <= breaker.config.state_ttl_secs * 1000,
    ensures
        !breaker.blocks(key, trial_ms),
        breaker.checked(key, trial_ms).blocks(key, next_ms),
{
    let half_open = CircuitState::HalfOpen { trial_permits: 0, last_updated: trial_ms };
    lemma_stored(breaker.entries, breaker.limit, key, half_open);
}


/// The number of callers that are let through when `key` is checked at
/// each of `times` in turn.
pub open spec fn admitted(breaker: BreakerModel, key: Seq<char>, times: Seq<u64>) -> nat
    decreases times.len(),
{
    if times.len() == 0 {
        0
    } else {
        admitted(breaker.checked(key, times[0]), key, times.drop_first()) + if breaker.blocks(
            key,
            times[0],
        ) {
            0nat
        } else {
            1nat
        }
    }
}

/// The times are in order, none before `since` and none more than
/// `ttl_secs` seconds after it.
pub open spec fn ordered_within(times: Seq<u64>, since: u64, ttl_secs: u64) -> bool {
    forall|i: int|
        0 <= i < times.len() ==> since <= #[trigger] times[i] && times[i] - since <= ttl_secs
            * 1000 && (i > 0 ==> times[i - 1] <= times[i])
}

/// A half-open circuit lets through no more callers than it has permits,
/// however many check it before its state expires.
pub proof fn lemma_permits_are_a_budget(breaker: BreakerModel, key: Seq<char>, times: Seq<u64>)
    requires
        breaker.wf(),
        breaker.state_of(key) is Some,
        breaker.state_of(key)->0 is HalfOpen,
        ordered_within(times, breaker.state_of(key)->0.last_touch(), breaker.config.state_ttl_secs),
    ensures
        admitted(breaker, key, times) <= breaker.state_of(key)->0->trial_permits,
    decreases times.len(),
{
    if times.len() > 0 {
        let state = breaker.state_of(key)->0;
        let since = state.last_touch();
        let now_ms = times[0];
        let next = breaker.checked(key, now_ms);
        let rest = times.drop_first();
        law_store_stays_bounded(breaker, key, now_ms);
        lemma_stored(breaker.entries, breaker.limit, key, state.after_check(breaker.config, now_ms));
        assert(times[0] - since <= breaker.config.state_ttl_secs * 1000);
        let later = next.state_of(key)->0.last_touch();
        assert(later == since || later == now_ms);
        assert forall|i: int| 0 <= i < rest.len() implies later <= #[trigger] rest[i] && rest[i]
            - later <= breaker.config.state_ttl_secs * 1000 && (i > 0 ==> rest[i - 1]
            <= rest[i]) by {
            assert(rest[i] == times[i + 1]);
            if i > 0 {
                assert(rest[i - 1] == times[i]);
            }
            lemma_ordered(times, since, breaker.config.state_ttl_secs, 0, i + 1);
        }
        lemma_permits_are_a_budget(next, key, rest);
    }
}

/// In ordered times an earlier one is no later than a later one.
pub proof fn lemma_ordered(times: Seq<u64>, since: u64, ttl_secs: u64, i: int, j: int)
    requires
        ordered_within(times, since, ttl_secs),
        0 <= i <= j < times.len(),
    ensures
        times[i] <= times[j],
    decreases j - i,
{
    if i < j {
        lemma_ordered(times, since, ttl_secs, i, j - 1);
        assert(times[j - 1] <= times[j]);
    }
}

/// However many callers check an open circuit while it recovers, and
/// whenever they come before its state expires, no more of them are let
/// through than the configured number of trials, and at least room for
/// one: the trial permits are never handed out twice.
pub proof fn law_recovery_admits_only_the_trials(
    breaker: BreakerModel,
    key: Seq<char>,
    opened_at: u64,
    times: Seq<u64>,
)
    requires
        breaker.wf(),
        breaker.state_of(key) == Some(CircuitState::Open { opened_at }),
        ordered_within(times, opened_at, breaker.config.state_ttl_secs),
    ensures
        admitted(breaker, key, times) <= if breaker.config.half_open_trial == 0 {
            1
        } else {
            breaker.config.half_open_trial as int
        },
    decreases times.len(),
{
    if times.len() > 0 {
        let state = CircuitState::Open { opened_at };
        let now_ms = times[0];
        let next = breaker.checked(key, now_ms);
        let rest = times.drop_first();
        law_store_stays_bounded(breaker, key, now_ms);
        lemma_stored(breaker.entries, breaker.limit, key, state.after_check(breaker.config, now_ms));
        assert(times[0] - opened_at <= breaker.config.state_ttl_secs * 1000);
        assert forall|i: int| 0 <= i < rest.len() implies opened_at <= #[trigger] rest[i] && rest[i]
            - opened_at <= breaker.config.state_ttl_secs * 1000 && (i > 0 ==> rest[i - 1]
            <= rest[i]) && now_ms <= rest[i] && rest[i] - now_ms <= breaker.config.state_ttl_secs
            * 1000 by {
            assert(rest[i] == times[i + 1]);
            if i > 0 {
                assert(rest[i - 1] == times[i]);
            }
            lemma_ordered(times, opened_at, breaker.config.state_ttl_secs, 0, i + 1);
        }
        if breaker.blocks(key, now_ms) {
            law_recovery_admits_only_the_trials(next, key, opened_at, rest);
        } else {
            lemma_permits_are_a_budget(next, key, rest);
        }
    }
}

} // verus!
