//! What holds of backoff and of the dispatcher's decisions, whatever the
//! policies and the request.

use vstd::prelude::*;
use vstd::arithmetic::power::{lemma_pow0, pow};
use crate::breaker_laws::{law_store_stays_bounded, state_after_failure};
use crate::cache_model::{lemma_stored, lemma_stored_other, lemma_without};
use crate::circuit_breaker::{BreakerModel, CircuitState};
use crate::circuit_cache::lookup;
use crate::error::ErrorModel;
use crate::orchestrator::{
    exhausted_error, timeout_error, DirectiveModel, OrchestratorModel, OutcomeModel, RequestModel,
    StepModel,
};
use crate::policy::{grown, RetryPolicy};

verus! {

/// Whatever the draw, the wait before a retry is within half the jitter
/// of the base wait, and the base wait is never above the maximum.
pub proof fn law_backoff_within_jitter(policy: RetryPolicy, attempt: u32, draw: u64)
    requires
        attempt >= 1,
    ensures
        policy.delay_with(attempt, draw) + policy.jitter_ms / 2 >= policy.base_delay(attempt),
        policy.delay_with(attempt, draw) <= policy.base_delay(attempt) + policy.jitter_ms / 2,
        policy.base_delay(attempt) <= policy.max_backoff_ms,
{
}

/// With a whole multiplier the base wait is the initial wait times the
/// multiplier to the power of the number of earlier retries, and no more
/// than the maximum.
pub proof fn law_backoff_is_exponential(policy: RetryPolicy, factor: nat, attempt: u32)
    requires
        attempt >= 1,
        policy.backoff_multiplier_permille == 1000 * factor,
    ensures
        policy.base_delay(attempt) == if policy.initial_backoff_ms * pow(
            factor as int,
            (attempt - 1) as nat,
        ) > policy.max_backoff_ms {
            policy.max_backoff_ms as int
        } else {
            policy.initial_backoff_ms * pow(factor as int, (attempt - 1) as nat)
        },
{
    lemma_grown_whole(policy.initial_backoff_ms as nat, factor, (attempt - 1) as nat);
}

/// Growing by a whole factor is multiplying by its power: nothing is cut.
pub proof fn lemma_grown_whole(initial: nat, factor: nat, steps: nat)
    ensures
        grown(initial, 1000 * factor, steps) == initial * pow(factor as int, steps) * 1_000_000,
    decreases steps,
{
    reveal(pow);
    if steps == 0 {
        lemma_pow0(factor as int);
    } else {
        lemma_grown_whole(initial, factor, (steps - 1) as nat);
        let before = grown(initial, 1000 * factor, (steps - 1) as nat);
        let power = pow(factor as int, (steps - 1) as nat);
        assert(before * (1000 * factor) / 1000 == before * factor) by (nonlinear_arith);
        assert(initial * power * 1_000_000 * factor == initial * (factor * power) * 1_000_000)
            by (nonlinear_arith);
    }
}

/// The larger of a multiplier in thousandths and one.
pub open spec fn at_least_one(permille: nat) -> int {
    if permille > 1000 {
        permille as int
    } else {
        1000
    }
}

/// How far the carried value is from the formula. After `steps`
/// multiplications the formula gives `initial * (permille / 1000)^steps`
/// milliseconds. The carried value is never above that, and it is below by
/// no more than `steps` nanoseconds where the multiplier is at most one,
/// and by no more than `steps` nanoseconds times the growth so far where it
/// is more. Both sides are multiplied by `1000^steps` here, so that they
/// are whole numbers.
pub proof fn law_backoff_tracks_formula(initial: nat, permille: nat, steps: nat)
    ensures
        grown(initial, permille, steps) * pow(1000, steps) <= initial * 1_000_000 * pow(
            permille as int,
            steps,
        ),
        initial * 1_000_000 * pow(permille as int, steps) - grown(initial, permille, steps) * pow(
            1000,
            steps,
        ) <= steps * pow(at_least_one(permille), steps),
    decreases steps,
{
    reveal(pow);
    if steps == 0 {
        lemma_pow0(1000);
        lemma_pow0(permille as int);
    } else {
        let k = (steps - 1) as nat;
        law_backoff_tracks_formula(initial, permille, k);
        lemma_power_of_larger_base(permille, k);
        let before = grown(initial, permille, k) as int;
        let after = grown(initial, permille, steps) as int;
        let scale = pow(1000, k);
        let power = pow(permille as int, k);
        let bound = pow(at_least_one(permille), k);
        let ideal = initial * 1_000_000 * power;
        let m = permille as int;
        let larger = at_least_one(permille);
        assert(pow(1000, steps) == 1000 * scale);
        assert(pow(m, steps) == m * power);
        assert(pow(larger, steps) == larger * bound);
        assert(after == before * m / 1000);
        assert(before * m - 999 <= 1000 * after <= before * m) by (nonlinear_arith)
            requires
                after == before * m / 1000,
                before >= 0,
                m >= 0,
        ;
        assert(scale > 0 && bound >= scale);
        assert(after * (1000 * scale) <= initial * 1_000_000 * (m * power)) by (nonlinear_arith)
            requires
                1000 * after <= before * m,
                before * scale <= ideal,
                ideal == initial * 1_000_000 * power,
                m >= 0,
                scale > 0,
        ;
        let short = ideal - before * scale;
        let next_ideal = initial * 1_000_000 * (m * power);
        assert(next_ideal == m * ideal) by (nonlinear_arith)
            requires
                next_ideal == initial * 1_000_000 * (m * power),
                ideal == initial * 1_000_000 * power,
        ;
        assert(after * (1000 * scale) >= before * m * scale - 999 * scale) by (nonlinear_arith)
            requires
                before * m - 999 <= 1000 * after,
                scale > 0,
        ;
        assert(m * ideal - before * m * scale == m * short) by (nonlinear_arith)
            requires
                short == ideal - before * scale,
        ;
        assert(m * short <= larger * (k * bound)) by (nonlinear_arith)
            requires
                0 <= short <= k * bound,
                0 <= m <= larger,
        ;
        assert(999 * scale <= larger * bound) by (nonlinear_arith)
            requires
                0 < scale <= bound,
                larger >= 1000,
        ;
        assert(larger * (k * bound) + larger * bound == steps * (larger * bound))
            by (nonlinear_arith)
            requires
                steps == k + 1,
        ;
    }
}

/// A power of a thousand is positive and no more than the same power of a
/// multiplier that is at least one.
pub proof fn lemma_power_of_larger_base(permille: nat, steps: nat)
    ensures
        0 < pow(1000, steps) <= pow(at_least_one(permille), steps),
    decreases steps,
{
    reveal(pow);
    if steps == 0 {
        lemma_pow0(1000);
        lemma_pow0(at_least_one(permille));
    } else {
        lemma_power_of_larger_base(permille, (steps - 1) as nat);
        let low = pow(1000, (steps - 1) as nat);
        let high = pow(at_least_one(permille), (steps - 1) as nat);
        let larger = at_least_one(permille);
        assert(1000 * low <= larger * high) by (nonlinear_arith)
            requires
                0 < low <= high,
                larger >= 1000,
        ;
    }
}

/// With 50 ms doubled per retry up to 1000 ms and 25 ms of jitter, the
/// wait before retry `attempt` is within 12.5 ms of the smaller of
/// 50 * 2^(attempt - 1) and 1000, and never negative.
pub proof fn law_standard_backoff(attempt: u32, draw: u64)
    requires
        attempt >= 1,
    ensures
        ({
            let ideal = if 50 * pow(2, (attempt - 1) as nat) > 1000 {
                1000
            } else {
                50 * pow(2, (attempt - 1) as nat)
            };
            let delay = RetryPolicy::standard().delay_with(attempt, draw);
            &&& RetryPolicy::standard().base_delay(attempt) == ideal
            &&& 2 * delay >= 2 * ideal - 25
            &&& 2 * delay <= 2 * ideal + 25
        }),
{
    law_backoff_is_exponential(RetryPolicy::standard(), 2, attempt);
    law_backoff_within_jitter(RetryPolicy::standard(), attempt, draw);
}

/// What gating leads to: it never goes back to a skill already given up,
/// never changes the list of skills or the policies, keeps the store well
/// formed, and ends either with the first attempt, without a wait, of the
/// skill then in progress, or with the failure of the request.
pub proof fn lemma_seek<T>(orchestrator: OrchestratorModel, request: RequestModel, now_ms: u64)
    requires
        orchestrator.breaker.wf(),
    ensures
        ({
            let step = orchestrator.seek::<T>(request, now_ms);
            &&& step.orchestrator.breaker.wf()
            &&& step.orchestrator.retry == orchestrator.retry
            &&& step.orchestrator.timeout == orchestrator.timeout
            &&& step.orchestrator.breaker.config == orchestrator.breaker.config
            &&& step.request.candidates == request.candidates
            &&& step.request.current >= request.current
            &&& step.request.attempt == 0 || step.request.attempt == request.attempt
            &&& match step.directive {
                DirectiveModel::Attempt { skill_name, delay_ms, timeout_ms } => {
                    &&& step.request.current < request.candidates.len()
                    &&& step.request.finished == request.finished
                    &&& step.request.attempt == 0
                    &&& skill_name == request.candidates[step.request.current as int]
                    &&& delay_ms == 0
                    &&& timeout_ms == orchestrator.timeout.timeout_ms
                },
                DirectiveModel::Fail(error) => {
                    &&& step.request.finished
                    &&& step.request.last_err is None
                    &&& request.current >= request.candidates.len() ==> error == exhausted_error(
                        request.last_err,
                    )
                    &&& request.current < request.candidates.len() ==> error
                        == (ErrorModel::CircuitOpen {
                        resource: request.candidates[request.candidates.len() - 1],
                    })
                },
                DirectiveModel::Succeed(_) => false,
            }
        }),
    decreases request.candidates.len() - request.current,
{
    if request.current < request.candidates.len() {
        let name = request.candidates[request.current as int];
        law_store_stays_bounded(orchestrator.breaker, name, now_ms);
        if orchestrator.breaker.blocks(name, now_ms) {
            let gated = OrchestratorModel {
                breaker: orchestrator.breaker.checked(name, now_ms),
                ..orchestrator
            };
            lemma_seek::<T>(
                gated,
                RequestModel {
                    current: request.current + 1,
                    attempt: 0,
                    last_err: Some(ErrorModel::CircuitOpen { resource: name }),
                    ..request
                },
                now_ms,
            );
        }
    }
}

/// A skill whose attempt ends in an error that is not retryable, such as
/// invalid input or a missing skill, is not attempted again, however many
/// retries the policy allows: the failure is recorded, the skill is given
/// up, and the request goes on with the skills after it or, where there is
/// none, fails with that error.
pub proof fn law_non_retryable_is_not_repeated<T>(
    orchestrator: OrchestratorModel,
    request: RequestModel,
    outcome: OutcomeModel<T>,
    now_ms: u64,
    draw: u64,
)
    requires
        orchestrator.breaker.wf(),
        !request.finished,
        request.current < request.candidates.len(),
        !(outcome is Succeeded),
        !outcome.error(
            request.candidates[request.current as int],
            orchestrator.timeout.timeout_ms,
        ).retryable(),
    ensures
        ({
            let name = request.candidates[request.current as int];
            let error = outcome.error(name, orchestrator.timeout.timeout_ms);
            let step = orchestrator.resume(request, outcome, now_ms, draw);
            &&& step.request.current > request.current
            &&& step.request.candidates == request.candidates
            &&& !(ErrorModel::SkillNotFound { skill_name: name }).retryable()
            &&& request.current + 1 == request.candidates.len() ==> {
                &&& step.directive == DirectiveModel::<T>::Fail(error)
                &&& step.request.finished
                &&& step.orchestrator.breaker == orchestrator.breaker.failed(name, now_ms)
            }
        }),
{
    let name = request.candidates[request.current as int];
    let error = outcome.error(name, orchestrator.timeout.timeout_ms);
    let recorded = OrchestratorModel {
        breaker: orchestrator.breaker.failed(name, now_ms),
        ..orchestrator
    };
    law_store_stays_bounded(orchestrator.breaker, name, now_ms);
    lemma_seek::<T>(
        recorded,
        RequestModel {
            current: request.current + 1,
            attempt: 0,
            last_err: Some(error),
            ..request
        },
        now_ms,
    );
}

/// An attempt that runs into its time limit counts as a failure of the
/// skill: the failure is recorded in the store, the error is a timeout
/// that names the skill and the limit, and it is retryable. With attempts
/// left the skill is tried again after its backoff; with none left and no
/// other skill to try, the request fails with the timeout.
pub proof fn law_timeout_counts_as_failure<T>(
    orchestrator: OrchestratorModel,
    request: RequestModel,
    now_ms: u64,
    draw: u64,
)
    requires
        orchestrator.breaker.wf(),
        !request.finished,
        request.current < request.candidates.len(),
    ensures
        ({
            let name = request.candidates[request.current as int];
            let limit = orchestrator.timeout.timeout_ms;
            let step = orchestrator.resume::<T>(request, OutcomeModel::TimedOut, now_ms, draw);
            &&& timeout_error(name, limit).retryable()
            &&& request.attempt + 1 < orchestrator.retry.max_attempts() ==> {
                &&& step.orchestrator.breaker == orchestrator.breaker.failed(name, now_ms)
                &&& step.directive == (DirectiveModel::<T>::Attempt {
                    skill_name: name,
                    delay_ms: orchestrator.retry.delay_with((request.attempt + 1) as u32, draw) as u64,
                    timeout_ms: limit,
                })
            }
            &&& request.attempt + 1 >= orchestrator.retry.max_attempts() && request.current + 1
                == request.candidates.len() ==> {
                &&& step.orchestrator.breaker == orchestrator.breaker.failed(name, now_ms)
                &&& step.directive == DirectiveModel::<T>::Fail(timeout_error(name, limit))
                &&& step.request.finished
            }
        }),
{
    let name = request.candidates[request.current as int];
    law_store_stays_bounded(orchestrator.breaker, name, now_ms);
}

/// When a skill is given up and the circuit of the next one lets the
/// request through, that skill gets its first attempt at once; and when
/// that attempt succeeds, the request finishes with its value and the
/// skill's circuit is closed.
pub proof fn law_fallback_takes_over<T>(
    orchestrator: OrchestratorModel,
    request: RequestModel,
    error: ErrorModel,
    value: T,
    failed_ms: u64,
    succeeded_ms: u64,
    draw: u64,
)
    requires
        orchestrator.breaker.wf(),
        !request.finished,
        request.current + 1 < request.candidates.len(),
        !error.retryable() || request.attempt + 1 >= orchestrator.retry.max_attempts(),
        !orchestrator.breaker.failed(request.candidates[request.current as int], failed_ms).blocks(
            request.candidates[request.current as int + 1],
            failed_ms,
        ),
    ensures
        ({
            let fallback = request.candidates[request.current as int + 1];
            let step = orchestrator.resume::<T>(request, OutcomeModel::Failed(error), failed_ms, draw);
            let end = step.orchestrator.resume(
                step.request,
                OutcomeModel::Succeeded(value),
                succeeded_ms,
                draw,
            );
            &&& step.request.current == request.current + 1
            &&& step.directive == (DirectiveModel::<T>::Attempt {
                skill_name: fallback,
                delay_ms: 0,
                timeout_ms: orchestrator.timeout.timeout_ms,
            })
            &&& end.directive == DirectiveModel::Succeed(value)
            &&& end.request.finished
            &&& end.orchestrator.breaker == step.orchestrator.breaker.succeeded(
                fallback,
                succeeded_ms,
            )
        }),
{
    let name = request.candidates[request.current as int];
    law_store_stays_bounded(orchestrator.breaker, name, failed_ms);
}

/// A request whose skill in progress is turned away by its circuit does
/// not attempt it and records no failure for it: it is given up with
/// `CircuitOpen`, and the store only sees the check.
pub proof fn law_open_circuit_short_circuits<T>(
    orchestrator: OrchestratorModel,
    skill_name: Seq<char>,
    now_ms: u64,
)
    requires
        orchestrator.breaker.wf(),
        orchestrator.breaker.blocks(skill_name, now_ms),
    ensures
        ({
            let step = orchestrator.begin::<T>(seq![skill_name], now_ms);
            &&& step.directive == DirectiveModel::<T>::Fail(
                ErrorModel::CircuitOpen { resource: skill_name },
            )
            &&& step.request.finished
            &&& step.orchestrator.breaker == orchestrator.breaker.checked(skill_name, now_ms)
        }),
{
    let first = RequestModel {
        candidates: seq![skill_name],
        current: 0,
        attempt: 0,
        finished: false,
        last_err: None,
    };
    let gated = OrchestratorModel {
        breaker: orchestrator.breaker.checked(skill_name, now_ms),
        ..orchestrator
    };
    let next = RequestModel {
        current: 1,
        attempt: 0,
        last_err: Some(ErrorModel::CircuitOpen { resource: skill_name }),
        ..first
    };
    assert(orchestrator.seek::<T>(first, now_ms) == gated.seek::<T>(next, now_ms));
}

/// How far a request is from its end: the skills not yet given up, and
/// for the one in progress the attempts not yet used.
pub open spec fn remaining(orchestrator: OrchestratorModel, request: RequestModel) -> (int, int) {
    (
        request.candidates.len() - request.current,
        orchestrator.retry.max_attempts() - request.attempt,
    )
}

/// Every outcome brings the request nearer to its end: either it is
/// finished, or a skill has been given up, or one more of the attempts of
/// the skill in progress is used. So a skill is attempted at most once
/// more than the policy has retries, and every request ends.
pub proof fn law_every_request_ends<T>(
    orchestrator: OrchestratorModel,
    request: RequestModel,
    outcome: OutcomeModel<T>,
    now_ms: u64,
    draw: u64,
)
    requires
        orchestrator.breaker.wf(),
        request.attempt < orchestrator.retry.max_attempts(),
    ensures
        ({
            let step = orchestrator.resume(request, outcome, now_ms, draw);
            let before = remaining(orchestrator, request);
            let after = remaining(step.orchestrator, step.request);
            &&& step.directive is Attempt ==> {
                &&& step.request.attempt < step.orchestrator.retry.max_attempts()
                &&& !step.request.finished
                &&& after.0 < before.0 || (after.0 == before.0 && after.1 < before.1)
                &&& after.0 > 0
                &&& after.1 > 0
            }
            &&& !(step.directive is Attempt) ==> step.request.finished
        }),
{
    if !(request.finished || request.current >= request.candidates.len()) {
        let name = request.candidates[request.current as int];
        law_store_stays_bounded(orchestrator.breaker, name, now_ms);
        let error = outcome.error(name, orchestrator.timeout.timeout_ms);
        let recorded = OrchestratorModel {
            breaker: orchestrator.breaker.failed(name, now_ms),
            ..orchestrator
        };
        lemma_seek::<T>(
            recorded,
            RequestModel {
                current: request.current + 1,
                attempt: 0,
                last_err: Some(error),
                ..request
            },
            now_ms,
        );
    }
}


/// Where a request stands once each attempt handed out has been answered
/// as `outcome_of` tells for its skill, the answers coming at the times and
/// with the jitter draws of `moments`, one after the other, until the
/// request is finished or the moments run out.
pub open spec fn served<T>(
    step: StepModel<T>,
    outcome_of: spec_fn(Seq<char>) -> OutcomeModel<T>,
    moments: Seq<(u64, u64)>,
) -> StepModel<T>
    decreases moments.len(),
{
    match step.directive {
        DirectiveModel::Attempt { skill_name, .. } => if moments.len() == 0 {
            step
        } else {
            served(
                step.orchestrator.resume(
                    step.request,
                    outcome_of(skill_name),
                    moments[0].0,
                    moments[0].1,
                ),
                outcome_of,
                moments.drop_first(),
            )
        },
        _ => step,
    }
}

/// The skills of the attempts that were answered on the way to `served`,
/// in their order.
pub open spec fn attempted<T>(
    step: StepModel<T>,
    outcome_of: spec_fn(Seq<char>) -> OutcomeModel<T>,
    moments: Seq<(u64, u64)>,
) -> Seq<Seq<char>>
    decreases moments.len(),
{
    match step.directive {
        DirectiveModel::Attempt { skill_name, .. } => if moments.len() == 0 {
            Seq::empty()
        } else {
            seq![skill_name] + attempted(
                step.orchestrator.resume(
                    step.request,
                    outcome_of(skill_name),
                    moments[0].0,
                    moments[0].1,
                ),
                outcome_of,
                moments.drop_first(),
            )
        },
        _ => Seq::empty(),
    }
}

/// The number of attempts that a skill gets whose attempts all end in
/// `error`, when `used` of them are used up: one where the error is not
/// retryable, else all that are left.
pub open spec fn attempts_left(orchestrator: OrchestratorModel, error: ErrorModel, used: u32) -> nat {
    if error.retryable() {
        (orchestrator.retry.max_attempts() - used) as nat
    } else {
        1
    }
}

/// The circuit of `key` is closed or not tracked.
pub open spec fn circuit_closed(breaker: BreakerModel, key: Seq<char>) -> bool {
    breaker.state_of(key) is None || breaker.state_of(key)->0 is Closed
}

/// What is recorded for one skill leaves the circuit of another closed
/// where it was closed.
pub proof fn lemma_other_circuit_stays_closed(
    breaker: BreakerModel,
    key: Seq<char>,
    other: Seq<char>,
    now_ms: u64,
)
    requires
        breaker.wf(),
        key != other,
        circuit_closed(breaker, other),
    ensures
        circuit_closed(breaker.failed(key, now_ms), other),
        circuit_closed(breaker.checked(key, now_ms), other),
        circuit_closed(breaker.succeeded(key, now_ms), other),
        !breaker.blocks(other, now_ms),
{
    lemma_stored_other(
        breaker.entries,
        breaker.limit,
        key,
        state_after_failure(breaker, key, now_ms),
        other,
    );
    lemma_stored_other(
        breaker.entries,
        breaker.limit,
        key,
        CircuitState::Closed { failures: 0, last_updated: now_ms },
        other,
    );
    lemma_without(breaker.entries, key);
    match lookup(breaker.entries, key) {
        Some(state) => {
            lemma_stored_other(
                breaker.entries,
                breaker.limit,
                key,
                state.after_check(breaker.config, now_ms),
                other,
            );
        },
        None => {},
    }
}

/// A request for a skill that always fails, with a fallback that
/// succeeds, from any point in the attempts on the first: the first skill
/// uses up its attempts, the fallback is attempted once, and the request
/// ends with the fallback's value.
pub proof fn lemma_fallback_after_attempts<T>(
    step: StepModel<T>,
    first: Seq<char>,
    fallback: Seq<char>,
    outcome_of: spec_fn(Seq<char>) -> OutcomeModel<T>,
    value: T,
    moments: Seq<(u64, u64)>,
)
    requires
        step.orchestrator.breaker.wf(),
        first != fallback,
        !(outcome_of(first) is Succeeded),
        outcome_of(fallback) == OutcomeModel::Succeeded(value),
        circuit_closed(step.orchestrator.breaker, fallback),
        step.request.candidates == seq![first, fallback],
        step.request.current == 0,
        !step.request.finished,
        step.request.attempt < step.orchestrator.retry.max_attempts(),
        step.directive is Attempt,
        step.directive->skill_name == first,
        moments.len() > step.orchestrator.retry.max_attempts() - step.request.attempt,
    ensures
        ({
            let error = outcome_of(first).error(first, step.orchestrator.timeout.timeout_ms);
            let count = attempts_left(step.orchestrator, error, step.request.attempt);
            let end = served(step, outcome_of, moments);
            &&& end.directive == DirectiveModel::Succeed(value)
            &&& end.request.finished
            &&& attempted(step, outcome_of, moments) == Seq::new(count, |i: int| first) + seq![
                fallback,
            ]
            &&& end.orchestrator.breaker.state_of(fallback) == Some(
                CircuitState::Closed { failures: 0, last_updated: moments[count as int].0 },
            )
        }),
    decreases step.orchestrator.retry.max_attempts() - step.request.attempt,
{
    let orchestrator = step.orchestrator;
    let request = step.request;
    let now_ms = moments[0].0;
    let error = outcome_of(first).error(first, orchestrator.timeout.timeout_ms);
    let count = attempts_left(orchestrator, error, request.attempt);
    let next = orchestrator.resume(request, outcome_of(first), now_ms, moments[0].1);
    let rest = moments.drop_first();
    let repeated = Seq::new(count, |i: int| first) + seq![fallback];
    law_store_stays_bounded(orchestrator.breaker, first, now_ms);
    lemma_other_circuit_stays_closed(orchestrator.breaker, first, fallback, now_ms);
    let recorded = orchestrator.breaker.failed(first, now_ms);
    assert(request.candidates[0] == first);
    assert(request.candidates[1] == fallback);
    if error.retryable() && request.attempt + 1 < orchestrator.retry.max_attempts() {
        lemma_fallback_after_attempts(next, first, fallback, outcome_of, value, rest);
        let later = Seq::new((count - 1) as nat, |i: int| first) + seq![fallback];
        assert(attempted(next, outcome_of, rest) == later);
        assert(seq![first] + later =~= repeated);
        assert(rest[count - 1] == moments[count as int]);
    } else {
        assert(count == 1);
        law_store_stays_bounded(recorded, fallback, now_ms);
        lemma_other_circuit_stays_closed(recorded, first, fallback, now_ms);
        let gated = OrchestratorModel { breaker: recorded, ..orchestrator };
        let onward = RequestModel {
            current: request.current + 1,
            attempt: 0,
            last_err: Some(error),
            ..request
        };
        assert(next == gated.seek::<T>(onward, now_ms));
        assert(next.directive == (DirectiveModel::<T>::Attempt {
            skill_name: fallback,
            delay_ms: 0,
            timeout_ms: orchestrator.timeout.timeout_ms,
        }));
        let end = next.orchestrator.resume(
            next.request,
            outcome_of(fallback),
            rest[0].0,
            rest[0].1,
        );
        assert(end.directive == DirectiveModel::Succeed(value));
        assert(served(next, outcome_of, rest) == served(end, outcome_of, rest.drop_first()));
        assert(served(end, outcome_of, rest.drop_first()) == end);
        assert(attempted(end, outcome_of, rest.drop_first()) =~= Seq::<Seq<char>>::empty());
        assert(attempted(next, outcome_of, rest) =~= seq![fallback]);
        assert(seq![first] + seq![fallback] =~= repeated);
        assert(rest[0] == moments[1]);
        lemma_stored(
            next.orchestrator.breaker.entries,
            next.orchestrator.breaker.limit,
            fallback,
            CircuitState::Closed { failures: 0, last_updated: rest[0].0 },
        );
    }
}

/// Routing falls back. A request for a skill whose every attempt fails,
/// with a fallback whose attempt succeeds, ends with the fallback's value
/// when the circuit of the first lets the request through and that of the
/// fallback is closed, whatever the times of the answers and the jitter.
/// The first skill is attempted once where its error is not retryable,
/// else as often as the policy allows, and then the fallback once; the
/// fallback's success is recorded.
pub proof fn law_request_falls_back<T>(
    orchestrator: OrchestratorModel,
    first: Seq<char>,
    fallback: Seq<char>,
    outcome_of: spec_fn(Seq<char>) -> OutcomeModel<T>,
    value: T,
    start_ms: u64,
    moments: Seq<(u64, u64)>,
)
    requires
        orchestrator.breaker.wf(),
        first != fallback,
        !(outcome_of(first) is Succeeded),
        outcome_of(fallback) == OutcomeModel::Succeeded(value),
        !orchestrator.breaker.blocks(first, start_ms),
        circuit_closed(orchestrator.breaker, fallback),
        moments.len() > orchestrator.retry.max_attempts(),
    ensures
        ({
            let error = outcome_of(first).error(first, orchestrator.timeout.timeout_ms);
            let count = attempts_left(orchestrator, error, 0);
            let start = orchestrator.begin::<T>(seq![first, fallback], start_ms);
            let end = served(start, outcome_of, moments);
            &&& end.directive == DirectiveModel::Succeed(value)
            &&& end.request.finished
            &&& attempted(start, outcome_of, moments) == Seq::new(count, |i: int| first) + seq![
                fallback,
            ]
            &&& end.orchestrator.breaker.state_of(fallback) == Some(
                CircuitState::Closed { failures: 0, last_updated: moments[count as int].0 },
            )
        }),
{
    let start = orchestrator.begin::<T>(seq![first, fallback], start_ms);
    law_store_stays_bounded(orchestrator.breaker, first, start_ms);
    lemma_other_circuit_stays_closed(orchestrator.breaker, first, fallback, start_ms);
    assert(seq![first, fallback][0] == first);
    lemma_fallback_after_attempts(start, first, fallback, outcome_of, value, moments);
}

} // verus!
