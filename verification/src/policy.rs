//! The policies that shape one dispatch: where to route, how often and how
//! long to retry, and how long one attempt may take.

use vstd::prelude::*;

verus! {

/// A primary skill and the skills to fall back on, in order.
#[derive(Debug)]
pub struct RoutingPolicy {
    pub primary: String,
    pub fallbacks: Vec<String>,
}

/// The character sequences of a list of strings.
pub open spec fn names(list: Seq<String>) -> Seq<Seq<char>> {
    Seq::new(list.len(), |i: int| list[i]@)
}

impl RoutingPolicy {
    /// The names to try, in order: the primary, then each fallback.
    pub open spec fn candidates(self) -> Seq<Seq<char>> {
        seq![self.primary@] + names(self.fallbacks@)
    }

    /// The names to try, in order: the primary, then each fallback.
    pub fn into_candidates(self) -> (list: Vec<String>)
        ensures
            names(list@) == self.candidates(),
    {
        let mut list = self.fallbacks;
        list.insert(0, self.primary);
        assert(names(list@) =~= self.candidates());
        list
    }

    /// The policy that tries one skill and has no fallback.
    pub fn single(skill_name: &str) -> (routing: RoutingPolicy)
        ensures
            routing.candidates() == seq![skill_name@],
    {
        let routing = RoutingPolicy { primary: skill_name.to_owned(), fallbacks: Vec::new() };
        assert(routing.candidates() =~= seq![skill_name@]);
        routing
    }
}

/// How often a failed attempt is repeated, and how long to wait before each
/// repetition. The multiplier is in thousandths, so that 2000 doubles the
/// wait from one retry to the next and 1500 makes it half as long again;
/// every wait is a whole number of milliseconds.
#[derive(Clone, Copy, Debug)]
pub struct RetryPolicy {
    pub max_retries: u32,
    pub initial_backoff_ms: u64,
    pub backoff_multiplier_permille: u64,
    pub max_backoff_ms: u64,
    pub jitter_ms: u64,
}

impl Default for RetryPolicy {
    fn default() -> (policy: Self)
        ensures
            policy == RetryPolicy::standard(),
    {
        RetryPolicy {
            max_retries: 2,
            initial_backoff_ms: 50,
            backoff_multiplier_permille: 2000,
            max_backoff_ms: 1_000,
            jitter_ms: 25,
        }
    }
}

/// The time limit of one attempt.
#[derive(Clone, Copy, Debug)]
pub struct TimeoutPolicy {
    pub timeout_ms: u64,
}

impl Default for TimeoutPolicy {
    fn default() -> (policy: Self)
        ensures
            policy == TimeoutPolicy::standard(),
    {
        TimeoutPolicy { timeout_ms: 2_000 }
    }
}

/// When a circuit opens and how it recovers.
#[derive(Clone, Copy, Debug)]
pub struct CircuitBreakerPolicy {
    pub failure_threshold: u32,
    pub open_cooldown_ms: u64,
    pub half_open_trial: u32,
}

impl CircuitBreakerPolicy {
    /// The default policy: open after three failures, cool down for five
    /// seconds, then let one trial through.
    pub open spec fn standard() -> CircuitBreakerPolicy {
        CircuitBreakerPolicy { failure_threshold: 3, open_cooldown_ms: 5_000, half_open_trial: 1 }
    }
}

impl Default for CircuitBreakerPolicy {
    fn default() -> (policy: Self)
        ensures
            policy == CircuitBreakerPolicy::standard(),
    {
        CircuitBreakerPolicy { failure_threshold: 3, open_cooldown_ms: 5_000, half_open_trial: 1 }
    }
}

/// A wait of `initial` milliseconds multiplied `steps` times by `permille`
/// thousandths, in nanoseconds: the fraction is carried from step to step
/// and cut to a whole number of nanoseconds after each one.
pub open spec fn grown(initial: nat, permille: nat, steps: nat) -> nat
    decreases steps,
{
    if steps == 0 {
        initial * 1_000_000
    } else {
        grown(initial, permille, (steps - 1) as nat) * permille / 1000
    }
}

/// Once a step leaves the value as it is, every later step does.
pub proof fn lemma_grown_settles(initial: nat, permille: nat, from: nat, to: nat)
    requires
        from <= to,
        grown(initial, permille, from + 1) == grown(initial, permille, from),
    ensures
        grown(initial, permille, to) == grown(initial, permille, from),
    decreases to,
{
    if to > from {
        lemma_grown_settles(initial, permille, from, (to - 1) as nat);
    }
}

/// With a multiplier of at least one, the value never shrinks.
pub proof fn lemma_grown_rises(initial: nat, permille: nat, from: nat, to: nat)
    requires
        from <= to,
        permille >= 1000,
    ensures
        grown(initial, permille, from) <= grown(initial, permille, to),
    decreases to,
{
    if to > from {
        lemma_grown_rises(initial, permille, from, (to - 1) as nat);
        let before = grown(initial, permille, (to - 1) as nat);
        assert(before * permille / 1000 >= before) by (nonlinear_arith)
            requires
                permille >= 1000,
        ;
    }
}

/// `fastrand::u64` on the range from zero to `max`, both included: some
/// number in that range.
#[verifier::external_body]
fn random_up_to(max: u64) -> (draw: u64)
    ensures
        draw <= max,
{
    fastrand::u64(..=max)
}

impl TimeoutPolicy {
    /// The default policy: two seconds for an attempt.
    pub open spec fn standard() -> TimeoutPolicy {
        TimeoutPolicy { timeout_ms: 2_000 }
    }
}

impl RetryPolicy {
    /// The default policy: two retries, waiting 50 ms and then twice as
    /// long each time, up to one second, with 25 ms of jitter.
    pub open spec fn standard() -> RetryPolicy {
        RetryPolicy {
            max_retries: 2,
            initial_backoff_ms: 50,
            backoff_multiplier_permille: 2000,
            max_backoff_ms: 1_000,
            jitter_ms: 25,
        }
    }

    /// The wait before retry number `attempt` (counted from one), before
    /// jitter: the initial wait grown once per earlier retry, in whole
    /// milliseconds, and no more than the maximum.
    pub open spec fn base_delay(self, attempt: u32) -> nat {
        let raw = grown(
            self.initial_backoff_ms as nat,
            self.backoff_multiplier_permille as nat,
            (attempt - 1) as nat,
        ) / 1_000_000;
        if raw > self.max_backoff_ms {
            self.max_backoff_ms as nat
        } else {
            raw
        }
    }

    /// The largest draw that jitter uses: twice the half of `jitter_ms`, so
    /// that the wait moves by at most half the jitter either way.
    pub open spec fn jitter_span(self) -> nat {
        (self.jitter_ms / 2 * 2) as nat
    }

    /// The wait before retry number `attempt` for a given jitter draw: the
    /// base wait moved by the draw less half the jitter, not below zero and
    /// not above what fits in 64 bits. A draw beyond the span counts as the
    /// span.
    pub open spec fn delay_with(self, attempt: u32, draw: u64) -> nat {
        let used = if draw > self.jitter_span() {
            self.jitter_span()
        } else {
            draw as nat
        };
        let moved = self.base_delay(attempt) + used - self.jitter_ms / 2;
        if moved < 0 {
            0
        } else if moved > u64::MAX {
            u64::MAX as nat
        } else {
            moved as nat
        }
    }

    /// The total number of attempts that one skill gets: the first try and
    /// the retries, as far as the count fits in 32 bits.
    pub open spec fn max_attempts(self) -> u32 {
        if self.max_retries == u32::MAX {
            u32::MAX
        } else {
            (self.max_retries + 1) as u32
        }
    }

    /// The wait in milliseconds before retry number `attempt`, before
    /// jitter.
    pub fn base_backoff_ms(&self, attempt: u32) -> (delay: u64)
        requires
            attempt >= 1,
        ensures
            delay == self.base_delay(attempt),
    {
        let ghost initial = self.initial_backoff_ms as nat;
        let ghost permille = self.backoff_multiplier_permille as nat;
        let multiplier: u128 = self.backoff_multiplier_permille as u128;
        let ceiling: u128 = self.max_backoff_ms as u128 * 1_000_000 + 999_999;
        let mut current: u128 = self.initial_backoff_ms as u128 * 1_000_000;
        let mut step: u32 = 1;
        while step < attempt
            invariant
                1 <= step <= attempt,
                initial == self.initial_backoff_ms,
                permille == self.backoff_multiplier_permille,
                multiplier == permille,
                ceiling == self.max_backoff_ms * 1_000_000 + 999_999,
                current == grown(initial, permille, (step - 1) as nat),
                current <= 0xFFFF_FFFF_FFFF_FFFF * 1_000_000 + 999_999,
            decreases attempt - step,
        {
            match current.checked_mul(multiplier) {
                None => {
                    proof {
                        assert(permille >= 1000) by (nonlinear_arith)
                            requires
                                current * permille > u128::MAX,
                                current <= 0xFFFF_FFFF_FFFF_FFFF * 1_000_000 + 999_999,
                        ;
                        assert(grown(initial, permille, step as nat) > ceiling);
                        lemma_grown_rises(initial, permille, step as nat, (attempt - 1) as nat);
                    }
                    return self.max_backoff_ms;
                },
                Some(product) => {
                    let next: u128 = product / 1000;
                    assert(next == grown(initial, permille, step as nat));
                    if next == current {
                        proof {
                            lemma_grown_settles(
                                initial,
                                permille,
                                (step - 1) as nat,
                                (attempt - 1) as nat,
                            );
                        }
                        return Self::whole_milliseconds(current, self.max_backoff_ms);
                    }
                    if self.backoff_multiplier_permille >= 1000 {
                        if next > ceiling {
                            proof {
                                lemma_grown_rises(
                                    initial,
                                    permille,
                                    step as nat,
                                    (attempt - 1) as nat,
                                );
                            }
                            return self.max_backoff_ms;
                        }
                    } else {
                        assert(current * permille / 1000 <= current) by (nonlinear_arith)
                            requires
                                permille < 1000,
                        ;
                    }
                    current = next;
                    step += 1;
                },
            }
        }
        Self::whole_milliseconds(current, self.max_backoff_ms)
    }

    /// The whole milliseconds in `nanos` nanoseconds, and no more than
    /// `max_ms`.
    fn whole_milliseconds(nanos: u128, max_ms: u64) -> (ms: u64)
        ensures
            ms == if nanos / 1_000_000 > max_ms {
                max_ms as int
            } else {
                nanos as int / 1_000_000
            },
    {
        let whole: u128 = nanos / 1_000_000;
        if whole > max_ms as u128 {
            max_ms
        } else {
            whole as u64
        }
    }

    /// The wait in milliseconds before retry number `attempt`, for a given
    /// jitter draw.
    pub fn backoff_with_draw(&self, attempt: u32, draw: u64) -> (delay: u64)
        requires
            attempt >= 1,
        ensures
            delay == self.delay_with(attempt, draw),
    {
        let base = self.base_backoff_ms(attempt);
        let half: u64 = self.jitter_ms / 2;
        let span: u64 = half * 2;
        let used: u64 = if draw > span {
            span
        } else {
            draw
        };
        let raised: u128 = base as u128 + used as u128;
        if raised <= half as u128 {
            0
        } else {
            let moved: u128 = raised - half as u128;
            if moved > u64::MAX as u128 {
                u64::MAX
            } else {
                moved as u64
            }
        }
    }

    /// A random jitter draw: some number up to the jitter span.
    pub fn jitter_draw(&self) -> (draw: u64)
        ensures
            draw <= self.jitter_span(),
    {
        random_up_to(self.jitter_ms / 2 * 2)
    }

    /// The wait in milliseconds before retry number `attempt`, with a
    /// random jitter: within half the jitter of the base wait.
    pub fn backoff_duration(&self, attempt: u32) -> (delay: u64)
        requires
            attempt >= 1,
        ensures
            exists|draw: u64|
                draw <= self.jitter_span() && delay == #[trigger] self.delay_with(attempt, draw),
            delay + self.jitter_ms / 2 >= self.base_delay(attempt),
            delay <= self.base_delay(attempt) + self.jitter_ms / 2,
    {
        let draw = self.jitter_draw();
        let delay = self.backoff_with_draw(attempt, draw);
        assert(delay == self.delay_with(attempt, draw));
        delay
    }

    /// The total number of attempts that one skill gets.
    pub fn attempts_allowed(&self) -> (attempts: u32)
        ensures
            attempts == self.max_attempts(),
    {
        if self.max_retries == u32::MAX {
            u32::MAX
        } else {
            self.max_retries + 1
        }
    }
}

} // verus!
