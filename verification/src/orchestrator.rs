//! The dispatcher: routes one request over a primary skill and its
//! fallbacks, gating each skill by its circuit, retrying failed attempts
//! with backoff, and recording the outcome of every attempt.
//!
//! Running a skill, waiting and timing an attempt out are the caller's
//! work. The dispatcher decides: it hands out a directive, the caller
//! carries it out and reports the outcome of the attempt, and the
//! dispatcher answers with the next directive, until the request is
//! finished.

use vstd::prelude::*;
use vstd::string::StringExecFns;
use crate::circuit_breaker::{
    BreakerModel, CircuitBreakerConfig, CircuitBreakerManager, CircuitStats, stats_of,
};
use crate::error::{ErrorModel, PandoraError};
use crate::policy::{names, RetryPolicy, RoutingPolicy, TimeoutPolicy};

verus! {

/// What became of one attempt to run a skill.
pub enum AttemptOutcome<T> {
    /// The skill ran and returned a value.
    Succeeded(T),
    /// The skill could not be run, or ran and failed.
    Failed(PandoraError),
    /// The attempt was abandoned at its time limit.
    TimedOut,
    /// No executor is registered under the skill's name.
    NotFound,
}

/// An attempt outcome with its strings as character sequences.
pub enum OutcomeModel<T> {
    Succeeded(T),
    Failed(ErrorModel),
    TimedOut,
    NotFound,
}

impl<T> View for AttemptOutcome<T> {
    type V = OutcomeModel<T>;

    open spec fn view(&self) -> OutcomeModel<T> {
        match self {
            AttemptOutcome::Succeeded(value) => OutcomeModel::Succeeded(*value),
            AttemptOutcome::Failed(error) => OutcomeModel::Failed(error@),
            AttemptOutcome::TimedOut => OutcomeModel::TimedOut,
            AttemptOutcome::NotFound => OutcomeModel::NotFound,
        }
    }
}

/// What the caller is to do next.
pub enum Directive<T> {
    /// Wait `delay_ms`, then run the skill once, for at most `timeout_ms`,
    /// and report the outcome.
    Attempt { skill_name: String, delay_ms: u64, timeout_ms: u64 },
    /// The request is finished: hand the value to the requester.
    Succeed(T),
    /// The request is finished: hand the error to the requester.
    Fail(PandoraError),
}

/// A directive with its strings as character sequences.
pub enum DirectiveModel<T> {
    Attempt { skill_name: Seq<char>, delay_ms: u64, timeout_ms: u64 },
    Succeed(T),
    Fail(ErrorModel),
}

impl<T> View for Directive<T> {
    type V = DirectiveModel<T>;

    open spec fn view(&self) -> DirectiveModel<T> {
        match self {
            Directive::Attempt { skill_name, delay_ms, timeout_ms } => DirectiveModel::Attempt {
                skill_name: skill_name@,
                delay_ms: *delay_ms,
                timeout_ms: *timeout_ms,
            },
            Directive::Succeed(value) => DirectiveModel::Succeed(*value),
            Directive::Fail(error) => DirectiveModel::Fail(error@),
        }
    }
}

/// The progress of one request.
pub struct Request {
    candidates: Vec<String>,
    current: usize,
    attempt: u32,
    finished: bool,
    last_err: Option<PandoraError>,
}

/// The progress of one request as a value: the skills to try in order, the
/// index of the one in progress, the number of failed attempts on it so
/// far, whether the request is over, and the error of the last skill given
/// up.
pub struct RequestModel {
    pub candidates: Seq<Seq<char>>,
    pub current: nat,
    pub attempt: u32,
    pub finished: bool,
    pub last_err: Option<ErrorModel>,
}

/// The view of an optional error.
pub open spec fn error_view(error: Option<PandoraError>) -> Option<ErrorModel> {
    match error {
        Some(e) => Some(e@),
        None => None,
    }
}

impl View for Request {
    type V = RequestModel;

    closed spec fn view(&self) -> RequestModel {
        RequestModel {
            candidates: names(self.candidates@),
            current: self.current as nat,
            attempt: self.attempt,
            finished: self.finished,
            last_err: error_view(self.last_err),
        }
    }
}

/// A dispatcher as a value: its policies and its circuit breaker store.
pub struct OrchestratorModel {
    pub retry: RetryPolicy,
    pub timeout: TimeoutPolicy,
    pub breaker: BreakerModel,
}

/// The result of one decision: the dispatcher and the request after it,
/// and the directive handed out.
pub struct StepModel<T> {
    pub orchestrator: OrchestratorModel,
    pub request: RequestModel,
    pub directive: DirectiveModel<T>,
}

/// The error of a request that has run out of skills: the error of the
/// last skill given up.
pub open spec fn exhausted_error(last_err: Option<ErrorModel>) -> ErrorModel {
    match last_err {
        Some(error) => error,
        None => ErrorModel::Unknown("Routing exhausted"@),
    }
}

/// The error of an attempt on `skill_name` that was abandoned after
/// `timeout_ms`.
pub open spec fn timeout_error(skill_name: Seq<char>, timeout_ms: u64) -> ErrorModel {
    ErrorModel::Timeout { operation: "skill:"@ + skill_name, timeout_ms }
}

impl<T> OutcomeModel<T> {
    /// The error that an attempt on `skill_name` without success counts
    /// as: the error of the failure, a timeout, or that there is no such
    /// skill.
    pub open spec fn error(self, skill_name: Seq<char>, timeout_ms: u64) -> ErrorModel {
        match self {
            OutcomeModel::Failed(error) => error,
            OutcomeModel::NotFound => ErrorModel::SkillNotFound { skill_name },
            _ => timeout_error(skill_name, timeout_ms),
        }
    }
}

impl OrchestratorModel {
    /// Gates the skills from the one in progress on, at `now_ms`. A skill
    /// whose circuit turns the request away is given up with `CircuitOpen`,
    /// without an attempt and without a recorded failure. The first skill
    /// that is let through gets its first attempt, with no wait. If none is
    /// left, the request fails with the error of the last skill given up.
    pub open spec fn seek<T>(self, request: RequestModel, now_ms: u64) -> StepModel<T>
        decreases request.candidates.len() - request.current,
    {
        if request.current >= request.candidates.len() {
            StepModel {
                orchestrator: self,
                request: RequestModel { finished: true, last_err: None, ..request },
                directive: DirectiveModel::Fail(exhausted_error(request.last_err)),
            }
        } else {
            let name = request.candidates[request.current as int];
            let gated = OrchestratorModel { breaker: self.breaker.checked(name, now_ms), ..self };
            if self.breaker.blocks(name, now_ms) {
                gated.seek(
                    RequestModel {
                        current: request.current + 1,
                        attempt: 0,
                        last_err: Some(ErrorModel::CircuitOpen { resource: name }),
                        ..request
                    },
                    now_ms,
                )
            } else {
                StepModel {
                    orchestrator: gated,
                    request: RequestModel { attempt: 0, ..request },
                    directive: DirectiveModel::Attempt {
                        skill_name: name,
                        delay_ms: 0,
                        timeout_ms: self.timeout.timeout_ms,
                    },
                }
            }
        }
    }

    /// Starts a request for `candidates` at `now_ms`.
    pub open spec fn begin<T>(self, candidates: Seq<Seq<char>>, now_ms: u64) -> StepModel<T> {
        self.seek(
            RequestModel { candidates, current: 0, attempt: 0, finished: false, last_err: None },
            now_ms,
        )
    }

    /// Takes in the outcome of the attempt that was last handed out, at
    /// `now_ms`, with `draw` for the jitter of a wait.
    ///
    /// A success closes the skill's circuit and finishes the request with
    /// the value. A failure, a timeout or a missing skill is recorded as a
    /// failure of the skill; if the error is retryable and attempts are left, the same
    /// skill is tried again after the backoff of that retry; otherwise the
    /// skill is given up with that error and the skills after it are
    /// gated. A request that is already over fails.
    pub open spec fn resume<T>(
        self,
        request: RequestModel,
        outcome: OutcomeModel<T>,
        now_ms: u64,
        draw: u64,
    ) -> StepModel<T> {
        if request.finished || request.current >= request.candidates.len() {
            StepModel {
                orchestrator: self,
                request: RequestModel { finished: true, last_err: None, ..request },
                directive: DirectiveModel::Fail(exhausted_error(request.last_err)),
            }
        } else {
            let name = request.candidates[request.current as int];
            match outcome {
                OutcomeModel::Succeeded(value) => StepModel {
                    orchestrator: OrchestratorModel {
                        breaker: self.breaker.succeeded(name, now_ms),
                        ..self
                    },
                    request: RequestModel { finished: true, ..request },
                    directive: DirectiveModel::Succeed(value),
                },
                _ => {
                    let error = outcome.error(name, self.timeout.timeout_ms);
                    let recorded = OrchestratorModel {
                        breaker: self.breaker.failed(name, now_ms),
                        ..self
                    };
                    if error.retryable() && request.attempt + 1 < self.retry.max_attempts() {
                        let attempt = (request.attempt + 1) as u32;
                        StepModel {
                            orchestrator: recorded,
                            request: RequestModel { attempt, ..request },
                            directive: DirectiveModel::Attempt {
                                skill_name: name,
                                delay_ms: self.retry.delay_with(attempt, draw) as u64,
                                timeout_ms: self.timeout.timeout_ms,
                            },
                        }
                    } else {
                        recorded.seek(
                            RequestModel {
                                current: request.current + 1,
                                attempt: 0,
                                last_err: Some(error),
                                ..request
                            },
                            now_ms,
                        )
                    }
                },
            }
        }
    }
}

/// Whether `current` can come about from `start` by carrying out `steps`
/// attempts one after the other, each reported at some time with some
/// outcome and some jitter draw.
pub open spec fn reaches<T>(start: StepModel<T>, current: StepModel<T>, steps: nat) -> bool
    decreases steps,
{
    if steps == 0 {
        current == start
    } else {
        exists|before: StepModel<T>, outcome: OutcomeModel<T>, now_ms: u64, draw: u64|
            {
                &&& reaches(start, before, (steps - 1) as nat)
                &&& before.directive is Attempt
                &&& draw <= before.orchestrator.retry.jitter_span()
                &&& current == #[trigger] before.orchestrator.resume(
                    before.request,
                    outcome,
                    now_ms,
                    draw,
                )
            }
    }
}

/// The result that a directive finishes a request with, if it does.
pub open spec fn finishes_with<T>(directive: DirectiveModel<T>, result: Result<T, ErrorModel>) -> bool {
    match directive {
        DirectiveModel::Succeed(value) => result == Ok::<T, ErrorModel>(value),
        DirectiveModel::Fail(error) => result == Err::<T, ErrorModel>(error),
        DirectiveModel::Attempt { .. } => false,
    }
}

/// The view of a result whose error is a `PandoraError`.
pub open spec fn result_view<T>(result: Result<T, PandoraError>) -> Result<T, ErrorModel> {
    match result {
        Ok(value) => Ok(value),
        Err(error) => Err(error@),
    }
}

/// What carries out attempts: it waits, runs a skill under a time limit,
/// and tells what became of the attempt.
pub trait SkillExecutor<T> {
    /// Waits `delay_ms`, then runs the skill `skill_name` once, for at most
    /// `timeout_ms`.
    fn attempt(&mut self, skill_name: &str, delay_ms: u64, timeout_ms: u64) -> AttemptOutcome<T>;
}

impl Request {
    /// Whether the request is over.
    pub fn is_finished(&self) -> (finished: bool)
        ensures
            finished == (self@.finished || self@.current >= self@.candidates.len()),
    {
        self.finished || self.current >= self.candidates.len()
    }

    /// The skill in progress, unless the request is over.
    pub fn current_skill(&self) -> (skill: Option<&String>)
        ensures
            match skill {
                Some(name) => !self@.finished && self@.current < self@.candidates.len() && name@
                    == self@.candidates[self@.current as int],
                None => self@.finished || self@.current >= self@.candidates.len(),
            },
    {
        if self.finished || self.current >= self.candidates.len() {
            None
        } else {
            Some(&self.candidates[self.current])
        }
    }

    /// The number of failed attempts on the skill in progress.
    pub fn attempts_failed(&self) -> (attempts: u32)
        ensures
            attempts == self@.attempt,
    {
        self.attempt
    }
}

/// The dispatcher: the policies of a request and the circuit breaker that
/// all requests share.
pub struct Orchestrator {
    retry_policy: RetryPolicy,
    timeout_policy: TimeoutPolicy,
    circuit_breaker: CircuitBreakerManager,
}

impl View for Orchestrator {
    type V = OrchestratorModel;

    closed spec fn view(&self) -> OrchestratorModel {
        OrchestratorModel {
            retry: self.retry_policy,
            timeout: self.timeout_policy,
            breaker: self.circuit_breaker@,
        }
    }
}

impl Orchestrator {
    /// The latest reading of the dispatcher's clock.
    pub closed spec fn clock_ms(&self) -> u64 {
        self.circuit_breaker.clock_ms()
    }

    /// The circuit breaker store is well formed.
    pub open spec fn wf(&self) -> bool {
        self@.breaker.wf()
    }

    /// A dispatcher with the default policies.
    pub fn new() -> (orchestrator: Self)
        ensures
            orchestrator.wf(),
            orchestrator@ == (OrchestratorModel {
                retry: RetryPolicy::standard(),
                timeout: TimeoutPolicy::standard(),
                breaker: BreakerModel::fresh(CircuitBreakerConfig::standard()),
            }),
    {
        Self::with_config(CircuitBreakerConfig::default())
    }

    /// A dispatcher with the default retry and timeout policies and the
    /// given circuit breaker configuration.
    pub fn with_config(circuit_config: CircuitBreakerConfig) -> (orchestrator: Self)
        ensures
            orchestrator.wf(),
            orchestrator@ == (OrchestratorModel {
                retry: RetryPolicy::standard(),
                timeout: TimeoutPolicy::standard(),
                breaker: BreakerModel::fresh(circuit_config),
            }),
    {
        Orchestrator {
            retry_policy: RetryPolicy::default(),
            timeout_policy: TimeoutPolicy::default(),
            circuit_breaker: CircuitBreakerManager::new(circuit_config),
        }
    }

    /// The same dispatcher with another retry policy.
    pub fn with_retry_policy(self, policy: RetryPolicy) -> (orchestrator: Self)
        ensures
            orchestrator@ == (OrchestratorModel { retry: policy, ..self@ }),
            orchestrator.clock_ms() == self.clock_ms(),
    {
        let mut orchestrator = self;
        orchestrator.retry_policy = policy;
        orchestrator
    }

    /// The same dispatcher with another timeout policy.
    pub fn with_timeout_policy(self, policy: TimeoutPolicy) -> (orchestrator: Self)
        ensures
            orchestrator@ == (OrchestratorModel { timeout: policy, ..self@ }),
            orchestrator.clock_ms() == self.clock_ms(),
    {
        let mut orchestrator = self;
        orchestrator.timeout_policy = policy;
        orchestrator
    }

    /// Get circuit breaker statistics.
    pub fn circuit_stats(&self) -> (stats: CircuitStats)
        requires
            self.wf(),
        ensures
            stats_of(self@.breaker.limit, self@.breaker.entries, stats),
            stats.total_circuits <= stats.capacity,
            stats.closed + stats.open + stats.half_open == stats.total_circuits,
    {
        self.circuit_breaker.stats()
    }

    /// Gates the skills of `request` from the one in progress on.
    fn seek<T>(&mut self, request: &mut Request, now_ms: u64) -> (directive: Directive<T>)
        requires
            old(self).wf(),
        ensures
            final(self).wf(),
            final(self).clock_ms() == old(self).clock_ms(),
            (StepModel { orchestrator: final(self)@, request: final(request)@, directive: directive@ })
                == old(self)@.seek::<T>(old(request)@, now_ms),
    {
        while request.current < request.candidates.len()
            invariant
                self.wf(),
                self.clock_ms() == old(self).clock_ms(),
                self@.seek::<T>(request@, now_ms) == old(self)@.seek::<T>(old(request)@, now_ms),
            decreases request.candidates.len() - request.current,
        {
            let blocked = self.circuit_breaker.is_open_at(
                request.candidates[request.current].as_str(),
                now_ms,
            );
            if !blocked {
                request.attempt = 0;
                return Directive::Attempt {
                    skill_name: request.candidates[request.current].clone(),
                    delay_ms: 0,
                    timeout_ms: self.timeout_policy.timeout_ms,
                };
            }
            request.last_err = Some(
                PandoraError::CircuitOpen { resource: request.candidates[request.current].clone() },
            );
            request.current = request.current + 1;
            request.attempt = 0;
        }
        request.finished = true;
        Directive::Fail(Self::give_up(request))
    }

    /// Takes the error that a request which has run out of skills fails
    /// with.
    fn give_up(request: &mut Request) -> (error: PandoraError)
        ensures
            error@ == exhausted_error(old(request)@.last_err),
            final(request)@ == (RequestModel { last_err: None, ..old(request)@ }),
    {
        match request.last_err.take() {
            Some(error) => error,
            None => PandoraError::Unknown(String::from_str("Routing exhausted")),
        }
    }

    /// Starts a request with a routing policy at `now_ms`: the request to
    /// carry on with, and the first directive.
    pub fn process_with_routing_at<T>(&mut self, routing: RoutingPolicy, now_ms: u64) -> (started: (
        Request,
        Directive<T>,
    ))
        requires
            old(self).wf(),
        ensures
            final(self).wf(),
            final(self).clock_ms() == old(self).clock_ms(),
            (StepModel {
                orchestrator: final(self)@,
                request: started.0@,
                directive: started.1@,
            }) == old(self)@.begin::<T>(routing.candidates(), now_ms),
    {
        let mut request = Request {
            candidates: routing.into_candidates(),
            current: 0,
            attempt: 0,
            finished: false,
            last_err: None,
        };
        let directive = self.seek(&mut request, now_ms);
        (request, directive)
    }

    /// Starts a request for one skill, without fallbacks, at `now_ms`.
    pub fn process_request_at<T>(&mut self, skill_name: &str, now_ms: u64) -> (started: (
        Request,
        Directive<T>,
    ))
        requires
            old(self).wf(),
        ensures
            final(self).wf(),
            final(self).clock_ms() == old(self).clock_ms(),
            (StepModel {
                orchestrator: final(self)@,
                request: started.0@,
                directive: started.1@,
            }) == old(self)@.begin::<T>(seq![skill_name@], now_ms),
    {
        self.process_with_routing_at(RoutingPolicy::single(skill_name), now_ms)
    }

    /// Takes in the outcome of the attempt that was last handed out for
    /// `request`, at `now_ms`, with `draw` for the jitter of a wait, and
    /// hands out the next directive.
    pub fn resume_at<T>(
        &mut self,
        request: &mut Request,
        outcome: AttemptOutcome<T>,
        now_ms: u64,
        draw: u64,
    ) -> (directive: Directive<T>)
        requires
            old(self).wf(),
        ensures
            final(self).wf(),
            final(self).clock_ms() == old(self).clock_ms(),
            (StepModel { orchestrator: final(self)@, request: final(request)@, directive: directive@ })
                == old(self)@.resume(old(request)@, outcome@, now_ms, draw),
    {
        if request.finished || request.current >= request.candidates.len() {
            request.finished = true;
            return Directive::Fail(Self::give_up(request));
        }
        let failure = match outcome {
            AttemptOutcome::Succeeded(value) => {
                self.circuit_breaker.record_success_at(
                    request.candidates[request.current].as_str(),
                    now_ms,
                );
                request.finished = true;
                return Directive::Succeed(value);
            },
            AttemptOutcome::Failed(error) => error,
            AttemptOutcome::NotFound => PandoraError::SkillNotFound {
                skill_name: request.candidates[request.current].clone(),
            },
            AttemptOutcome::TimedOut => PandoraError::Timeout {
                operation: String::from_str("skill:").concat(
                    request.candidates[request.current].as_str(),
                ),
                timeout_ms: self.timeout_policy.timeout_ms,
            },
        };
        self.circuit_breaker.record_failure_at(request.candidates[request.current].as_str(), now_ms);
        let max_attempts = self.retry_policy.attempts_allowed();
        if failure.is_retryable() && request.attempt < max_attempts - 1 {
            request.attempt = request.attempt + 1;
            let delay_ms = self.retry_policy.backoff_with_draw(request.attempt, draw);
            return Directive::Attempt {
                skill_name: request.candidates[request.current].clone(),
                delay_ms,
                timeout_ms: self.timeout_policy.timeout_ms,
            };
        }
        request.last_err = Some(failure);
        request.current = request.current + 1;
        request.attempt = 0;
        self.seek(request, now_ms)
    }

    /// Starts a request with a routing policy, at the time that the
    /// dispatcher's clock shows.
    pub fn process_with_routing<T>(&mut self, routing: RoutingPolicy) -> (started: (
        Request,
        Directive<T>,
    ))
        requires
            old(self).wf(),
        ensures
            final(self).wf(),
            final(self).clock_ms() >= old(self).clock_ms(),
            (StepModel {
                orchestrator: final(self)@,
                request: started.0@,
                directive: started.1@,
            }) == old(self)@.begin::<T>(routing.candidates(), final(self).clock_ms()),
    {
        let now_ms = self.circuit_breaker.now_ms();
        self.process_with_routing_at(routing, now_ms)
    }

    /// Starts a request for one skill, without fallbacks, at the time that
    /// the dispatcher's clock shows.
    pub fn process_request<T>(&mut self, skill_name: &str) -> (started: (Request, Directive<T>))
        requires
            old(self).wf(),
        ensures
            final(self).wf(),
            final(self).clock_ms() >= old(self).clock_ms(),
            (StepModel {
                orchestrator: final(self)@,
                request: started.0@,
                directive: started.1@,
            }) == old(self)@.begin::<T>(seq![skill_name@], final(self).clock_ms()),
    {
        let now_ms = self.circuit_breaker.now_ms();
        self.process_request_at(skill_name, now_ms)
    }

    /// Takes in the outcome of the attempt that was last handed out for
    /// `request`, at the time that the dispatcher's clock shows and with a
    /// random jitter, and hands out the next directive.
    pub fn resume<T>(&mut self, request: &mut Request, outcome: AttemptOutcome<T>) -> (directive:
        Directive<T>)
        requires
            old(self).wf(),
        ensures
            final(self).wf(),
            final(self).clock_ms() >= old(self).clock_ms(),
            exists|draw: u64|
                draw <= old(self)@.retry.jitter_span() && (StepModel {
                    orchestrator: final(self)@,
                    request: final(request)@,
                    directive: directive@,
                }) == #[trigger] old(self)@.resume(
                    old(request)@,
                    outcome@,
                    final(self).clock_ms(),
                    draw,
                ),
    {
        let now_ms = self.circuit_breaker.now_ms();
        let draw = self.retry_policy.jitter_draw();
        let ghost before = self@;
        let ghost asked = request@;
        let directive = self.resume_at(request, outcome, now_ms, draw);
        assert((StepModel { orchestrator: self@, request: request@, directive: directive@ })
            == before.resume(asked, outcome@, now_ms, draw));
        directive
    }

    /// Serves a request with a routing policy to its end, with `executor`
    /// carrying out the attempts. The result is the one that the decisions
    /// of `resume` lead to for the outcomes that the executor reported, at
    /// the times that the clock showed.
    pub fn run<T, E: SkillExecutor<T>>(&mut self, executor: &mut E, routing: RoutingPolicy) -> (result:
        Result<T, PandoraError>)
        requires
            old(self).wf(),
        ensures
            final(self).wf(),
            final(self).clock_ms() >= old(self).clock_ms(),
            exists|start_ms: u64, end: StepModel<T>, steps: nat|
                {
                    &&& #[trigger] reaches(
                        old(self)@.begin::<T>(routing.candidates(), start_ms),
                        end,
                        steps,
                    )
                    &&& end.orchestrator == final(self)@
                    &&& finishes_with(end.directive, result_view(result))
                },
    {
        let ghost origin = self@;
        let ghost names = routing.candidates();
        let (mut request, mut directive) = self.process_with_routing::<T>(routing);
        let ghost start_ms = self.clock_ms();
        let ghost start = origin.begin::<T>(names, start_ms);
        let ghost steps: nat = 0;
        proof {
            crate::dispatch_laws::lemma_seek::<T>(
                origin,
                RequestModel {
                    candidates: names,
                    current: 0,
                    attempt: 0,
                    finished: false,
                    last_err: None,
                },
                start_ms,
            );
        }
        loop
            invariant
                self.wf(),
                self.clock_ms() >= old(self).clock_ms(),
                start == old(self)@.begin::<T>(routing.candidates(), start_ms),
                reaches(
                    start,
                    StepModel { orchestrator: self@, request: request@, directive: directive@ },
                    steps,
                ),
                directive is Attempt ==> request@.attempt < self@.retry.max_attempts(),
            decreases
                    if directive is Attempt {
                        1int
                    } else {
                        0int
                    },
                    request@.candidates.len() - request@.current,
                    self@.retry.max_attempts() - request@.attempt,
        {
            match directive {
                Directive::Attempt { skill_name, delay_ms, timeout_ms } => {
                    let ghost before = StepModel {
                        orchestrator: self@,
                        request: request@,
                        directive: directive@,
                    };
                    let outcome = executor.attempt(skill_name.as_str(), delay_ms, timeout_ms);
                    let ghost reported = outcome@;
                    directive = self.resume(&mut request, outcome);
                    proof {
                        let now_ms = self.clock_ms();
                        let draw = choose|draw: u64|
                            draw <= before.orchestrator.retry.jitter_span() && (StepModel {
                                orchestrator: self@,
                                request: request@,
                                directive: directive@,
                            }) == #[trigger] before.orchestrator.resume(
                                before.request,
                                reported,
                                now_ms,
                                draw,
                            );
                        crate::dispatch_laws::law_every_request_ends(
                            before.orchestrator,
                            before.request,
                            reported,
                            now_ms,
                            draw,
                        );
                        steps = steps + 1;
                    }
                },
                Directive::Succeed(value) => {
                    return Ok(value);
                },
                Directive::Fail(error) => {
                    return Err(error);
                },
            }
        }
    }

    /// Serves a request for one skill, without fallbacks, to its end.
    pub fn run_request<T, E: SkillExecutor<T>>(&mut self, executor: &mut E, skill_name: &str) -> (result:
        Result<T, PandoraError>)
        requires
            old(self).wf(),
        ensures
            final(self).wf(),
            final(self).clock_ms() >= old(self).clock_ms(),
            exists|start_ms: u64, end: StepModel<T>, steps: nat|
                {
                    &&& #[trigger] reaches(
                        old(self)@.begin::<T>(seq![skill_name@], start_ms),
                        end,
                        steps,
                    )
                    &&& end.orchestrator == final(self)@
                    &&& finishes_with(end.directive, result_view(result))
                },
    {
        self.run(executor, RoutingPolicy::single(skill_name))
    }

    /// The error of an attempt on `skill_name` that ran into the time
    /// limit.
    pub fn timeout_error_for(&self, skill_name: &str) -> (error: PandoraError)
        ensures
            error@ == timeout_error(skill_name@, self@.timeout.timeout_ms),
    {
        PandoraError::Timeout {
            operation: String::from_str("skill:").concat(skill_name),
            timeout_ms: self.timeout_policy.timeout_ms,
        }
    }

    /// Remove every expired circuit state, at the time that the
    /// dispatcher's clock shows. Meant to be called periodically.
    pub fn cleanup_expired(&mut self) -> (stats: CircuitStats)
        requires
            old(self).wf(),
        ensures
            final(self).wf(),
            final(self).clock_ms() >= old(self).clock_ms(),
            final(self)@ == (OrchestratorModel {
                breaker: old(self)@.breaker.cleaned(final(self).clock_ms()),
                ..old(self)@
            }),
            stats_of(final(self)@.breaker.limit, final(self)@.breaker.entries, stats),
    {
        self.circuit_breaker.cleanup_expired();
        self.circuit_breaker.stats()
    }
}

} // verus!
