use pandora::circuit_breaker::CircuitBreakerConfig;
use pandora::config::{CircuitConfig, OrchestratorConfig, RetryConfig, TimeoutConfig};
use pandora::error::PandoraError;
use pandora::orchestrator::{AttemptOutcome, Directive, Orchestrator, Request, SkillExecutor};
use pandora::policy::{CircuitBreakerPolicy, RetryPolicy, RoutingPolicy, TimeoutPolicy};

fn standard_retry() -> RetryPolicy {
    RetryPolicy {
        max_retries: 2,
        initial_backoff_ms: 50,
        backoff_multiplier_permille: 2000,
        max_backoff_ms: 1_000,
        jitter_ms: 25,
    }
}

fn invalid_input(skill: &str) -> PandoraError {
    PandoraError::InvalidSkillInput { skill_name: skill.to_string(), message: "bad".to_string() }
}

/// Runs a request to its end at time zero; `run` plays the executor. Returns the
/// result and the skills attempted, in order, with the wait before each attempt.
fn drive(
    orchestrator: &mut Orchestrator,
    routing: RoutingPolicy,
    run: &dyn Fn(&str) -> AttemptOutcome<String>,
) -> (Result<String, PandoraError>, Vec<(String, u64)>) {
    let mut attempts = Vec::new();
    let (mut request, mut directive): (Request, Directive<String>) =
        orchestrator.process_with_routing_at(routing, 0);
    loop {
        match directive {
            Directive::Attempt { skill_name, delay_ms, timeout_ms } => {
                assert!(timeout_ms > 0);
                let outcome = run(&skill_name);
                attempts.push((skill_name, delay_ms));
                directive = orchestrator.resume_at(&mut request, outcome, 0, 12);
            }
            Directive::Succeed(value) => {
                assert!(request.is_finished());
                return (Ok(value), attempts);
            }
            Directive::Fail(error) => {
                assert!(request.is_finished());
                return (Err(error), attempts);
            }
        }
    }
}

#[test]
fn backoff_doubles_up_to_the_maximum() {
    let policy = standard_retry();
    assert_eq!(policy.base_backoff_ms(1), 50);
    assert_eq!(policy.base_backoff_ms(2), 100);
    assert_eq!(policy.base_backoff_ms(3), 200);
    assert_eq!(policy.base_backoff_ms(4), 400);
    assert_eq!(policy.base_backoff_ms(5), 800);
    assert_eq!(policy.base_backoff_ms(6), 1_000);
    assert_eq!(policy.base_backoff_ms(7), 1_000);
    assert_eq!(policy.base_backoff_ms(u32::MAX), 1_000);
}

#[test]
fn backoff_with_a_draw_is_exact() {
    let policy = standard_retry();
    // jitter 25: draws 0..=24 move the wait by -12..=12
    assert_eq!(policy.backoff_with_draw(1, 0), 38);
    assert_eq!(policy.backoff_with_draw(1, 12), 50);
    assert_eq!(policy.backoff_with_draw(1, 24), 62);
    assert_eq!(policy.backoff_with_draw(1, 1_000), 62);
    assert_eq!(policy.backoff_with_draw(6, 24), 1_012);
    let small = RetryPolicy { initial_backoff_ms: 5, jitter_ms: 100, ..standard_retry() };
    assert_eq!(small.backoff_with_draw(1, 0), 0);
    assert_eq!(small.backoff_with_draw(1, 44), 0);
    assert_eq!(small.backoff_with_draw(1, 46), 1);
    let none = RetryPolicy { jitter_ms: 0, ..standard_retry() };
    assert_eq!(none.backoff_with_draw(3, 99), 200);
    let huge = RetryPolicy {
        initial_backoff_ms: u64::MAX,
        max_backoff_ms: u64::MAX,
        jitter_ms: u64::MAX,
        ..standard_retry()
    };
    assert_eq!(huge.backoff_with_draw(1, u64::MAX), u64::MAX);
}

#[test]
fn backoff_with_fractional_and_shrinking_multipliers() {
    let half_again = RetryPolicy { backoff_multiplier_permille: 1500, ..standard_retry() };
    assert_eq!(half_again.base_backoff_ms(1), 50);
    assert_eq!(half_again.base_backoff_ms(2), 75);
    assert_eq!(half_again.base_backoff_ms(3), 112);
    assert_eq!(half_again.base_backoff_ms(4), 168);
    let shrinking = RetryPolicy { backoff_multiplier_permille: 500, ..standard_retry() };
    assert_eq!(shrinking.base_backoff_ms(2), 25);
    assert_eq!(shrinking.base_backoff_ms(3), 12);
    assert_eq!(shrinking.base_backoff_ms(100), 0);
    let steady = RetryPolicy { backoff_multiplier_permille: 1000, ..standard_retry() };
    assert_eq!(steady.base_backoff_ms(1_000_000), 50);
    // a multiplier just above one grows the wait, slowly: 1.001^1000 is 2.7169...
    let slow = RetryPolicy { initial_backoff_ms: 1, backoff_multiplier_permille: 1001, ..standard_retry() };
    assert_eq!(slow.base_backoff_ms(2), 1);
    assert_eq!(slow.base_backoff_ms(694), 1);
    assert_eq!(slow.base_backoff_ms(695), 2);
    assert_eq!(slow.base_backoff_ms(1_001), 2);
    assert_eq!(slow.base_backoff_ms(1_101), 3);
    assert_eq!(slow.base_backoff_ms(u32::MAX), 1_000);
    let fine = RetryPolicy { backoff_multiplier_permille: 1500, ..standard_retry() };
    assert_eq!(fine.base_backoff_ms(5), 253);
    assert_eq!(fine.base_backoff_ms(6), 379);
    let huge = RetryPolicy {
        initial_backoff_ms: u64::MAX,
        backoff_multiplier_permille: u64::MAX,
        max_backoff_ms: u64::MAX,
        ..standard_retry()
    };
    assert_eq!(huge.base_backoff_ms(1), u64::MAX);
    assert_eq!(huge.base_backoff_ms(2), u64::MAX);
    let tiny = RetryPolicy {
        initial_backoff_ms: 1,
        backoff_multiplier_permille: u64::MAX,
        max_backoff_ms: u64::MAX,
        ..standard_retry()
    };
    assert_eq!(tiny.base_backoff_ms(2), 18_446_744_073_709_551);
    assert_eq!(tiny.base_backoff_ms(3), u64::MAX);
    let capped = RetryPolicy { initial_backoff_ms: 5_000, ..standard_retry() };
    assert_eq!(capped.base_backoff_ms(1), 1_000);
    let zero = RetryPolicy { backoff_multiplier_permille: 0, ..standard_retry() };
    assert_eq!(zero.base_backoff_ms(2), 0);
}

#[test]
fn random_backoff_stays_within_half_the_jitter() {
    let policy = standard_retry();
    for attempt in 1..=8u32 {
        let ideal = std::cmp::min(50u64 << (attempt - 1), 1_000);
        for _ in 0..200 {
            let delay = policy.backoff_duration(attempt);
            assert!(2 * delay + 25 >= 2 * ideal, "attempt {} delay {}", attempt, delay);
            assert!(2 * delay <= 2 * ideal + 25, "attempt {} delay {}", attempt, delay);
        }
    }
    let draws: Vec<u64> = (0..200).map(|_| policy.jitter_draw()).collect();
    assert!(draws.iter().all(|draw| *draw <= 24));
    assert!(draws.iter().any(|draw| *draw < 24));
}

#[test]
fn attempts_allowed_is_one_more_than_the_retries() {
    assert_eq!(standard_retry().attempts_allowed(), 3);
    assert_eq!(RetryPolicy { max_retries: 0, ..standard_retry() }.attempts_allowed(), 1);
    assert_eq!(RetryPolicy { max_retries: u32::MAX, ..standard_retry() }.attempts_allowed(), u32::MAX);
}

#[test]
fn default_policies() {
    let retry = RetryPolicy::default();
    assert_eq!(retry.max_retries, 2);
    assert_eq!(retry.initial_backoff_ms, 50);
    assert_eq!(retry.backoff_multiplier_permille, 2000);
    assert_eq!(retry.max_backoff_ms, 1_000);
    assert_eq!(retry.jitter_ms, 25);
    assert_eq!(TimeoutPolicy::default().timeout_ms, 2_000);
    let circuit = CircuitBreakerPolicy::default();
    assert_eq!(circuit.failure_threshold, 3);
    assert_eq!(circuit.open_cooldown_ms, 5_000);
    assert_eq!(circuit.half_open_trial, 1);
    assert_eq!(RetryConfig::default_max_retries(), 2);
    assert_eq!(RetryConfig::default_initial_backoff_ms(), 50);
    assert_eq!(RetryConfig::default_backoff_multiplier_permille(), 2000);
    assert_eq!(RetryConfig::default_max_backoff_ms(), 1_000);
    assert_eq!(RetryConfig::default_jitter_ms(), 25);
    assert_eq!(TimeoutConfig::default_timeout_ms(), 2_000);
    assert_eq!(CircuitConfig::default_failure_threshold(), 3);
    assert_eq!(CircuitConfig::default_open_cooldown_ms(), 5_000);
    assert_eq!(CircuitConfig::default_half_open_trial(), 1);
    let all = OrchestratorConfig::default();
    assert_eq!(all.retry.max_retries, 2);
    assert_eq!(all.timeout.timeout_ms, 2_000);
    assert_eq!(all.circuit.failure_threshold, 3);
}

#[test]
fn candidates_are_the_primary_then_the_fallbacks() {
    let routing = RoutingPolicy {
        primary: "A".to_string(),
        fallbacks: vec!["B".to_string(), "C".to_string()],
    };
    assert_eq!(routing.into_candidates(), vec!["A".to_string(), "B".to_string(), "C".to_string()]);
    let single = RoutingPolicy::single("only");
    assert_eq!(single.primary, "only");
    assert!(single.fallbacks.is_empty());
}

#[test]
fn success_returns_the_value_after_one_attempt() {
    let mut orchestrator = Orchestrator::new();
    let (result, attempts) = drive(&mut orchestrator, RoutingPolicy::single("arithmetic"), &|skill| {
        AttemptOutcome::Succeeded(format!("result of {}", skill))
    });
    assert_eq!(result.unwrap(), "result of arithmetic");
    assert_eq!(attempts, vec![("arithmetic".to_string(), 0)]);
    let stats = orchestrator.circuit_stats();
    assert_eq!((stats.total_circuits, stats.closed), (1, 1));
}

#[test]
fn invalid_input_is_attempted_exactly_once() {
    for max_retries in [0u32, 2, 50, u32::MAX] {
        let mut orchestrator = Orchestrator::new()
            .with_retry_policy(RetryPolicy { max_retries, ..standard_retry() });
        let (result, attempts) = drive(&mut orchestrator, RoutingPolicy::single("s"), &|skill| {
            AttemptOutcome::Failed(invalid_input(skill))
        });
        assert!(matches!(result, Err(PandoraError::InvalidSkillInput { .. })));
        assert_eq!(attempts.len(), 1);
    }
}

#[test]
fn test_skill_not_found() {
    let mut orchestrator = Orchestrator::new();
    let (result, attempts) =
        drive(&mut orchestrator, RoutingPolicy::single("nonexistent_skill"), &|_| AttemptOutcome::NotFound);
    match result {
        Err(PandoraError::SkillNotFound { skill_name }) => assert_eq!(skill_name, "nonexistent_skill"),
        other => panic!("Expected SkillNotFound, got: {:?}", other),
    }
    assert_eq!(attempts.len(), 1);
}

#[test]
fn retryable_failure_uses_every_attempt_with_growing_waits() {
    let mut orchestrator = Orchestrator::with_config(CircuitBreakerConfig {
        failure_threshold: 10,
        ..Default::default()
    });
    let (result, attempts) = drive(&mut orchestrator, RoutingPolicy::single("mock_fail"), &|skill| {
        AttemptOutcome::Failed(PandoraError::skill_exec(skill, "Mock failure"))
    });
    match result {
        Err(PandoraError::SkillExecution { skill_name, message }) => {
            assert_eq!(skill_name, "mock_fail");
            assert_eq!(message, "Mock failure");
        }
        other => panic!("Expected SkillExecution error, got: {:?}", other),
    }
    // the draw is 12 of 24, so the waits are the base waits
    assert_eq!(
        attempts,
        vec![("mock_fail".to_string(), 0), ("mock_fail".to_string(), 50), ("mock_fail".to_string(), 100)]
    );
    let stats = orchestrator.circuit_stats();
    assert_eq!((stats.total_circuits, stats.closed), (1, 1));
}

#[test]
fn routing_falls_back_to_the_next_skill() {
    let mut orchestrator = Orchestrator::new();
    let routing = RoutingPolicy { primary: "A".to_string(), fallbacks: vec!["B".to_string()] };
    let (result, attempts) = drive(&mut orchestrator, routing, &|skill| {
        if skill == "A" {
            AttemptOutcome::Failed(invalid_input(skill))
        } else {
            AttemptOutcome::Succeeded(format!("from {}", skill))
        }
    });
    assert_eq!(result.unwrap(), "from B");
    assert_eq!(attempts, vec![("A".to_string(), 0), ("B".to_string(), 0)]);
    // A has one failure on record, B was closed by its success
    let stats = orchestrator.circuit_stats();
    assert_eq!((stats.total_circuits, stats.closed, stats.open), (2, 2, 0));
}

#[test]
fn last_error_wins_when_every_skill_fails() {
    let mut orchestrator = Orchestrator::new();
    let routing = RoutingPolicy { primary: "A".to_string(), fallbacks: vec!["B".to_string()] };
    let (result, attempts) = drive(&mut orchestrator, routing, &|skill| {
        AttemptOutcome::Failed(invalid_input(skill))
    });
    match result {
        Err(PandoraError::InvalidSkillInput { skill_name, .. }) => assert_eq!(skill_name, "B"),
        other => panic!("Expected the error of B, got: {:?}", other),
    }
    assert_eq!(attempts.len(), 2);
}

#[test]
fn timeout_is_a_retryable_failure_that_opens_the_circuit() {
    let mut orchestrator = Orchestrator::with_config(CircuitBreakerConfig::default())
        .with_timeout_policy(TimeoutPolicy { timeout_ms: 100 });
    let (result, attempts) =
        drive(&mut orchestrator, RoutingPolicy::single("slow_skill"), &|_| AttemptOutcome::TimedOut);
    match result {
        Err(PandoraError::Timeout { operation, timeout_ms }) => {
            assert!(operation.contains("slow_skill"));
            assert_eq!(operation, "skill:slow_skill");
            assert_eq!(timeout_ms, 100);
        }
        other => panic!("Expected Timeout error, got: {:?}", other),
    }
    // three attempts, three recorded failures: the circuit is open
    assert_eq!(attempts.len(), 3);
    let stats = orchestrator.circuit_stats();
    assert_eq!((stats.total_circuits, stats.open), (1, 1));
}

#[test]
fn test_circuit_breaker_opens() {
    let config = CircuitBreakerConfig { failure_threshold: 3, ..Default::default() };
    let mut orchestrator = Orchestrator::with_config(config);
    let failing = |skill: &str| -> AttemptOutcome<String> {
        AttemptOutcome::Failed(PandoraError::skill_exec(skill, "Always fails"))
    };
    for _ in 0..3 {
        let _ = drive(&mut orchestrator, RoutingPolicy::single("failing_skill"), &failing);
    }
    let (result, attempts) = drive(&mut orchestrator, RoutingPolicy::single("failing_skill"), &failing);
    match result {
        Err(PandoraError::CircuitOpen { resource }) => assert_eq!(resource, "failing_skill"),
        other => panic!("Expected CircuitOpen, got: {:?}", other),
    }
    assert!(attempts.is_empty());
}

#[test]
fn open_circuit_triggers_the_fallback_without_an_attempt() {
    let config = CircuitBreakerConfig { failure_threshold: 1, ..Default::default() };
    let mut orchestrator = Orchestrator::with_config(config);
    let _ = drive(&mut orchestrator, RoutingPolicy::single("A"), &|skill| {
        AttemptOutcome::Failed(invalid_input(skill))
    });
    let routing = RoutingPolicy { primary: "A".to_string(), fallbacks: vec!["B".to_string()] };
    let (result, attempts) = drive(&mut orchestrator, routing, &|skill| {
        AttemptOutcome::Succeeded(skill.to_string())
    });
    assert_eq!(result.unwrap(), "B");
    assert_eq!(attempts, vec![("B".to_string(), 0)]);
}

#[test]
fn resuming_a_finished_request_fails() {
    let mut orchestrator = Orchestrator::new();
    let (mut request, directive): (Request, Directive<u8>) =
        orchestrator.process_request_at("s", 0);
    assert!(matches!(directive, Directive::Attempt { .. }));
    assert_eq!(request.current_skill().map(|s| s.as_str()), Some("s"));
    assert_eq!(request.attempts_failed(), 0);
    let done = orchestrator.resume_at(&mut request, AttemptOutcome::Succeeded(1), 0, 0);
    assert!(matches!(done, Directive::Succeed(1)));
    assert!(request.is_finished());
    assert!(request.current_skill().is_none());
    let again = orchestrator.resume_at(&mut request, AttemptOutcome::Succeeded(2), 0, 0);
    match again {
        Directive::Fail(PandoraError::Unknown(message)) => assert_eq!(message, "Routing exhausted"),
        _ => panic!("Expected a failure"),
    }
}

#[test]
fn dispatch_with_the_clock_and_random_jitter() {
    let mut orchestrator = Orchestrator::new();
    let (mut request, directive): (Request, Directive<u8>) = orchestrator.process_request("s");
    assert!(matches!(directive, Directive::Attempt { delay_ms: 0, timeout_ms: 2_000, .. }));
    let retry: Directive<u8> = orchestrator.resume(&mut request, AttemptOutcome::TimedOut);
    match retry {
        Directive::Attempt { skill_name, delay_ms, timeout_ms } => {
            assert_eq!(skill_name, "s");
            assert!((38..=62).contains(&delay_ms));
            assert_eq!(timeout_ms, 2_000);
        }
        _ => panic!("Expected another attempt"),
    }
    assert_eq!(request.attempts_failed(), 1);
    let routing = RoutingPolicy { primary: "t".to_string(), fallbacks: vec![] };
    let (_, first): (Request, Directive<u8>) = orchestrator.process_with_routing(routing);
    assert!(matches!(first, Directive::Attempt { .. }));
    let stats = orchestrator.cleanup_expired();
    assert_eq!(stats.total_circuits, 2);
}

#[test]
fn applying_a_configuration_replaces_policies_and_store() {
    let mut used = Orchestrator::new();
    let _ = drive(&mut used, RoutingPolicy::single("s"), &|skill| {
        AttemptOutcome::Succeeded(skill.to_string())
    });
    let config = OrchestratorConfig {
        retry: RetryConfig { max_retries: 0, ..RetryConfig::default() },
        timeout: TimeoutConfig { timeout_ms: 7 },
        circuit: CircuitConfig { failure_threshold: 1, ..CircuitConfig::default() },
    };
    let mut orchestrator = config.apply(used);
    assert_eq!(orchestrator.circuit_stats().total_circuits, 0);
    assert_eq!(orchestrator.circuit_stats().capacity, 1000);
    let (mut request, directive): (Request, Directive<u8>) = orchestrator.process_request_at("s", 0);
    assert!(matches!(directive, Directive::Attempt { timeout_ms: 7, .. }));
    let next: Directive<u8> = orchestrator.resume_at(&mut request, AttemptOutcome::TimedOut, 0, 0);
    assert!(matches!(next, Directive::Fail(PandoraError::Timeout { timeout_ms: 7, .. })));
    assert_eq!(orchestrator.circuit_stats().open, 1);
}

struct Scripted {
    attempts: Vec<(String, u64, u64)>,
}

impl SkillExecutor<String> for Scripted {
    fn attempt(&mut self, skill_name: &str, delay_ms: u64, timeout_ms: u64) -> AttemptOutcome<String> {
        self.attempts.push((skill_name.to_string(), delay_ms, timeout_ms));
        match skill_name {
            "good" => AttemptOutcome::Succeeded("done".to_string()),
            "slow" => AttemptOutcome::TimedOut,
            _ => AttemptOutcome::Failed(invalid_input(skill_name)),
        }
    }
}

#[test]
fn run_serves_a_request_to_its_end() {
    let mut orchestrator = Orchestrator::new();
    let mut executor = Scripted { attempts: Vec::new() };
    let routing = RoutingPolicy {
        primary: "bad".to_string(),
        fallbacks: vec!["slow".to_string(), "good".to_string(), "unused".to_string()],
    };
    let result = orchestrator.run(&mut executor, routing);
    assert_eq!(result.unwrap(), "done");
    let names: Vec<&str> = executor.attempts.iter().map(|a| a.0.as_str()).collect();
    assert_eq!(names, vec!["bad", "slow", "slow", "slow", "good"]);
    assert_eq!(executor.attempts[0].1, 0);
    assert_eq!(executor.attempts[1].1, 0);
    assert!((38..=62).contains(&executor.attempts[2].1));
    assert!((88..=112).contains(&executor.attempts[3].1));
    assert_eq!(executor.attempts[4].1, 0);
    assert!(executor.attempts.iter().all(|a| a.2 == 2_000));
    let stats = orchestrator.circuit_stats();
    assert_eq!((stats.total_circuits, stats.open, stats.closed), (3, 1, 2));
    let failed: Result<String, PandoraError> = orchestrator.run_request(&mut executor, "bad");
    assert!(matches!(failed, Err(PandoraError::InvalidSkillInput { .. })));
    let blocked: Result<String, PandoraError> = orchestrator.run_request(&mut executor, "slow");
    assert!(matches!(blocked, Err(PandoraError::CircuitOpen { .. })));
    assert_eq!(
        orchestrator.timeout_error_for("x").to_string(),
        "Timeout while executing skill:x after 2000ms"
    );
}

#[test]
fn fallback_serves_after_the_primary_has_used_its_attempts() {
    for max_retries in [0u32, 1, 2, 5] {
        let mut orchestrator = Orchestrator::with_config(CircuitBreakerConfig::default())
            .with_retry_policy(RetryPolicy { max_retries, ..standard_retry() });
        let routing = RoutingPolicy { primary: "A".to_string(), fallbacks: vec!["B".to_string()] };
        let (result, attempts) = drive(&mut orchestrator, routing, &|skill| {
            if skill == "A" {
                AttemptOutcome::Failed(PandoraError::skill_exec(skill, "always fails"))
            } else {
                AttemptOutcome::Succeeded(format!("from {}", skill))
            }
        });
        assert_eq!(result.unwrap(), "from B");
        let names: Vec<&str> = attempts.iter().map(|a| a.0.as_str()).collect();
        let mut expected = vec!["A"; max_retries as usize + 1];
        expected.push("B");
        assert_eq!(names, expected);
        let stats = orchestrator.circuit_stats();
        assert_eq!(stats.total_circuits, 2);
        // three failures or more open the circuit of A and keep it open
        assert_eq!(stats.open, if max_retries >= 2 { 1 } else { 0 });
    }
}
