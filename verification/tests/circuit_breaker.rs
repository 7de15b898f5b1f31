use pandora::circuit_breaker::{CircuitBreakerConfig, CircuitBreakerManager, CircuitState};

#[test]
fn test_circuit_opens_after_threshold() {
    let config = CircuitBreakerConfig {
        failure_threshold: 3,
        ..Default::default()
    };
    let mut manager = CircuitBreakerManager::new(config);

    // Record failures
    assert!(!manager.is_open("test_skill"));
    manager.record_failure("test_skill");
    assert!(!manager.is_open("test_skill"));
    manager.record_failure("test_skill");
    assert!(!manager.is_open("test_skill"));
    manager.record_failure("test_skill");

    // Should be open now
    assert!(manager.is_open("test_skill"));
}

#[test]
fn test_circuit_cooldown() {
    let config = CircuitBreakerConfig {
        failure_threshold: 1,
        open_cooldown_ms: 100,
        ..Default::default()
    };
    let mut manager = CircuitBreakerManager::new(config);

    // Open circuit
    manager.record_failure_at("test_skill", 0);
    assert!(manager.is_open_at("test_skill", 0));

    // 150 ms later the cooldown is over: should transition to half-open
    assert!(!manager.is_open_at("test_skill", 150)); // First trial
    assert!(manager.is_open_at("test_skill", 150)); // No more trials
}

#[test]
fn test_circuit_success_resets() {
    let config = CircuitBreakerConfig {
        failure_threshold: 3,
        ..Default::default()
    };
    let mut manager = CircuitBreakerManager::new(config);

    // Build up failures
    manager.record_failure("test_skill");
    manager.record_failure("test_skill");

    // Success resets
    manager.record_success("test_skill");

    // Need 3 more failures to open
    manager.record_failure("test_skill");
    manager.record_failure("test_skill");
    assert!(!manager.is_open("test_skill"));
    manager.record_failure("test_skill");
    assert!(manager.is_open("test_skill"));
}

#[test]
fn test_lru_eviction() {
    let config = CircuitBreakerConfig {
        max_circuits: 2,
        ..Default::default()
    };
    let mut manager = CircuitBreakerManager::new(config);

    // Add 3 skills (should evict oldest)
    manager.record_failure("skill_1");
    manager.record_failure("skill_2");
    manager.record_failure("skill_3");

    let stats = manager.stats();
    assert_eq!(stats.total_circuits, 2); // LRU evicted skill_1
}

#[test]
fn test_ttl_expiration() {
    let config = CircuitBreakerConfig {
        state_ttl_secs: 1,
        ..Default::default()
    };
    let mut manager = CircuitBreakerManager::new(config);

    // Create state
    manager.record_failure_at("test_skill", 0);
    assert_eq!(manager.stats().total_circuits, 1);

    // Two seconds later: accessing should reset expired state
    assert!(!manager.is_open_at("test_skill", 2_000));

    // Cleanup removes it
    manager.cleanup_expired_at(2_000);
    assert_eq!(manager.stats().total_circuits, 0);
}

#[test]
fn default_config_values() {
    let config = CircuitBreakerConfig::default();
    assert_eq!(config.failure_threshold, 3);
    assert_eq!(config.open_cooldown_ms, 5_000);
    assert_eq!(config.half_open_trial, 1);
    assert_eq!(config.max_circuits, 1000);
    assert_eq!(config.state_ttl_secs, 3600);
}

#[test]
fn state_expires_only_after_its_time_to_live() {
    let state = CircuitState::Closed { failures: 0, last_updated: 1_000 };
    assert!(!state.is_expired(1, 1_000));
    assert!(!state.is_expired(1, 2_000));
    assert!(state.is_expired(1, 2_001));
    assert!(!state.is_expired(1, 0));
    assert!(!state.is_expired(u64::MAX, u64::MAX));
    let opened = CircuitState::Open { opened_at: 5 };
    assert!(opened.is_expired(0, 6));
    let half = CircuitState::HalfOpen { trial_permits: 2, last_updated: 7 };
    assert!(!half.is_expired(0, 7));
}

#[test]
fn check_moves_an_open_circuit_to_half_open() {
    let config = CircuitBreakerConfig { open_cooldown_ms: 100, half_open_trial: 3, ..Default::default() };
    let open = CircuitState::Open { opened_at: 10 };
    assert_eq!(open.check(&config, 109), (open, true));
    assert_eq!(
        open.check(&config, 110),
        (CircuitState::HalfOpen { trial_permits: 2, last_updated: 110 }, false)
    );
    let half = CircuitState::HalfOpen { trial_permits: 1, last_updated: 110 };
    assert_eq!(
        half.check(&config, 120),
        (CircuitState::HalfOpen { trial_permits: 0, last_updated: 120 }, false)
    );
    let spent = CircuitState::HalfOpen { trial_permits: 0, last_updated: 120 };
    assert_eq!(spent.check(&config, 130), (spent, true));
    let closed = CircuitState::Closed { failures: 2, last_updated: 0 };
    assert_eq!(closed.check(&config, 130), (closed, false));
}

#[test]
fn half_open_with_no_trials_configured_still_admits_the_first_caller() {
    let config = CircuitBreakerConfig { open_cooldown_ms: 0, half_open_trial: 0, ..Default::default() };
    let open = CircuitState::Open { opened_at: 10 };
    assert_eq!(
        open.check(&config, 10),
        (CircuitState::HalfOpen { trial_permits: 0, last_updated: 10 }, false)
    );
}

#[test]
fn failure_transitions() {
    let config = CircuitBreakerConfig { failure_threshold: 3, ..Default::default() };
    assert_eq!(
        CircuitState::on_failure(None, &config, 5),
        CircuitState::Closed { failures: 1, last_updated: 5 }
    );
    assert_eq!(
        CircuitState::on_failure(Some(CircuitState::Closed { failures: 1, last_updated: 0 }), &config, 5),
        CircuitState::Closed { failures: 2, last_updated: 5 }
    );
    assert_eq!(
        CircuitState::on_failure(Some(CircuitState::Closed { failures: 2, last_updated: 0 }), &config, 5),
        CircuitState::Open { opened_at: 5 }
    );
    assert_eq!(
        CircuitState::on_failure(Some(CircuitState::HalfOpen { trial_permits: 4, last_updated: 0 }), &config, 5),
        CircuitState::Open { opened_at: 5 }
    );
    assert_eq!(
        CircuitState::on_failure(Some(CircuitState::Open { opened_at: 0 }), &config, 5),
        CircuitState::Open { opened_at: 5 }
    );
    assert_eq!(
        CircuitState::on_failure(
            Some(CircuitState::Closed { failures: u32::MAX, last_updated: 0 }),
            &config,
            5
        ),
        CircuitState::Open { opened_at: 5 }
    );
}

#[test]
fn single_strike_policy_opens_at_once() {
    let one = CircuitBreakerConfig { failure_threshold: 1, ..Default::default() };
    assert_eq!(CircuitState::on_failure(None, &one, 9), CircuitState::Open { opened_at: 9 });
    let zero = CircuitBreakerConfig { failure_threshold: 0, ..Default::default() };
    assert_eq!(CircuitState::on_failure(None, &zero, 9), CircuitState::Open { opened_at: 9 });
    assert_eq!(
        CircuitState::on_failure(Some(CircuitState::Closed { failures: 0, last_updated: 0 }), &zero, 9),
        CircuitState::Open { opened_at: 9 }
    );
    let mut manager = CircuitBreakerManager::new(one);
    manager.record_failure_at("solo", 0);
    assert!(manager.is_open_at("solo", 1));
}

#[test]
fn first_of_three_keys_is_evicted_from_a_store_of_two() {
    let config = CircuitBreakerConfig { failure_threshold: 1, max_circuits: 2, ..Default::default() };
    let mut manager = CircuitBreakerManager::new(config);
    manager.record_failure_at("skill_1", 0);
    manager.record_failure_at("skill_2", 1);
    manager.record_failure_at("skill_3", 2);
    let stats = manager.stats();
    assert_eq!(stats.total_circuits, 2);
    assert_eq!(stats.open, 2);
    assert_eq!(stats.capacity, 2);
    // skill_2 and skill_3 are still open; skill_1 was forgotten and starts closed
    assert!(manager.is_open_at("skill_3", 3));
    assert!(manager.is_open_at("skill_2", 3));
    assert!(!manager.is_open_at("skill_1", 3));
}

#[test]
fn reading_a_key_protects_it_from_eviction() {
    let config = CircuitBreakerConfig { failure_threshold: 1, max_circuits: 2, ..Default::default() };
    let mut manager = CircuitBreakerManager::new(config);
    manager.record_failure_at("a", 0);
    manager.record_failure_at("b", 1);
    assert!(manager.is_open_at("a", 2));
    manager.record_failure_at("c", 3);
    // "b" was the least recently used
    assert!(manager.is_open_at("a", 4));
    assert!(manager.is_open_at("c", 4));
    assert!(!manager.is_open_at("b", 4));
}

#[test]
fn capacity_of_zero_counts_as_one() {
    let config = CircuitBreakerConfig { max_circuits: 0, ..Default::default() };
    let mut manager = CircuitBreakerManager::new(config);
    assert_eq!(manager.stats().capacity, 1);
    manager.record_success_at("a", 0);
    manager.record_success_at("b", 0);
    assert_eq!(manager.stats().total_circuits, 1);
}

#[test]
fn stats_count_each_state() {
    let config = CircuitBreakerConfig {
        failure_threshold: 2,
        open_cooldown_ms: 10,
        half_open_trial: 2,
        ..Default::default()
    };
    let mut manager = CircuitBreakerManager::new(config);
    manager.record_failure_at("closed", 0);
    manager.record_failure_at("open", 0);
    manager.record_failure_at("open", 0);
    manager.record_failure_at("half", 0);
    manager.record_failure_at("half", 0);
    assert!(manager.is_open_at("open", 5));
    assert!(manager.is_open_at("half", 5));
    // a failure on the open circuit keeps it open and restarts its cooldown
    manager.record_failure_at("open", 8);
    assert!(!manager.is_open_at("half", 10));
    assert!(manager.is_open_at("open", 17));
    let stats = manager.stats();
    assert_eq!(stats.total_circuits, 3);
    assert_eq!(stats.closed, 1);
    assert_eq!(stats.open, 1);
    assert_eq!(stats.half_open, 1);
    assert_eq!(stats.capacity, 1000);
}

#[test]
fn half_open_failure_reopens_and_success_closes() {
    let config = CircuitBreakerConfig { failure_threshold: 1, open_cooldown_ms: 100, ..Default::default() };
    let mut manager = CircuitBreakerManager::new(config);
    manager.record_failure_at("k", 0);
    assert!(!manager.is_open_at("k", 100));
    manager.record_failure_at("k", 101);
    assert!(manager.is_open_at("k", 150));
    assert!(!manager.is_open_at("k", 201));
    manager.record_success_at("k", 202);
    assert!(!manager.is_open_at("k", 203));
    assert!(!manager.is_open_at("k", 204));
    assert_eq!(manager.stats().closed, 1);
}

#[test]
fn expired_failures_do_not_count() {
    let config = CircuitBreakerConfig { failure_threshold: 2, state_ttl_secs: 1, ..Default::default() };
    let mut manager = CircuitBreakerManager::new(config);
    manager.record_failure_at("k", 0);
    // more than a second later the first failure is forgotten
    manager.record_failure_at("k", 1_001);
    assert!(!manager.is_open_at("k", 1_002));
    manager.record_failure_at("k", 1_003);
    assert!(manager.is_open_at("k", 1_004));
}

#[test]
fn cleanup_keeps_fresh_states_in_order() {
    let config = CircuitBreakerConfig { failure_threshold: 1, state_ttl_secs: 1, max_circuits: 3, ..Default::default() };
    let mut manager = CircuitBreakerManager::new(config);
    manager.record_failure_at("old", 0);
    manager.record_failure_at("fresh_1", 1_500);
    manager.record_failure_at("older", 100);
    manager.record_failure_at("fresh_2", 1_600);
    // capacity is 3: "old" is gone already
    assert_eq!(manager.stats().total_circuits, 3);
    manager.cleanup_expired_at(2_000);
    assert_eq!(manager.stats().total_circuits, 2);
    // adding one more does not evict a fresh state
    manager.record_failure_at("new", 2_000);
    assert_eq!(manager.stats().total_circuits, 3);
    assert!(manager.is_open_at("fresh_1", 2_001));
    assert!(manager.is_open_at("fresh_2", 2_001));
}

#[test]
fn cleanup_with_the_clock_keeps_recent_states() {
    let mut manager = CircuitBreakerManager::new(CircuitBreakerConfig::default());
    manager.record_failure("a");
    manager.record_success("b");
    manager.cleanup_expired();
    let stats = manager.stats();
    assert_eq!(stats.total_circuits, 2);
    assert_eq!(stats.closed, 2);
    let first = manager.now_ms();
    let second = manager.now_ms();
    assert!(second >= first);
}

#[test]
fn any_capacity_is_accepted() {
    let config = CircuitBreakerConfig { max_circuits: usize::MAX, ..Default::default() };
    let mut manager = CircuitBreakerManager::new(config);
    manager.record_failure_at("a", 0);
    let stats = manager.stats();
    assert_eq!((stats.total_circuits, stats.capacity), (1, usize::MAX));
}

#[test]
fn failure_on_an_open_circuit_keeps_it_open() {
    let config = CircuitBreakerConfig { failure_threshold: 3, ..Default::default() };
    let mut manager = CircuitBreakerManager::new(config);
    manager.record_failure("k");
    manager.record_failure("k");
    manager.record_failure("k");
    manager.record_failure("k");
    assert!(manager.is_open("k"));
    // with threshold 2, three failures of one request leave the circuit open
    let config = CircuitBreakerConfig { failure_threshold: 2, open_cooldown_ms: 100, ..Default::default() };
    let mut manager = CircuitBreakerManager::new(config);
    manager.record_failure_at("k", 0);
    manager.record_failure_at("k", 10);
    manager.record_failure_at("k", 20);
    assert!(manager.is_open_at("k", 30));
    assert_eq!(manager.stats().open, 1);
    // the cooldown counts from the last failure
    assert!(manager.is_open_at("k", 119));
    assert!(!manager.is_open_at("k", 120));
    // an open state that has expired counts as absent
    let config = CircuitBreakerConfig { failure_threshold: 2, state_ttl_secs: 1, ..Default::default() };
    let mut manager = CircuitBreakerManager::new(config);
    manager.record_failure_at("k", 0);
    manager.record_failure_at("k", 0);
    manager.record_failure_at("k", 1_001);
    assert_eq!(manager.stats().closed, 1);
}
