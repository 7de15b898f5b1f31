//! The dispatcher's settings as they are loaded, and how they are applied.

use vstd::prelude::*;
use crate::circuit_breaker::{BreakerModel, CircuitBreakerConfig};
use crate::orchestrator::{Orchestrator, OrchestratorModel};
use crate::policy::{RetryPolicy, TimeoutPolicy};

verus! {

/// Retry settings. The multiplier is in thousandths.
#[derive(Clone, Copy, Debug)]
pub struct RetryConfig {
    pub max_retries: u32,
    pub initial_backoff_ms: u64,
    pub backoff_multiplier_permille: u64,
    pub max_backoff_ms: u64,
    pub jitter_ms: u64,
}

impl RetryConfig {
    pub fn default_max_retries() -> (value: u32)
        ensures
            value == 2,
    {
        2
    }

    pub fn default_initial_backoff_ms() -> (value: u64)
        ensures
            value == 50,
    {
        50
    }

    pub fn default_backoff_multiplier_permille() -> (value: u64)
        ensures
            value == 2000,
    {
        2000
    }

    pub fn default_max_backoff_ms() -> (value: u64)
        ensures
            value == 1_000,
    {
        1_000
    }

    pub fn default_jitter_ms() -> (value: u64)
        ensures
            value == 25,
    {
        25
    }

    /// The retry policy that these settings ask for.
    pub open spec fn policy(self) -> RetryPolicy {
        RetryPolicy {
            max_retries: self.max_retries,
            initial_backoff_ms: self.initial_backoff_ms,
            backoff_multiplier_permille: self.backoff_multiplier_permille,
            max_backoff_ms: self.max_backoff_ms,
            jitter_ms: self.jitter_ms,
        }
    }
}

impl Default for RetryConfig {
    fn default() -> (config: Self)
        ensures
            config.policy() == RetryPolicy::standard(),
    {
        RetryConfig {
            max_retries: Self::default_max_retries(),
            initial_backoff_ms: Self::default_initial_backoff_ms(),
            backoff_multiplier_permille: Self::default_backoff_multiplier_permille(),
            max_backoff_ms: Self::default_max_backoff_ms(),
            jitter_ms: Self::default_jitter_ms(),
        }
    }
}

/// Timeout settings.
#[derive(Clone, Copy, Debug)]
pub struct TimeoutConfig {
    pub timeout_ms: u64,
}

impl TimeoutConfig {
    pub fn default_timeout_ms() -> (value: u64)
        ensures
            value == 2_000,
    {
        2_000
    }
}

impl Default for TimeoutConfig {
    fn default() -> (config: Self)
        ensures
            config.timeout_ms == 2_000,
    {
        TimeoutConfig { timeout_ms: Self::default_timeout_ms() }
    }
}

/// Circuit breaker settings.
#[derive(Clone, Copy, Debug)]
pub struct CircuitConfig {
    pub failure_threshold: u32,
    pub open_cooldown_ms: u64,
    pub half_open_trial: u32,
}

impl CircuitConfig {
    pub fn default_failure_threshold() -> (value: u32)
        ensures
            value == 3,
    {
        3
    }

    pub fn default_open_cooldown_ms() -> (value: u64)
        ensures
            value == 5_000,
    {
        5_000
    }

    pub fn default_half_open_trial() -> (value: u32)
        ensures
            value == 1,
    {
        1
    }

    /// The store configuration that these settings ask for: the capacity
    /// and the time to live are the standard ones.
    pub open spec fn breaker_config(self) -> CircuitBreakerConfig {
        CircuitBreakerConfig {
            failure_threshold: self.failure_threshold,
            open_cooldown_ms: self.open_cooldown_ms,
            half_open_trial: self.half_open_trial,
            max_circuits: CircuitBreakerConfig::standard().max_circuits,
            state_ttl_secs: CircuitBreakerConfig::standard().state_ttl_secs,
        }
    }
}

impl Default for CircuitConfig {
    fn default() -> (config: Self)
        ensures
            config.breaker_config() == CircuitBreakerConfig::standard(),
    {
        CircuitConfig {
            failure_threshold: Self::default_failure_threshold(),
            open_cooldown_ms: Self::default_open_cooldown_ms(),
            half_open_trial: Self::default_half_open_trial(),
        }
    }
}

/// All the settings of a dispatcher.
#[derive(Clone, Copy, Debug)]
pub struct OrchestratorConfig {
    pub retry: RetryConfig,
    pub timeout: TimeoutConfig,
    pub circuit: CircuitConfig,
}

impl Default for OrchestratorConfig {
    fn default() -> (config: Self)
        ensures
            config.retry.policy() == RetryPolicy::standard(),
            config.timeout.timeout_ms == 2_000,
            config.circuit.breaker_config() == CircuitBreakerConfig::standard(),
    {
        OrchestratorConfig {
            retry: RetryConfig::default(),
            timeout: TimeoutConfig::default(),
            circuit: CircuitConfig::default(),
        }
    }
}

impl OrchestratorConfig {
    /// A dispatcher with these settings in place of `orchestrator`: the
    /// policies are the configured ones, and the circuit breaker store
    /// starts empty.
    pub fn apply(self, orchestrator: Orchestrator) -> (configured: Orchestrator)
        ensures
            configured.wf(),
            configured@ == (OrchestratorModel {
                retry: self.retry.policy(),
                timeout: TimeoutPolicy { timeout_ms: self.timeout.timeout_ms },
                breaker: BreakerModel::fresh(self.circuit.breaker_config()),
            }),
    {
        let retry = RetryPolicy {
            max_retries: self.retry.max_retries,
            initial_backoff_ms: self.retry.initial_backoff_ms,
            backoff_multiplier_permille: self.retry.backoff_multiplier_permille,
            max_backoff_ms: self.retry.max_backoff_ms,
            jitter_ms: self.retry.jitter_ms,
        };
        let timeout = TimeoutPolicy { timeout_ms: self.timeout.timeout_ms };
        let standard = CircuitBreakerConfig::default();
        let circuit = CircuitBreakerConfig {
            failure_threshold: self.circuit.failure_threshold,
            open_cooldown_ms: self.circuit.open_cooldown_ms,
            half_open_trial: self.circuit.half_open_trial,
            max_circuits: standard.max_circuits,
            state_ttl_secs: standard.state_ttl_secs,
        };
        Orchestrator::with_config(circuit).with_retry_policy(retry).with_timeout_policy(timeout)
    }
}

} // verus!
