//! Resilient dispatch of named units of work ("skills") to executors:
//! a bounded per-skill circuit breaker store, retry with backoff, and
//! a primary/fallback router, together with the small supporting
//! vocabulary of the surrounding cognitive toolkit.

use vstd::prelude::*;
use vstd::string::StringExecFns;

pub mod aca;
pub mod breaker_laws;
pub mod cache_model;
pub mod causal_graph;
pub mod circuit_breaker;
pub mod circuit_cache;
pub mod clock;
pub mod config;
pub mod cwm;
pub mod dispatch_laws;
pub mod error;
pub mod flow;
pub mod learning;
pub mod mcg;
pub mod ontology;
pub mod orchestrator;
pub mod policy;
pub mod rm;
pub mod sie;
pub mod skandha;
pub mod skills;
pub mod text;

verus! {

/// Sum of two counters.
pub fn add(left: u64, right: u64) -> (sum: u64)
    requires
        left + right <= u64::MAX,
    ensures
        sum == left + right,
{
    left + right
}

/// A greeting for `name`.
pub fn hello(name: String) -> (greeting: String)
    ensures
        greeting@ == "Hello from Rust, "@ + name@ + "!"@,
{
    String::from_str("Hello from Rust, ").concat(name.as_str()).concat("!")
}

} // verus!
