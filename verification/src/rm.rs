//! Resource management vocabulary.

use vstd::prelude::*;
use vstd::string::StringExecFns;

verus! {

/// What can go wrong while resources are allocated.
#[derive(Debug)]
pub enum ResourceManagerError {
    InsufficientResources(String),
}

impl ResourceManagerError {
    /// The message that the error shows to a reader.
    pub open spec fn text(self) -> Seq<char> {
        match self {
            ResourceManagerError::InsufficientResources(what) => "Tài nguyên không đủ: "@ + what@,
        }
    }

    /// The message that the error shows to a reader.
    pub fn to_string(&self) -> (text: String)
        ensures
            text@ == self.text(),
    {
        match self {
            ResourceManagerError::InsufficientResources(what) => String::from_str(
                "Tài nguyên không đủ: ",
            ).concat(what.as_str()),
        }
    }
}

/// What an allocation is to be best at.
#[derive(Debug, Clone, Copy, PartialEq, Eq, Structural)]
pub enum OptimizationObjective {
    MinimizeLatency,
    MaximizeThroughput,
    MinimizeEnergyConsumption,
    BalancedPerformance,
}

/// The optimizer of allocations.
#[derive(Debug, Clone, Copy)]
pub struct AllocationOptimizer;

} // verus!
