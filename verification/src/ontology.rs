//! The vocabulary of cognitive requests.

use vstd::prelude::*;

verus! {

/// The kind of work that a request asks for.
#[derive(Debug, Clone, Copy, PartialEq, Eq, Hash, Structural)]
pub enum TaskType {
    Arithmetic,
    LogicalReasoning,
    InformationRetrieval,
    PatternMatching,
    AnalogyReasoning,
    SelfCorrection,
    MetaAnalysis,
}

/// How urgent a request is.
#[derive(Debug, Clone, Copy, PartialEq, Eq, Structural)]
pub enum Priority {
    Low,
    Normal,
    High,
    Critical,
}

impl Default for Priority {
    fn default() -> (priority: Self)
        ensures
            priority == Priority::Normal,
    {
        Priority::Normal
    }
}

/// What a request prefers where speed and quality pull apart.
#[derive(Debug, Clone, Copy, PartialEq, Eq, Structural)]
pub enum QualityPreference {
    Fastest,
    Balanced,
    HighestQuality,
}

impl Default for QualityPreference {
    fn default() -> (preference: Self)
        ensures
            preference == QualityPreference::Balanced,
    {
        QualityPreference::Balanced
    }
}

/// What is known of the place and the device that a request comes from.
/// The device state and the preferences are lists of (key, value) pairs.
#[derive(Debug)]
pub struct RequestContext {
    pub location: Option<String>,
    pub device_state: Vec<(String, String)>,
    pub user_preferences: Vec<(String, String)>,
}

impl Default for RequestContext {
    fn default() -> (context: Self)
        ensures
            context.location.is_none(),
            context.device_state@.len() == 0,
            context.user_preferences@.len() == 0,
    {
        RequestContext { location: None, device_state: Vec::new(), user_preferences: Vec::new() }
    }
}

/// The limits within which a request is to be served.
#[derive(Debug, Clone, Copy)]
pub struct ResourceConstraints {
    pub max_cpu_cores: Option<u32>,
    pub max_memory_mb: Option<u32>,
    pub battery_aware: Option<bool>,
}

} // verus!
