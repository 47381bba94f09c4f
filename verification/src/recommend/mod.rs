//! Recommendation bookkeeping: the data exchanged with the engines, the
//! click statistics of the rule engine, and the tracking of the foreground
//! application.

pub mod rule_engine;
pub mod service;
pub mod types;
pub mod window_monitor;

use vstd::prelude::*;

verus! {

/// How the recommendation module starts.
#[derive(Debug, Clone, Copy)]
pub struct RecommendInitConfig {
    /// Whether the foreground window is tracked.
    pub enable_window_monitor: bool,
}

impl Default for RecommendInitConfig {
    /// Tracking on.
    fn default() -> (r: Self)
        ensures
            r.enable_window_monitor,
    {
        RecommendInitConfig { enable_window_monitor: true }
    }
}

/// The status reported to the front end.
#[derive(Debug, Clone, Copy)]
pub struct RecommendStatusResponse {
    pub enabled: bool,
    pub py_available: bool,
    pub item_count: usize,
    pub total_recommendations: u64,
    pub total_feedbacks: u64,
}

} // verus!
