//! Data exchanged with the recommendation engines.

use vstd::prelude::*;

verus! {

/// Whether recommendations are made, and how many at most.
#[derive(Debug, Clone, Copy)]
pub struct RecommendConfig {
    pub enabled: bool,
    pub max_results: usize,
}

impl Default for RecommendConfig {
    /// Enabled, at most 20 results.
    fn default() -> (r: Self)
        ensures
            r.enabled,
            r.max_results == 20,
    {
        RecommendConfig { enabled: true, max_results: 20 }
    }
}

/// A candidate for recommendation.
#[derive(Debug, Clone)]
pub struct RecommendItem {
    pub id: String,
    pub title: String,
    pub subtitle: String,
    /// Source kind (apps, files, commands, ...).
    pub category: String,
    pub launch_count: u32,
    /// Unix seconds of the last launch.
    pub last_launched: Option<i64>,
    /// Category keywords.
    pub tags: Vec<String>,
}

/// What the user is doing when recommendations are asked for.
#[derive(Debug, Clone)]
pub struct RecommendContext {
    pub foreground_app_path: String,
    pub foreground_app_title: String,
    pub query: String,
    /// Category keyword of the foreground application, when known.
    pub foreground_category: Option<String>,
}

impl Default for RecommendContext {
    /// Nothing known.
    fn default() -> (r: Self)
        ensures
            r.foreground_app_path@.len() == 0,
            r.foreground_app_title@.len() == 0,
            r.query@.len() == 0,
            r.foreground_category is None,
    {
        RecommendContext {
            foreground_app_path: String::new(),
            foreground_app_title: String::new(),
            query: String::new(),
            foreground_category: None,
        }
    }
}

/// How the user reacted to a recommendation.
#[derive(Debug, Clone, Copy, PartialEq, Eq, Structural)]
pub enum FeedbackType {
    /// Launched it.
    Click,
    /// Passed it by.
    Ignore,
    /// Said it is unwanted.
    Dislike,
    /// Pinned it.
    Pin,
}

/// A reaction to a recommended item.
#[derive(Debug, Clone)]
pub struct FeedbackEvent {
    pub item_id: String,
    pub feedback_type: FeedbackType,
    /// Position of the item in the list shown.
    pub position: Option<usize>,
    pub context: RecommendContext,
    /// Unix seconds.
    pub timestamp: i64,
}

/// Counters of the recommendation service.
#[derive(Debug, Clone, Copy)]
pub struct RecommendStatus {
    pub enabled: bool,
    pub py_engine_available: bool,
    pub total_recommendations: u64,
    pub total_feedbacks: u64,
}

impl Default for RecommendStatus {
    /// Everything off and zero.
    fn default() -> (r: Self)
        ensures
            !r.enabled,
            !r.py_engine_available,
            r.total_recommendations == 0,
            r.total_feedbacks == 0,
    {
        RecommendStatus { enabled: false, py_engine_available: false, total_recommendations: 0, total_feedbacks: 0 }
    }
}

} // verus!
