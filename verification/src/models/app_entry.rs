//! An installed application.

use vstd::prelude::*;

verus! {

/// An installed application.
#[derive(Debug, Clone)]
pub struct AppEntry {
    pub id: String,
    pub name: String,
    pub path: String,
    pub icon_path: Option<String>,
    pub category: String,
    pub last_launched: Option<i64>,
    pub launch_count: u32,
    /// Unique short key used for ordering.
    pub alias: Option<String>,
}

} // verus!
