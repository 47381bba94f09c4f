//! A file found by a search.

use vstd::prelude::*;

verus! {

/// A file found by a search.
#[derive(Debug, Clone)]
pub struct FileResult {
    pub path: String,
    pub name: String,
    pub extension: Option<String>,
    pub size: i64,
    pub modified_at: i64,
    pub is_directory: bool,
}

} // verus!
