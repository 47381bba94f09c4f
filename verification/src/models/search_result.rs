//! Kinds of search results, as the front end knows them.

use vstd::prelude::*;

verus! {

/// Which source a result comes from.
#[derive(Debug, Clone, Copy, PartialEq, Eq, Hash, Structural)]
pub enum SearchCategory {
    Apps,
    Files,
    Commands,
    All,
}

/// What a result is.
#[derive(Debug, Clone, Copy, PartialEq, Eq, Hash, Structural)]
pub enum ResultType {
    SystemApp,
    UserApp,
    UwpApp,
    Directory,
    Document,
    Image,
    Video,
    Audio,
    Executable,
    Archive,
    OtherFile,
    Command,
}

/// What a query asks for.
#[derive(Debug, Clone)]
pub struct SearchOptions {
    pub categories: Vec<SearchCategory>,
    pub max_results: u32,
    pub include_hidden: bool,
}

impl Default for SearchOptions {
    /// All categories, at most 20 results, hidden entries left out.
    fn default() -> (r: Self)
        ensures
            r.categories@ == seq![SearchCategory::All],
            r.max_results == 20,
            !r.include_hidden,
    {
        let mut categories: Vec<SearchCategory> = Vec::new();
        categories.push(SearchCategory::All);
        SearchOptions { categories, max_results: 20, include_hidden: false }
    }
}

/// What activating a result does.
#[derive(Debug, Clone)]
pub enum SearchAction {
    Launch(String),
    Open(String),
    Run { command: String, args: Vec<String> },
    Navigate(String),
}

} // verus!
