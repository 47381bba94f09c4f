//! Data types of the search engine.

use vstd::prelude::*;

verus! {

/// Which source a result comes from.
#[derive(Debug, Clone, Copy, PartialEq, Eq, Hash, Structural)]
pub enum SearchCategory {
    Apps,
    Files,
    Commands,
    All,
}

/// What a result is, for its icon and actions.
#[derive(Debug, Clone, Copy, PartialEq, Eq, Hash, Structural)]
pub enum ResultType {
    SystemApp,
    UserApp,
    UwpApp,
    Directory,
    Document,
    Image,
    Svg,
    Video,
    Audio,
    Executable,
    StaticLib,
    DynamicLib,
    Archive,
    Shortcut,
    Html,
    Font,
    Config,
    Code,
    OtherFile,
    Command,
}

/// What a query asks for.
#[derive(Debug, Clone)]
pub struct SearchOptions {
    pub categories: Vec<SearchCategory>,
    pub limit: u32,
    pub include_hidden: bool,
}

impl Default for SearchOptions {
    /// All categories, at most 20 results, hidden entries left out.
    fn default() -> (r: Self)
        ensures
            r.categories@ == seq![SearchCategory::All],
            r.limit == 20,
            !r.include_hidden,
    {
        let mut categories: Vec<SearchCategory> = Vec::new();
        categories.push(SearchCategory::All);
        SearchOptions { categories, limit: 20, include_hidden: false }
    }
}

/// What activating a result does.
#[derive(Debug, Clone)]
pub enum SearchAction {
    Launch(String),
    Open(String),
    Run { command: String, args: Vec<String> },
    Navigate(String),
}

/// An indexed application.
#[derive(Debug, Clone)]
pub struct AppEntry {
    pub id: String,
    pub name: String,
    /// The executable, or the link file of a special shortcut.
    pub path: String,
    pub icon_path: Option<String>,
    pub category: String,
    pub last_launched: Option<i64>,
    pub launch_count: u32,
    /// Unique short key used for ordering.
    pub alias: Option<String>,
    /// The link opens a shell location rather than a file.
    pub is_special_shortcut: bool,
    pub special_command: Option<String>,
    pub special_args: Option<Vec<String>>,
    /// Lower-case pinyin initials of a Chinese name.
    pub pinyin_initials: Option<String>,
    /// Lower-case full pinyin of a Chinese name.
    pub pinyin_full: Option<String>,
    pub version: Option<String>,
    /// File extensions the application opens.
    pub file_types: Vec<String>,
}

/// A file found by the file index.
#[derive(Debug, Clone)]
pub struct FileResult {
    pub path: String,
    pub name: String,
    pub extension: Option<String>,
    pub size: i64,
    pub modified_at: i64,
    pub is_directory: bool,
}

/// A search result without its relevance score (a float that the ranking
/// outside this library attaches).
#[derive(Debug, Clone)]
pub struct ResultItem {
    pub id: String,
    pub title: String,
    /// The path of a file or of a special shortcut's link; empty for other
    /// applications.
    pub subtitle: String,
    /// Secondary text, such as a file's size.
    pub meta: Option<String>,
    pub icon: Option<String>,
    pub category: SearchCategory,
    pub result_type: ResultType,
    pub action: SearchAction,
    pub size: Option<i64>,
    pub modified_at: Option<i64>,
    pub launch_count: Option<u32>,
}

} // verus!
