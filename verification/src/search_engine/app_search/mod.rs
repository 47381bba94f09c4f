//! Application index: categories and result types of indexed applications,
//! and the prefix tree over their names.

pub mod engine;
pub mod matching;
pub mod scan;
pub mod trie;

use vstd::prelude::*;
use crate::text::{chars_of, contains, has_infix, has_lit, has_prefix, lit, lowercase, starts_lit, starts_with, to_lowercase};
use crate::search_engine::models::{AppEntry, ResultType};

verus! {

/// Name keywords (lower case) of each category, in priority order.
pub open spec fn name_categories() -> Seq<(Seq<Seq<char>>, Seq<char>)> {
    seq![
        (seq!["chrome"@, "firefox"@, "edge"@], "Browser"@),
        (seq!["vscode"@, "visualcodium"@, " intellij"@, "rider"@, "git"@, "tortoisegit"@], "Development"@),
        (seq!["wechat"@, "slack"@, "discord"@], "Communication"@),
        (seq!["spotify"@, "music"@], "Media"@),
    ]
}

/// Path keywords (lower case) of system applications.
pub open spec fn system_path_keywords() -> Seq<Seq<char>> {
    seq!["microsoft"@]
}

/// Some keyword of row `k` of `name_categories()` occurs in `n`.
pub open spec fn row_matches(n: Seq<char>, k: int) -> bool {
    exists|j: int| 0 <= j < name_categories()[k].0.len() && contains(n, #[trigger] name_categories()[k].0[j])
}

/// The category of the first row, from `k` on, that `n` matches.
pub open spec fn first_category(n: Seq<char>, k: int) -> Option<Seq<char>>
    decreases name_categories().len() - k,
{
    if k < 0 || k >= name_categories().len() {
        None
    } else if row_matches(n, k) {
        Some(name_categories()[k].1)
    } else {
        first_category(n, k + 1)
    }
}

/// The category of an application: that of the first row whose keywords its
/// lower-cased name contains; else `System` when its lower-cased path
/// contains a system keyword; else `Applications`.
pub open spec fn category(path: Seq<char>, name: Seq<char>) -> Seq<char> {
    match first_category(lowercase(name), 0) {
        Some(c) => c,
        None => if exists|j: int| 0 <= j < system_path_keywords().len() && contains(lowercase(path), #[trigger] system_path_keywords()[j]) {
            "System"@
        } else {
            "Applications"@
        },
    }
}

/// The category of the application at `path` named `name`; see `category`.
pub fn category_of(path: &str, name: &str) -> (r: String)
    ensures
        r@ == category(path@, name@),
{
    let ln = to_lowercase(name);
    let n = chars_of(ln.as_str());
    let ns = n.as_slice();
    let ghost nv = n@;
    let b = has_lit(ns, "chrome") || has_lit(ns, "firefox") || has_lit(ns, "edge");
    assert(b == row_matches(nv, 0)) by {
        if row_matches(nv, 0) {
            let j = choose|j: int| 0 <= j < name_categories()[0].0.len() && contains(nv, #[trigger] name_categories()[0].0[j]);
        }
        if contains(nv, "chrome"@) { assert(contains(nv, name_categories()[0].0[0])); }
        if contains(nv, "firefox"@) { assert(contains(nv, name_categories()[0].0[1])); }
        if contains(nv, "edge"@) { assert(contains(nv, name_categories()[0].0[2])); }
    }
    if b {
        return lit("Browser");
    }
    assert(first_category(nv, 0) == first_category(nv, 1));
    let d = has_lit(ns, "vscode") || has_lit(ns, "visualcodium") || has_lit(ns, " intellij") || has_lit(ns, "rider")
        || has_lit(ns, "git") || has_lit(ns, "tortoisegit");
    assert(d == row_matches(nv, 1)) by {
        if row_matches(nv, 1) {
            let j = choose|j: int| 0 <= j < name_categories()[1].0.len() && contains(nv, #[trigger] name_categories()[1].0[j]);
        }
        if contains(nv, "vscode"@) { assert(contains(nv, name_categories()[1].0[0])); }
        if contains(nv, "visualcodium"@) { assert(contains(nv, name_categories()[1].0[1])); }
        if contains(nv, " intellij"@) { assert(contains(nv, name_categories()[1].0[2])); }
        if contains(nv, "rider"@) { assert(contains(nv, name_categories()[1].0[3])); }
        if contains(nv, "git"@) { assert(contains(nv, name_categories()[1].0[4])); }
        if contains(nv, "tortoisegit"@) { assert(contains(nv, name_categories()[1].0[5])); }
    }
    if d {
        return lit("Development");
    }
    assert(first_category(nv, 1) == first_category(nv, 2));
    let c = has_lit(ns, "wechat") || has_lit(ns, "slack") || has_lit(ns, "discord");
    assert(c == row_matches(nv, 2)) by {
        if row_matches(nv, 2) {
            let j = choose|j: int| 0 <= j < name_categories()[2].0.len() && contains(nv, #[trigger] name_categories()[2].0[j]);
        }
        if contains(nv, "wechat"@) { assert(contains(nv, name_categories()[2].0[0])); }
        if contains(nv, "slack"@) { assert(contains(nv, name_categories()[2].0[1])); }
        if contains(nv, "discord"@) { assert(contains(nv, name_categories()[2].0[2])); }
    }
    if c {
        return lit("Communication");
    }
    assert(first_category(nv, 2) == first_category(nv, 3));
    let m = has_lit(ns, "spotify") || has_lit(ns, "music");
    assert(m == row_matches(nv, 3)) by {
        if row_matches(nv, 3) {
            let j = choose|j: int| 0 <= j < name_categories()[3].0.len() && contains(nv, #[trigger] name_categories()[3].0[j]);
        }
        if contains(nv, "spotify"@) { assert(contains(nv, name_categories()[3].0[0])); }
        if contains(nv, "music"@) { assert(contains(nv, name_categories()[3].0[1])); }
    }
    if m {
        return lit("Media");
    }
    assert(first_category(nv, 3) == first_category(nv, 4));
    assert(first_category(nv, 4) is None);
    let lp = to_lowercase(path);
    let p = chars_of(lp.as_str());
    let s = has_lit(p.as_slice(), "microsoft");
    assert(s == exists|j: int| 0 <= j < system_path_keywords().len() && contains(p@, #[trigger] system_path_keywords()[j])) by {
        if s { assert(contains(p@, system_path_keywords()[0])); }
    }
    if s {
        lit("System")
    } else {
        lit("Applications")
    }
}

/// The result type of an indexed application, from its kind and its
/// lower-cased path.
pub open spec fn app_type(special: bool, path: Seq<char>) -> ResultType {
    let p = lowercase(path);
    if special {
        ResultType::SystemApp
    } else if contains(p, "windowsapps\\"@) {
        ResultType::UwpApp
    } else if starts_with(p, "c:\\windows\\"@) {
        ResultType::SystemApp
    } else if (starts_with(p, "c:\\program files\\"@) || starts_with(p, "c:\\program files (x86)\\"@))
        && contains(p, "microsoft"@) && (contains(p, "office"@) || contains(p, "windows"@)) {
        ResultType::SystemApp
    } else {
        ResultType::UserApp
    }
}

/// The result type of an indexed application: a special shortcut or anything
/// under the Windows directory, or a Microsoft Office or Windows component
/// under Program Files, is a system application; a packaged application is
/// a store application; anything else a user application.
pub fn app_type_of(app: &AppEntry) -> (r: ResultType)
    ensures
        r == app_type(app.is_special_shortcut, app.path@),
{
    if app.is_special_shortcut {
        return ResultType::SystemApp;
    }
    let lp = to_lowercase(app.path.as_str());
    let p = chars_of(lp.as_str());
    let ps = p.as_slice();
    if has_lit(ps, "windowsapps\\") {
        return ResultType::UwpApp;
    }
    if starts_lit(ps, "c:\\windows\\") {
        return ResultType::SystemApp;
    }
    if starts_lit(ps, "c:\\program files\\") || starts_lit(ps, "c:\\program files (x86)\\") {
        if has_lit(ps, "microsoft") && (has_lit(ps, "office") || has_lit(ps, "windows")) {
            return ResultType::SystemApp;
        }
        return ResultType::UserApp;
    }
    if starts_lit(ps, "c:\\users\\") {
        return ResultType::UserApp;
    }
    ResultType::UserApp
}

} // verus!
