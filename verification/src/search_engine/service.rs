//! Combining the sources of search results: how many results each source is
//! asked for, which duplicates are dropped, and the action of an untitled
//! launch.  Scoring, in floating point, is outside this library.

use vstd::prelude::*;
use crate::search_engine::models::{SearchAction, SearchCategory};
use crate::text::{chars_of, lowercase, same_chars, string_of, to_lowercase};

verus! {

/// How many entries each index holds.
#[derive(Debug, Clone, Copy)]
pub struct IndexStats {
    pub apps: usize,
    pub files: usize,
    pub commands: usize,
}

/// The base quota of each source: an even share of `limit`, at least 10,
/// plus 20.
pub open spec fn base_quota(limit: u32, n_sources: u32) -> int {
    (if limit / n_sources > 10 { (limit / n_sources) as int } else { 10 }) + 20
}

/// The extra that a category's quota gets on top of the base.
pub open spec fn category_extra(c: SearchCategory) -> int {
    match c {
        SearchCategory::Apps => 30,
        SearchCategory::Files => 50,
        _ => 0,
    }
}

/// How many results a source of category `c` is asked for: its quota,
/// capped at `limit` for the three concrete categories.
pub open spec fn source_quota(limit: u32, n_sources: u32, c: SearchCategory) -> int {
    let q = base_quota(limit, n_sources) + category_extra(c);
    if c == SearchCategory::All || q <= limit { q } else { limit as int }
}

/// The number of results asked of a source of category `c`, when `n_sources`
/// sources share `limit`; see `source_quota`.  The sums must fit in `u32`.
pub fn source_limit(limit: u32, n_sources: u32, c: SearchCategory) -> (r: u32)
    requires
        n_sources > 0,
        base_quota(limit, n_sources) + category_extra(c) <= u32::MAX,
    ensures
        r == source_quota(limit, n_sources, c),
{
    let share = limit / n_sources;
    let sub = (if share > 10 { share } else { 10 }) + 20;
    match c {
        SearchCategory::Apps => if sub + 30 < limit { sub + 30 } else { limit },
        SearchCategory::Commands => if sub < limit { sub } else { limit },
        SearchCategory::Files => if sub + 50 < limit { sub + 50 } else { limit },
        SearchCategory::All => sub,
    }
}

/// Results `i` and `j` have the same title and category.
pub open spec fn same_key(keys: Seq<(String, SearchCategory)>, i: int, j: int) -> bool {
    keys[i].0@ == keys[j].0@ && keys[i].1 == keys[j].1
}

/// Positions among the first `n` results that no earlier result duplicates,
/// in order.
pub open spec fn first_occurrences(keys: Seq<(String, SearchCategory)>, n: int) -> Seq<int>
    decreases n,
{
    if n <= 0 {
        Seq::empty()
    } else if exists|j: int| 0 <= j < n - 1 && #[trigger] same_key(keys, j, n - 1) {
        first_occurrences(keys, n - 1)
    } else {
        first_occurrences(keys, n - 1).push(n - 1)
    }
}

fn same_title(a: &String, b: &String) -> (r: bool)
    ensures
        r == (a@ == b@),
{
    let x = chars_of(a.as_str());
    let y = chars_of(b.as_str());
    same_chars(x.as_slice(), y.as_slice())
}

/// The positions of the results to keep when duplicates (same title and
/// category) are dropped: the first of each, in order.
pub fn remove_duplicates(keys: &[(String, SearchCategory)]) -> (r: Vec<usize>)
    ensures
        r@.map_values(|i: usize| i as int) == first_occurrences(keys@, keys@.len() as int),
{
    let mut r: Vec<usize> = Vec::new();
    let mut i: usize = 0;
    while i < keys.len()
        invariant
            i <= keys@.len(),
            r@.map_values(|k: usize| k as int) == first_occurrences(keys@, i as int),
        decreases keys@.len() - i,
    {
        let mut dup = false;
        let mut j: usize = 0;
        while j < i
            invariant
                j <= i < keys@.len(),
                dup == exists|m: int| 0 <= m < j && #[trigger] same_key(keys@, m, i as int),
            decreases i - j,
        {
            if keys[j].1 == keys[i].1 && same_title(&keys[j].0, &keys[i].0) {
                assert(same_key(keys@, j as int, i as int));
                dup = true;
            }
            j += 1;
        }
        let ghost before = r@.map_values(|k: usize| k as int);
        if !dup {
            r.push(i);
            assert(r@.map_values(|k: usize| k as int) =~= before.push(i as int));
        }
        i += 1;
    }
    r
}

/// The score that the skim fuzzy matcher with its default settings gives
/// `pattern` in `choice`, or none when it does not match.
pub uninterp spec fn skim_score(choice: Seq<char>, pattern: Seq<char>) -> Option<i64>;

/// `SkimMatcherV2::default().fuzzy_match(choice, pattern)` of the
/// `fuzzy-matcher` crate.  Its result is named `skim_score`; of the scoring
/// itself only this is stated: an empty pattern scores 0.
#[verifier::external_body]
fn skim_match(choice: &str, pattern: &str) -> (r: Option<i64>)
    ensures
        r == skim_score(choice@, pattern@),
        pattern@.len() == 0 ==> r == Some(0i64),
{
    fuzzy_matcher::FuzzyMatcher::fuzzy_match(&fuzzy_matcher::skim::SkimMatcherV2::default(), choice, pattern)
}

/// The fuzzy scores of `query` against the title and the subtitle of each
/// result, all lower-cased, in order.
pub fn fuzzy_scores(query: &str, texts: &[(String, String)]) -> (r: Vec<(Option<i64>, Option<i64>)>)
    ensures
        r@.len() == texts@.len(),
        forall|i: int|
            0 <= i < texts@.len() ==> #[trigger] r@[i] == (
                skim_score(lowercase(texts@[i].0@), lowercase(query@)),
                skim_score(lowercase(texts@[i].1@), lowercase(query@)),
            ),
{
    let q = to_lowercase(query);
    let mut r: Vec<(Option<i64>, Option<i64>)> = Vec::new();
    let mut i: usize = 0;
    while i < texts.len()
        invariant
            i <= texts@.len(),
            q@ == lowercase(query@),
            r@.len() == i,
            forall|j: int|
                0 <= j < i ==> #[trigger] r@[j] == (
                    skim_score(lowercase(texts@[j].0@), lowercase(query@)),
                    skim_score(lowercase(texts@[j].1@), lowercase(query@)),
                ),
        decreases texts@.len() - i,
    {
        let t = to_lowercase(texts[i].0.as_str());
        let st = to_lowercase(texts[i].1.as_str());
        let a = skim_match(t.as_str(), q.as_str());
        let b = skim_match(st.as_str(), q.as_str());
        r.push((a, b));
        i += 1;
    }
    r
}

/// The action of a result after the combination step: a launch with an empty
/// title opens the file manager; anything else is kept.
pub open spec fn defaulted(title: Seq<char>, a: SearchAction, r: SearchAction) -> bool {
    if a is Launch && title.len() == 0 {
        r matches SearchAction::Launch(p) && p@ == "explorer.exe"@
    } else {
        r == a
    }
}

/// Applies the default action; see `defaulted`.
pub fn with_default_action(title: &str, action: SearchAction) -> (r: SearchAction)
    ensures
        defaulted(title@, action, r),
{
    match action {
        SearchAction::Launch(p) => {
            if title.is_empty() {
                let cs = chars_of("explorer.exe");
                SearchAction::Launch(string_of(cs.as_slice()))
            } else {
                SearchAction::Launch(p)
            }
        },
        other => other,
    }
}

} // verus!
