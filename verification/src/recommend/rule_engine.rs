//! The rule engine's bookkeeping: how often each item was chosen, and which
//! categories go together.  Its scores, computed in floating point, are
//! outside this library.

use vstd::prelude::*;
use crate::text::{chars_of, contains, has_infix, is_lit, lit, lowercase, same_chars, same_str, to_lowercase};
use crate::error::AppError;
use crate::recommend::types::{FeedbackEvent, FeedbackType, RecommendContext, RecommendItem};
use crate::pybridge::types::{decimal, decimal_string};
use crate::command::framed;

verus! {

/// The counts of `s` by key, later entries overriding earlier ones.
pub open spec fn count_map(s: Seq<(String, u64)>) -> Map<Seq<char>, u64>
    decreases s.len(),
{
    if s.len() == 0 {
        Map::empty()
    } else {
        count_map(s.drop_last()).insert(s.last().0@, s.last().1)
    }
}

/// No two entries of `s` share a key.
pub open spec fn keys_distinct(s: Seq<(String, u64)>) -> bool {
    forall|i: int, j: int| 0 <= i < s.len() && 0 <= j < s.len() && i != j ==> #[trigger] s[i].0@ != #[trigger] s[j].0@
}

proof fn lemma_keys_drop_last(s: Seq<(String, u64)>)
    requires
        keys_distinct(s),
        s.len() > 0,
    ensures
        keys_distinct(s.drop_last()),
{
    let d = s.drop_last();
    assert forall|a: int, b: int| 0 <= a < d.len() && 0 <= b < d.len() && a != b implies #[trigger] d[a].0@ != #[trigger] d[b].0@ by {
        assert(d[a] == s[a] && d[b] == s[b]);
    }
}

proof fn lemma_count_keys(s: Seq<(String, u64)>, k: Seq<char>)
    ensures
        count_map(s).contains_key(k) <==> exists|i: int| 0 <= i < s.len() && #[trigger] s[i].0@ == k,
    decreases s.len(),
{
    if s.len() > 0 {
        lemma_count_keys(s.drop_last(), k);
        if exists|i: int| 0 <= i < s.len() && #[trigger] s[i].0@ == k {
            let i = choose|i: int| 0 <= i < s.len() && #[trigger] s[i].0@ == k;
            if i < s.len() - 1 {
                assert(s.drop_last()[i].0@ == k);
            }
        }
        if exists|i: int| 0 <= i < s.drop_last().len() && #[trigger] s.drop_last()[i].0@ == k {
            let i = choose|i: int| 0 <= i < s.drop_last().len() && #[trigger] s.drop_last()[i].0@ == k;
            assert(s[i].0@ == k);
        }
    }
}

proof fn lemma_count_value(s: Seq<(String, u64)>, i: int)
    requires
        keys_distinct(s),
        0 <= i < s.len(),
    ensures
        count_map(s).contains_key(s[i].0@),
        count_map(s)[s[i].0@] == s[i].1,
    decreases s.len(),
{
    lemma_count_keys(s, s[i].0@);
    if i < s.len() - 1 {
        let d = s.drop_last();
        assert(d[i] == s[i]);
        lemma_keys_drop_last(s);
        lemma_count_value(d, i);
        assert(s[s.len() - 1].0@ != s[i].0@);
    }
}

proof fn lemma_count_update(s: Seq<(String, u64)>, i: int, v: u64)
    requires
        keys_distinct(s),
        0 <= i < s.len(),
    ensures
        count_map(s.update(i, (s[i].0, v))) == count_map(s).insert(s[i].0@, v),
        keys_distinct(s.update(i, (s[i].0, v))),
    decreases s.len(),
{
    let e = (s[i].0, v);
    let u = s.update(i, e);
    assert forall|a: int, b: int| 0 <= a < u.len() && 0 <= b < u.len() && a != b implies #[trigger] u[a].0@ != #[trigger] u[b].0@ by {
        assert(s[a].0@ != s[b].0@);
    }
    lemma_keys_drop_last(s);
    if i == s.len() - 1 {
        assert(u.drop_last() =~= s.drop_last());
        assert(count_map(u) =~= count_map(s).insert(s[i].0@, v));
    } else {
        assert(u.drop_last() =~= s.drop_last().update(i, e));
        assert(s.drop_last()[i] == s[i]);
        lemma_count_update(s.drop_last(), i, v);
        assert(s.last().0@ != s[i].0@);
        assert(count_map(u) =~= count_map(s).insert(s[i].0@, v));
    }
}

/// The rule engine's record of how often each item was chosen.
pub struct RuleEngine {
    click_counts: Vec<(String, u64)>,
}

impl View for RuleEngine {
    type V = Map<Seq<char>, u64>;

    closed spec fn view(&self) -> Map<Seq<char>, u64> {
        count_map(self.click_counts@)
    }
}

/// The count recorded for `id` in `m`, zero when none is.
pub open spec fn count_or_zero(m: Map<Seq<char>, u64>, id: Seq<char>) -> int {
    if m.contains_key(id) { m[id] as int } else { 0 }
}

/// The counts after `f`: a click or a pin adds one for its item; any other
/// feedback changes nothing.
pub open spec fn after_feedback(m: Map<Seq<char>, u64>, f: FeedbackEvent) -> Map<Seq<char>, u64> {
    match f.feedback_type {
        FeedbackType::Click | FeedbackType::Pin => m.insert(f.item_id@, (count_or_zero(m, f.item_id@) + 1) as u64),
        _ => m,
    }
}

impl RuleEngine {
    /// One entry per item.
    pub closed spec fn wf(&self) -> bool {
        keys_distinct(self.click_counts@)
    }

    /// An engine that has recorded nothing.
    pub fn new() -> (r: Self)
        ensures
            r.wf(),
            r@ == Map::<Seq<char>, u64>::empty(),
    {
        RuleEngine { click_counts: Vec::new() }
    }

    fn position(&self, id: &str) -> (r: Option<usize>)
        ensures
            match r {
                Some(i) => i < self.click_counts@.len() && self.click_counts@[i as int].0@ == id@,
                None => forall|i: int| 0 <= i < self.click_counts@.len() ==> #[trigger] self.click_counts@[i].0@ != id@,
            },
    {
        let n = chars_of(id);
        let mut i: usize = 0;
        while i < self.click_counts.len()
            invariant
                i <= self.click_counts@.len(),
                n@ == id@,
                forall|j: int| 0 <= j < i ==> #[trigger] self.click_counts@[j].0@ != id@,
            decreases self.click_counts@.len() - i,
        {
            let c = chars_of(self.click_counts[i].0.as_str());
            if same_chars(c.as_slice(), n.as_slice()) {
                return Some(i);
            }
            i += 1;
        }
        None
    }

    /// How often the item `id` was clicked or pinned, if ever.
    pub fn click_count(&self, id: &str) -> (r: Option<u64>)
        requires
            self.wf(),
        ensures
            match r {
                Some(c) => self@.contains_key(id@) && self@[id@] == c,
                None => !self@.contains_key(id@),
            },
    {
        proof {
            lemma_count_keys(self.click_counts@, id@);
        }
        match self.position(id) {
            Some(i) => {
                proof {
                    lemma_count_value(self.click_counts@, i as int);
                }
                Some(self.click_counts[i].1)
            },
            None => None,
        }
    }

    /// Records a reaction; see `after_feedback`.
    pub fn record_feedback(&mut self, feedback: &FeedbackEvent)
        requires
            old(self).wf(),
            count_or_zero(old(self)@, feedback.item_id@) < u64::MAX,
        ensures
            final(self).wf(),
            final(self)@ == after_feedback(old(self)@, *feedback),
    {
        match feedback.feedback_type {
            FeedbackType::Click | FeedbackType::Pin => {
                proof {
                    lemma_count_keys(self.click_counts@, feedback.item_id@);
                }
                match self.position(feedback.item_id.as_str()) {
                    Some(i) => {
                        proof {
                            lemma_count_value(self.click_counts@, i as int);
                            lemma_count_update(self.click_counts@, i as int, (self.click_counts@[i as int].1 + 1) as u64);
                        }
                        let n = self.click_counts[i].1 + 1;
                        let key = self.click_counts[i].0.clone();
                        self.click_counts.set(i, (key, n));
                    },
                    None => {
                        let ghost s0 = self.click_counts@;
                        self.click_counts.push((feedback.item_id.clone(), 1));
                        proof {
                            assert(self.click_counts@.drop_last() =~= s0);
                            let s = self.click_counts@;
                            assert forall|a: int, b: int| 0 <= a < s.len() && 0 <= b < s.len() && a != b implies #[trigger] s[a].0@ != #[trigger] s[b].0@ by {
                                if a < s0.len() && b < s0.len() {
                                    assert(s0[a].0@ != s0[b].0@);
                                } else if a < s0.len() {
                                    assert(s0[a].0@ != feedback.item_id@);
                                } else {
                                    assert(s0[b].0@ != feedback.item_id@);
                                }
                            }
                        }
                    },
                }
            },
            _ => {},
        }
    }

    /// Takes in a reaction as a recommendation engine does: records it (see
    /// `record_feedback`) and never fails.
    pub fn report_feedback(&mut self, feedback: &FeedbackEvent) -> (r: Result<(), AppError>)
        requires
            old(self).wf(),
            count_or_zero(old(self)@, feedback.item_id@) < u64::MAX,
        ensures
            r is Ok,
            final(self).wf(),
            final(self)@ == after_feedback(old(self)@, *feedback),
    {
        self.record_feedback(feedback);
        Ok(())
    }
}

/// Categories that go with `c`, weaker than `c` itself.
pub open spec fn related(c: Seq<char>) -> Seq<Seq<char>> {
    if c == "dev"@ {
        seq!["terminal"@, "vcs"@, "browser"@, "filemanager"@]
    } else if c == "terminal"@ {
        seq!["dev"@, "vcs"@, "filemanager"@]
    } else if c == "vcs"@ {
        seq!["dev"@, "terminal"@]
    } else if c == "communication"@ {
        seq!["browser"@, "image"@, "office"@]
    } else if c == "browser"@ {
        seq!["communication"@, "download"@, "office"@]
    } else if c == "media"@ {
        seq!["image"@, "download"@]
    } else if c == "image"@ {
        seq!["media"@, "office"@]
    } else if c == "office"@ {
        seq!["filemanager"@, "browser"@, "communication"@]
    } else if c == "filemanager"@ {
        seq!["archive"@, "download"@, "office"@]
    } else if c == "download"@ {
        seq!["archive"@, "filemanager"@]
    } else if c == "archive"@ {
        seq!["filemanager"@, "download"@]
    } else {
        Seq::empty()
    }
}

fn lits(a: &[&'static str]) -> (r: Vec<&'static str>)
    ensures
        r@ == a@,
{
    let mut r: Vec<&'static str> = Vec::new();
    let mut i: usize = 0;
    while i < a.len()
        invariant
            i <= a@.len(),
            r@ == a@.take(i as int),
        decreases a@.len() - i,
    {
        r.push(a[i]);
        assert(a@.take(i + 1) =~= a@.take(i as int).push(a@[i as int]));
        i += 1;
    }
    assert(a@.take(i as int) =~= a@);
    r
}

/// The categories related to `category`; see `related`.
pub fn related_categories(category: &str) -> (r: Vec<&'static str>)
    ensures
        r@.map_values(|s: &str| s@) == related(category@),
{
    let cs = chars_of(category);
    let c = cs.as_slice();
    let r: Vec<&'static str> = if is_lit(c, "dev") {
        lits(&["terminal", "vcs", "browser", "filemanager"])
    } else if is_lit(c, "terminal") {
        lits(&["dev", "vcs", "filemanager"])
    } else if is_lit(c, "vcs") {
        lits(&["dev", "terminal"])
    } else if is_lit(c, "communication") {
        lits(&["browser", "image", "office"])
    } else if is_lit(c, "browser") {
        lits(&["communication", "download", "office"])
    } else if is_lit(c, "media") {
        lits(&["image", "download"])
    } else if is_lit(c, "image") {
        lits(&["media", "office"])
    } else if is_lit(c, "office") {
        lits(&["filemanager", "browser", "communication"])
    } else if is_lit(c, "filemanager") {
        lits(&["archive", "download", "office"])
    } else if is_lit(c, "download") {
        lits(&["archive", "filemanager"])
    } else if is_lit(c, "archive") {
        lits(&["filemanager", "download"])
    } else {
        Vec::new()
    };
    assert(r@.map_values(|s: &str| s@) =~= related(category@));
    r
}

/// How an item's tags relate to the foreground application's category.
#[derive(Debug, Clone, Copy, PartialEq, Eq, Structural)]
pub enum CategoryMatch {
    /// A tag is the category itself.
    Same,
    /// No tag is the category, but one is a related category.
    Related,
    /// Neither, or no category is known.
    Unrelated,
}

/// What an item's rule score is made of, besides the floating-point
/// weights: whether its title matches, how its tags relate to the
/// foreground category, and the reasons shown for it.
#[derive(Debug)]
pub struct ScoreFactors {
    pub name_match: bool,
    pub category: CategoryMatch,
    pub reasons: Vec<String>,
}

/// The text a title is matched against: the query lower-cased, or the
/// foreground window title lower-cased when there is no query.
pub open spec fn match_text(ctx: RecommendContext) -> Seq<char> {
    if ctx.query@.len() > 0 {
        lowercase(ctx.query@)
    } else {
        lowercase(ctx.foreground_app_title@)
    }
}

/// Some tag of `tags` is `c`.
pub open spec fn has_tag(tags: Seq<String>, c: Seq<char>) -> bool {
    exists|i: int| 0 <= i < tags.len() && tags[i]@ == c
}

/// Some tag of `tags` is among `cs`.
pub open spec fn has_tag_in(tags: Seq<String>, cs: Seq<Seq<char>>) -> bool {
    exists|i: int| 0 <= i < tags.len() && cs.contains(tags[i]@)
}

/// How the item's tags relate to the foreground category; see
/// `CategoryMatch`.
pub open spec fn category_match(item: RecommendItem, ctx: RecommendContext) -> CategoryMatch {
    match ctx.foreground_category {
        Some(c) => if has_tag(item.tags@, c@) {
            CategoryMatch::Same
        } else if has_tag_in(item.tags@, related(c@)) {
            CategoryMatch::Related
        } else {
            CategoryMatch::Unrelated
        },
        None => CategoryMatch::Unrelated,
    }
}

/// The title matches: the match text is not empty and occurs in the
/// lower-cased title.
pub open spec fn title_matches(item: RecommendItem, ctx: RecommendContext) -> bool {
    match_text(ctx).len() > 0 && contains(lowercase(item.title@), match_text(ctx))
}

/// The reasons shown for an item: its launch count when it was launched,
/// the title match, and the category relation, in this order.
pub open spec fn reasons_of(item: RecommendItem, ctx: RecommendContext) -> Seq<Seq<char>> {
    let a: Seq<Seq<char>> = if item.launch_count > 0 {
        seq!["启动 "@ + decimal(item.launch_count as int) + " 次"@]
    } else {
        Seq::empty()
    };
    let b: Seq<Seq<char>> = if title_matches(item, ctx) { seq!["名称匹配"@] } else { Seq::empty() };
    let c: Seq<Seq<char>> = match category_match(item, ctx) {
        CategoryMatch::Same => seq!["同类应用"@],
        CategoryMatch::Related => seq!["相关类别"@],
        CategoryMatch::Unrelated => Seq::empty(),
    };
    a + b + c
}

fn tag_is(tags: &Vec<String>, c: &str) -> (r: bool)
    ensures
        r == has_tag(tags@, c@),
{
    let mut i: usize = 0;
    while i < tags.len()
        invariant
            i <= tags@.len(),
            forall|j: int| 0 <= j < i ==> tags@[j]@ != c@,
        decreases tags@.len() - i,
    {
        if same_str(tags[i].as_str(), c) {
            return true;
        }
        i += 1;
    }
    false
}

fn tag_among(tags: &Vec<String>, cs: &Vec<&'static str>) -> (r: bool)
    ensures
        r == has_tag_in(tags@, cs@.map_values(|s: &str| s@)),
{
    let ghost v = cs@.map_values(|s: &str| s@);
    let mut i: usize = 0;
    while i < tags.len()
        invariant
            i <= tags@.len(),
            v == cs@.map_values(|s: &str| s@),
            forall|j: int| 0 <= j < i ==> !v.contains(#[trigger] tags@[j]@),
        decreases tags@.len() - i,
    {
        let mut k: usize = 0;
        while k < cs.len()
            invariant
                i < tags@.len(),
                k <= cs@.len(),
                v == cs@.map_values(|s: &str| s@),
                forall|m: int| 0 <= m < k ==> v[m] != tags@[i as int]@,
            decreases cs@.len() - k,
        {
            if same_str(tags[i].as_str(), cs[k]) {
                assert(v[k as int] == tags@[i as int]@);
                return true;
            }
            k += 1;
        }
        i += 1;
    }
    false
}

impl RuleEngine {
    /// The parts of the rule score of `item` in `context` that are not
    /// floating point; see `title_matches`, `category_match` and
    /// `reasons_of`.
    pub fn score_factors(&self, item: &RecommendItem, context: &RecommendContext) -> (r: ScoreFactors)
        ensures
            r.name_match == title_matches(*item, *context),
            r.category == category_match(*item, *context),
            r.reasons@.map_values(|s: String| s@) == reasons_of(*item, *context),
    {
        let mut reasons: Vec<String> = Vec::new();
        if item.launch_count > 0 {
            let d = decimal_string(item.launch_count as i64);
            reasons.push(framed("启动 ", d.as_str(), " 次"));
        }
        let ghost ra = reasons@.map_values(|s: String| s@);
        let q = if !context.query.as_str().is_empty() {
            to_lowercase(context.query.as_str())
        } else {
            to_lowercase(context.foreground_app_title.as_str())
        };
        let mut name_match = false;
        if !q.as_str().is_empty() {
            let t = to_lowercase(item.title.as_str());
            let tc = chars_of(t.as_str());
            let qc = chars_of(q.as_str());
            if has_infix(tc.as_slice(), qc.as_slice()) {
                name_match = true;
                reasons.push(lit("名称匹配"));
            }
        }
        let ghost rb = reasons@.map_values(|s: String| s@);
        let category = match &context.foreground_category {
            Some(c) => {
                if tag_is(&item.tags, c.as_str()) {
                    reasons.push(lit("同类应用"));
                    CategoryMatch::Same
                } else {
                    let rel = related_categories(c.as_str());
                    if tag_among(&item.tags, &rel) {
                        reasons.push(lit("相关类别"));
                        CategoryMatch::Related
                    } else {
                        CategoryMatch::Unrelated
                    }
                }
            },
            None => CategoryMatch::Unrelated,
        };
        proof {
            let a: Seq<Seq<char>> = if item.launch_count > 0 {
                seq!["启动 "@ + decimal(item.launch_count as int) + " 次"@]
            } else {
                Seq::empty()
            };
            assert(ra =~= a);
            assert(reasons@.map_values(|s: String| s@) =~= reasons_of(*item, *context));
        }
        ScoreFactors { name_match, category, reasons }
    }
}

/// A click or pin adds exactly one to its item and leaves every other item
/// as it was; other reactions change nothing.
pub proof fn law_feedback_counts(m: Map<Seq<char>, u64>, f: FeedbackEvent, k: Seq<char>)
    requires
        count_or_zero(m, f.item_id@) < u64::MAX,
    ensures
        (f.feedback_type == FeedbackType::Click || f.feedback_type == FeedbackType::Pin) ==> count_or_zero(
            after_feedback(m, f),
            f.item_id@,
        ) == count_or_zero(m, f.item_id@) + 1,
        k != f.item_id@ ==> count_or_zero(after_feedback(m, f), k) == count_or_zero(m, k),
        (f.feedback_type == FeedbackType::Ignore || f.feedback_type == FeedbackType::Dislike) ==> after_feedback(m, f) == m,
{
}

/// The title factor of the rule score: with a query, the title matches when
/// the lower-cased query is not empty and occurs in the lower-cased title;
/// with no query, the foreground window title takes the query's place.  A
/// matching title always gives the reason `名称匹配`.
pub proof fn law_title_factor(item: RecommendItem, ctx: RecommendContext)
    ensures
        ctx.query@.len() > 0 ==> (title_matches(item, ctx) <==> (lowercase(ctx.query@).len() > 0 && contains(
            lowercase(item.title@),
            lowercase(ctx.query@),
        ))),
        ctx.query@.len() == 0 ==> (title_matches(item, ctx) <==> (lowercase(ctx.foreground_app_title@).len() > 0
            && contains(lowercase(item.title@), lowercase(ctx.foreground_app_title@)))),
        title_matches(item, ctx) ==> reasons_of(item, ctx).contains("名称匹配"@),
{
    if title_matches(item, ctx) {
        let a: Seq<Seq<char>> = if item.launch_count > 0 {
            seq!["启动 "@ + decimal(item.launch_count as int) + " 次"@]
        } else {
            Seq::empty()
        };
        assert(reasons_of(item, ctx)[a.len() as int] == "名称匹配"@);
    }
}

/// The category factor of the rule score: an item tagged with the
/// foreground application's category is of the same kind and says so
/// (`同类应用`); a related one says `相关类别`; with no foreground category
/// nothing is related.
pub proof fn law_category_factor(item: RecommendItem, ctx: RecommendContext)
    ensures
        (ctx.foreground_category matches Some(c) && exists|i: int|
            0 <= i < item.tags@.len() && #[trigger] item.tags@[i]@ == c@) ==> category_match(item, ctx)
            == CategoryMatch::Same && reasons_of(item, ctx).contains("同类应用"@),
        category_match(item, ctx) == CategoryMatch::Related ==> reasons_of(item, ctx).contains("相关类别"@),
        ctx.foreground_category is None ==> category_match(item, ctx) == CategoryMatch::Unrelated,
{
    let a: Seq<Seq<char>> = if item.launch_count > 0 {
        seq!["启动 "@ + decimal(item.launch_count as int) + " 次"@]
    } else {
        Seq::empty()
    };
    let b: Seq<Seq<char>> = if title_matches(item, ctx) { seq!["名称匹配"@] } else { Seq::empty() };
    if category_match(item, ctx) != CategoryMatch::Unrelated {
        assert(reasons_of(item, ctx)[(a.len() + b.len()) as int] == reasons_of(item, ctx).last());
    }
}

} // verus!
