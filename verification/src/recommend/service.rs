//! The recommendation service's bookkeeping: the candidates, how often each
//! was launched, and the counters it reports.  The scores themselves are
//! floating point and computed outside this library from what
//! `scoring_input` hands out.

use vstd::prelude::*;
use crate::keyed::KeyedVec;
use crate::recommend::types::{FeedbackEvent, FeedbackType, RecommendConfig, RecommendItem, RecommendStatus};

verus! {

/// How often an item was launched, and when last (Unix seconds).
#[derive(Debug, Clone, Copy, PartialEq, Eq, Structural)]
pub struct UsageStat {
    pub launch_count: u32,
    pub last_launched: Option<i64>,
}

/// An item as plain values: id, title, subtitle, category, launch count,
/// last launch and tags.
pub open spec fn item_view(i: RecommendItem) -> (
    Seq<char>,
    Seq<char>,
    Seq<char>,
    Seq<char>,
    u32,
    Option<i64>,
    Seq<Seq<char>>,
) {
    (
        i.id@,
        i.title@,
        i.subtitle@,
        i.category@,
        i.launch_count,
        i.last_launched,
        i.tags@.map_values(|t: String| t@),
    )
}

/// `item` with the launch count and time of `stat`, when there is one.
pub open spec fn enriched_view(item: RecommendItem, stat: Option<UsageStat>) -> (
    Seq<char>,
    Seq<char>,
    Seq<char>,
    Seq<char>,
    u32,
    Option<i64>,
    Seq<Seq<char>>,
) {
    let v = item_view(item);
    match stat {
        Some(s) => (v.0, v.1, v.2, v.3, s.launch_count, s.last_launched, v.6),
        None => v,
    }
}

fn copy_tags(tags: &Vec<String>) -> (r: Vec<String>)
    ensures
        r@.map_values(|t: String| t@) == tags@.map_values(|t: String| t@),
{
    let mut r: Vec<String> = Vec::new();
    let mut i: usize = 0;
    while i < tags.len()
        invariant
            i <= tags@.len(),
            r@.len() == i,
            forall|j: int| 0 <= j < i ==> #[trigger] r@[j]@ == tags@[j]@,
        decreases tags@.len() - i,
    {
        r.push(tags[i].clone());
        i += 1;
    }
    assert(r@.map_values(|t: String| t@) =~= tags@.map_values(|t: String| t@));
    r
}

fn enrich(item: &RecommendItem, stat: Option<UsageStat>) -> (r: RecommendItem)
    ensures
        item_view(r) == enriched_view(*item, stat),
{
    let (count, last) = match stat {
        Some(s) => (s.launch_count, s.last_launched),
        None => (item.launch_count, item.last_launched),
    };
    RecommendItem {
        id: item.id.clone(),
        title: item.title.clone(),
        subtitle: item.subtitle.clone(),
        category: item.category.clone(),
        launch_count: count,
        last_launched: last,
        tags: copy_tags(&item.tags),
    }
}

/// The usage after a launch of an item at `ts`: one more launch, at `ts`.
pub open spec fn after_launch(old_stat: Option<UsageStat>, ts: i64) -> UsageStat {
    match old_stat {
        Some(s) => UsageStat { launch_count: (s.launch_count + 1) as u32, last_launched: Some(ts) },
        None => UsageStat { launch_count: 1, last_launched: Some(ts) },
    }
}

/// The recommendation service.
pub struct RecommendService {
    config: RecommendConfig,
    items: Vec<RecommendItem>,
    usage: KeyedVec<UsageStat>,
    status: RecommendStatus,
}

impl RecommendService {
    /// The configuration.
    pub closed spec fn cfg(&self) -> RecommendConfig {
        self.config
    }

    /// The candidates, in order.
    pub closed spec fn candidates(&self) -> Seq<RecommendItem> {
        self.items@
    }

    /// The launch statistics, by item id.
    pub closed spec fn usage(&self) -> Map<Seq<char>, UsageStat> {
        self.usage@
    }

    /// The counters.
    pub closed spec fn counters(&self) -> RecommendStatus {
        self.status
    }

    /// The statistics keep one entry per item.
    pub closed spec fn wf(&self) -> bool {
        self.usage.wf()
    }

    /// The statistics of `id`, if it was launched.
    pub open spec fn usage_of(&self, id: Seq<char>) -> Option<UsageStat> {
        if self.usage().contains_key(id) { Some(self.usage()[id]) } else { None }
    }

    /// A service with no candidates and no statistics, enabled as `config`
    /// says, with zero counters.
    pub fn new(config: RecommendConfig) -> (r: Self)
        ensures
            r.wf(),
            r.cfg() == config,
            r.candidates().len() == 0,
            r.usage() == Map::<Seq<char>, UsageStat>::empty(),
            r.counters() == (RecommendStatus {
                enabled: config.enabled,
                py_engine_available: false,
                total_recommendations: 0,
                total_feedbacks: 0,
            }),
    {
        RecommendService {
            config,
            items: Vec::new(),
            usage: KeyedVec::new(),
            status: RecommendStatus {
                enabled: config.enabled,
                py_engine_available: false,
                total_recommendations: 0,
                total_feedbacks: 0,
            },
        }
    }

    /// The configuration.
    pub fn config(&self) -> (r: &RecommendConfig)
        ensures
            *r == self.cfg(),
    {
        &self.config
    }

    /// Replaces the candidates.
    pub fn set_items(&mut self, items: Vec<RecommendItem>)
        ensures
            final(self).candidates() == items@,
            final(self).wf() == old(self).wf(),
            final(self).cfg() == old(self).cfg(),
            final(self).usage() == old(self).usage(),
            final(self).counters() == old(self).counters(),
    {
        self.items = items;
    }

    /// The number of candidates.
    pub fn item_count(&self) -> (r: usize)
        ensures
            r == self.candidates().len(),
    {
        self.items.len()
    }

    /// Counts a launch of `item_id` at `ts`, which also counts as feedback.
    pub fn record_launch_at(&mut self, item_id: &str, ts: i64)
        requires
            old(self).wf(),
            old(self).counters().total_feedbacks < u64::MAX,
            old(self).usage().contains_key(item_id@) ==> old(self).usage()[item_id@].launch_count < u32::MAX,
        ensures
            final(self).wf(),
            final(self).usage() == old(self).usage().insert(item_id@, after_launch(old(self).usage_of(item_id@), ts)),
            final(self).counters() == (RecommendStatus {
                total_feedbacks: (old(self).counters().total_feedbacks + 1) as u64,
                ..old(self).counters()
            }),
            final(self).candidates() == old(self).candidates(),
            final(self).cfg() == old(self).cfg(),
    {
        self.note_launch(item_id, ts);
        self.status.total_feedbacks = self.status.total_feedbacks + 1;
    }

    fn note_launch(&mut self, item_id: &str, ts: i64)
        requires
            old(self).wf(),
            old(self).usage().contains_key(item_id@) ==> old(self).usage()[item_id@].launch_count < u32::MAX,
        ensures
            final(self).wf(),
            final(self).usage() == old(self).usage().insert(item_id@, after_launch(old(self).usage_of(item_id@), ts)),
            final(self).counters() == old(self).counters(),
            final(self).candidates() == old(self).candidates(),
            final(self).cfg() == old(self).cfg(),
    {
        let next = match self.usage.get(item_id) {
            Some(s) => UsageStat { launch_count: s.launch_count + 1, last_launched: Some(ts) },
            None => UsageStat { launch_count: 1, last_launched: Some(ts) },
        };
        self.usage.insert(item_id, next);
    }

    /// Counts a launch of `item_id` now; see `record_launch_at`.
    pub fn record_launch(&mut self, item_id: &str)
        requires
            old(self).wf(),
            old(self).counters().total_feedbacks < u64::MAX,
            old(self).usage().contains_key(item_id@) ==> old(self).usage()[item_id@].launch_count < u32::MAX,
        ensures
            final(self).wf(),
            exists|ts: i64|
                final(self).usage() == old(self).usage().insert(item_id@, after_launch(old(self).usage_of(item_id@), ts)),
            final(self).counters() == (RecommendStatus {
                total_feedbacks: (old(self).counters().total_feedbacks + 1) as u64,
                ..old(self).counters()
            }),
            final(self).candidates() == old(self).candidates(),
            final(self).cfg() == old(self).cfg(),
    {
        let now = crate::clock::now_seconds();
        self.record_launch_at(item_id, now);
    }

    /// Takes in a reaction at `ts`: every reaction is counted once, and a
    /// click or a pin also records a launch of the item (not counted again).
    pub fn report_feedback_at(&mut self, feedback: &FeedbackEvent, ts: i64)
        requires
            old(self).wf(),
            old(self).counters().total_feedbacks < u64::MAX,
            old(self).usage().contains_key(feedback.item_id@) ==> old(self).usage()[feedback.item_id@].launch_count
                < u32::MAX,
        ensures
            final(self).wf(),
            final(self).candidates() == old(self).candidates(),
            final(self).cfg() == old(self).cfg(),
            (feedback.feedback_type == FeedbackType::Click || feedback.feedback_type == FeedbackType::Pin) ==> {
                &&& final(self).usage() == old(self).usage().insert(
                    feedback.item_id@,
                    after_launch(old(self).usage_of(feedback.item_id@), ts),
                )
                &&& final(self).counters() == (RecommendStatus {
                    total_feedbacks: (old(self).counters().total_feedbacks + 1) as u64,
                    ..old(self).counters()
                })
            },
            !(feedback.feedback_type == FeedbackType::Click || feedback.feedback_type == FeedbackType::Pin) ==> {
                &&& final(self).usage() == old(self).usage()
                &&& final(self).counters() == (RecommendStatus {
                    total_feedbacks: (old(self).counters().total_feedbacks + 1) as u64,
                    ..old(self).counters()
                })
            },
    {
        self.status.total_feedbacks = self.status.total_feedbacks + 1;
        match feedback.feedback_type {
            FeedbackType::Click | FeedbackType::Pin => {
                self.note_launch(feedback.item_id.as_str(), ts);
            },
            _ => {},
        }
    }

    /// Takes in a reaction now; see `report_feedback_at`.
    pub fn report_feedback(&mut self, feedback: &FeedbackEvent)
        requires
            old(self).wf(),
            old(self).counters().total_feedbacks < u64::MAX,
            old(self).usage().contains_key(feedback.item_id@) ==> old(self).usage()[feedback.item_id@].launch_count
                < u32::MAX,
        ensures
            final(self).wf(),
            final(self).candidates() == old(self).candidates(),
            final(self).cfg() == old(self).cfg(),
            (feedback.feedback_type == FeedbackType::Click || feedback.feedback_type == FeedbackType::Pin) ==> {
                &&& exists|ts: i64|
                    final(self).usage() == old(self).usage().insert(
                        feedback.item_id@,
                        after_launch(old(self).usage_of(feedback.item_id@), ts),
                    )
                &&& final(self).counters() == (RecommendStatus {
                    total_feedbacks: (old(self).counters().total_feedbacks + 1) as u64,
                    ..old(self).counters()
                })
            },
            !(feedback.feedback_type == FeedbackType::Click || feedback.feedback_type == FeedbackType::Pin) ==> {
                &&& final(self).usage() == old(self).usage()
                &&& final(self).counters() == (RecommendStatus {
                    total_feedbacks: (old(self).counters().total_feedbacks + 1) as u64,
                    ..old(self).counters()
                })
            },
    {
        let now = crate::clock::now_seconds();
        self.report_feedback_at(feedback, now);
    }

    /// What the scoring starts from: nothing when the service is disabled or
    /// has no candidates; else every candidate, in order, with its launch
    /// statistics merged in, and one more recommendation is counted.
    pub fn scoring_input(&mut self) -> (r: Option<Vec<RecommendItem>>)
        requires
            old(self).wf(),
            old(self).counters().total_recommendations < u64::MAX,
        ensures
            final(self).wf(),
            final(self).candidates() == old(self).candidates(),
            final(self).cfg() == old(self).cfg(),
            final(self).usage() == old(self).usage(),
            (!old(self).cfg().enabled || old(self).candidates().len() == 0) ==> r is None && final(self).counters()
                == old(self).counters(),
            (old(self).cfg().enabled && old(self).candidates().len() > 0) ==> {
                &&& r matches Some(v) && v@.len() == old(self).candidates().len() && forall|i: int|
                    0 <= i < v@.len() ==> #[trigger] item_view(v@[i]) == enriched_view(
                        old(self).candidates()[i],
                        old(self).usage_of(old(self).candidates()[i].id@),
                    )
                &&& final(self).counters() == (RecommendStatus {
                    total_recommendations: (old(self).counters().total_recommendations + 1) as u64,
                    ..old(self).counters()
                })
            },
    {
        if !self.config.enabled || self.items.len() == 0 {
            return None;
        }
        let mut out: Vec<RecommendItem> = Vec::new();
        let mut i: usize = 0;
        while i < self.items.len()
            invariant
                self.wf(),
                i <= self.items@.len(),
                out@.len() == i,
                forall|j: int|
                    0 <= j < i ==> #[trigger] item_view(out@[j]) == enriched_view(
                        self.items@[j],
                        self.usage_of(self.items@[j].id@),
                    ),
            decreases self.items@.len() - i,
        {
            let stat = self.usage.get(self.items[i].id.as_str());
            out.push(enrich(&self.items[i], stat));
            i += 1;
        }
        self.status.total_recommendations = self.status.total_recommendations + 1;
        Some(out)
    }

    /// The counters, with the Python engine reported as absent.
    pub fn status(&self) -> (r: RecommendStatus)
        ensures
            r == (RecommendStatus { py_engine_available: false, ..self.counters() }),
    {
        RecommendStatus { py_engine_available: false, ..self.status }
    }

    /// Whether a Python engine is available: never, in this build.
    pub fn has_py_engine(&self) -> (r: bool)
        ensures
            !r,
    {
        false
    }
}

} // verus!
