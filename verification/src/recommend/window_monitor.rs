//! Tracking of the foreground application: confirming a switch only after
//! the same window has been seen on several polls, and keeping a short
//! history of the applications used before.

use vstd::prelude::*;
use std::time::Instant;

verus! {

/// `std::time::Instant`, carried through opaquely.
#[verifier::external_type_specification]
#[verifier::external_body]
pub struct ExInstant(Instant);

/// `Instant` is `Copy`; its `clone` returns the same instant.
pub assume_specification[ <Instant as Clone>::clone ](i: &Instant) -> (r: Instant)
    ensures
        r == *i,
;

/// Length of the history of previously active applications.
pub const MAX_RECENT_APPS: usize = 10;

/// Consecutive polls on which a window must be seen before it counts.
pub const DEBOUNCE_COUNT: u32 = 3;

/// A previously active application.
#[derive(Debug, Clone)]
pub struct ActiveAppEntry {
    pub path: String,
    pub title: String,
    pub first_seen: Instant,
    pub last_seen: Instant,
    pub switch_count: u32,
}

/// The foreground application and the history before it, latest first.
#[derive(Debug, Clone)]
pub struct WindowMonitorState {
    pub active_app_path: String,
    pub active_app_title: String,
    pub recent_apps: Vec<ActiveAppEntry>,
}

impl Default for WindowMonitorState {
    /// Nothing seen yet.
    fn default() -> (r: Self)
        ensures
            r.active_app_path@.len() == 0,
            r.active_app_title@.len() == 0,
            r.recent_apps@.len() == 0,
    {
        WindowMonitorState { active_app_path: String::new(), active_app_title: String::new(), recent_apps: Vec::new() }
    }
}

/// The history after `path` replaces the foreground application of `s`: the
/// former application, seen once at `now`, goes first and the history is cut
/// to its length limit; an empty former path adds nothing.
pub open spec fn history_after(s: WindowMonitorState, now: Instant, r: Seq<ActiveAppEntry>) -> bool {
    let old_r = s.recent_apps@;
    if s.active_app_path@.len() == 0 {
        r == old_r
    } else {
        &&& r.len() == if old_r.len() + 1 > MAX_RECENT_APPS { MAX_RECENT_APPS as int } else { old_r.len() + 1int }
        &&& r[0].path@ == s.active_app_path@
        &&& r[0].title@ == s.active_app_title@
        &&& r[0].first_seen == now
        &&& r[0].last_seen == now
        &&& r[0].switch_count == 1
        &&& forall|i: int| 1 <= i < r.len() ==> #[trigger] r[i] == old_r[i - 1]
    }
}

impl WindowMonitorState {
    /// Records that `path` (titled `title`) is in the foreground at `now`.
    /// Returns whether the application changed; only then is the state
    /// touched: the former application enters the history.
    pub fn update(&mut self, path: String, title: String, now: Instant) -> (changed: bool)
        ensures
            changed == (old(self).active_app_path@ != path@),
            !changed ==> *final(self) == *old(self),
            changed ==> final(self).active_app_path@ == path@ && final(self).active_app_title@ == title@
                && history_after(*old(self), now, final(self).recent_apps@),
    {
        let changed = self.active_app_path != path;
        if changed {
            if !self.active_app_path.as_str().is_empty() {
                let ghost old_r = self.recent_apps@;
                let entry = ActiveAppEntry {
                    path: self.active_app_path.clone(),
                    title: self.active_app_title.clone(),
                    first_seen: now,
                    last_seen: now,
                    switch_count: 1,
                };
                self.recent_apps.insert(0, entry);
                if self.recent_apps.len() > MAX_RECENT_APPS {
                    self.recent_apps.truncate(MAX_RECENT_APPS);
                }
                assert forall|i: int| 1 <= i < self.recent_apps@.len() implies #[trigger] self.recent_apps@[i] == old_r[i - 1] by {}
            }
            self.active_app_path = path;
            self.active_app_title = title;
        }
        changed
    }
}

/// Confirmation of a foreground switch: a window counts once it has been
/// seen on `DEBOUNCE_COUNT` consecutive polls.
#[derive(Debug, Clone)]
pub struct WindowDebounce {
    pub stable_count: u32,
    pub last_path: String,
    pub last_title: String,
}

impl WindowDebounce {
    /// Nothing seen yet.
    pub fn new() -> (r: Self)
        ensures
            r.stable_count == 0,
            r.last_path@.len() == 0,
            r.last_title@.len() == 0,
    {
        WindowDebounce { stable_count: 0, last_path: String::new(), last_title: String::new() }
    }

    /// One poll that saw `path` titled `title`.  Returns whether the window
    /// is now confirmed: seen on enough consecutive polls, with a path.  The
    /// count starts over after a confirmation.
    pub fn observe(&mut self, path: &String, title: &String) -> (confirmed: bool)
        requires
            old(self).stable_count < u32::MAX,
        ensures
            ({
                let same = old(self).last_path@ == path@ && old(self).last_title@ == title@;
                let count = if same { old(self).stable_count + 1 } else { 1 };
                &&& confirmed == (count >= DEBOUNCE_COUNT && path@.len() > 0)
                &&& final(self).stable_count == if confirmed { 0 } else { count }
            }),
            final(self).last_path@ == path@,
            final(self).last_title@ == title@,
    {
        if *path != self.last_path || *title != self.last_title {
            self.stable_count = 1;
            self.last_path = path.clone();
            self.last_title = title.clone();
        } else {
            self.stable_count = self.stable_count + 1;
        }
        if self.stable_count >= DEBOUNCE_COUNT && !path.as_str().is_empty() {
            self.stable_count = 0;
            true
        } else {
            false
        }
    }
}

/// The history never grows past its limit: an update keeps a history within
/// the limit within it.
pub proof fn law_history_bounded(s: WindowMonitorState, now: Instant, r: Seq<ActiveAppEntry>)
    requires
        s.recent_apps@.len() <= MAX_RECENT_APPS,
        history_after(s, now, r),
    ensures
        r.len() <= MAX_RECENT_APPS,
{
}

} // verus!
