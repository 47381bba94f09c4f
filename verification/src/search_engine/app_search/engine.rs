//! The application index's own state and decisions: the cache of
//! applications by path, the order of the full listing, and the reading of
//! registry values.  Scanning folders and the registry, the pinyin of names
//! and the match scores are outside this library.

use vstd::prelude::*;
use crate::text::{chars_of, copy_texts, from_utf16_lossy, lowercase, same_str, string_of, texts, to_lowercase, utf16_lossy};
use crate::keyed::{distinct_by, lemma_map_by, lemma_map_by_push, lemma_map_by_update, map_by};

use crate::search_engine::app_search::{app_type, app_type_of};
use crate::search_engine::models::{AppEntry, ResultItem, SearchAction, SearchCategory};

verus! {

/// The key of a cached application: its path.
pub open spec fn app_key() -> spec_fn(AppEntry) -> Seq<char> {
    |a: AppEntry| a.path@
}

/// The indexed applications, by path.
pub struct AppCache {
    apps: Vec<AppEntry>,
}

impl AppCache {
    /// The applications by path.
    pub closed spec fn entries(&self) -> Map<Seq<char>, AppEntry> {
        map_by(self.apps@, app_key())
    }

    /// One entry per path.
    pub closed spec fn wf(&self) -> bool {
        distinct_by(self.apps@, app_key())
    }

    /// No applications.
    pub fn new_empty() -> (r: Self)
        ensures
            r.wf(),
            r.entries() == Map::<Seq<char>, AppEntry>::empty(),
    {
        AppCache { apps: Vec::new() }
    }

    /// Forgets every application, before a new scan.
    pub fn clear(&mut self)
        ensures
            final(self).wf(),
            final(self).entries() == Map::<Seq<char>, AppEntry>::empty(),
    {
        self.apps = Vec::new();
    }

    fn position(&self, path: &str) -> (r: Option<usize>)
        requires
            self.wf(),
        ensures
            match r {
                Some(i) => i < self.apps@.len() && self.apps@[i as int].path@ == path@,
                None => !self.entries().contains_key(path@),
            },
    {
        let mut i: usize = 0;
        while i < self.apps.len()
            invariant
                i <= self.apps@.len(),
                forall|j: int| 0 <= j < i ==> self.apps@[j].path@ != path@,
            decreases self.apps@.len() - i,
        {
            if same_str(self.apps[i].path.as_str(), path) {
                return Some(i);
            }
            i += 1;
        }
        proof {
            lemma_map_by(self.apps@, app_key());
            if self.entries().contains_key(path@) {
                let j = choose|j: int| 0 <= j < self.apps@.len() && (app_key())(self.apps@[j]) == path@;
            }
        }
        None
    }

    /// The application at `path`, if indexed.
    pub fn get(&self, path: &str) -> (r: Option<&AppEntry>)
        requires
            self.wf(),
        ensures
            match r {
                Some(e) => self.entries().contains_key(path@) && *e == self.entries()[path@],
                None => !self.entries().contains_key(path@),
            },
    {
        match self.position(path) {
            Some(i) => {
                proof {
                    lemma_map_by(self.apps@, app_key());
                    assert(map_by(self.apps@, app_key()).contains_key((app_key())(self.apps@[i as int])));
                }
                Some(&self.apps[i])
            },
            None => None,
        }
    }

    /// Records `app` under its path, replacing what was there (a folder scan
    /// has the last word).
    pub fn insert(&mut self, app: AppEntry)
        requires
            old(self).wf(),
        ensures
            final(self).wf(),
            final(self).entries() == old(self).entries().insert(app.path@, app),
    {
        match self.position(app.path.as_str()) {
            Some(i) => {
                proof {
                    lemma_map_by_update(self.apps@, i as int, app, app_key());
                }
                self.apps.set(i, app);
            },
            None => {
                proof {
                    lemma_map_by_push(self.apps@, app, app_key());
                }
                self.apps.push(app);
            },
        }
    }

    /// Records `app` unless its path is indexed already (registry and
    /// system entries never replace a folder scan's).
    pub fn insert_if_absent(&mut self, app: AppEntry)
        requires
            old(self).wf(),
        ensures
            final(self).wf(),
            final(self).entries() == with_if_absent(old(self).entries(), app),
    {
        match self.position(app.path.as_str()) {
            Some(i) => {
                proof {
                    lemma_map_by(self.apps@, app_key());
                    assert(map_by(self.apps@, app_key()).contains_key((app_key())(self.apps@[i as int])));
                }
            },
            None => {
                proof {
                    lemma_map_by_push(self.apps@, app, app_key());
                }
                self.apps.push(app);
            },
        }
    }

    /// The number of applications indexed.
    pub fn total(&self) -> (r: usize)
        requires
            self.wf(),
        ensures
            r == self.entries().dom().len(),
    {
        proof {
            lemma_map_len(self.apps@);
        }
        self.apps.len()
    }

    /// Counts a launch of the application at `key` at time `ts`; an unknown
    /// key changes nothing.
    pub fn record_launch_at(&mut self, key: &str, ts: i64)
        requires
            old(self).wf(),
            old(self).entries().contains_key(key@) ==> old(self).entries()[key@].launch_count < u32::MAX,
        ensures
            final(self).wf(),
            old(self).entries().contains_key(key@) ==> final(self).entries() == old(self).entries().insert(
                key@,
                AppEntry {
                    launch_count: (old(self).entries()[key@].launch_count + 1) as u32,
                    last_launched: Some(ts),
                    ..old(self).entries()[key@]
                },
            ),
            !old(self).entries().contains_key(key@) ==> final(self).entries() == old(self).entries(),
    {
        match self.position(key) {
            Some(i) => {
                proof {
                    lemma_map_by(self.apps@, app_key());
                    assert(map_by(self.apps@, app_key()).contains_key((app_key())(self.apps@[i as int])));
                }
                let mut apps: Vec<AppEntry> = Vec::new();
                std::mem::swap(&mut apps, &mut self.apps);
                let ghost before = apps@;
                let mut app = apps.remove(i);
                app.launch_count = app.launch_count + 1;
                app.last_launched = Some(ts);
                apps.insert(i, app);
                proof {
                    let e = AppEntry {
                        launch_count: (before[i as int].launch_count + 1) as u32,
                        last_launched: Some(ts),
                        ..before[i as int]
                    };
                    assert(apps@ =~= before.update(i as int, e));
                    lemma_map_by_update(before, i as int, e, app_key());
                }
                self.apps = apps;
            },
            None => {},
        }
    }

    /// Counts a launch of the application at `key` now; see
    /// `record_launch_at`.
    pub fn record_launch(&mut self, key: &str)
        requires
            old(self).wf(),
            old(self).entries().contains_key(key@) ==> old(self).entries()[key@].launch_count < u32::MAX,
        ensures
            final(self).wf(),
            old(self).entries().contains_key(key@) ==> final(self).entries()[key@].last_launched is Some,
            old(self).entries().contains_key(key@) ==> final(self).entries() == old(self).entries().insert(
                key@,
                AppEntry {
                    launch_count: (old(self).entries()[key@].launch_count + 1) as u32,
                    last_launched: final(self).entries()[key@].last_launched,
                    ..old(self).entries()[key@]
                },
            ),
            !old(self).entries().contains_key(key@) ==> final(self).entries() == old(self).entries(),
    {
        let now = crate::clock::now_seconds();
        self.record_launch_at(key, now);
    }
}

impl AppCache {
    /// The paths of all indexed applications in the order of the full
    /// listing (the answer to an empty query): more launches first, then by
    /// lower-cased name.
    pub fn listing(&self) -> (r: Vec<String>)
        requires
            self.wf(),
        ensures
            r@.len() == self.entries().dom().len(),
            forall|i: int| 0 <= i < r@.len() ==> self.entries().contains_key(#[trigger] r@[i]@),
            forall|i: int, j: int| 0 <= i < j < r@.len() ==> r@[i]@ != r@[j]@,
            forall|k: Seq<char>| #[trigger] self.entries().contains_key(k) ==> exists|i: int|
                0 <= i < r@.len() && r@[i]@ == k,
            forall|i: int, j: int|
                0 <= i < j < r@.len() ==> listed_no_later(
                    app_rank(self.entries()[r@[i]@]),
                    app_rank(self.entries()[r@[j]@]),
                ),
    {
        let n = self.apps.len();
        let mut keys: Vec<(u32, String)> = Vec::new();
        let mut m: usize = 0;
        while m < n
            invariant
                n == self.apps@.len(),
                m <= n,
                keys@.len() == m,
                forall|j: int| 0 <= j < m ==> (#[trigger] keys@[j]).0 == app_rank(self.apps@[j]).0
                    && keys@[j].1@ == app_rank(self.apps@[j]).1,
            decreases n - m,
        {
            keys.push((self.apps[m].launch_count, to_lowercase(self.apps[m].name.as_str())));
            m += 1;
        }
        let order = listing_order(keys.as_slice());
        let ghost ks = keys@.map_values(|e: (u32, String)| (e.0, e.1@));
        let mut r: Vec<String> = Vec::new();
        let mut i: usize = 0;
        while i < n
            invariant
                n == self.apps@.len(),
                order@.len() == n,
                forall|q: int| 0 <= q < n ==> order@[q] < n,
                i <= n,
                r@.len() == i,
                forall|q: int| 0 <= q < i ==> (#[trigger] r@[q])@ == self.apps@[order@[q] as int].path@,
            decreases n - i,
        {
            r.push(self.apps[order[i]].path.clone());
            i += 1;
        }
        proof {
            lemma_map_by(self.apps@, app_key());
            lemma_map_len(self.apps@);
            assert forall|q: int| 0 <= q < r@.len() implies self.entries().contains_key(#[trigger] r@[q]@)
                && self.entries()[r@[q]@] == self.apps@[order@[q] as int] by {
                let j = order@[q] as int;
                assert(0 <= j < self.apps@.len());
                assert(map_by(self.apps@, app_key()).contains_key((app_key())(self.apps@[j])));
                assert((app_key())(self.apps@[j]) == r@[q]@);
            }
            assert forall|a: int, b: int| 0 <= a < b < r@.len() implies r@[a]@ != r@[b]@ by {
                assert((app_key())(self.apps@[order@[a] as int]) == r@[a]@);
                assert((app_key())(self.apps@[order@[b] as int]) == r@[b]@);
            }
            assert forall|k: Seq<char>| #[trigger] self.entries().contains_key(k) implies exists|q: int|
                0 <= q < r@.len() && r@[q]@ == k by {
                let j = choose|j: int| 0 <= j < self.apps@.len() && (app_key())(self.apps@[j]) == k;
                assert(placed(order@, j));
                let q = choose|q: int| 0 <= q < order@.len() && order@[q] == j;
                assert(r@[q]@ == k);
            }
            assert forall|a: int, b: int| 0 <= a < b < r@.len() implies listed_no_later(
                app_rank(self.entries()[r@[a]@]),
                app_rank(self.entries()[r@[b]@]),
            ) by {
                let x = order@[a] as int;
                let y = order@[b] as int;
                assert(listed_before(ks, x, y));
                assert(ks[x] == app_rank(self.apps@[x]));
                assert(ks[y] == app_rank(self.apps@[y]));
                assert(self.entries()[r@[a]@] == self.apps@[x]);
                assert(self.entries()[r@[b]@] == self.apps@[y]);
                lemma_text_order(ks[x].1, ks[y].1, ks[y].1);
            }
        }
        r
    }
}

/// What the full listing orders applications by: launch count, then
/// lower-cased name.
pub open spec fn app_rank(e: AppEntry) -> (u32, Seq<char>) {
    (e.launch_count, lowercase(e.name@))
}

/// An application ranked `x` may be listed before one ranked `y`: more
/// launches, or as many and a name that does not come later.
pub open spec fn listed_no_later(x: (u32, Seq<char>), y: (u32, Seq<char>)) -> bool {
    x.0 > y.0 || (x.0 == y.0 && !text_before(y.1, x.1))
}

/// `m` with `app` recorded under its path unless the path is there already.
pub open spec fn with_if_absent(m: Map<Seq<char>, AppEntry>, app: AppEntry) -> Map<Seq<char>, AppEntry> {
    if m.contains_key(app.path@) {
        m
    } else {
        m.insert(app.path@, app)
    }
}

/// A folder scan has priority: an application it recorded stays in place
/// whatever the registry or the system tools later offer for the same path,
/// while a later folder scan replaces whatever was there.
pub proof fn law_scan_has_priority(m: Map<Seq<char>, AppEntry>, scanned: AppEntry, offered: AppEntry)
    requires
        offered.path@ == scanned.path@,
    ensures
        with_if_absent(m.insert(scanned.path@, scanned), offered)[scanned.path@] == scanned,
        with_if_absent(m, offered).insert(scanned.path@, scanned)[scanned.path@] == scanned,
{
}

proof fn lemma_map_len(s: Seq<AppEntry>)
    requires
        distinct_by(s, app_key()),
    ensures
        map_by(s, app_key()).dom().len() == s.len(),
        map_by(s, app_key()).dom().finite(),
    decreases s.len(),
{
    if s.len() > 0 {
        let p = s.drop_last();
        assert(distinct_by(p, app_key())) by {
            assert forall|a: int, b: int| 0 <= a < b < p.len() implies (app_key())(p[a]) != (app_key())(p[b]) by {
                assert(p[a] == s[a] && p[b] == s[b]);
            }
        }
        lemma_map_len(p);
        lemma_map_by(p, app_key());
        assert(!map_by(p, app_key()).contains_key((app_key())(s.last()))) by {
            if map_by(p, app_key()).contains_key((app_key())(s.last())) {
                let j = choose|j: int| 0 <= j < p.len() && (app_key())(p[j]) == (app_key())(s.last());
                assert((app_key())(s[j]) != (app_key())(s[s.len() - 1]));
            }
        }
        assert(map_by(s, app_key()).dom() == map_by(p, app_key()).dom().insert((app_key())(s.last())));
    }
}

/// `a` comes before `b` in character order, as `str`'s ordering has it.
pub open spec fn text_before(a: Seq<char>, b: Seq<char>) -> bool
    decreases a.len(),
{
    if a.len() == 0 {
        b.len() > 0
    } else if b.len() == 0 {
        false
    } else if a[0] != b[0] {
        (a[0] as u32) < (b[0] as u32)
    } else {
        text_before(a.skip(1), b.skip(1))
    }
}

fn text_lt(a: &[char], b: &[char]) -> (r: bool)
    ensures
        r == text_before(a@, b@),
{
    let mut i: usize = 0;
    assert(a@.skip(0) =~= a@);
    assert(b@.skip(0) =~= b@);
    while i < a.len() && i < b.len() && a[i] == b[i]
        invariant
            i <= a@.len(),
            i <= b@.len(),
            text_before(a@, b@) == text_before(a@.skip(i as int), b@.skip(i as int)),
        decreases a@.len() - i,
    {
        assert(a@.skip(i as int).skip(1) =~= a@.skip(i + 1));
        assert(b@.skip(i as int).skip(1) =~= b@.skip(i + 1));
        i += 1;
    }
    if i == a.len() {
        i < b.len()
    } else if i == b.len() {
        false
    } else {
        (a[i] as u32) < (b[i] as u32)
    }
}

/// Listing entry `x` comes before entry `y`: more launches first, then
/// lower-cased names in character order, then the earlier one.
pub open spec fn listed_before(keys: Seq<(u32, Seq<char>)>, x: int, y: int) -> bool {
    keys[x].0 > keys[y].0 || (keys[x].0 == keys[y].0 && (text_before(keys[x].1, keys[y].1) || (keys[x].1
        == keys[y].1 && x < y)))
}

/// Position `k` occurs in `order`.
pub open spec fn placed(order: Seq<usize>, k: int) -> bool {
    exists|i: int| 0 <= i < order.len() && order[i] == k
}

proof fn lemma_text_order(a: Seq<char>, b: Seq<char>, c: Seq<char>)
    ensures
        !(text_before(a, b) && text_before(b, a)),
        a != b ==> (text_before(a, b) || text_before(b, a)),
        text_before(a, b) && text_before(b, c) ==> text_before(a, c),
    decreases a.len(),
{
    if a.len() > 0 && b.len() > 0 && a[0] != b[0] {
        vstd::utf8::char_u32_cast(a[0], a[0] as u32);
        vstd::utf8::char_u32_cast(b[0], b[0] as u32);
        assert((a[0] as u32) != (b[0] as u32));
    }
    if a.len() > 0 && b.len() > 0 && c.len() > 0 {
        lemma_text_order(a.skip(1), b.skip(1), c.skip(1));
        if a[0] == b[0] && a.skip(1) == b.skip(1) {
            assert(a =~= seq![a[0]] + a.skip(1));
            assert(b =~= seq![b[0]] + b.skip(1));
        }
    } else if a.len() > 0 && b.len() > 0 {
        lemma_text_order(a.skip(1), b.skip(1), c);
        if a[0] == b[0] && a.skip(1) == b.skip(1) {
            assert(a =~= seq![a[0]] + a.skip(1));
            assert(b =~= seq![b[0]] + b.skip(1));
        }
    } else if a.len() == 0 && b.len() == 0 {
        assert(a =~= b);
    }
}

/// The order of the full listing (the answer to an empty query) of entries
/// with launch counts and lower-cased names `keys`: each position once, by
/// `listed_before`.
pub fn listing_order(keys: &[(u32, String)]) -> (order: Vec<usize>)
    ensures
        order@.len() == keys@.len(),
        forall|i: int| 0 <= i < order@.len() ==> order@[i] < keys@.len(),
        forall|k: int| 0 <= k < keys@.len() ==> #[trigger] placed(order@, k),
        forall|a: int, b: int| 0 <= a < b < order@.len() ==> order@[a] != order@[b],
        forall|a: int, b: int|
            0 <= a < b < order@.len() ==> listed_before(
                keys@.map_values(|e: (u32, String)| (e.0, e.1@)),
                order@[a] as int,
                order@[b] as int,
            ),
{
    let ghost ks = keys@.map_values(|e: (u32, String)| (e.0, e.1@));
    let n = keys.len();
    let mut names: Vec<Vec<char>> = Vec::new();
    let mut m: usize = 0;
    while m < n
        invariant
            n == keys@.len(),
            m <= n,
            names@.len() == m,
            forall|j: int| 0 <= j < m ==> #[trigger] names@[j]@ == keys@[j].1@,
        decreases n - m,
    {
        names.push(chars_of(keys[m].1.as_str()));
        m += 1;
    }
    let mut order: Vec<usize> = Vec::new();
    let mut i: usize = 0;
    while i < n
        invariant
            n == keys@.len(),
            ks == keys@.map_values(|e: (u32, String)| (e.0, e.1@)),
            names@.len() == n,
            forall|j: int| 0 <= j < n ==> #[trigger] names@[j]@ == keys@[j].1@,
            i <= n,
            order@.len() == i,
            forall|q: int| 0 <= q < order@.len() ==> order@[q] < i,
            forall|a: int, b: int| 0 <= a < b < order@.len() ==> order@[a] != order@[b],
            forall|k: int| 0 <= k < i ==> #[trigger] placed(order@, k),
            forall|a: int, b: int|
                0 <= a < b < order@.len() ==> listed_before(ks, order@[a] as int, order@[b] as int),
        decreases n - i,
    {
        let mut p: usize = 0;
        loop
            invariant
                n == keys@.len(),
                ks == keys@.map_values(|e: (u32, String)| (e.0, e.1@)),
                names@.len() == n,
                forall|j: int| 0 <= j < n ==> #[trigger] names@[j]@ == keys@[j].1@,
                i < n,
                order@.len() == i,
                forall|q: int| 0 <= q < order@.len() ==> order@[q] < i,
                p <= order@.len(),
                forall|q: int| 0 <= q < p ==> listed_before(ks, order@[q] as int, i as int),
            ensures
                p <= order@.len(),
                forall|q: int| 0 <= q < p ==> listed_before(ks, order@[q] as int, i as int),
                p < order@.len() ==> listed_before(ks, i as int, order@[p as int] as int),
            decreases order@.len() - p,
        {
            if p >= order.len() {
                break;
            }
            let o = order[p];
            let before_i = keys[o].0 > keys[i].0 || (keys[o].0 == keys[i].0 && (text_lt(
                names[o].as_slice(),
                names[i].as_slice(),
            ) || !text_lt(names[i].as_slice(), names[o].as_slice())));
            proof {
                lemma_text_order(ks[o as int].1, ks[i as int].1, ks[i as int].1);
                assert(ks[o as int] == (keys@[o as int].0, keys@[o as int].1@));
                assert(ks[i as int] == (keys@[i as int].0, keys@[i as int].1@));
                if keys@[o as int].0 == keys@[i as int].0 && !text_before(ks[o as int].1, ks[i as int].1)
                    && !text_before(ks[i as int].1, ks[o as int].1) {
                    assert(ks[o as int].1 == ks[i as int].1);
                }
            }
            if !before_i {
                break;
            }
            p += 1;
        }
        let ghost old_order = order@;
        proof {
            assert forall|q: int| p <= q < old_order.len() implies listed_before(ks, i as int, old_order[q] as int) by {
                if q > p {
                    assert(listed_before(ks, old_order[p as int] as int, old_order[q] as int));
                    let x = i as int;
                    let y = old_order[p as int] as int;
                    let z = old_order[q] as int;
                    lemma_text_order(ks[x].1, ks[y].1, ks[z].1);
                }
            }
        }
        order.insert(p, i);
        proof {
            let s = order@;
            assert(s == old_order.insert(p as int, i));
            assert forall|q: int| 0 <= q < s.len() implies s[q] < i + 1 by {
                if q < p {
                    assert(s[q] == old_order[q]);
                } else if q > p {
                    assert(s[q] == old_order[q - 1]);
                }
            }
            assert forall|a: int, b: int| 0 <= a < b < s.len() implies s[a] != s[b] by {
                if a < p {
                    assert(s[a] == old_order[a]);
                }
                if a > p {
                    assert(s[a] == old_order[a - 1]);
                }
                if b < p {
                    assert(s[b] == old_order[b]);
                }
                if b > p {
                    assert(s[b] == old_order[b - 1]);
                }
            }
            assert forall|k: int| 0 <= k < i + 1 implies #[trigger] placed(s, k) by {
                if k == i {
                    assert(s[p as int] == i);
                } else {
                    assert(placed(old_order, k));
                    let q = choose|q: int| 0 <= q < old_order.len() && old_order[q] == k;
                    if q < p {
                        assert(s[q] == k);
                    } else {
                        assert(s[q + 1] == k);
                    }
                }
            }
            assert forall|a: int, b: int| 0 <= a < b < s.len() implies listed_before(ks, s[a] as int, s[b] as int) by {
                if b < p {
                    assert(s[a] == old_order[a] && s[b] == old_order[b]);
                } else if b == p {
                    assert(s[a] == old_order[a]);
                } else if a < p {
                    assert(s[a] == old_order[a] && s[b] == old_order[b - 1]);
                    assert(listed_before(ks, old_order[a] as int, i as int));
                    assert(listed_before(ks, i as int, old_order[b - 1] as int));
                    lemma_text_order(ks[old_order[a] as int].1, ks[i as int].1, ks[old_order[b - 1] as int].1);
                } else if a == p {
                    assert(s[b] == old_order[b - 1]);
                } else {
                    assert(s[a] == old_order[a - 1] && s[b] == old_order[b - 1]);
                }
            }
        }
        i += 1;
    }
    order
}

/// The executable a registry `DisplayIcon` value names: the text before its
/// first comma (the rest is an icon index).
pub open spec fn icon_exe(icon: Seq<char>) -> Seq<char> {
    crate::text::split_on(icon, ',')[0]
}

/// The executable of a `DisplayIcon` value; see `icon_exe`.
pub fn display_icon_exe(icon: &str) -> (r: String)
    ensures
        r@ == icon_exe(icon@),
{
    let cs = chars_of(icon);
    let parts = crate::text::split_char(cs.as_slice(), ',');
    proof {
        crate::text::lemma_split_nonempty(icon@, ',');
    }
    assert(parts@.map_values(|p: Vec<char>| p@)[0] == parts@[0]@);
    string_of(parts[0].as_slice())
}

/// The UTF-16 units of the first `len` bytes of `buf`, read in little-endian
/// pairs.
pub open spec fn le_units(buf: Seq<u8>, len: int) -> Seq<u16> {
    Seq::new((len / 2) as nat, |i: int| (buf[2 * i] as int + 256 * (buf[2 * i + 1] as int)) as u16)
}

/// The text of a registry value of type `data_type` whose first `len` bytes
/// of `buf` were filled: for a string (type 1) or an expandable string
/// (type 2), its UTF-16 units up to the first NUL, decoded with replacement
/// characters; nothing for other types.
pub open spec fn registry_text(data_type: u32, buf: Seq<u8>, len: int) -> Option<Seq<char>> {
    if data_type == 1 || data_type == 2 {
        let u = le_units(buf, len);
        Some(utf16_lossy(u.take(crate::platform::usn::first_nul(u, 0))))
    } else {
        None
    }
}

/// The text of a registry value; see `registry_text`.
pub fn registry_string(data_type: u32, buf: &[u8], len: u32) -> (r: Option<String>)
    requires
        len <= buf@.len(),
    ensures
        r matches Some(s) ==> registry_text(data_type, buf@, len as int) == Some(s@),
        r is None ==> registry_text(data_type, buf@, len as int) is None,
{
    if data_type != 1 && data_type != 2 {
        return None;
    }
    let half = (len / 2) as usize;
    let ghost u = le_units(buf@, len as int);
    let mut units: Vec<u16> = Vec::new();
    let mut i: usize = 0;
    while i < half
        invariant
            half == len / 2,
            len <= buf@.len(),
            u == le_units(buf@, len as int),
            i <= half,
            units@ == u.take(i as int),
        decreases half - i,
    {
        let v = (buf[2 * i] as u16) + 256 * (buf[2 * i + 1] as u16);
        units.push(v);
        assert(u.take(i + 1) =~= u.take(i as int).push(u[i as int]));
        i += 1;
    }
    assert(u.take(half as int) =~= u);
    let mut n: usize = 0;
    while n < units.len() && units[n] != 0
        invariant
            n <= units@.len(),
            crate::platform::usn::first_nul(units@, 0) == crate::platform::usn::first_nul(units@, n as int),
        decreases units@.len() - n,
    {
        n += 1;
    }
    let mut head: Vec<u16> = Vec::new();
    let mut k: usize = 0;
    while k < n
        invariant
            n <= units@.len(),
            k <= n,
            head@ == units@.take(k as int),
        decreases n - k,
    {
        head.push(units[k]);
        assert(units@.take(k + 1) =~= units@.take(k as int).push(units@[k as int]));
        k += 1;
    }
    Some(from_utf16_lossy(head.as_slice()))
}

/// The text of `o`, or nothing.
pub open spec fn text_or_empty(o: Option<String>) -> Seq<char> {
    match o {
        Some(t) => t@,
        None => Seq::empty(),
    }
}

/// The texts of `o`, or none.
pub open spec fn texts_or_empty(o: Option<Vec<String>>) -> Seq<Seq<char>> {
    match o {
        Some(v) => texts(v@),
        None => Seq::empty(),
    }
}

/// What activating the application `a` does: a special shortcut runs its
/// command with its arguments, any other application is launched by path.
pub open spec fn app_action(a: AppEntry, act: SearchAction) -> bool {
    if a.is_special_shortcut {
        act matches SearchAction::Run { command, args } && command@ == text_or_empty(a.special_command)
            && texts(args@) == texts_or_empty(a.special_args)
    } else {
        act matches SearchAction::Launch(p) && p@ == a.path@
    }
}

/// The result shown for the application `a`: its identifier and name, the
/// link's path as subtitle for a special shortcut (nothing otherwise), no
/// secondary text or icon, in the applications category, typed by
/// `app_type`, acting as `app_action` says.
pub fn app_result(a: &AppEntry) -> (r: ResultItem)
    ensures
        r.id@ == a.id@,
        r.title@ == a.name@,
        r.subtitle@ == (if a.is_special_shortcut { a.path@ } else { Seq::<char>::empty() }),
        r.meta is None && r.icon is None,
        r.category == SearchCategory::Apps,
        r.result_type == app_type(a.is_special_shortcut, a.path@),
        app_action(*a, r.action),
        r.size is None && r.modified_at is None && r.launch_count is None,
{
    let action = if a.is_special_shortcut {
        let command = match &a.special_command {
            Some(c) => c.clone(),
            None => String::new(),
        };
        let args = match &a.special_args {
            Some(v) => copy_texts(v),
            None => Vec::new(),
        };
        proof {
            if a.special_args is None {
                assert(texts(args@) =~= Seq::<Seq<char>>::empty());
            }
        }
        SearchAction::Run { command, args }
    } else {
        SearchAction::Launch(a.path.clone())
    };
    let subtitle = if a.is_special_shortcut {
        a.path.clone()
    } else {
        String::new()
    };
    ResultItem {
        id: a.id.clone(),
        title: a.name.clone(),
        subtitle,
        meta: None,
        icon: None,
        category: SearchCategory::Apps,
        result_type: app_type_of(a),
        action,
        size: None,
        modified_at: None,
        launch_count: None,
    }
}

} // verus!
