//! Launch statistics per application path.  The decayed composite score is
//! floating point and computed outside this library.

use vstd::prelude::*;
use crate::text::same_str;

verus! {

/// How often and when an application was launched.
pub struct AppStat {
    pub app_path: String,
    pub launch_count: u64,
    pub last_launched: i64,
    pub name: String,
}

/// What a statistics entry holds besides its path: launch count, last launch
/// time and display name.
pub open spec fn stat_value(a: AppStat) -> (u64, i64, Seq<char>) {
    (a.launch_count, a.last_launched, a.name@)
}

impl AppStat {
    /// A copy of this entry.
    pub fn duplicate(&self) -> (r: AppStat)
        ensures
            r.app_path@ == self.app_path@,
            stat_value(r) == stat_value(*self),
    {
        AppStat {
            app_path: self.app_path.clone(),
            launch_count: self.launch_count,
            last_launched: self.last_launched,
            name: self.name.clone(),
        }
    }
}

impl Default for AppStat {
    /// An empty entry: no path, never launched.
    fn default() -> (r: Self)
        ensures
            r.app_path@.len() == 0,
            r.launch_count == 0,
            r.last_launched == 0,
            r.name@.len() == 0,
    {
        AppStat { app_path: String::new(), launch_count: 0, last_launched: 0, name: String::new() }
    }
}

/// Entry `a` comes before entry `b` when ordering by `keys` from the largest
/// down, earlier entries first among equal keys.
pub open spec fn desc_before(keys: Seq<i128>, a: int, b: int) -> bool {
    keys[a] > keys[b] || (keys[a] == keys[b] && a < b)
}

/// Position `k` occurs in `order`.
pub open spec fn listed(order: Seq<usize>, k: int) -> bool {
    exists|i: int| 0 <= i < order.len() && order[i] == k
}

/// `order` lists every position of `keys` once, ordered by `desc_before`.
pub open spec fn desc_order(keys: Seq<i128>, order: Seq<usize>) -> bool {
    &&& order.len() == keys.len()
    &&& forall|i: int| 0 <= i < order.len() ==> order[i] < keys.len()
    &&& forall|a: int, b: int| 0 <= a < b < order.len() ==> order[a] != order[b]
    &&& forall|k: int| 0 <= k < keys.len() ==> #[trigger] listed(order, k)
    &&& forall|a: int, b: int|
        0 <= a < b < order.len() ==> desc_before(keys, order[a] as int, order[b] as int)
}

/// The positions of `keys`, largest key first; a stable sort.
pub fn order_desc(keys: &[i128]) -> (order: Vec<usize>)
    ensures
        desc_order(keys@, order@),
{
    let n = keys.len();
    let mut order: Vec<usize> = Vec::new();
    let mut i: usize = 0;
    while i < n
        invariant
            n == keys@.len(),
            i <= n,
            order@.len() == i,
            forall|q: int| 0 <= q < order@.len() ==> order@[q] < i,
            forall|a: int, b: int| 0 <= a < b < order@.len() ==> order@[a] != order@[b],
            forall|k: int| 0 <= k < i ==> #[trigger] listed(order@, k),
            forall|a: int, b: int|
                0 <= a < b < order@.len() ==> desc_before(keys@, order@[a] as int, order@[b] as int),
        decreases n - i,
    {
        let key = keys[i];
        let mut p: usize = 0;
        loop
            invariant
                n == keys@.len(),
                i < n,
                key == keys@[i as int],
                order@.len() == i,
                forall|q: int| 0 <= q < order@.len() ==> order@[q] < i,
                p <= order@.len(),
                forall|q: int| 0 <= q < p ==> keys@[order@[q] as int] >= key,
            ensures
                p <= order@.len(),
                forall|q: int| 0 <= q < p ==> keys@[order@[q] as int] >= key,
                p < order@.len() ==> keys@[order@[p as int] as int] < key,
            decreases order@.len() - p,
        {
            if p >= order.len() {
                break;
            }
            let o = order[p];
            if keys[o] < key {
                break;
            }
            p += 1;
        }
        let ghost old_order = order@;
        proof {
            assert forall|q: int| p <= q < old_order.len() implies keys@[old_order[q] as int] < key by {
                if q > p {
                    assert(desc_before(keys@, old_order[p as int] as int, old_order[q] as int));
                }
            }
        }
        order.insert(p, i);
        proof {
            let s = order@;
            assert(s == old_order.insert(p as int, i));
            assert forall|q: int| 0 <= q < s.len() implies s[q] < i + 1 by {
                if q < p {
                    assert(s[q] == old_order[q]);
                } else if q > p {
                    assert(s[q] == old_order[q - 1]);
                }
            }
            assert forall|a: int, b: int| 0 <= a < b < s.len() implies s[a] != s[b] by {
                if a < p {
                    assert(s[a] == old_order[a]);
                }
                if a > p {
                    assert(s[a] == old_order[a - 1]);
                }
                if b < p {
                    assert(s[b] == old_order[b]);
                }
                if b > p {
                    assert(s[b] == old_order[b - 1]);
                }
            }
            assert forall|k: int| 0 <= k < i + 1 implies #[trigger] listed(s, k) by {
                if k == i {
                    assert(s[p as int] == i);
                } else {
                    assert(listed(old_order, k));
                    let q = choose|q: int| 0 <= q < old_order.len() && old_order[q] == k;
                    if q < p {
                        assert(s[q] == k);
                    } else {
                        assert(s[q + 1] == k);
                    }
                }
            }
            assert forall|a: int, b: int| 0 <= a < b < s.len() implies desc_before(
                keys@,
                s[a] as int,
                s[b] as int,
            ) by {
                if b < p {
                    assert(s[a] == old_order[a] && s[b] == old_order[b]);
                } else if b == p {
                    assert(s[a] == old_order[a]);
                } else if a < p {
                    assert(s[a] == old_order[a] && s[b] == old_order[b - 1]);
                } else if a == p {
                    assert(s[b] == old_order[b - 1]);
                } else {
                    assert(s[a] == old_order[a - 1] && s[b] == old_order[b - 1]);
                }
            }
        }
        i += 1;
    }
    order
}

/// The statistics held by a list of distinct entries, keyed by path.
pub open spec fn stats_map(s: Seq<AppStat>) -> Map<Seq<char>, (u64, i64, Seq<char>)>
    decreases s.len(),
{
    if s.len() == 0 {
        Map::empty()
    } else {
        stats_map(s.drop_last()).insert(s.last().app_path@, stat_value(s.last()))
    }
}

/// No two entries have the same path.
pub open spec fn distinct_paths(s: Seq<AppStat>) -> bool {
    forall|a: int, b: int| 0 <= a < b < s.len() ==> s[a].app_path@ != s[b].app_path@
}

/// Some entry of `r` has path `k`.
pub open spec fn has_path(r: Seq<AppStat>, k: Seq<char>) -> bool {
    exists|i: int| 0 <= i < r.len() && r[i].app_path@ == k
}

/// The statistics after a launch of `key` named `name` at `ts`: one more
/// launch, the new time, and the new name unless it is empty.
pub open spec fn launched(
    m: Map<Seq<char>, (u64, i64, Seq<char>)>,
    key: Seq<char>,
    name: Seq<char>,
    ts: i64,
) -> (u64, i64, Seq<char>) {
    if m.contains_key(key) {
        ((m[key].0 + 1) as u64, ts, if name.len() > 0 { name } else { m[key].2 })
    } else {
        (1, ts, name)
    }
}

/// What a listing is ranked by: the launch count, or the last launch time.
pub open spec fn rank(by_count: bool, v: (u64, i64, Seq<char>)) -> int {
    if by_count { v.0 as int } else { v.1 as int }
}

/// `r` holds entries of `m` as they are in `m`, each path at most once.
pub open spec fn lists_entries(m: Map<Seq<char>, (u64, i64, Seq<char>)>, r: Seq<AppStat>) -> bool {
    &&& forall|i: int|
        0 <= i < r.len() ==> m.contains_key(#[trigger] r[i].app_path@) && m[r[i].app_path@]
            == stat_value(r[i])
    &&& distinct_paths(r)
}

/// `r` is a ranking of the `limit` best entries of `m`: best first, none
/// left out that ranks above one taken, and all of them when fewer than
/// `limit` exist.
pub open spec fn top_ranked(
    m: Map<Seq<char>, (u64, i64, Seq<char>)>,
    r: Seq<AppStat>,
    by_count: bool,
    limit: nat,
) -> bool {
    &&& lists_entries(m, r)
    &&& r.len() <= limit
    &&& r.len() < limit ==> forall|k: Seq<char>| #[trigger] m.contains_key(k) ==> has_path(r, k)
    &&& forall|a: int, b: int|
        0 <= a < b < r.len() ==> rank(by_count, stat_value(r[a])) >= rank(by_count, stat_value(r[b]))
    &&& forall|k: Seq<char>, i: int|
        #[trigger] m.contains_key(k) && !has_path(r, k) && 0 <= i < r.len() ==> rank(by_count, m[k])
            <= rank(by_count, #[trigger] stat_value(r[i]))
}

proof fn lemma_stats_map(s: Seq<AppStat>)
    requires
        distinct_paths(s),
    ensures
        forall|i: int|
            0 <= i < s.len() ==> #[trigger] stats_map(s).contains_key(s[i].app_path@) && stats_map(
                s,
            )[s[i].app_path@] == stat_value(s[i]),
        forall|k: Seq<char>| #[trigger] stats_map(s).contains_key(k) ==> has_path(s, k),
    decreases s.len(),
{
    if s.len() > 0 {
        let p = s.drop_last();
        lemma_stats_map(p);
        assert forall|i: int| 0 <= i < s.len() implies #[trigger] stats_map(s).contains_key(
            s[i].app_path@,
        ) && stats_map(s)[s[i].app_path@] == stat_value(s[i]) by {
            if i < s.len() - 1 {
                assert(p[i] == s[i]);
                assert(stats_map(p).contains_key(p[i].app_path@));
            }
        }
        assert forall|k: Seq<char>| #[trigger] stats_map(s).contains_key(k) implies has_path(s, k) by {
            if k != s.last().app_path@ {
                assert(stats_map(p).contains_key(k));
                assert(has_path(p, k));
                let i = choose|i: int| 0 <= i < p.len() && p[i].app_path@ == k;
                assert(s[i] == p[i]);
            } else {
                assert(s[s.len() - 1].app_path@ == k);
            }
        }
    }
}

proof fn lemma_stats_map_update(s: Seq<AppStat>, i: int, e: AppStat)
    requires
        distinct_paths(s),
        0 <= i < s.len(),
        e.app_path@ == s[i].app_path@,
    ensures
        distinct_paths(s.update(i, e)),
        stats_map(s.update(i, e)) == stats_map(s).insert(e.app_path@, stat_value(e)),
    decreases s.len(),
{
    let t = s.update(i, e);
    assert(distinct_paths(t)) by {
        assert forall|a: int, b: int| 0 <= a < b < t.len() implies t[a].app_path@ != t[b].app_path@ by {
            assert(t[a].app_path@ == s[a].app_path@);
            assert(t[b].app_path@ == s[b].app_path@);
        }
    }
    if i == s.len() - 1 {
        assert(t.drop_last() =~= s.drop_last());
        assert(stats_map(t) =~= stats_map(s).insert(e.app_path@, stat_value(e)));
    } else {
        let p = s.drop_last();
        lemma_stats_map_update(p, i, e);
        assert(t.drop_last() =~= p.update(i, e));
        assert(t.last() == s.last());
        assert(s.last().app_path@ != e.app_path@) by {
            assert(s[i].app_path@ != s[s.len() - 1].app_path@);
        }
        assert(stats_map(t) =~= stats_map(s).insert(e.app_path@, stat_value(e)));
    }
}

/// A launch adds one to its path's count, stamps it with the launch time,
/// and leaves every other path as it was.
pub proof fn law_launch_counted(
    m: Map<Seq<char>, (u64, i64, Seq<char>)>,
    key: Seq<char>,
    name: Seq<char>,
    ts: i64,
    other: Seq<char>,
)
    requires
        m.contains_key(key) ==> m[key].0 < u64::MAX,
    ensures
        ({
            let after = m.insert(key, launched(m, key, name, ts));
            &&& after[key].0 == (if m.contains_key(key) { m[key].0 + 1 } else { 1 })
            &&& after[key].1 == ts
            &&& (other != key ==> (after.contains_key(other) == m.contains_key(other) && (m.contains_key(other)
                ==> after[other] == m[other])))
        }),
{
}

/// Launch statistics, keyed by application path.
pub struct StatsRepo {
    stats: Vec<AppStat>,
}

impl View for StatsRepo {
    type V = Map<Seq<char>, (u64, i64, Seq<char>)>;

    closed spec fn view(&self) -> Map<Seq<char>, (u64, i64, Seq<char>)> {
        stats_map(self.stats@)
    }
}

impl StatsRepo {
    /// The store keeps one entry per path.
    pub closed spec fn wf(&self) -> bool {
        distinct_paths(self.stats@)
    }

    /// No statistics yet.
    pub fn new() -> (r: Self)
        ensures
            r.wf(),
            r@ == Map::<Seq<char>, (u64, i64, Seq<char>)>::empty(),
    {
        StatsRepo { stats: Vec::new() }
    }

    fn find(&self, key: &str) -> (r: Option<usize>)
        requires
            self.wf(),
        ensures
            match r {
                Some(i) => i < self.stats@.len() && self.stats@[i as int].app_path@ == key@,
                None => !self@.contains_key(key@),
            },
    {
        let mut i: usize = 0;
        while i < self.stats.len()
            invariant
                i <= self.stats@.len(),
                forall|j: int| 0 <= j < i ==> self.stats@[j].app_path@ != key@,
            decreases self.stats@.len() - i,
        {
            if same_str(self.stats[i].app_path.as_str(), key) {
                return Some(i);
            }
            i += 1;
        }
        proof {
            lemma_stats_map(self.stats@);
            if self@.contains_key(key@) {
                assert(has_path(self.stats@, key@));
            }
        }
        None
    }

    /// Counts a launch of `key` at time `ts`; a non-empty `name` replaces the
    /// stored one.
    pub fn record_launch(&mut self, key: &str, name: &str, ts: i64)
        requires
            old(self).wf(),
            old(self)@.contains_key(key@) ==> old(self)@[key@].0 < u64::MAX,
        ensures
            final(self).wf(),
            final(self)@ == old(self)@.insert(key@, launched(old(self)@, key@, name@, ts)),
    {
        proof {
            lemma_stats_map(self.stats@);
        }
        match self.find(key) {
            Some(i) => {
                proof {
                    assert(stats_map(self.stats@).contains_key(self.stats@[i as int].app_path@));
                }
                let old_stat = self.stats[i].duplicate();
                let new_name = if !name.is_empty() { name.to_string() } else { old_stat.name };
                let e = AppStat {
                    app_path: old_stat.app_path,
                    launch_count: old_stat.launch_count + 1,
                    last_launched: ts,
                    name: new_name,
                };
                proof {
                    lemma_stats_map_update(self.stats@, i as int, e);
                }
                self.stats.set(i, e);
            },
            None => {
                let e = AppStat {
                    app_path: key.to_string(),
                    launch_count: 1,
                    last_launched: ts,
                    name: name.to_string(),
                };
                let ghost before = self.stats@;
                self.stats.push(e);
                proof {
                    assert(self.stats@.drop_last() =~= before);
                    assert forall|a: int, b: int| 0 <= a < b < self.stats@.len() implies self.stats@[a].app_path@
                        != self.stats@[b].app_path@ by {
                        if b == self.stats@.len() - 1 {
                            assert(before[a] == self.stats@[a]);
                            assert(stats_map(before).contains_key(before[a].app_path@));
                        } else {
                            assert(before[a] == self.stats@[a] && before[b] == self.stats@[b]);
                        }
                    }
                }
            },
        }
    }

    /// The statistics of `key`, if it was ever launched.
    pub fn get(&self, key: &str) -> (r: Option<AppStat>)
        requires
            self.wf(),
        ensures
            match r {
                Some(a) => self@.contains_key(key@) && a.app_path@ == key@ && stat_value(a)
                    == self@[key@],
                None => !self@.contains_key(key@),
            },
    {
        proof {
            lemma_stats_map(self.stats@);
        }
        match self.find(key) {
            Some(i) => {
                proof {
                    assert(stats_map(self.stats@).contains_key(self.stats@[i as int].app_path@));
                }
                Some(self.stats[i].duplicate())
            },
            None => None,
        }
    }

    fn ranked(&self, by_count: bool, limit: usize) -> (r: Vec<AppStat>)
        requires
            self.wf(),
        ensures
            top_ranked(self@, r@, by_count, limit as nat),
            limit >= self.stats@.len() ==> forall|k: Seq<char>| #[trigger] self@.contains_key(k)
                ==> has_path(r@, k),
    {
        let s = &self.stats;
        let n = s.len();
        let mut keys: Vec<i128> = Vec::new();
        let mut k: usize = 0;
        while k < n
            invariant
                n == s@.len(),
                k <= n,
                keys@.len() == k,
                forall|m: int| 0 <= m < k ==> #[trigger] keys@[m] == rank(by_count, stat_value(s@[m])),
            decreases n - k,
        {
            if by_count {
                keys.push(s[k].launch_count as i128);
            } else {
                keys.push(s[k].last_launched as i128);
            }
            k += 1;
        }
        let order = order_desc(keys.as_slice());
        let take = if limit < n { limit } else { n };
        let mut r: Vec<AppStat> = Vec::new();
        let mut q: usize = 0;
        while q < take
            invariant
                n == s@.len(),
                take <= n,
                take <= limit,
                desc_order(keys@, order@),
                keys@.len() == n,
                q <= take,
                r@.len() == q,
                forall|m: int|
                    0 <= m < q ==> #[trigger] r@[m].app_path@ == s@[order@[m] as int].app_path@
                        && stat_value(r@[m]) == stat_value(s@[order@[m] as int]),
            decreases take - q,
        {
            r.push(s[order[q]].duplicate());
            q += 1;
        }
        proof {
            let m = self@;
            let rs = r@;
            lemma_stats_map(s@);
            assert forall|i: int| 0 <= i < rs.len() implies m.contains_key(#[trigger] rs[i].app_path@)
                && m[rs[i].app_path@] == stat_value(rs[i]) by {
                let j = order@[i] as int;
                assert(s@[j].app_path@ == rs[i].app_path@);
                assert(stats_map(s@).contains_key(s@[j].app_path@));
            }
            assert forall|a: int, b: int| 0 <= a < b < rs.len() implies rs[a].app_path@
                != rs[b].app_path@ by {
                assert(order@[a] != order@[b]);
                if order@[a] < order@[b] {
                    assert(s@[order@[a] as int].app_path@ != s@[order@[b] as int].app_path@);
                } else {
                    assert(s@[order@[b] as int].app_path@ != s@[order@[a] as int].app_path@);
                }
            }
            assert forall|a: int, b: int| 0 <= a < b < rs.len() implies rank(
                by_count,
                stat_value(rs[a]),
            ) >= rank(by_count, stat_value(rs[b])) by {
                assert(desc_before(keys@, order@[a] as int, order@[b] as int));
                assert(keys@[order@[a] as int] == rank(by_count, stat_value(s@[order@[a] as int])));
                assert(keys@[order@[b] as int] == rank(by_count, stat_value(s@[order@[b] as int])));
            }
            assert forall|key: Seq<char>, i: int|
                #[trigger] m.contains_key(key) && !has_path(rs, key) && 0 <= i < rs.len() implies rank(
                by_count,
                m[key],
            ) <= rank(by_count, #[trigger] stat_value(rs[i])) by {
                assert(has_path(s@, key));
                let j = choose|j: int| 0 <= j < s@.len() && s@[j].app_path@ == key;
                assert(listed(order@, j));
                let p = choose|p: int| 0 <= p < order@.len() && order@[p] == j;
                if p < rs.len() {
                    assert(rs[p].app_path@ == key);
                }
                assert(desc_before(keys@, order@[i] as int, order@[p] as int));
                assert(keys@[order@[i] as int] == rank(by_count, stat_value(s@[order@[i] as int])));
                assert(keys@[j] == rank(by_count, stat_value(s@[j])));
            }
            if take == n {
                assert forall|key: Seq<char>| #[trigger] m.contains_key(key) implies has_path(rs, key) by {
                    assert(has_path(s@, key));
                    let j = choose|j: int| 0 <= j < s@.len() && s@[j].app_path@ == key;
                    assert(listed(order@, j));
                    let p = choose|p: int| 0 <= p < order@.len() && order@[p] == j;
                    assert(rs[p].app_path@ == key);
                }
            }
        }
        r
    }

    /// Every entry, the most recently launched first.
    pub fn list(&self) -> (r: Vec<AppStat>)
        requires
            self.wf(),
        ensures
            lists_entries(self@, r@),
            forall|k: Seq<char>| #[trigger] self@.contains_key(k) ==> has_path(r@, k),
            forall|a: int, b: int|
                0 <= a < b < r@.len() ==> r@[a].last_launched >= r@[b].last_launched,
    {
        let r = self.ranked(false, self.stats.len());
        proof {
            assert forall|a: int, b: int| 0 <= a < b < r@.len() implies r@[a].last_launched
                >= r@[b].last_launched by {
                assert(rank(false, stat_value(r@[a])) >= rank(false, stat_value(r@[b])));
            }
        }
        r
    }

    /// The `limit` most launched entries, most launched first.
    pub fn top_by_count(&self, limit: usize) -> (r: Vec<AppStat>)
        requires
            self.wf(),
        ensures
            top_ranked(self@, r@, true, limit as nat),
    {
        self.ranked(true, limit)
    }

    /// The `limit` most recently launched entries, latest first.
    pub fn top_by_recent(&self, limit: usize) -> (r: Vec<AppStat>)
        requires
            self.wf(),
        ensures
            top_ranked(self@, r@, false, limit as nat),
    {
        self.ranked(false, limit)
    }

    /// The last `last_n` launches, latest first.
    pub fn search_history(&self, last_n: usize) -> (r: Vec<AppStat>)
        requires
            self.wf(),
        ensures
            top_ranked(self@, r@, false, last_n as nat),
    {
        self.ranked(false, last_n)
    }
}

impl Default for StatsRepo {
    /// No statistics yet.
    fn default() -> (r: Self)
        ensures
            r.wf(),
            r@ == Map::<Seq<char>, (u64, i64, Seq<char>)>::empty(),
    {
        StatsRepo::new()
    }
}

} // verus!
