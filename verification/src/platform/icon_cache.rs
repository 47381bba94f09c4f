//! The icon cache and its single-flight bookkeeping: at most one extraction
//! per key is under way, and the others wait for its result.  Extraction,
//! waiting and the file system stay with the caller.

use vstd::prelude::*;
use crate::text::{lit, same_str};

verus! {

/// A cached icon: the PNG bytes, or `None` when extraction failed.
pub open spec fn icon_bytes(v: Option<Vec<u8>>) -> Option<Seq<u8>> {
    match v {
        Some(b) => Some(b@),
        None => None,
    }
}

/// The icons held by a list of entries with distinct keys.
pub open spec fn icon_map(s: Seq<(String, Option<Vec<u8>>)>) -> Map<Seq<char>, Option<Seq<u8>>>
    decreases s.len(),
{
    if s.len() == 0 {
        Map::empty()
    } else {
        icon_map(s.drop_last()).insert(s.last().0@, icon_bytes(s.last().1))
    }
}

/// No two entries have the same key.
pub open spec fn distinct_keys(s: Seq<(String, Option<Vec<u8>>)>) -> bool {
    forall|a: int, b: int| 0 <= a < b < s.len() ==> s[a].0@ != s[b].0@
}

/// The keys listed in `s`.
pub open spec fn key_set(s: Seq<String>) -> Set<Seq<char>> {
    Set::new(|k: Seq<char>| exists|i: int| 0 <= i < s.len() && s[i]@ == k)
}

proof fn lemma_icon_map(s: Seq<(String, Option<Vec<u8>>)>)
    requires
        distinct_keys(s),
    ensures
        forall|i: int|
            0 <= i < s.len() ==> #[trigger] icon_map(s).contains_key(s[i].0@) && icon_map(s)[s[i].0@]
                == icon_bytes(s[i].1),
        forall|k: Seq<char>|
            #[trigger] icon_map(s).contains_key(k) ==> exists|i: int| 0 <= i < s.len() && s[i].0@ == k,
    decreases s.len(),
{
    if s.len() > 0 {
        let p = s.drop_last();
        lemma_icon_map(p);
        assert forall|i: int| 0 <= i < s.len() implies #[trigger] icon_map(s).contains_key(s[i].0@)
            && icon_map(s)[s[i].0@] == icon_bytes(s[i].1) by {
            if i < s.len() - 1 {
                assert(p[i] == s[i]);
                assert(icon_map(p).contains_key(p[i].0@));
            }
        }
        assert forall|k: Seq<char>| #[trigger] icon_map(s).contains_key(k) implies exists|i: int|
            0 <= i < s.len() && s[i].0@ == k by {
            if k != s.last().0@ {
                assert(icon_map(p).contains_key(k));
                let i = choose|i: int| 0 <= i < p.len() && p[i].0@ == k;
                assert(s[i] == p[i]);
            } else {
                assert(s[s.len() - 1].0@ == k);
            }
        }
    }
}

proof fn lemma_icon_map_push(s: Seq<(String, Option<Vec<u8>>)>, e: (String, Option<Vec<u8>>))
    requires
        distinct_keys(s),
        !icon_map(s).contains_key(e.0@),
    ensures
        distinct_keys(s.push(e)),
        icon_map(s.push(e)) == icon_map(s).insert(e.0@, icon_bytes(e.1)),
{
    lemma_icon_map(s);
    let t = s.push(e);
    assert(t.drop_last() =~= s);
    assert forall|a: int, b: int| 0 <= a < b < t.len() implies t[a].0@ != t[b].0@ by {
        if b == t.len() - 1 {
            assert(t[a] == s[a]);
            assert(icon_map(s).contains_key(s[a].0@));
        } else {
            assert(t[a] == s[a] && t[b] == s[b]);
        }
    }
}

fn copy_bytes(b: &Vec<u8>) -> (r: Vec<u8>)
    ensures
        r@ == b@,
{
    let mut r: Vec<u8> = Vec::new();
    let mut i: usize = 0;
    while i < b.len()
        invariant
            i <= b@.len(),
            r@ == b@.take(i as int),
        decreases b@.len() - i,
    {
        r.push(b[i]);
        assert(b@.take(i + 1) =~= b@.take(i as int).push(b@[i as int]));
        i += 1;
    }
    assert(b@.take(i as int) =~= b@);
    r
}

fn copy_icon(v: &Option<Vec<u8>>) -> (r: Option<Vec<u8>>)
    ensures
        icon_bytes(r) == icon_bytes(*v),
{
    match v {
        Some(b) => Some(copy_bytes(b)),
        None => None,
    }
}

/// What a request for an icon does next, once the cache was consulted.
#[derive(Debug)]
pub enum IconStep {
    /// The cache holds the answer.
    Ready(Option<Vec<u8>>),
    /// Extract the icon, then `store` it.
    Extract,
    /// Another request is extracting it: sleep 10 ms and ask again.
    Sleep,
}

/// How long a request waits for another one's extraction before extracting
/// itself, in milliseconds.
pub const ICON_WAIT_LIMIT_MS: u64 = 3000;

/// The icon cache: icons by key, and the keys being extracted.
pub struct IconCache {
    entries: Vec<(String, Option<Vec<u8>>)>,
    in_flight: Vec<String>,
}

impl IconCache {
    /// The cached icons by key.
    pub closed spec fn icons(&self) -> Map<Seq<char>, Option<Seq<u8>>> {
        icon_map(self.entries@)
    }

    /// The keys whose extraction is under way.
    pub closed spec fn extracting(&self) -> Set<Seq<char>> {
        key_set(self.in_flight@)
    }

    /// The cache keeps one icon per key.
    pub closed spec fn wf(&self) -> bool {
        distinct_keys(self.entries@)
    }

    /// An empty cache with nothing under way.
    pub fn new() -> (r: Self)
        ensures
            r.wf(),
            r.icons() == Map::<Seq<char>, Option<Seq<u8>>>::empty(),
            r.extracting() == Set::<Seq<char>>::empty(),
    {
        let r = IconCache { entries: Vec::new(), in_flight: Vec::new() };
        assert(r.extracting() =~= Set::<Seq<char>>::empty());
        r
    }

    fn position(&self, key: &str) -> (r: Option<usize>)
        requires
            self.wf(),
        ensures
            match r {
                Some(i) => i < self.entries@.len() && self.entries@[i as int].0@ == key@,
                None => !self.icons().contains_key(key@),
            },
    {
        let mut i: usize = 0;
        while i < self.entries.len()
            invariant
                i <= self.entries@.len(),
                forall|j: int| 0 <= j < i ==> self.entries@[j].0@ != key@,
            decreases self.entries@.len() - i,
        {
            if same_str(self.entries[i].0.as_str(), key) {
                return Some(i);
            }
            i += 1;
        }
        proof {
            lemma_icon_map(self.entries@);
        }
        None
    }

    /// The cached icon of `key`, if the cache holds one.
    pub fn lookup(&self, key: &str) -> (r: Option<Option<Vec<u8>>>)
        requires
            self.wf(),
        ensures
            match r {
                Some(v) => self.icons().contains_key(key@) && icon_bytes(v) == self.icons()[key@],
                None => !self.icons().contains_key(key@),
            },
    {
        match self.position(key) {
            Some(i) => {
                proof {
                    lemma_icon_map(self.entries@);
                    assert(icon_map(self.entries@).contains_key(self.entries@[i as int].0@));
                }
                Some(copy_icon(&self.entries[i].1))
            },
            None => None,
        }
    }

    fn flight_position(&self, key: &str) -> (r: Option<usize>)
        ensures
            match r {
                Some(i) => i < self.in_flight@.len() && self.in_flight@[i as int]@ == key@,
                None => !self.extracting().contains(key@),
            },
    {
        let mut i: usize = 0;
        while i < self.in_flight.len()
            invariant
                i <= self.in_flight@.len(),
                forall|j: int| 0 <= j < i ==> self.in_flight@[j]@ != key@,
            decreases self.in_flight@.len() - i,
        {
            if same_str(self.in_flight[i].as_str(), key) {
                return Some(i);
            }
            i += 1;
        }
        None
    }

    /// Claims the extraction of `key`: true when no other request had
    /// claimed it, and the key is under way afterwards either way.
    pub fn begin(&mut self, key: &str) -> (first: bool)
        requires
            old(self).wf(),
        ensures
            final(self).wf(),
            first == !old(self).extracting().contains(key@),
            final(self).extracting() == old(self).extracting().insert(key@),
            final(self).icons() == old(self).icons(),
    {
        match self.flight_position(key) {
            Some(i) => {
                proof {
                    assert(self.extracting().contains(key@));
                    assert(self.extracting().insert(key@) =~= self.extracting());
                }
                false
            },
            None => {
                let ghost before = self.in_flight@;
                self.in_flight.push(lit(key));
                proof {
                    let after = self.in_flight@;
                    assert forall|k: Seq<char>| key_set(after).contains(k) == key_set(before).insert(
                        key@,
                    ).contains(k) by {
                        if key_set(before).contains(k) {
                            let i = choose|i: int| 0 <= i < before.len() && before[i]@ == k;
                            assert(after[i] == before[i]);
                        }
                        if k == key@ {
                            assert(after[before.len() as int]@ == k);
                        }
                        if key_set(after).contains(k) {
                            let i = choose|i: int| 0 <= i < after.len() && after[i]@ == k;
                            if i < before.len() {
                                assert(after[i] == before[i]);
                            }
                        }
                    }
                    assert(key_set(after) =~= key_set(before).insert(key@));
                }
                true
            },
        }
    }

    /// Stores the result of an extraction of `key` and ends it.
    pub fn store(&mut self, key: &str, icon: Option<Vec<u8>>)
        requires
            old(self).wf(),
        ensures
            final(self).wf(),
            final(self).icons() == old(self).icons().insert(key@, icon_bytes(icon)),
            final(self).extracting() == old(self).extracting().remove(key@),
    {
        let ghost value = icon_bytes(icon);
        let mut entries: Vec<(String, Option<Vec<u8>>)> = Vec::new();
        std::mem::swap(&mut entries, &mut self.entries);
        let ghost all = entries@;
        let n = entries.len();
        let mut kept: Vec<(String, Option<Vec<u8>>)> = Vec::new();
        let mut i: usize = 0;
        for e in it: entries.into_iter()
            invariant
                it.seq() == all,
                distinct_keys(all),
                i == it.index(),
                i <= all.len(),
                all.len() == n,
                distinct_keys(kept@),
                icon_map(kept@) == icon_map(all.take(i as int)).remove(key@),
                forall|j: int| 0 <= j < kept@.len() ==> kept@[j].0@ != key@,
        {
            proof {
                lemma_icon_map(all.take(i as int));
                assert(all.take(i + 1).drop_last() =~= all.take(i as int));
                assert(all.take(i + 1).last() == e);
            }
            if !same_str(e.0.as_str(), key) {
                let ghost before = kept@;
                proof {
                    assert(!icon_map(before).contains_key(e.0@)) by {
                        if icon_map(before).contains_key(e.0@) {
                            lemma_icon_map(before);
                            let j = choose|j: int| 0 <= j < before.len() && before[j].0@ == e.0@;
                            assert(icon_map(all.take(i as int)).contains_key(e.0@));
                            lemma_icon_map(all.take(i as int));
                            let q = choose|q: int| 0 <= q < all.take(i as int).len() && all.take(i as int)[q].0@
                                == e.0@;
                            assert(all[q].0@ == all[i as int].0@);
                        }
                    }
                    lemma_icon_map_push(before, e);
                }
                kept.push(e);
                proof {
                    assert(icon_map(kept@) =~= icon_map(all.take(i + 1)).remove(key@));
                }
            } else {
                proof {
                    assert(icon_map(kept@) =~= icon_map(all.take(i + 1)).remove(key@));
                }
            }
            i += 1;
        }
        proof {
            assert(all.take(all.len() as int) =~= all);
            assert(!icon_map(kept@).contains_key(key@));
        }
        let ghost before_push = kept@;
        kept.push((lit(key), icon));
        proof {
            lemma_icon_map_push(before_push, kept@.last());
            assert(kept@.drop_last() =~= before_push);
            assert(icon_map(kept@) =~= icon_map(all).insert(key@, value));
        }
        self.entries = kept;
        self.end_flight(key);
    }

    fn end_flight(&mut self, key: &str)
        ensures
            final(self).extracting() == old(self).extracting().remove(key@),
            final(self).entries@ == old(self).entries@,
    {
        let mut names: Vec<String> = Vec::new();
        std::mem::swap(&mut names, &mut self.in_flight);
        let ghost all = names@;
        let mut kept: Vec<String> = Vec::new();
        for n in it: names.into_iter()
            invariant
                it.seq() == all,
                key_set(kept@) == key_set(all.take(it.index() as int)).remove(key@),
        {
            let ghost k = it.index() as int;
            let ghost before = kept@;
            assert(all.take(k + 1).drop_last() =~= all.take(k));
            assert(all[k] == n);
            if !same_str(n.as_str(), key) {
                kept.push(n);
            }
            proof {
                let after = kept@;
                assert forall|x: Seq<char>| key_set(after).contains(x) == key_set(all.take(k + 1)).remove(
                    key@,
                ).contains(x) by {
                    let t = all.take(k + 1);
                    if key_set(after).contains(x) {
                        let i = choose|i: int| 0 <= i < after.len() && after[i]@ == x;
                        if i < before.len() {
                            assert(after[i] == before[i]);
                            assert(key_set(before).contains(x));
                            let j = choose|j: int| 0 <= j < all.take(k).len() && all.take(k)[j]@ == x;
                            assert(t[j] == all.take(k)[j]);
                        } else {
                            assert(t[k]@ == x);
                        }
                    }
                    if key_set(t).remove(key@).contains(x) {
                        let j = choose|j: int| 0 <= j < t.len() && t[j]@ == x;
                        if j < k {
                            assert(all.take(k)[j] == t[j]);
                            assert(key_set(before).contains(x));
                            let i = choose|i: int| 0 <= i < before.len() && before[i]@ == x;
                            assert(after[i] == before[i]);
                        } else {
                            assert(after[before.len() as int]@ == x);
                        }
                    }
                }
                assert(key_set(after) =~= key_set(all.take(k + 1)).remove(key@));
            }
        }
        assert(all.take(all.len() as int) =~= all);
        self.in_flight = kept;
    }

    /// What a request for `key` does next after waiting `waited_ms`
    /// milliseconds for another request's extraction: use the cached icon
    /// once there is one, extract itself after the wait limit, else sleep.
    pub fn wait_step(&self, key: &str, waited_ms: u64) -> (r: IconStep)
        requires
            self.wf(),
        ensures
            self.icons().contains_key(key@) ==> (r matches IconStep::Ready(v) && icon_bytes(v)
                == self.icons()[key@]),
            !self.icons().contains_key(key@) && waited_ms >= ICON_WAIT_LIMIT_MS ==> r is Extract,
            !self.icons().contains_key(key@) && waited_ms < ICON_WAIT_LIMIT_MS ==> r is Sleep,
    {
        match self.lookup(key) {
            Some(v) => IconStep::Ready(v),
            None => if waited_ms >= ICON_WAIT_LIMIT_MS {
                IconStep::Extract
            } else {
                IconStep::Sleep
            },
        }
    }

    /// What a fresh request for `key` does: use the cached icon, or claim the
    /// extraction (`Extract`), or wait for the request that claimed it
    /// (`Sleep`).
    pub fn request(&mut self, key: &str) -> (r: IconStep)
        requires
            old(self).wf(),
        ensures
            final(self).wf(),
            final(self).icons() == old(self).icons(),
            old(self).icons().contains_key(key@) ==> (r matches IconStep::Ready(v) && icon_bytes(v)
                == old(self).icons()[key@]) && final(self).extracting() == old(self).extracting(),
            !old(self).icons().contains_key(key@) ==> final(self).extracting() == old(
                self,
            ).extracting().insert(key@) && (r is Extract <==> !old(self).extracting().contains(key@))
                && (r is Sleep <==> old(self).extracting().contains(key@)),
    {
        match self.lookup(key) {
            Some(v) => IconStep::Ready(v),
            None => if self.begin(key) {
                IconStep::Extract
            } else {
                IconStep::Sleep
            },
        }
    }

    /// Every cached icon with its key, each key once.
    pub fn cache_snapshot(&self) -> (r: Vec<(String, Option<Vec<u8>>)>)
        requires
            self.wf(),
        ensures
            distinct_keys(r@),
            icon_map(r@) == self.icons(),
    {
        let mut r: Vec<(String, Option<Vec<u8>>)> = Vec::new();
        let mut i: usize = 0;
        while i < self.entries.len()
            invariant
                i <= self.entries@.len(),
                distinct_keys(self.entries@),
                r@.len() == i,
                forall|j: int|
                    0 <= j < i ==> #[trigger] r@[j].0@ == self.entries@[j].0@ && icon_bytes(r@[j].1)
                        == icon_bytes(self.entries@[j].1),
                distinct_keys(r@),
                icon_map(r@) == icon_map(self.entries@.take(i as int)),
            decreases self.entries@.len() - i,
        {
            let ghost before = r@;
            let e = (lit(self.entries[i].0.as_str()), copy_icon(&self.entries[i].1));
            r.push(e);
            proof {
                assert(r@.drop_last() =~= before);
                assert(self.entries@.take(i + 1).drop_last() =~= self.entries@.take(i as int));
                assert forall|a: int, b: int| 0 <= a < b < r@.len() implies r@[a].0@ != r@[b].0@ by {
                    assert(r@[a].0@ == self.entries@[a].0@);
                    assert(r@[b].0@ == self.entries@[b].0@);
                }
                assert(icon_map(r@) =~= icon_map(self.entries@.take(i + 1)));
            }
            i += 1;
        }
        assert(self.entries@.take(i as int) =~= self.entries@);
        r
    }

    /// Forgets every cached icon; extractions under way are kept.
    pub fn clear_cache_for_tests(&mut self)
        ensures
            final(self).wf(),
            final(self).icons() == Map::<Seq<char>, Option<Seq<u8>>>::empty(),
            final(self).extracting() == old(self).extracting(),
    {
        self.entries = Vec::new();
    }
}

/// Single flight: while a key's extraction is under way, a request for it
/// waits; once the result is stored, the key is no longer under way and the
/// stored icon is what every later request reads.  Here `claimed` is the
/// cache after the first request for an uncached `key`, and `stored` the
/// cache after its result `icon` was stored.
pub proof fn law_single_flight(
    before: IconCache,
    claimed: IconCache,
    stored: IconCache,
    key: Seq<char>,
    icon: Option<Seq<u8>>,
)
    requires
        !before.icons().contains_key(key),
        claimed.icons() == before.icons(),
        claimed.extracting() == before.extracting().insert(key),
        stored.icons() == claimed.icons().insert(key, icon),
        stored.extracting() == claimed.extracting().remove(key),
    ensures
        claimed.extracting().contains(key),
        !claimed.icons().contains_key(key),
        stored.icons().contains_key(key),
        stored.icons()[key] == icon,
        !stored.extracting().contains(key),
        forall|k: Seq<char>| k != key ==> (stored.icons().contains_key(k) == before.icons().contains_key(k)),
{
}

/// The paths to extract an icon from, in order, for `path`: a shortcut
/// whose target was resolved and exists yields its target and then itself;
/// anything else only itself.
pub fn extraction_paths(path: &str, is_shortcut: bool, target: Option<&str>) -> (r: Vec<String>)
    ensures
        match target {
            Some(t) if is_shortcut => r@.len() == 2 && r@[0]@ == t@ && r@[1]@ == path@,
            _ => r@.len() == 1 && r@[0]@ == path@,
        },
{
    let mut r: Vec<String> = Vec::new();
    if is_shortcut {
        if let Some(t) = target {
            r.push(lit(t));
        }
    }
    r.push(lit(path));
    r
}

} // verus!
