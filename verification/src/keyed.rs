//! A small map from text keys to plain values, kept as a list with one
//! entry per key.

use vstd::prelude::*;
use crate::text::{lit, same_str};

verus! {

/// The values held by a list of entries with distinct keys, by key.
pub open spec fn keyed_map<V>(s: Seq<(String, V)>) -> Map<Seq<char>, V>
    decreases s.len(),
{
    if s.len() == 0 {
        Map::empty()
    } else {
        keyed_map(s.drop_last()).insert(s.last().0@, s.last().1)
    }
}

/// No two entries have the same key.
pub open spec fn keys_distinct<V>(s: Seq<(String, V)>) -> bool {
    forall|a: int, b: int| 0 <= a < b < s.len() ==> s[a].0@ != s[b].0@
}

proof fn lemma_keyed_map<V>(s: Seq<(String, V)>)
    requires
        keys_distinct(s),
    ensures
        forall|i: int|
            0 <= i < s.len() ==> #[trigger] keyed_map(s).contains_key(s[i].0@) && keyed_map(s)[s[i].0@]
                == s[i].1,
        forall|k: Seq<char>|
            #[trigger] keyed_map(s).contains_key(k) ==> exists|i: int| 0 <= i < s.len() && s[i].0@ == k,
    decreases s.len(),
{
    if s.len() > 0 {
        let p = s.drop_last();
        lemma_keyed_map(p);
        assert forall|i: int| 0 <= i < s.len() implies #[trigger] keyed_map(s).contains_key(s[i].0@)
            && keyed_map(s)[s[i].0@] == s[i].1 by {
            if i < s.len() - 1 {
                assert(p[i] == s[i]);
                assert(keyed_map(p).contains_key(p[i].0@));
            }
        }
        assert forall|k: Seq<char>| #[trigger] keyed_map(s).contains_key(k) implies exists|i: int|
            0 <= i < s.len() && s[i].0@ == k by {
            if k != s.last().0@ {
                assert(keyed_map(p).contains_key(k));
                let i = choose|i: int| 0 <= i < p.len() && p[i].0@ == k;
                assert(s[i] == p[i]);
            } else {
                assert(s[s.len() - 1].0@ == k);
            }
        }
    }
}

proof fn lemma_keyed_map_update<V>(s: Seq<(String, V)>, i: int, e: (String, V))
    requires
        keys_distinct(s),
        0 <= i < s.len(),
        e.0@ == s[i].0@,
    ensures
        keys_distinct(s.update(i, e)),
        keyed_map(s.update(i, e)) == keyed_map(s).insert(e.0@, e.1),
    decreases s.len(),
{
    let t = s.update(i, e);
    assert forall|a: int, b: int| 0 <= a < b < t.len() implies t[a].0@ != t[b].0@ by {
        assert(t[a].0@ == s[a].0@);
        assert(t[b].0@ == s[b].0@);
    }
    if i == s.len() - 1 {
        assert(t.drop_last() =~= s.drop_last());
        assert(keyed_map(t) =~= keyed_map(s).insert(e.0@, e.1));
    } else {
        let p = s.drop_last();
        lemma_keyed_map_update(p, i, e);
        assert(t.drop_last() =~= p.update(i, e));
        assert(s[i].0@ != s[s.len() - 1].0@);
        assert(keyed_map(t) =~= keyed_map(s).insert(e.0@, e.1));
    }
}

/// What is read back under a key is what was last put there, and putting a
/// value under one key leaves the others as they were.
pub proof fn law_read_after_write<V>(m: Map<Seq<char>, V>, key: Seq<char>, value: V, other: Seq<char>)
    ensures
        m.insert(key, value).contains_key(key),
        m.insert(key, value)[key] == value,
        other != key ==> (m.insert(key, value).contains_key(other) == m.contains_key(other)),
        other != key && m.contains_key(other) ==> m.insert(key, value)[other] == m[other],
{
}

/// Values of type `V` by text key.
pub struct KeyedVec<V> {
    entries: Vec<(String, V)>,
}

impl<V> View for KeyedVec<V> {
    type V = Map<Seq<char>, V>;

    closed spec fn view(&self) -> Map<Seq<char>, V> {
        keyed_map(self.entries@)
    }
}

impl<V: Copy> KeyedVec<V> {
    /// One entry per key.
    pub closed spec fn wf(&self) -> bool {
        keys_distinct(self.entries@)
    }

    /// No entry.
    pub fn new() -> (r: Self)
        ensures
            r.wf(),
            r@ == Map::<Seq<char>, V>::empty(),
    {
        KeyedVec { entries: Vec::new() }
    }

    fn position(&self, key: &str) -> (r: Option<usize>)
        requires
            self.wf(),
        ensures
            match r {
                Some(i) => i < self.entries@.len() && self.entries@[i as int].0@ == key@,
                None => !self@.contains_key(key@),
            },
    {
        let mut i: usize = 0;
        while i < self.entries.len()
            invariant
                i <= self.entries@.len(),
                forall|j: int| 0 <= j < i ==> self.entries@[j].0@ != key@,
            decreases self.entries@.len() - i,
        {
            if same_str(self.entries[i].0.as_str(), key) {
                return Some(i);
            }
            i += 1;
        }
        proof {
            lemma_keyed_map(self.entries@);
        }
        None
    }

    /// The value under `key`, if any.
    pub fn get(&self, key: &str) -> (r: Option<V>)
        requires
            self.wf(),
        ensures
            r == (if self@.contains_key(key@) { Some(self@[key@]) } else { None }),
    {
        match self.position(key) {
            Some(i) => {
                proof {
                    lemma_keyed_map(self.entries@);
                    assert(keyed_map(self.entries@).contains_key(self.entries@[i as int].0@));
                }
                Some(self.entries[i].1)
            },
            None => None,
        }
    }

    /// Puts `value` under `key`, replacing what was there.
    pub fn insert(&mut self, key: &str, value: V)
        requires
            old(self).wf(),
        ensures
            final(self).wf(),
            final(self)@ == old(self)@.insert(key@, value),
    {
        match self.position(key) {
            Some(i) => {
                let e = (lit(key), value);
                proof {
                    lemma_keyed_map_update(self.entries@, i as int, e);
                }
                self.entries.set(i, e);
            },
            None => {
                let ghost before = self.entries@;
                proof {
                    lemma_keyed_map(before);
                }
                self.entries.push((lit(key), value));
                proof {
                    let t = self.entries@;
                    assert(t.drop_last() =~= before);
                    assert forall|a: int, b: int| 0 <= a < b < t.len() implies t[a].0@ != t[b].0@ by {
                        if b == t.len() - 1 {
                            assert(t[a] == before[a]);
                            assert(keyed_map(before).contains_key(before[a].0@));
                        } else {
                            assert(t[a] == before[a] && t[b] == before[b]);
                        }
                    }
                }
            },
        }
    }
}

/// The items of `s` by the key `key` gives them, later items winning.
pub open spec fn map_by<T>(s: Seq<T>, key: spec_fn(T) -> Seq<char>) -> Map<Seq<char>, T>
    decreases s.len(),
{
    if s.len() == 0 {
        Map::empty()
    } else {
        map_by(s.drop_last(), key).insert(key(s.last()), s.last())
    }
}

/// No two items of `s` have the same key.
pub open spec fn distinct_by<T>(s: Seq<T>, key: spec_fn(T) -> Seq<char>) -> bool {
    forall|a: int, b: int| 0 <= a < b < s.len() ==> key(s[a]) != key(s[b])
}

/// Each item of a list with distinct keys is found under its key, and
/// every key found belongs to an item.
pub proof fn lemma_map_by<T>(s: Seq<T>, key: spec_fn(T) -> Seq<char>)
    requires
        distinct_by(s, key),
    ensures
        forall|i: int|
            0 <= i < s.len() ==> #[trigger] map_by(s, key).contains_key(key(s[i])) && map_by(s, key)[key(s[i])]
                == s[i],
        forall|k: Seq<char>|
            #[trigger] map_by(s, key).contains_key(k) ==> exists|i: int| 0 <= i < s.len() && key(s[i]) == k,
    decreases s.len(),
{
    if s.len() > 0 {
        let p = s.drop_last();
        lemma_map_by(p, key);
        assert forall|i: int| 0 <= i < s.len() implies #[trigger] map_by(s, key).contains_key(key(s[i]))
            && map_by(s, key)[key(s[i])] == s[i] by {
            if i < s.len() - 1 {
                assert(p[i] == s[i]);
                assert(map_by(p, key).contains_key(key(p[i])));
            }
        }
        assert forall|k: Seq<char>| #[trigger] map_by(s, key).contains_key(k) implies exists|i: int|
            0 <= i < s.len() && key(s[i]) == k by {
            if k != key(s.last()) {
                assert(map_by(p, key).contains_key(k));
                let i = choose|i: int| 0 <= i < p.len() && key(p[i]) == k;
                assert(s[i] == p[i]);
            } else {
                assert(key(s[s.len() - 1]) == k);
            }
        }
    }
}

/// Replacing an item by one with the same key replaces it in the map.
pub proof fn lemma_map_by_update<T>(s: Seq<T>, i: int, e: T, key: spec_fn(T) -> Seq<char>)
    requires
        distinct_by(s, key),
        0 <= i < s.len(),
        key(e) == key(s[i]),
    ensures
        distinct_by(s.update(i, e), key),
        map_by(s.update(i, e), key) == map_by(s, key).insert(key(e), e),
    decreases s.len(),
{
    let t = s.update(i, e);
    assert forall|a: int, b: int| 0 <= a < b < t.len() implies key(t[a]) != key(t[b]) by {
        assert(key(t[a]) == key(s[a]));
        assert(key(t[b]) == key(s[b]));
    }
    if i == s.len() - 1 {
        assert(t.drop_last() =~= s.drop_last());
        assert(map_by(t, key) =~= map_by(s, key).insert(key(e), e));
    } else {
        let p = s.drop_last();
        lemma_map_by_update(p, i, e, key);
        assert(t.drop_last() =~= p.update(i, e));
        assert(key(s[i]) != key(s[s.len() - 1]));
        assert(map_by(t, key) =~= map_by(s, key).insert(key(e), e));
    }
}

/// Adding an item with a new key adds it to the map.
pub proof fn lemma_map_by_push<T>(s: Seq<T>, e: T, key: spec_fn(T) -> Seq<char>)
    requires
        distinct_by(s, key),
        !map_by(s, key).contains_key(key(e)),
    ensures
        distinct_by(s.push(e), key),
        map_by(s.push(e), key) == map_by(s, key).insert(key(e), e),
{
    lemma_map_by(s, key);
    let t = s.push(e);
    assert(t.drop_last() =~= s);
    assert forall|a: int, b: int| 0 <= a < b < t.len() implies key(t[a]) != key(t[b]) by {
        if b == t.len() - 1 {
            assert(t[a] == s[a]);
            assert(map_by(s, key).contains_key(key(s[a])));
        } else {
            assert(t[a] == s[a] && t[b] == s[b]);
        }
    }
}

} // verus!
