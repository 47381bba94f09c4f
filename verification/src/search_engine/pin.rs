//! Results the user pinned to the start page, latest first.

use vstd::prelude::*;
use crate::text::{chars_of, same_chars};

verus! {

/// `s` without the entries equal to `id`, in order.
pub open spec fn drop_id(s: Seq<Seq<char>>, id: Seq<char>) -> Seq<Seq<char>>
    decreases s.len(),
{
    if s.len() == 0 {
        Seq::empty()
    } else if s.last() == id {
        drop_id(s.drop_last(), id)
    } else {
        drop_id(s.drop_last(), id).push(s.last())
    }
}

/// The pinned ids, latest first.
pub struct PinRepo {
    ids: Vec<String>,
}

impl View for PinRepo {
    type V = Seq<Seq<char>>;

    closed spec fn view(&self) -> Seq<Seq<char>> {
        self.ids@.map_values(|s: String| s@)
    }
}

fn without(v: Vec<String>, id: &str) -> (r: Vec<String>)
    ensures
        r@.map_values(|s: String| s@) == drop_id(v@.map_values(|s: String| s@), id@),
{
    let idc = chars_of(id);
    let ghost all = v@.map_values(|s: String| s@);
    let mut r: Vec<String> = Vec::new();
    let mut i: usize = 0;
    let n = v.len();
    for x in it: v.into_iter()
        invariant
            it.seq().map_values(|s: String| s@) == all,
            idc@ == id@,
            r@.map_values(|s: String| s@) == drop_id(all.take(it.index() as int), id@),
    {
        let ghost k = it.index() as int;
        assert(all.take(k + 1).drop_last() =~= all.take(k));
        assert(all[k] == x@);
        let xc = chars_of(x.as_str());
        let ghost before = r@.map_values(|s: String| s@);
        if !same_chars(xc.as_slice(), idc.as_slice()) {
            r.push(x);
            assert(r@.map_values(|s: String| s@) =~= before.push(all[k]));
        }
    }
    assert(all.take(all.len() as int) =~= all);
    r
}

impl PinRepo {
    /// Nothing pinned.
    pub fn new() -> (r: Self)
        ensures
            r@ == Seq::<Seq<char>>::empty(),
    {
        let r = PinRepo { ids: Vec::new() };
        assert(r@ =~= Seq::<Seq<char>>::empty());
        r
    }

    /// Replaces the list by `ids`, as loaded from storage.
    pub fn hydrate(&mut self, ids: Vec<String>)
        ensures
            final(self)@ == ids@.map_values(|s: String| s@),
    {
        self.ids = ids;
    }

    /// The pinned ids, latest first.
    pub fn list(&self) -> (r: Vec<String>)
        ensures
            r@.map_values(|s: String| s@) == self@,
    {
        let mut r: Vec<String> = Vec::new();
        let mut i: usize = 0;
        while i < self.ids.len()
            invariant
                i <= self.ids@.len(),
                r@.len() == i,
                forall|j: int| 0 <= j < i ==> #[trigger] r@[j]@ == self.ids@[j]@,
            decreases self.ids@.len() - i,
        {
            r.push(self.ids[i].clone());
            i += 1;
        }
        assert(r@.map_values(|s: String| s@) =~= self@);
        r
    }

    /// Pins `id` first; an earlier pin of it is dropped.
    pub fn add(&mut self, id: String)
        ensures
            final(self)@ == seq![id@] + drop_id(old(self)@, id@),
    {
        let mut ids: Vec<String> = Vec::new();
        std::mem::swap(&mut ids, &mut self.ids);
        let mut rest = without(ids, id.as_str());
        let ghost r0 = rest@.map_values(|s: String| s@);
        let ghost idv = id@;
        rest.insert(0, id);
        assert(rest@.map_values(|s: String| s@) =~= seq![idv] + r0);
        self.ids = rest;
    }

    /// Unpins `id`.
    pub fn remove(&mut self, id: &str)
        ensures
            final(self)@ == drop_id(old(self)@, id@),
    {
        let mut ids: Vec<String> = Vec::new();
        std::mem::swap(&mut ids, &mut self.ids);
        self.ids = without(ids, id);
    }
}

impl Default for PinRepo {
    /// Nothing pinned.
    fn default() -> (r: Self)
        ensures
            r@ == Seq::<Seq<char>>::empty(),
    {
        PinRepo::new()
    }
}

proof fn lemma_push_contains(p: Seq<Seq<char>>, e: Seq<char>, x: Seq<char>)
    ensures
        p.push(e).contains(x) <==> (p.contains(x) || e == x),
{
    let q = p.push(e);
    if p.contains(x) {
        let k = choose|k: int| 0 <= k < p.len() && p[k] == x;
        assert(q[k] == x);
    }
    if e == x {
        assert(q[p.len() as int] == x);
    }
    if q.contains(x) {
        let k = choose|k: int| 0 <= k < q.len() && q[k] == x;
        if k < p.len() {
            assert(p[k] == x);
        }
    }
}

proof fn lemma_drop_id_contains(s: Seq<Seq<char>>, id: Seq<char>, x: Seq<char>)
    ensures
        drop_id(s, id).contains(x) <==> (s.contains(x) && x != id),
    decreases s.len(),
{
    if s.len() > 0 {
        let p = s.drop_last();
        lemma_drop_id_contains(p, id, x);
        assert(s =~= p.push(s.last()));
        lemma_push_contains(p, s.last(), x);
        if s.last() != id {
            lemma_push_contains(drop_id(p, id), s.last(), x);
        }
    }
}

proof fn lemma_drop_id_absent(s: Seq<Seq<char>>, id: Seq<char>)
    ensures
        !drop_id(s, id).contains(id),
        forall|x: Seq<char>| x != id ==> (drop_id(s, id).contains(x) <==> s.contains(x)),
{
    lemma_drop_id_contains(s, id, id);
    assert forall|x: Seq<char>| x != id implies (drop_id(s, id).contains(x) <==> s.contains(x)) by {
        lemma_drop_id_contains(s, id, x);
    }
}

proof fn lemma_drop_id_twice(s: Seq<Seq<char>>, id: Seq<char>)
    ensures
        drop_id(drop_id(s, id), id) == drop_id(s, id),
    decreases s.len(),
{
    if s.len() > 0 {
        lemma_drop_id_twice(s.drop_last(), id);
        if s.last() != id {
            let d = drop_id(s.drop_last(), id);
            assert(d.push(s.last()).drop_last() =~= d);
        }
    }
}

/// After pinning `id` it comes first and occurs once; every other id is
/// pinned exactly when it was before.
pub proof fn law_pin_first_once(s: Seq<Seq<char>>, id: Seq<char>, other: Seq<char>)
    ensures
        (seq![id] + drop_id(s, id))[0] == id,
        !drop_id(s, id).contains(id),
        other != id ==> ((seq![id] + drop_id(s, id)).contains(other) <==> s.contains(other)),
{
    lemma_drop_id_absent(s, id);
    let t = seq![id] + drop_id(s, id);
    if other != id {
        if t.contains(other) {
            let k = choose|k: int| 0 <= k < t.len() && t[k] == other;
            assert(drop_id(s, id)[k - 1] == other);
            assert(drop_id(s, id).contains(other));
        }
        if s.contains(other) {
            assert(drop_id(s, id).contains(other));
            let k = choose|k: int| 0 <= k < drop_id(s, id).len() && drop_id(s, id)[k] == other;
            assert(t[k + 1] == other);
        }
    }
}

/// Pinning the same id twice in a row is the same as pinning it once.
pub proof fn law_pin_idempotent(s: Seq<Seq<char>>, id: Seq<char>)
    ensures
        seq![id] + drop_id(seq![id] + drop_id(s, id), id) == seq![id] + drop_id(s, id),
{
    lemma_drop_id_front(drop_id(s, id), id);
    lemma_drop_id_twice(s, id);
}

proof fn lemma_drop_id_front(s: Seq<Seq<char>>, id: Seq<char>)
    ensures
        drop_id(seq![id] + s, id) == drop_id(s, id),
    decreases s.len(),
{
    let t = seq![id] + s;
    if s.len() == 0 {
        assert(t =~= seq![id]);
        assert(t.drop_last() =~= Seq::<Seq<char>>::empty());
        assert(drop_id(t, id) == drop_id(t.drop_last(), id));
    } else {
        lemma_drop_id_front(s.drop_last(), id);
        assert(t.drop_last() =~= seq![id] + s.drop_last());
        assert(t.last() == s.last());
    }
}

/// After unpinning `id` it is gone and every other id is as before.
pub proof fn law_unpin_removes(s: Seq<Seq<char>>, id: Seq<char>, other: Seq<char>)
    ensures
        !drop_id(s, id).contains(id),
        other != id ==> (drop_id(s, id).contains(other) <==> s.contains(other)),
{
    lemma_drop_id_absent(s, id);
}

} // verus!
