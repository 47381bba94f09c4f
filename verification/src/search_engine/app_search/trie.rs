//! Prefix tree over the lowered names of indexed applications.
//!
//! Every inserted text is recorded together with the index of the entry it
//! belongs to.  Each node keeps the indices of all texts that pass through it,
//! so a prefix query walks down to the node of the prefix and hands back its
//! list.  Nodes live in one arena vector; a child link is a pair of the edge
//! character and the child's position in the arena.

use vstd::prelude::*;
use crate::text::chars_of;

verus! {

/// `p` is a prefix of `s`.
pub open spec fn is_prefix(p: Seq<char>, s: Seq<char>) -> bool {
    p.len() <= s.len() && s.subrange(0, p.len() as int) == p
}

/// The indices of the recorded texts that start with `p`, in insertion order.
pub open spec fn hits(entries: Seq<(Seq<char>, usize)>, p: Seq<char>) -> Seq<usize>
    decreases entries.len(),
{
    if entries.len() == 0 {
        Seq::empty()
    } else {
        let rest = hits(entries.drop_last(), p);
        if is_prefix(p, entries.last().0) {
            rest.push(entries.last().1)
        } else {
            rest
        }
    }
}

/// Total number of index slots that recording `entries` fills: one per
/// character of each text, plus one at the root.
pub open spec fn slot_count(entries: Seq<(Seq<char>, usize)>) -> nat
    decreases entries.len(),
{
    if entries.len() == 0 {
        0
    } else {
        slot_count(entries.drop_last()) + entries.last().0.len() + 1
    }
}

/// One node of the tree.
#[derive(Debug)]
pub struct TrieNode {
    children: Vec<(char, usize)>,
    /// Indices of every text that passes through this node.
    indices: Vec<usize>,
}

impl TrieNode {
    fn new() -> (n: Self)
        ensures
            n.children@.len() == 0,
            n.indices@.len() == 0,
    {
        TrieNode { children: Vec::new(), indices: Vec::new() }
    }
}

/// Prefix tree; see the module documentation.
pub struct Trie {
    nodes: Vec<TrieNode>,
    /// Texts recorded so far, with their indices, in insertion order.
    entries: Ghost<Seq<(Seq<char>, usize)>>,
    /// The text spelled by the edges from the root to each node.
    paths: Ghost<Seq<Seq<char>>>,
    /// For each non-root node: its parent and the slot of the link to it.
    parents: Ghost<Seq<(int, int)>>,
}

impl View for Trie {
    type V = Seq<(Seq<char>, usize)>;

    closed spec fn view(&self) -> Seq<(Seq<char>, usize)> {
        self.entries@
    }
}

/// Link `k` of node `i`: the edge character and the child's position.
spec fn link(kids: Seq<Seq<(char, usize)>>, i: int, k: int) -> (char, usize) {
    kids[i][k]
}

spec fn has_child(kids: Seq<Seq<(char, usize)>>, i: int, c: char) -> bool {
    exists|k: int| 0 <= k < kids[i].len() && #[trigger] link(kids, i, k).0 == c
}

/// The arena's links form a tree whose node `i` spells `paths[i]`.
spec fn shape_ok(kids: Seq<Seq<(char, usize)>>, paths: Seq<Seq<char>>, parents: Seq<(int, int)>) -> bool {
    let n = kids.len();
    &&& n >= 1
    &&& paths.len() == n
    &&& parents.len() == n
    &&& paths[0] == Seq::<char>::empty()
    &&& forall|i: int, k: int| 0 <= i < n && 0 <= k < kids[i].len() ==> {
        let l = #[trigger] link(kids, i, k);
        &&& 0 < l.1 < n
        &&& paths[l.1 as int] == paths[i].push(l.0)
    }
    &&& forall|i: int, k1: int, k2: int|
        0 <= i < n && 0 <= k1 < kids[i].len() && 0 <= k2 < kids[i].len() && k1 != k2
        ==> #[trigger] link(kids, i, k1).0 != #[trigger] link(kids, i, k2).0
    &&& forall|i: int, j: int| 0 <= i < n && 0 <= j < n && i != j ==> #[trigger] paths[i] != #[trigger] paths[j]
    &&& forall|j: int| 0 < j < n ==> {
        let (p, k) = #[trigger] parents[j];
        &&& 0 <= p < n
        &&& 0 <= k < kids[p].len()
        &&& link(kids, p, k).1 == j
    }
}

/// Every text of `es` that goes on past a node's path has a link for its next character.
spec fn complete(kids: Seq<Seq<(char, usize)>>, paths: Seq<Seq<char>>, es: Seq<(Seq<char>, usize)>) -> bool {
    forall|i: int, c: char| 0 <= i < kids.len() && #[trigger] hits(es, paths[i].push(c)).len() > 0
        ==> has_child(kids, i, c)
}

/// Number of index slots held by the nodes `ns`.
spec fn total(ns: Seq<TrieNode>) -> nat
    decreases ns.len(),
{
    if ns.len() == 0 {
        0
    } else {
        total(ns.drop_last()) + ns.last().indices@.len()
    }
}

impl Trie {
    spec fn kids(&self) -> Seq<Seq<(char, usize)>> {
        Seq::new(self.nodes@.len(), |i: int| self.nodes@[i].children@)
    }

    /// Structural invariant of the arena.
    pub closed spec fn wf(&self) -> bool {
        &&& shape_ok(self.kids(), self.paths@, self.parents@)
        &&& forall|i: int| 0 <= i < self.nodes@.len() ==> #[trigger] self.nodes@[i].indices@ == hits(
            self.entries@,
            self.paths@[i],
        )
        &&& complete(self.kids(), self.paths@, self.entries@)
        &&& total(self.nodes@) == slot_count(self.entries@)
    }
}

// ---------------------------------------------------------------------------
// Lemmas about `hits` and `slot_count`.

proof fn lemma_hits_push(es: Seq<(Seq<char>, usize)>, e: (Seq<char>, usize), p: Seq<char>)
    ensures
        hits(es.push(e), p) == if is_prefix(p, e.0) { hits(es, p).push(e.1) } else { hits(es, p) },
{
    assert(es.push(e).drop_last() =~= es);
}

proof fn lemma_slot_count_push(es: Seq<(Seq<char>, usize)>, e: (Seq<char>, usize))
    ensures
        slot_count(es.push(e)) == slot_count(es) + e.0.len() + 1,
{
    assert(es.push(e).drop_last() =~= es);
}

proof fn lemma_hits_nonempty(es: Seq<(Seq<char>, usize)>, p: Seq<char>, idx: int)
    requires
        0 <= idx < es.len(),
        is_prefix(p, es[idx].0),
    ensures
        hits(es, p).len() > 0,
    decreases es.len(),
{
    if idx < es.len() - 1 {
        lemma_hits_nonempty(es.drop_last(), p, idx);
    }
}

proof fn lemma_hits_empty(es: Seq<(Seq<char>, usize)>, p: Seq<char>)
    requires
        forall|idx: int| 0 <= idx < es.len() ==> !is_prefix(p, #[trigger] es[idx].0),
    ensures
        hits(es, p) == Seq::<usize>::empty(),
    decreases es.len(),
{
    if es.len() > 0 {
        lemma_hits_empty(es.drop_last(), p);
    }
}

proof fn lemma_total_push(ns: Seq<TrieNode>, x: TrieNode)
    ensures
        total(ns.push(x)) == total(ns) + x.indices@.len(),
{
    assert(ns.push(x).drop_last() =~= ns);
}

proof fn lemma_total_update(ns: Seq<TrieNode>, i: int, x: TrieNode)
    requires
        0 <= i < ns.len(),
    ensures
        total(ns.update(i, x)) == total(ns) - ns[i].indices@.len() + x.indices@.len(),
    decreases ns.len(),
{
    if i == ns.len() - 1 {
        assert(ns.update(i, x).drop_last() =~= ns.drop_last());
    } else {
        assert(ns.update(i, x).drop_last() =~= ns.drop_last().update(i, x));
        lemma_total_update(ns.drop_last(), i, x);
    }
}

proof fn lemma_total_take(ns: Seq<TrieNode>, i: int)
    requires
        0 <= i < ns.len(),
    ensures
        total(ns.take(i + 1)) == total(ns.take(i)) + ns[i].indices@.len(),
        total(ns.take(i + 1)) <= total(ns),
    decreases ns.len(),
{
    assert(ns.take(i + 1).drop_last() =~= ns.take(i));
    if i + 1 == ns.len() {
        assert(ns.take(i + 1) =~= ns);
    } else {
        assert(ns.drop_last().take(i + 1) =~= ns.take(i + 1));
        lemma_total_take(ns.drop_last(), i);
    }
}

/// Every recorded text starts with the empty prefix.
proof fn lemma_hits_all(es: Seq<(Seq<char>, usize)>)
    ensures
        hits(es, Seq::<char>::empty()) == es.map_values(|e: (Seq<char>, usize)| e.1),
    decreases es.len(),
{
    if es.len() > 0 {
        lemma_hits_all(es.drop_last());
        assert(es.last().0.subrange(0, 0) =~= Seq::<char>::empty());
        assert(es.map_values(|e: (Seq<char>, usize)| e.1) =~= es.drop_last().map_values(
            |e: (Seq<char>, usize)| e.1,
        ).push(es.last().1));
    }
}

/// Nothing starts with an extension of a prefix that nothing starts with.
proof fn lemma_hits_extend_empty(es: Seq<(Seq<char>, usize)>, q: Seq<char>, p: Seq<char>)
    requires
        hits(es, q).len() == 0,
        is_prefix(q, p),
    ensures
        hits(es, p) == Seq::<usize>::empty(),
{
    assert forall|idx: int| 0 <= idx < es.len() implies !is_prefix(p, #[trigger] es[idx].0) by {
        if is_prefix(p, es[idx].0) {
            assert(es[idx].0.subrange(0, q.len() as int) =~= p.subrange(0, q.len() as int));
            lemma_hits_nonempty(es, q, idx);
        }
    }
    lemma_hits_empty(es, p);
}

impl Trie {
    /// An empty tree.
    pub fn new() -> (t: Self)
        ensures
            t.wf(),
            t@ == Seq::<(Seq<char>, usize)>::empty(),
    {
        let mut nodes: Vec<TrieNode> = Vec::new();
        nodes.push(TrieNode::new());
        let t = Trie {
            nodes,
            entries: Ghost(Seq::empty()),
            paths: Ghost(Seq::<Seq<char>>::empty().push(Seq::<char>::empty())),
            parents: Ghost(Seq::<(int, int)>::empty().push((0int, 0int))),
        };
        assert(t.nodes@[0].children@ =~= Seq::<(char, usize)>::empty());
        assert(t.kids() =~= Seq::<Seq<(char, usize)>>::empty().push(Seq::empty()));
        assert(t.nodes@[0].indices@ == hits(t.entries@, t.paths@[0]));
        proof {
            assert(t.nodes@ =~= Seq::<TrieNode>::empty().push(t.nodes@[0]));
            lemma_total_push(Seq::<TrieNode>::empty(), t.nodes@[0]);
        }
        t
    }

    /// Position of the child of `node` along `c`, if there is one.
    fn find_child(&self, node: usize, c: char) -> (r: Option<usize>)
        requires
            node < self.nodes@.len(),
        ensures
            match r {
                Some(j) => exists|k: int| 0 <= k < self.kids()[node as int].len()
                    && #[trigger] link(self.kids(), node as int, k) == (c, j),
                None => !has_child(self.kids(), node as int, c),
            },
    {
        let children = &self.nodes[node].children;
        let ghost kids = self.kids();
        assert(kids[node as int] == children@);
        let mut k: usize = 0;
        while k < children.len()
            invariant
                kids == self.kids(),
                node < kids.len(),
                children@ == kids[node as int],
                k <= children@.len(),
                forall|m: int| 0 <= m < k ==> #[trigger] link(kids, node as int, m).0 != c,
            decreases children@.len() - k,
        {
            if children[k].0 == c {
                assert(link(kids, node as int, k as int) == (c, children@[k as int].1));
                return Some(children[k].1);
            }
            k += 1;
        }
        None
    }

    /// Records `text` under `index`: every node on the path of `text` (the root
    /// included) gets `index` appended.  `text` is expected to be lowered by
    /// the caller; the tree itself is case-sensitive.
    pub fn insert(&mut self, text: &str, index: usize)
        requires
            old(self).wf(),
        ensures
            final(self).wf(),
            final(self)@ == old(self)@.push((text@, index)),
    {
        let chars = chars_of(text);
        let ghost olds = self.entries@;
        let ghost s = text@;
        let len = chars.len();
        let ghost kids0 = self.kids();
        let ghost nodes_a = self.nodes@;
        self.nodes[0].indices.push(index);
        assert(self.kids() =~= kids0);
        proof {
            assert(self.nodes@ =~= nodes_a.update(0, self.nodes@[0]));
            lemma_total_update(nodes_a, 0, self.nodes@[0]);
        }
        let mut cur: usize = 0;
        let mut t: usize = 0;
        assert(s.take(0) =~= Seq::<char>::empty());
        while t < len
            invariant
                chars@ == s,
                len == s.len(),
                t <= len,
                self.entries@ == olds,
                shape_ok(self.kids(), self.paths@, self.parents@),
                self.kids().len() == self.nodes@.len(),
                cur < self.nodes@.len(),
                self.paths@[cur as int] == s.take(t as int),
                forall|i: int| 0 <= i < self.nodes@.len() ==> #[trigger] self.nodes@[i].indices@ == if is_prefix(
                    self.paths@[i],
                    s,
                ) && self.paths@[i].len() <= t {
                    hits(olds, self.paths@[i]).push(index)
                } else {
                    hits(olds, self.paths@[i])
                },
                complete(self.kids(), self.paths@, olds),
                total(self.nodes@) == slot_count(olds) + t + 1,
                forall|i: int, c: char|
                    0 <= i < self.nodes@.len() && is_prefix(#[trigger] self.paths@[i].push(c), s)
                        && self.paths@[i].len() < t ==> has_child(self.kids(), i, c),
            decreases len - t,
        {
            let c = chars[t];
            assert(s.take(t + 1) =~= s.take(t as int).push(c));
            let ghost kids = self.kids();
            let ghost paths = self.paths@;
            let next: usize;
            match self.find_child(cur, c) {
                Some(j) => {
                    next = j;
                    assert(self.paths@[next as int] == s.take(t + 1));
                    assert(has_child(self.kids(), cur as int, c));
                },
                None => {
                    let n = self.nodes.len();
                    let ghost slot = kids[cur as int].len() as int;
                    proof {
                        assert forall|j: int| 0 <= j < self.nodes@.len() implies #[trigger] paths[j]
                            != s.take(t + 1) by {
                            if paths[j] == s.take(t + 1) {
                                assert(j != 0) by {
                                    assert(paths[j].len() == t + 1);
                                }
                                let (p, k) = self.parents@[j];
                                let l = link(kids, p, k);
                                assert(paths[l.1 as int] == paths[p].push(l.0));
                                assert(paths[p] =~= paths[j].drop_last());
                                assert(paths[cur as int] =~= paths[j].drop_last());
                                assert(p == cur);
                                assert(l.1 == j);
                                assert(paths[j] =~= paths[cur as int].push(l.0));
                                assert(paths[j][t as int] == l.0);
                                assert(s.take(t + 1)[t as int] == c);
                                assert(link(kids, cur as int, k).0 == c);
                            }
                        }
                        if hits(olds, paths[cur as int].push(c)).len() > 0 {
                            assert(has_child(kids, cur as int, c));
                        }
                        assert(hits(olds, s.take(t + 1)) =~= Seq::<usize>::empty());
                    }
                    let ghost nodes0 = self.nodes@;
                    self.nodes.push(TrieNode::new());
                    let ghost nodes1 = self.nodes@;
                    assert(nodes1[n as int].children@ =~= Seq::<(char, usize)>::empty());
                    proof {
                        lemma_total_push(nodes0, nodes1[n as int]);
                    }
                    self.nodes[cur].children.push((c, n));
                    proof {
                        assert(self.nodes@ =~= nodes1.update(cur as int, self.nodes@[cur as int]));
                        lemma_total_update(nodes1, cur as int, self.nodes@[cur as int]);
                    }
                    assert(self.nodes@[cur as int].children@ == nodes0[cur as int].children@.push((c, n)));
                    assert(forall|i: int| 0 <= i < nodes1.len() && i != cur ==> self.nodes@[i] == nodes1[i]);
                    proof {
                        self.paths@ = self.paths@.push(s.take(t + 1));
                        self.parents@ = self.parents@.push((cur as int, slot));
                        let kids2 = kids.push(Seq::empty()).update(cur as int, kids[cur as int].push((c, n)));
                        assert(self.kids() =~= kids2);
                        assert(link(kids2, cur as int, slot) == (c, n));
                        assert forall|i: int, k: int| 0 <= i < kids.len() && 0 <= k < kids[i].len()
                            implies #[trigger] link(kids2, i, k) == link(kids, i, k) by {}
                        assert forall|i: int, c2: char| 0 <= i < kids.len() && has_child(kids, i, c2)
                            implies has_child(kids2, i, c2) by {
                            let k = choose|k: int| 0 <= k < kids[i].len() && #[trigger] link(kids, i, k).0 == c2;
                            assert(link(kids2, i, k) == link(kids, i, k));
                        }
                        assert forall|c2: char| #[trigger] hits(olds, self.paths@[n as int].push(c2)).len() == 0 by {
                            assert(s.take(t + 1).push(c2).subrange(0, t + 1) =~= s.take(t + 1));
                            lemma_hits_extend_empty(olds, s.take(t + 1), s.take(t + 1).push(c2));
                        }
                        assert(link(kids2, cur as int, slot).0 == c);
                        assert(has_child(kids2, cur as int, c));
                    }
                    next = n;
                },
            }
            let ghost kids3 = self.kids();
            let ghost nodes3 = self.nodes@;
            self.nodes[next].indices.push(index);
            assert(self.kids() =~= kids3);
            proof {
                assert(self.nodes@ =~= nodes3.update(next as int, self.nodes@[next as int]));
                lemma_total_update(nodes3, next as int, self.nodes@[next as int]);
            }
            proof {
                assert forall|i: int, c2: char|
                    0 <= i < self.nodes@.len() && is_prefix(#[trigger] self.paths@[i].push(c2), s)
                        && self.paths@[i].len() < t + 1 implies has_child(self.kids(), i, c2) by {
                    if self.paths@[i].len() == t {
                        assert(self.paths@[i].push(c2) =~= s.take(t + 1));
                        assert(self.paths@[i] =~= s.take(t as int));
                        assert(i == cur);
                        assert(self.paths@[i].push(c2)[t as int] == c2);
                        assert(s.take(t + 1)[t as int] == c);
                    } else {
                        assert(i < kids.len());
                        assert(has_child(kids, i, c2));
                    }
                }
            }
            cur = next;
            t = t + 1;
        }
        proof {
            let news = olds.push((s, index));
            assert forall|p: Seq<char>| true implies #[trigger] hits(news, p) == if is_prefix(p, s) {
                hits(olds, p).push(index)
            } else {
                hits(olds, p)
            } by {
                lemma_hits_push(olds, (s, index), p);
            }
            lemma_slot_count_push(olds, (s, index));
            self.entries@ = news;
        }
    }
}

impl Trie {
    /// Indices of every recorded text that starts with `prefix`, in insertion
    /// order.  An index recorded under several matching texts appears once per
    /// text; callers deduplicate.
    pub fn search(&self, prefix: &str) -> (r: &[usize])
        requires
            self.wf(),
        ensures
            r@ == hits(self@, prefix@),
    {
        let chars = chars_of(prefix);
        let ghost p = prefix@;
        let len = chars.len();
        let mut cur: usize = 0;
        let mut t: usize = 0;
        assert(p.take(0) =~= Seq::<char>::empty());
        while t < len
            invariant
                self.wf(),
                p == prefix@,
                chars@ == p,
                len == p.len(),
                t <= len,
                cur < self.nodes@.len(),
                self.paths@[cur as int] == p.take(t as int),
            decreases len - t,
        {
            let c = chars[t];
            assert(p.take(t + 1) =~= p.take(t as int).push(c));
            match self.find_child(cur, c) {
                Some(j) => {
                    cur = j;
                },
                None => {
                    proof {
                        assert(hits(self.entries@, self.paths@[cur as int].push(c)).len() == 0);
                        assert(p.subrange(0, t + 1) =~= p.take(t + 1));
                        lemma_hits_extend_empty(self.entries@, p.take(t + 1), p);
                    }
                    let none: &[usize; 0] = &[];
                    let r = none.as_slice();
                    assert(r@ =~= Seq::<usize>::empty());
                    return r;
                },
            }
            t = t + 1;
        }
        assert(p.take(len as int) =~= p);
        self.nodes[cur].indices.as_slice()
    }

    /// Total number of index slots held by the tree: one per character of each
    /// recorded text plus one at the root.  Meant for diagnostics.
    pub fn len(&self) -> (r: usize)
        requires
            self.wf(),
            slot_count(self@) <= usize::MAX,
        ensures
            r == slot_count(self@),
    {
        let mut sum: usize = 0;
        let mut i: usize = 0;
        while i < self.nodes.len()
            invariant
                self.wf(),
                slot_count(self@) <= usize::MAX,
                i <= self.nodes@.len(),
                sum == total(self.nodes@.take(i as int)),
            decreases self.nodes@.len() - i,
        {
            proof {
                lemma_total_take(self.nodes@, i as int);
            }
            sum = sum + self.nodes[i].indices.len();
            i = i + 1;
        }
        assert(self.nodes@.take(i as int) =~= self.nodes@);
        sum
    }

    /// Whether nothing has been recorded.
    pub fn is_empty(&self) -> (r: bool)
        requires
            self.wf(),
        ensures
            r == (self@.len() == 0),
    {
        proof {
            lemma_hits_all(self.entries@);
        }
        self.nodes[0].indices.is_empty()
    }

    /// Forgets every recorded text.
    pub fn clear(&mut self)
        ensures
            final(self).wf(),
            final(self)@ == Seq::<(Seq<char>, usize)>::empty(),
    {
        *self = Trie::new();
    }
}

/// A text recorded under `index` is found by exactly its own prefixes: the
/// result of a query after an insertion is the earlier result with `index`
/// appended when the query is a prefix of the new text, and the earlier result
/// otherwise.
pub proof fn law_search_after_insert(es: Seq<(Seq<char>, usize)>, text: Seq<char>, index: usize, q: Seq<char>)
    ensures
        hits(es.push((text, index)), q) == if is_prefix(q, text) {
            hits(es, q).push(index)
        } else {
            hits(es, q)
        },
{
    lemma_hits_push(es, (text, index), q);
}

/// The length counts, for every insertion, one slot per character of the
/// text plus one for the root: an empty trie holds none, and an insertion
/// adds the text's length plus one.
pub proof fn law_len_counts_insertions(es: Seq<(Seq<char>, usize)>, text: Seq<char>, index: usize)
    ensures
        slot_count(Seq::<(Seq<char>, usize)>::empty()) == 0,
        slot_count(es.push((text, index))) == slot_count(es) + text.len() + 1,
{
    assert(es.push((text, index)).drop_last() =~= es);
}

/// The empty query returns every recorded index, in insertion order.
pub proof fn law_empty_prefix_lists_all(es: Seq<(Seq<char>, usize)>)
    ensures
        hits(es, Seq::<char>::empty()) == es.map_values(|e: (Seq<char>, usize)| e.1),
{
    lemma_hits_all(es);
}

/// An index is returned for a query exactly when some text recorded under it
/// starts with the query.
pub proof fn law_search_sound_and_complete(es: Seq<(Seq<char>, usize)>, q: Seq<char>, index: usize)
    ensures
        hits(es, q).contains(index) <==> exists|k: int|
            0 <= k < es.len() && #[trigger] es[k].1 == index && is_prefix(q, es[k].0),
    decreases es.len(),
{
    if es.len() > 0 {
        let rest = es.drop_last();
        law_search_sound_and_complete(rest, q, index);
        if hits(es, q).contains(index) {
            if !hits(rest, q).contains(index) {
                assert(es[es.len() - 1].1 == index);
            } else {
                let k = choose|k: int| 0 <= k < rest.len() && #[trigger] rest[k].1 == index && is_prefix(q, rest[k].0);
                assert(es[k] == rest[k]);
            }
        }
        if exists|k: int| 0 <= k < es.len() && #[trigger] es[k].1 == index && is_prefix(q, es[k].0) {
            let k = choose|k: int| 0 <= k < es.len() && #[trigger] es[k].1 == index && is_prefix(q, es[k].0);
            if k == es.len() - 1 {
                assert(hits(es, q) == hits(rest, q).push(index));
                assert(hits(es, q)[hits(es, q).len() - 1] == index);
            } else {
                assert(rest[k] == es[k]);
                let h = hits(rest, q);
                let m = choose|m: int| 0 <= m < h.len() && h[m] == index;
                if is_prefix(q, es.last().0) {
                    assert(hits(es, q)[m] == index);
                }
            }
        }
    }
}

} // verus!
