//! How a query matches an indexed application: against its lower-cased
//! name as a whole, and word by word against the name, the path and the
//! pinyin of the name.  Turning these matches into a relevance score, a
//! sum of weights, is outside this library.

use vstd::prelude::*;
use crate::text::{
    byte_offset_capped, capped_offset, chars_of, contains, find_chars, find_from, has_infix, has_prefix,
    occurs_at, same_chars, split_words, starts_with, words,
};

verus! {

/// Byte offsets are counted up to this; it stands for any larger offset.
pub const OFFSET_CAP: u8 = 4;

/// How the whole query matches the name.
#[derive(Debug, Clone, Copy, PartialEq, Eq, Structural)]
pub enum NameMatch {
    /// The name is the query.
    Exact,
    /// The name starts with the query.
    Prefix,
    /// The query occurs in the name first at this byte offset (counted up to
    /// `OFFSET_CAP`).
    Within(u8),
    /// The query does not occur in the name.
    Absent,
}

/// How one word of the query matches.
#[derive(Debug, Clone, Copy, PartialEq, Eq, Structural)]
pub struct TermHit {
    /// The byte offset (counted up to `OFFSET_CAP`) of the word's first
    /// occurrence in the name, if it occurs.
    pub name_offset: Option<u8>,
    /// The word occurs in the path.
    pub in_path: bool,
    /// The pinyin initials are known (non-empty) and contain the word.
    pub in_initials: bool,
    /// The full pinyin is known (non-empty) and contains the word.
    pub in_full: bool,
}

/// How a query matches an application.
#[derive(Debug, Clone)]
pub struct AppMatch {
    pub name: NameMatch,
    /// One entry per white-space separated word of the query, in order.
    pub terms: Vec<TermHit>,
}

/// How the query `q` matches the name `n`: exactly, as a prefix, first
/// occurring at some byte offset, or not at all.
pub open spec fn name_match(q: Seq<char>, n: Seq<char>) -> NameMatch {
    if n == q {
        NameMatch::Exact
    } else if starts_with(n, q) {
        NameMatch::Prefix
    } else {
        match find_from(n, q, 0) {
            Some(k) => NameMatch::Within(capped_offset(n, k, OFFSET_CAP as int) as u8),
            None => NameMatch::Absent,
        }
    }
}

/// How the word `t` matches the name `n`, the path `p`, the pinyin
/// initials `pi` and the full pinyin `pf`.
pub open spec fn term_hit(t: Seq<char>, n: Seq<char>, p: Seq<char>, pi: Seq<char>, pf: Seq<char>) -> TermHit {
    TermHit {
        name_offset: match find_from(n, t, 0) {
            Some(k) => Some(capped_offset(n, k, OFFSET_CAP as int) as u8),
            None => None,
        },
        in_path: contains(p, t),
        in_initials: pi.len() > 0 && contains(pi, t),
        in_full: pf.len() > 0 && contains(pf, t),
    }
}

fn name_match_of(q: &[char], n: &[char]) -> (r: NameMatch)
    ensures
        r == name_match(q@, n@),
{
    if same_chars(n, q) {
        return NameMatch::Exact;
    }
    if has_prefix(n, q) {
        return NameMatch::Prefix;
    }
    match find_chars(n, q) {
        Some(k) => {
            proof {
                crate::text::lemma_find_in_range(n@, q@);
            }
            NameMatch::Within(byte_offset_capped(n, k, OFFSET_CAP))
        },
        None => NameMatch::Absent,
    }
}

fn term_hit_of(t: &[char], n: &[char], p: &[char], pi: &[char], pf: &[char]) -> (r: TermHit)
    ensures
        r == term_hit(t@, n@, p@, pi@, pf@),
{
    let name_offset = match find_chars(n, t) {
        Some(k) => {
            proof {
                crate::text::lemma_find_in_range(n@, t@);
            }
            Some(byte_offset_capped(n, k, OFFSET_CAP))
        },
        None => None,
    };
    TermHit {
        name_offset,
        in_path: has_infix(p, t),
        in_initials: pi.len() > 0 && has_infix(pi, t),
        in_full: pf.len() > 0 && has_infix(pf, t),
    }
}

/// How the lower-cased query `query_lower` matches an application with the
/// lower-cased name `name_lower` and path `path_lower` and the pinyin
/// `pinyin_initials` and `pinyin_full` (empty when unknown): the whole
/// query against the name (`name_match`), and each word of the query
/// (`term_hit`), in order.
pub fn app_match(
    query_lower: &str,
    name_lower: &str,
    path_lower: &str,
    pinyin_initials: &str,
    pinyin_full: &str,
) -> (r: AppMatch)
    ensures
        r.name == name_match(query_lower@, name_lower@),
        r.terms@.len() == words(query_lower@).len(),
        forall|i: int|
            0 <= i < r.terms@.len() ==> #[trigger] r.terms@[i] == term_hit(
                words(query_lower@)[i],
                name_lower@,
                path_lower@,
                pinyin_initials@,
                pinyin_full@,
            ),
{
    let q = chars_of(query_lower);
    let n = chars_of(name_lower);
    let p = chars_of(path_lower);
    let pi = chars_of(pinyin_initials);
    let pf = chars_of(pinyin_full);
    let name = name_match_of(q.as_slice(), n.as_slice());
    let ws = split_words(q.as_slice());
    let ghost wv = ws@.map_values(|w: Vec<char>| w@);
    let mut terms: Vec<TermHit> = Vec::new();
    let mut i: usize = 0;
    while i < ws.len()
        invariant
            wv == ws@.map_values(|w: Vec<char>| w@),
            wv == words(query_lower@),
            n@ == name_lower@ && p@ == path_lower@ && pi@ == pinyin_initials@ && pf@ == pinyin_full@,
            i <= ws@.len(),
            terms@.len() == i,
            forall|j: int| 0 <= j < i ==> #[trigger] terms@[j] == term_hit(wv[j], n@, p@, pi@, pf@),
        decreases ws@.len() - i,
    {
        let h = term_hit_of(ws[i].as_slice(), n.as_slice(), p.as_slice(), pi.as_slice(), pf.as_slice());
        assert(wv[i as int] == ws@[i as int]@);
        terms.push(h);
        i += 1;
    }
    AppMatch { name, terms }
}

/// A word occurs as a run of consecutive characters somewhere in `s`.
pub open spec fn has_run(s: Seq<char>, t: Seq<char>) -> bool {
    exists|i: int, j: int| 0 <= i <= j <= s.len() && #[trigger] s.subrange(i, j) == t
}

proof fn lemma_contains_is_run(s: Seq<char>, t: Seq<char>)
    ensures
        contains(s, t) <==> has_run(s, t),
{
    if contains(s, t) {
        let i = choose|i: int| #[trigger] occurs_at(s, t, i);
        assert(s.subrange(i, i + t.len()) == t);
    }
    if has_run(s, t) {
        let (i, j) = choose|i: int, j: int| 0 <= i <= j <= s.len() && #[trigger] s.subrange(i, j) == t;
        assert(occurs_at(s, t, i));
    }
}

/// What a word of the query is matched against: it counts as found in the
/// full pinyin, in the pinyin initials or in the path exactly when it
/// occurs there as consecutive characters, the pinyin only when it is known
/// (not empty); it has a name offset exactly when it occurs in the name.  In
/// particular a word that starts the full pinyin (`wei` in `weixin`) is
/// found there, and a word that starts the name is found at offset 0.
pub proof fn law_term_found_where_it_occurs(t: Seq<char>, n: Seq<char>, p: Seq<char>, pi: Seq<char>, pf: Seq<char>)
    ensures
        term_hit(t, n, p, pi, pf).in_full <==> (pf.len() > 0 && has_run(pf, t)),
        term_hit(t, n, p, pi, pf).in_initials <==> (pi.len() > 0 && has_run(pi, t)),
        term_hit(t, n, p, pi, pf).in_path <==> has_run(p, t),
        (term_hit(t, n, p, pi, pf).name_offset is Some) <==> has_run(n, t),
        pf.len() > 0 && t.len() <= pf.len() && pf.subrange(0, t.len() as int) == t ==> term_hit(
            t,
            n,
            p,
            pi,
            pf,
        ).in_full,
        t.len() <= n.len() && n.subrange(0, t.len() as int) == t ==> term_hit(t, n, p, pi, pf).name_offset == Some(
            0u8,
        ),
{
    lemma_contains_is_run(pf, t);
    lemma_contains_is_run(pi, t);
    lemma_contains_is_run(p, t);
    lemma_contains_is_run(n, t);
    crate::text::lemma_find_in_range(n, t);
    if pf.len() > 0 && t.len() <= pf.len() && pf.subrange(0, t.len() as int) == t {
        assert(occurs_at(pf, t, 0));
    }
    if t.len() <= n.len() && n.subrange(0, t.len() as int) == t {
        assert(occurs_at(n, t, 0));
        assert(n.take(0) =~= Seq::<char>::empty());
    }
}

} // verus!
