//! Character-sequence helpers shared by the search, hotkey and path logic.
//!
//! Strings are reasoned about through their view, the sequence of their
//! characters.  Case mapping beyond ASCII comes from std and is named rather
//! than restated; everything else here is defined and proved locally.

use vstd::prelude::*;

verus! {

// ---------------------------------------------------------------------------
// Specifications.

/// Unicode `White_Space`, the property that `char::is_whitespace` tests.
pub open spec fn is_ws(c: char) -> bool {
    let u = c as u32;
    ||| 0x09 <= u <= 0x0d
    ||| u == 0x20
    ||| u == 0x85
    ||| u == 0xa0
    ||| u == 0x1680
    ||| 0x2000 <= u <= 0x200a
    ||| u == 0x2028
    ||| u == 0x2029
    ||| u == 0x202f
    ||| u == 0x205f
    ||| u == 0x3000
}

/// ASCII letter.
pub open spec fn is_ascii_alpha(c: char) -> bool {
    ('a' <= c <= 'z') || ('A' <= c <= 'Z')
}

/// ASCII digit.
pub open spec fn is_ascii_digit(c: char) -> bool {
    '0' <= c <= '9'
}

/// `c` with ASCII upper-case letters lowered; every other character kept.
pub open spec fn ascii_lower(c: char) -> char {
    if 'A' <= c <= 'Z' {
        ((c as u32) + 32) as char
    } else {
        c
    }
}

/// `c` with ASCII lower-case letters raised; every other character kept.
pub open spec fn ascii_upper(c: char) -> char {
    if 'a' <= c <= 'z' {
        ((c as u32) - 32) as char
    } else {
        c
    }
}

/// Every character of `s` passed through `ascii_lower`.
pub open spec fn ascii_lower_seq(s: Seq<char>) -> Seq<char> {
    s.map_values(|c: char| ascii_lower(c))
}

/// Every character of `s` passed through `ascii_upper`.
pub open spec fn ascii_upper_seq(s: Seq<char>) -> Seq<char> {
    s.map_values(|c: char| ascii_upper(c))
}

/// Every character of `s` is ASCII.
pub open spec fn all_ascii(s: Seq<char>) -> bool {
    forall|i: int| 0 <= i < s.len() ==> (s[i] as u32) < 128
}

/// `p` is a prefix of `s`.
pub open spec fn starts_with(s: Seq<char>, p: Seq<char>) -> bool {
    p.len() <= s.len() && s.subrange(0, p.len() as int) == p
}

/// `needle` occurs in `hay` at position `i`.
pub open spec fn occurs_at(hay: Seq<char>, needle: Seq<char>, i: int) -> bool {
    0 <= i && i + needle.len() <= hay.len() && hay.subrange(i, i + needle.len()) == needle
}

/// `needle` occurs somewhere in `hay` (the empty needle occurs everywhere).
pub open spec fn contains(hay: Seq<char>, needle: Seq<char>) -> bool {
    exists|i: int| #[trigger] occurs_at(hay, needle, i)
}

/// Number of leading white-space characters of `s`.
pub open spec fn lead_ws(s: Seq<char>) -> nat
    decreases s.len(),
{
    if s.len() > 0 && is_ws(s[0]) {
        1 + lead_ws(s.skip(1))
    } else {
        0
    }
}

/// Number of trailing white-space characters of `s`.
pub open spec fn trail_ws(s: Seq<char>) -> nat
    decreases s.len(),
{
    if s.len() > 0 && is_ws(s.last()) {
        1 + trail_ws(s.drop_last())
    } else {
        0
    }
}

/// `s` without leading and trailing white space, as `str::trim` gives it.
pub open spec fn trim(s: Seq<char>) -> Seq<char> {
    let t = s.skip(lead_ws(s) as int);
    t.take(t.len() - trail_ws(t))
}

/// The maximal runs of non-white-space characters of `s`, the words that
/// `str::split_whitespace` yields; `cur` is a word already begun.
pub open spec fn split_ws_from(s: Seq<char>, cur: Seq<char>) -> Seq<Seq<char>>
    decreases s.len(),
{
    if s.len() == 0 {
        if cur.len() > 0 { seq![cur] } else { Seq::empty() }
    } else if is_ws(s[0]) {
        (if cur.len() > 0 { seq![cur] } else { Seq::empty() }) + split_ws_from(s.skip(1), Seq::empty())
    } else {
        split_ws_from(s.skip(1), cur.push(s[0]))
    }
}

/// The words of `s`, split on white space.
pub open spec fn words(s: Seq<char>) -> Seq<Seq<char>> {
    split_ws_from(s, Seq::empty())
}

/// The characters that UTF-16 `units` decode to, an unpaired surrogate giving
/// U+FFFD, as `String::from_utf16_lossy` documents.
pub open spec fn utf16_lossy(units: Seq<u16>) -> Seq<char>
    decreases units.len(),
{
    if units.len() == 0 {
        Seq::empty()
    } else {
        let u = units[0] as int;
        if 0xd800 <= u < 0xdc00 && units.len() > 1 && 0xdc00 <= units[1] < 0xe000 {
            let v = 0x10000 + (u - 0xd800) * 0x400 + (units[1] - 0xdc00);
            seq![v as char] + utf16_lossy(units.skip(2))
        } else if 0xd800 <= u < 0xe000 {
            seq!['\u{fffd}'] + utf16_lossy(units.skip(1))
        } else {
            seq![u as char] + utf16_lossy(units.skip(1))
        }
    }
}

/// The full Unicode lower-case mapping of `s`, as `str::to_lowercase` computes it.
pub uninterp spec fn lowercase(s: Seq<char>) -> Seq<char>;

/// The full Unicode upper-case mapping of `s`, as `str::to_uppercase` computes it.
pub uninterp spec fn uppercase(s: Seq<char>) -> Seq<char>;

/// The pieces of `s` between occurrences of `sep`, as `str::split` yields
/// them: empty pieces included, at least one piece.
pub open spec fn split_on(s: Seq<char>, sep: char) -> Seq<Seq<char>>
    decreases s.len(),
{
    if s.len() == 0 {
        seq![Seq::empty()]
    } else {
        let r = split_on(s.drop_last(), sep);
        if s.last() == sep {
            r.push(Seq::empty())
        } else {
            r.update(r.len() - 1, r.last().push(s.last()))
        }
    }
}

/// `split_on` always yields at least one piece.
pub proof fn lemma_split_on_nonempty(s: Seq<char>, sep: char)
    ensures
        split_on(s, sep).len() >= 1,
    decreases s.len(),
{
    if s.len() > 0 {
        lemma_split_on_nonempty(s.drop_last(), sep);
    }
}

/// Appending characters other than `sep` extends the last piece and adds
/// no new one.
pub proof fn lemma_split_on_extend(pre: Seq<char>, s: Seq<char>, sep: char)
    requires
        forall|i: int| 0 <= i < s.len() ==> s[i] != sep,
    ensures
        split_on(pre + s, sep) == split_on(pre, sep).update(
            split_on(pre, sep).len() - 1,
            split_on(pre, sep).last() + s,
        ),
    decreases s.len(),
{
    let r = split_on(pre, sep);
    lemma_split_on_nonempty(pre, sep);
    if s.len() == 0 {
        assert(pre + s =~= pre);
        assert(r.last() + s =~= r.last());
        assert(r.update(r.len() - 1, r.last() + s) =~= r);
    } else {
        let s0 = s.drop_last();
        lemma_split_on_extend(pre, s0, sep);
        assert((pre + s).drop_last() =~= pre + s0);
        assert((pre + s).last() == s.last());
        let r0 = split_on(pre + s0, sep);
        assert(r0.last() == r.last() + s0);
        assert((r.last() + s0).push(s.last()) =~= r.last() + s);
        assert(r0.update(r0.len() - 1, r0.last().push(s.last())) =~= r.update(r.len() - 1, r.last() + s));
    }
}

/// Two pieces without `sep`, joined by one `sep`, split back into the two.
pub proof fn lemma_split_on_pair(a: Seq<char>, b: Seq<char>, sep: char)
    requires
        forall|i: int| 0 <= i < a.len() ==> a[i] != sep,
        forall|i: int| 0 <= i < b.len() ==> b[i] != sep,
    ensures
        split_on(a + seq![sep] + b, sep) == seq![a, b],
{
    let e = Seq::<char>::empty();
    lemma_split_on_extend(e, a, sep);
    assert(e + a =~= a);
    assert(split_on(a, sep) =~= seq![a]);
    let a1 = a + seq![sep];
    assert(a1.drop_last() =~= a);
    assert(split_on(a1, sep) =~= seq![a, e]);
    lemma_split_on_extend(a1, b, sep);
    assert(e + b =~= b);
    assert(split_on(a1 + b, sep) =~= seq![a, b]);
}

/// `s` without the occurrences of `c`.
pub open spec fn without(s: Seq<char>, c: char) -> Seq<char>
    decreases s.len(),
{
    if s.len() == 0 {
        Seq::empty()
    } else if s.last() == c {
        without(s.drop_last(), c)
    } else {
        without(s.drop_last(), c).push(s.last())
    }
}

// ---------------------------------------------------------------------------
// Calls into std that vstd does not specify.

/// Appends `c`.  Calls `String::push`, which appends one character.
#[verifier::external_body]
pub fn push_char(s: &mut String, c: char)
    ensures
        final(s)@ == old(s)@.push(c),
{
    s.push(c);
}

/// Lower-cases `s` with `str::to_lowercase`.  Its result is named
/// `lowercase(s@)`; of the Unicode mapping only this is stated: on an
/// all-ASCII text it lowers the letters `A`-`Z` and keeps everything else.
#[verifier::external_body]
pub fn to_lowercase(s: &str) -> (r: String)
    ensures
        r@ == lowercase(s@),
        all_ascii(s@) ==> r@ == ascii_lower_seq(s@),
{
    s.to_lowercase()
}

/// Upper-cases `s` with `str::to_uppercase`.  Its result is named
/// `uppercase(s@)`; of the Unicode mapping only this is stated: on an
/// all-ASCII text it raises the letters `a`-`z` and keeps everything else.
#[verifier::external_body]
pub fn to_uppercase(s: &str) -> (r: String)
    ensures
        r@ == uppercase(s@),
        all_ascii(s@) ==> r@ == ascii_upper_seq(s@),
{
    s.to_uppercase()
}

/// Decodes UTF-16 with `String::from_utf16_lossy`, which replaces each unpaired
/// surrogate by U+FFFD.
#[verifier::external_body]
pub fn from_utf16_lossy(units: &[u16]) -> (r: String)
    ensures
        r@ == utf16_lossy(units@),
{
    String::from_utf16_lossy(units)
}

// ---------------------------------------------------------------------------
// Verified helpers.

/// The characters of `s`, in order.
pub fn chars_of(s: &str) -> (out: Vec<char>)
    ensures
        out@ == s@,
{
    let mut out: Vec<char> = Vec::new();
    for c in it: s.chars()
        invariant
            out@ == it.seq().take(it.index() as int),
    {
        out.push(c);
    }
    out
}

/// A string made of `cs`.
pub fn string_of(cs: &[char]) -> (s: String)
    ensures
        s@ == cs@,
{
    let mut s = String::new();
    let mut i: usize = 0;
    while i < cs.len()
        invariant
            i <= cs@.len(),
            s@ == cs@.take(i as int),
        decreases cs@.len() - i,
    {
        push_char(&mut s, cs[i]);
        assert(cs@.take(i + 1) =~= cs@.take(i as int).push(cs@[i as int]));
        i += 1;
    }
    assert(cs@.take(i as int) =~= cs@);
    s
}

/// An owned copy of `s`.
pub fn lit(s: &str) -> (r: String)
    ensures
        r@ == s@,
{
    let cs = chars_of(s);
    string_of(cs.as_slice())
}

/// Appends the characters of `t`.
pub fn push_str(s: &mut String, t: &str)
    ensures
        final(s)@ == old(s)@ + t@,
{
    let cs = chars_of(t);
    let ghost s0 = s@;
    let mut i: usize = 0;
    while i < cs.len()
        invariant
            i <= cs@.len(),
            cs@ == t@,
            s@ == s0 + cs@.take(i as int),
        decreases cs@.len() - i,
    {
        push_char(s, cs[i]);
        assert(cs@.take(i + 1) =~= cs@.take(i as int).push(cs@[i as int]));
        i += 1;
    }
    assert(cs@.take(i as int) =~= cs@);
}

/// `char::is_whitespace`.
pub fn is_whitespace(c: char) -> (r: bool)
    ensures
        r == is_ws(c),
{
    let u = c as u32;
    (0x09 <= u && u <= 0x0d) || u == 0x20 || u == 0x85 || u == 0xa0 || u == 0x1680 || (0x2000 <= u
        && u <= 0x200a) || u == 0x2028 || u == 0x2029 || u == 0x202f || u == 0x205f || u == 0x3000
}

/// `char::to_ascii_lowercase`.
pub fn lower_ascii_char(c: char) -> (r: char)
    ensures
        r == ascii_lower(c),
{
    if 'A' <= c && c <= 'Z' {
        ((c as u8) + 32) as char
    } else {
        c
    }
}

/// `char::to_ascii_uppercase`.
pub fn upper_ascii_char(c: char) -> (r: char)
    ensures
        r == ascii_upper(c),
{
    if 'a' <= c && c <= 'z' {
        ((c as u8) - 32) as char
    } else {
        c
    }
}

/// `str::to_ascii_lowercase`, as characters.
pub fn lower_ascii(s: &[char]) -> (r: Vec<char>)
    ensures
        r@ == ascii_lower_seq(s@),
{
    let mut r: Vec<char> = Vec::new();
    let mut i: usize = 0;
    while i < s.len()
        invariant
            i <= s@.len(),
            r@ == ascii_lower_seq(s@.take(i as int)),
        decreases s@.len() - i,
    {
        r.push(lower_ascii_char(s[i]));
        assert(ascii_lower_seq(s@.take(i + 1)) =~= ascii_lower_seq(s@.take(i as int)).push(
            ascii_lower(s@[i as int]),
        ));
        i += 1;
    }
    assert(s@.take(i as int) =~= s@);
    r
}

/// Whether `needle` occurs in `hay` at position `i`.
pub fn matches_at(hay: &[char], needle: &[char], i: usize) -> (r: bool)
    ensures
        r == occurs_at(hay@, needle@, i as int),
{
    let hl = hay.len();
    if i > hl || needle.len() > hl - i {
        return false;
    }
    let mut k: usize = 0;
    while k < needle.len()
        invariant
            hl == hay@.len(),
            i + needle@.len() <= hl,
            k <= needle@.len(),
            forall|m: int| 0 <= m < k ==> hay@[i + m] == needle@[m],
        decreases needle@.len() - k,
    {
        if hay[i + k] != needle[k] {
            assert(hay@.subrange(i as int, i + needle@.len())[k as int] != needle@[k as int]);
            return false;
        }
        k += 1;
    }
    assert(hay@.subrange(i as int, i + needle@.len()) =~= needle@);
    true
}

/// Whether `hay` starts with `p`.
pub fn has_prefix(hay: &[char], p: &[char]) -> (r: bool)
    ensures
        r == starts_with(hay@, p@),
{
    matches_at(hay, p, 0)
}

/// Whether `needle` occurs anywhere in `hay`.
pub fn has_infix(hay: &[char], needle: &[char]) -> (r: bool)
    ensures
        r == contains(hay@, needle@),
{
    if needle.len() > hay.len() {
        assert forall|i: int| !#[trigger] occurs_at(hay@, needle@, i) by {}
        return false;
    }
    let last = hay.len() - needle.len();
    let mut i: usize = 0;
    loop
        invariant
            i <= last,
            last + needle@.len() == hay@.len(),
            forall|j: int| 0 <= j < i ==> !#[trigger] occurs_at(hay@, needle@, j),
        decreases last - i,
    {
        if matches_at(hay, needle, i) {
            return true;
        }
        if i == last {
            assert forall|j: int| !#[trigger] occurs_at(hay@, needle@, j) by {
                if 0 <= j && j < i {
                } else if j == i {
                }
            }
            return false;
        }
        i += 1;
    }
}

/// Whether the two character sequences are equal.
pub fn same_chars(a: &[char], b: &[char]) -> (r: bool)
    ensures
        r == (a@ == b@),
{
    if a.len() != b.len() {
        return false;
    }
    let r = matches_at(a, b, 0);
    assert(a@.subrange(0, b@.len() as int) =~= a@);
    r
}

/// Whether the two strings hold the same characters.
pub fn same_str(a: &str, b: &str) -> (r: bool)
    ensures
        r == (a@ == b@),
{
    let x = chars_of(a);
    let y = chars_of(b);
    same_chars(x.as_slice(), y.as_slice())
}

/// `str::trim` on characters.
pub fn trim_chars(s: &[char]) -> (r: Vec<char>)
    ensures
        r@ == trim(s@),
{
    let n = s.len();
    let mut a: usize = 0;
    while a < n && is_whitespace(s[a])
        invariant
            a <= n == s@.len(),
            forall|m: int| 0 <= m < a ==> is_ws(#[trigger] s@[m]),
        decreases n - a,
    {
        a += 1;
    }
    proof {
        lemma_lead_ws(s@, a as int);
    }
    let ghost t = s@.skip(a as int);
    let mut b: usize = n;
    while b > a && is_whitespace(s[b - 1])
        invariant
            a <= b <= n == s@.len(),
            t == s@.skip(a as int),
            forall|m: int| b <= m < n ==> is_ws(#[trigger] s@[m]),
        decreases b - a,
    {
        b -= 1;
    }
    proof {
        lemma_trail_ws(t, (b - a) as int);
    }
    let mut r: Vec<char> = Vec::new();
    let mut i: usize = a;
    while i < b
        invariant
            a <= i <= b <= n == s@.len(),
            r@ == s@.subrange(a as int, i as int),
        decreases b - i,
    {
        r.push(s[i]);
        assert(s@.subrange(a as int, i + 1) =~= s@.subrange(a as int, i as int).push(s@[i as int]));
        i += 1;
    }
    assert(r@ =~= t.take(t.len() - trail_ws(t)));
    r
}

proof fn lemma_lead_ws(s: Seq<char>, a: int)
    requires
        0 <= a <= s.len(),
        forall|m: int| 0 <= m < a ==> is_ws(#[trigger] s[m]),
        a == s.len() || !is_ws(s[a]),
    ensures
        lead_ws(s) == a,
    decreases a,
{
    if a > 0 {
        assert forall|m: int| 0 <= m < a - 1 implies is_ws(#[trigger] s.skip(1)[m]) by {
            assert(s.skip(1)[m] == s[m + 1]);
        }
        lemma_lead_ws(s.skip(1), a - 1);
    }
}

proof fn lemma_trail_ws(t: Seq<char>, b: int)
    requires
        0 <= b <= t.len(),
        forall|m: int| b <= m < t.len() ==> is_ws(#[trigger] t[m]),
        b == 0 || !is_ws(t[b - 1]),
    ensures
        trail_ws(t) == t.len() - b,
    decreases t.len() - b,
{
    if b < t.len() {
        let d = t.drop_last();
        assert forall|m: int| b <= m < d.len() implies is_ws(#[trigger] d[m]) by {
            assert(d[m] == t[m]);
        }
        if b > 0 {
            assert(d[b - 1] == t[b - 1]);
        }
        lemma_trail_ws(d, b);
    }
}

/// `str::split_whitespace` on characters.
pub fn split_words(s: &[char]) -> (r: Vec<Vec<char>>)
    ensures
        r@.map_values(|w: Vec<char>| w@) == words(s@),
{
    let mut out: Vec<Vec<char>> = Vec::new();
    let mut cur: Vec<char> = Vec::new();
    let mut i: usize = 0;
    assert(s@.skip(0) =~= s@);
    assert(out@.map_values(|w: Vec<char>| w@) =~= Seq::<Seq<char>>::empty());
    assert(cur@ =~= Seq::<char>::empty());
    while i < s.len()
        invariant
            i <= s@.len(),
            out@.map_values(|w: Vec<char>| w@) + split_ws_from(s@.skip(i as int), cur@) == words(s@),
        decreases s@.len() - i,
    {
        let ghost rest = s@.skip(i as int);
        assert(rest.skip(1) =~= s@.skip(i + 1));
        assert(rest[0] == s@[i as int]);
        if is_whitespace(s[i]) {
            if cur.len() > 0 {
                let ghost before = out@.map_values(|w: Vec<char>| w@);
                let w = cur;
                out.push(w);
                cur = Vec::new();
                assert(out@.map_values(|w: Vec<char>| w@) =~= before.push(w@));
                assert(seq![w@] + split_ws_from(s@.skip(i + 1), cur@) =~= split_ws_from(rest, w@));
                assert(before + split_ws_from(rest, w@) =~= before.push(w@) + split_ws_from(
                    s@.skip(i + 1),
                    cur@,
                ));
            } else {
                assert(cur@ =~= Seq::<char>::empty());
                assert(split_ws_from(rest, cur@) =~= Seq::<Seq<char>>::empty() + split_ws_from(
                    s@.skip(i + 1),
                    Seq::empty(),
                ));
                cur = Vec::new();
            }
        } else {
            cur.push(s[i]);
        }
        i += 1;
    }
    proof {
        let before = out@.map_values(|w: Vec<char>| w@);
        assert(s@.skip(i as int) =~= Seq::<char>::empty());
    }
    if cur.len() > 0 {
        let ghost before = out@.map_values(|w: Vec<char>| w@);
        let w = cur;
        out.push(w);
        assert(out@.map_values(|w: Vec<char>| w@) =~= before.push(w@));
    }
    out
}

pub proof fn lemma_split_nonempty(s: Seq<char>, sep: char)
    ensures
        split_on(s, sep).len() >= 1,
    decreases s.len(),
{
    if s.len() > 0 {
        lemma_split_nonempty(s.drop_last(), sep);
    }
}

/// `str::split` on a character, as characters.
pub fn split_char(s: &[char], sep: char) -> (r: Vec<Vec<char>>)
    ensures
        r@.map_values(|p: Vec<char>| p@) == split_on(s@, sep),
{
    let mut out: Vec<Vec<char>> = Vec::new();
    out.push(Vec::new());
    let mut i: usize = 0;
    assert(s@.take(0) =~= Seq::<char>::empty());
    assert(out@.map_values(|p: Vec<char>| p@) =~= split_on(Seq::<char>::empty(), sep));
    while i < s.len()
        invariant
            i <= s@.len(),
            out@.len() >= 1,
            out@.map_values(|p: Vec<char>| p@) == split_on(s@.take(i as int), sep),
        decreases s@.len() - i,
    {
        let c = s[i];
        let ghost before = out@.map_values(|p: Vec<char>| p@);
        assert(s@.take(i + 1).drop_last() =~= s@.take(i as int));
        if c == sep {
            out.push(Vec::new());
            assert(out@.map_values(|p: Vec<char>| p@) =~= before.push(Seq::<char>::empty()));
        } else {
            let last = out.len() - 1;
            out[last].push(c);
            assert(out@.map_values(|p: Vec<char>| p@) =~= before.update(before.len() - 1, before.last().push(c)));
        }
        i += 1;
    }
    assert(s@.take(i as int) =~= s@);
    out
}

/// `s` without the occurrences of `c`.
pub fn remove_char(s: &[char], c: char) -> (r: Vec<char>)
    ensures
        r@ == without(s@, c),
{
    let mut r: Vec<char> = Vec::new();
    let mut i: usize = 0;
    while i < s.len()
        invariant
            i <= s@.len(),
            r@ == without(s@.take(i as int), c),
        decreases s@.len() - i,
    {
        assert(s@.take(i + 1).drop_last() =~= s@.take(i as int));
        if s[i] != c {
            r.push(s[i]);
        }
        i += 1;
    }
    assert(s@.take(i as int) =~= s@);
    r
}

/// A word begun, or a first character that is no white space, makes at least
/// one word.
pub proof fn lemma_words_nonempty(s: Seq<char>, cur: Seq<char>)
    requires
        cur.len() > 0 || (s.len() > 0 && !is_ws(s[0])),
    ensures
        split_ws_from(s, cur).len() > 0,
    decreases s.len(),
{
    if s.len() > 0 && !is_ws(s[0]) {
        lemma_words_nonempty(s.skip(1), cur.push(s[0]));
    }
}

/// Every word is at least one character long, when the word begun is.
pub proof fn lemma_words_filled(s: Seq<char>, cur: Seq<char>)
    ensures
        forall|i: int|
            0 <= i < split_ws_from(s, cur).len() ==> (#[trigger] split_ws_from(s, cur)[i]).len() > 0,
    decreases s.len(),
{
    let head: Seq<Seq<char>> = if cur.len() > 0 { seq![cur] } else { Seq::empty() };
    if s.len() == 0 {
        assert(split_ws_from(s, cur) == head);
    } else if is_ws(s[0]) {
        lemma_words_filled(s.skip(1), Seq::empty());
        let rest = split_ws_from(s.skip(1), Seq::empty());
        assert(split_ws_from(s, cur) == head + rest);
        assert forall|i: int| 0 <= i < (head + rest).len() implies (#[trigger] (head + rest)[i]).len() > 0 by {
            if i >= head.len() {
                assert((head + rest)[i] == rest[i - head.len()]);
            }
        }
    } else {
        lemma_words_filled(s.skip(1), cur.push(s[0]));
        assert(split_ws_from(s, cur) == split_ws_from(s.skip(1), cur.push(s[0])));
    }
}

proof fn lemma_lead_ws_stop(s: Seq<char>)
    ensures
        lead_ws(s) <= s.len(),
        lead_ws(s) < s.len() ==> !is_ws(s[lead_ws(s) as int]),
    decreases s.len(),
{
    if s.len() > 0 && is_ws(s[0]) {
        lemma_lead_ws_stop(s.skip(1));
        if lead_ws(s) < s.len() {
            assert(s.skip(1)[lead_ws(s.skip(1)) as int] == s[lead_ws(s) as int]);
        }
    }
}

proof fn lemma_trail_le(t: Seq<char>)
    ensures
        trail_ws(t) <= t.len(),
    decreases t.len(),
{
    if t.len() > 0 && is_ws(t.last()) {
        lemma_trail_le(t.drop_last());
    }
}

/// Trimmed text that is not empty starts with a character that is no white space.
pub proof fn lemma_trim_starts(s: Seq<char>)
    ensures
        trim(s).len() > 0 ==> !is_ws(trim(s)[0]),
{
    lemma_lead_ws_stop(s);
    let t = s.skip(lead_ws(s) as int);
    lemma_trail_le(t);
    if trim(s).len() > 0 {
        assert(trim(s)[0] == t[0]);
        assert(t[0] == s[lead_ws(s) as int]);
    }
}

/// Whether the characters `c` are those of `lit`.
pub fn is_lit(c: &[char], lit: &str) -> (r: bool)
    ensures
        r == (c@ == lit@),
{
    let l = chars_of(lit);
    same_chars(c, l.as_slice())
}

/// Whether `t` begins with the characters of `lit`.
pub fn starts_lit(t: &[char], lit: &str) -> (r: bool)
    ensures
        r == starts_with(t@, lit@),
{
    let l = chars_of(lit);
    has_prefix(t, l.as_slice())
}

/// Whether the characters of `lit` occur in `t`.
pub fn has_lit(t: &[char], lit: &str) -> (r: bool)
    ensures
        r == contains(t@, lit@),
{
    let l = chars_of(lit);
    has_infix(t, l.as_slice())
}

/// The lower-case mapping of the characters `p`.
pub fn lowered(p: &[char]) -> (r: Vec<char>)
    ensures
        r@ == lowercase(p@),
{
    let s = string_of(p);
    let l = to_lowercase(s.as_str());
    chars_of(l.as_str())
}

/// The characters of each string.
pub open spec fn texts(v: Seq<String>) -> Seq<Seq<char>> {
    v.map_values(|s: String| s@)
}

/// A copy of an optional string.
pub fn copy_text(s: &Option<String>) -> (r: Option<String>)
    ensures
        r == *s,
{
    match s {
        Some(x) => Some(x.clone()),
        None => None,
    }
}

/// A copy of a list of strings.
pub fn copy_texts(v: &Vec<String>) -> (r: Vec<String>)
    ensures
        texts(r@) == texts(v@),
        r@.len() == v@.len(),
        forall|j: int| 0 <= j < v@.len() ==> #[trigger] r@[j] == v@[j],
{
    let mut r: Vec<String> = Vec::new();
    let mut i: usize = 0;
    while i < v.len()
        invariant
            i <= v@.len(),
            r@.len() == i,
            forall|j: int| 0 <= j < i ==> #[trigger] r@[j] == v@[j],
        decreases v@.len() - i,
    {
        r.push(v[i].clone());
        i += 1;
    }
    assert(texts(r@) =~= texts(v@));
    r
}

/// The first position, from `i` on, where `needle` occurs in `hay`.
pub open spec fn find_from(hay: Seq<char>, needle: Seq<char>, i: int) -> Option<int>
    decreases hay.len() + 1 - i,
{
    if i < 0 || i > hay.len() {
        None
    } else if occurs_at(hay, needle, i) {
        Some(i)
    } else {
        find_from(hay, needle, i + 1)
    }
}

proof fn lemma_find_from_aux(hay: Seq<char>, needle: Seq<char>, i: int)
    requires
        0 <= i <= hay.len(),
    ensures
        match find_from(hay, needle, i) {
            Some(k) => i <= k && occurs_at(hay, needle, k) && forall|j: int| i <= j < k ==> !#[trigger] occurs_at(hay, needle, j),
            None => forall|j: int| i <= j ==> !#[trigger] occurs_at(hay, needle, j),
        },
    decreases hay.len() - i,
{
    if !occurs_at(hay, needle, i) && i < hay.len() {
        lemma_find_from_aux(hay, needle, i + 1);
    }
    if !occurs_at(hay, needle, i) && i == hay.len() {
        assert(find_from(hay, needle, i + 1) is None);
        assert forall|j: int| i <= j implies !#[trigger] occurs_at(hay, needle, j) by {
            if j > i {
                assert(j + needle.len() > hay.len());
            }
        }
    }
}

/// A position found is within `hay`.
pub proof fn lemma_find_in_range(hay: Seq<char>, needle: Seq<char>)
    ensures
        find_from(hay, needle, 0) matches Some(k) ==> 0 <= k <= hay.len() && occurs_at(hay, needle, k),
        find_from(hay, needle, 0) is None ==> !contains(hay, needle),
{
    lemma_find_from_aux(hay, needle, 0);
    if find_from(hay, needle, 0) is None {
        assert forall|j: int| !#[trigger] occurs_at(hay, needle, j) by {
            if 0 <= j {
                assert(!occurs_at(hay, needle, j));
            }
        }
    }
}

/// The first position where `needle` occurs in `hay`, as `str::find` finds
/// it (counted in characters).
pub fn find_chars(hay: &[char], needle: &[char]) -> (r: Option<usize>)
    ensures
        match r {
            Some(k) => find_from(hay@, needle@, 0) == Some(k as int),
            None => find_from(hay@, needle@, 0) is None,
        },
{
    let mut i: usize = 0;
    loop
        invariant
            i <= hay@.len(),
            find_from(hay@, needle@, 0) == find_from(hay@, needle@, i as int),
        decreases hay@.len() - i,
    {
        if matches_at(hay, needle, i) {
            return Some(i);
        }
        if i == hay.len() {
            assert(find_from(hay@, needle@, i + 1) is None);
            return None;
        }
        i += 1;
    }
}

/// The number of bytes of `c` in UTF-8.
pub open spec fn utf8_width(c: char) -> int {
    if (c as u32) < 0x80 {
        1
    } else if (c as u32) < 0x800 {
        2
    } else if (c as u32) < 0x10000 {
        3
    } else {
        4
    }
}

/// The number of bytes of `s` in UTF-8.
pub open spec fn utf8_len(s: Seq<char>) -> int
    decreases s.len(),
{
    if s.len() == 0 {
        0
    } else {
        utf8_len(s.drop_last()) + utf8_width(s.last())
    }
}

/// The byte offset of character `i` of `s`, counted up to `cap`.
pub open spec fn capped_offset(s: Seq<char>, i: int, cap: int) -> int {
    if utf8_len(s.take(i)) < cap {
        utf8_len(s.take(i))
    } else {
        cap
    }
}

proof fn lemma_utf8_len_grows(s: Seq<char>, i: int)
    requires
        0 <= i < s.len(),
    ensures
        utf8_len(s.take(i + 1)) == utf8_len(s.take(i)) + utf8_width(s[i]),
        utf8_width(s[i]) >= 1,
{
    assert(s.take(i + 1).drop_last() =~= s.take(i));
}

/// The byte offset of character `i` of `s` in UTF-8, counted up to `cap`
/// (`cap` standing for any larger offset).
pub fn byte_offset_capped(s: &[char], i: usize, cap: u8) -> (r: u8)
    requires
        i <= s@.len(),
    ensures
        r == capped_offset(s@, i as int, cap as int),
{
    let mut k: usize = 0;
    let mut acc: u8 = 0;
    assert(s@.take(0) =~= Seq::<char>::empty());
    while k < i && acc < cap
        invariant
            k <= i <= s@.len(),
            acc <= cap,
            acc < cap ==> acc == utf8_len(s@.take(k as int)),
            acc == cap ==> utf8_len(s@.take(k as int)) >= cap,
        decreases i - k,
    {
        proof {
            lemma_utf8_len_grows(s@, k as int);
        }
        let c = s[k] as u32;
        let w: u8 = if c < 0x80 {
            1
        } else if c < 0x800 {
            2
        } else if c < 0x10000 {
            3
        } else {
            4
        };
        if (cap - acc) <= w {
            acc = cap;
        } else {
            acc = acc + w;
        }
        k += 1;
    }
    if acc == cap {
        proof {
            lemma_utf8_len_mono(s@, k as int, i as int);
        }
    }
    acc
}

proof fn lemma_utf8_len_mono(s: Seq<char>, a: int, b: int)
    requires
        0 <= a <= b <= s.len(),
    ensures
        utf8_len(s.take(a)) <= utf8_len(s.take(b)),
    decreases b - a,
{
    if a < b {
        lemma_utf8_len_mono(s, a, b - 1);
        lemma_utf8_len_grows(s, b - 1);
    }
}

} // verus!
