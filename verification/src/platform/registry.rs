//! Start-up entries in the registry: reading the listing of a `Run` key.
//! Running the registry tool is the caller's.

use vstd::prelude::*;
use crate::command::joined;
use crate::models::startup::{discovered_as, StartupItem, StartupSource};
use crate::text::{chars_of, lemma_words_filled, push_char, split_char, split_on, split_words, string_of, trim, trim_chars, words};

verus! {

/// Does nothing with `path`.
pub fn try_unused(_path: &String) {
}

/// How many times `c` begins `s`.
pub open spec fn lead_of(s: Seq<char>, c: char) -> nat
    decreases s.len(),
{
    if s.len() > 0 && s[0] == c {
        1 + lead_of(s.skip(1), c)
    } else {
        0
    }
}

/// How many times `c` ends `s`.
pub open spec fn trail_of(s: Seq<char>, c: char) -> nat
    decreases s.len(),
{
    if s.len() > 0 && s.last() == c {
        1 + trail_of(s.drop_last(), c)
    } else {
        0
    }
}

/// `s` without the occurrences of `c` at its start and at its end, as
/// `str::trim_matches` with one character gives it.
pub open spec fn strip_char(s: Seq<char>, c: char) -> Seq<char> {
    let t = s.skip(lead_of(s, c) as int);
    t.take(t.len() - trail_of(t, c))
}

proof fn lemma_lead_of(s: Seq<char>, c: char, i: int)
    requires
        0 <= i <= s.len(),
        forall|m: int| 0 <= m < i ==> s[m] == c,
        i == s.len() || s[i] != c,
    ensures
        lead_of(s, c) == i,
    decreases i,
{
    if i > 0 {
        assert forall|m: int| 0 <= m < i - 1 implies s.skip(1)[m] == c by {
            assert(s.skip(1)[m] == s[m + 1]);
        }
        if i < s.len() {
            assert(s.skip(1)[i - 1] == s[i]);
        }
        lemma_lead_of(s.skip(1), c, i - 1);
    }
}

proof fn lemma_trail_of(s: Seq<char>, c: char, k: int)
    requires
        0 <= k <= s.len(),
        forall|m: int| s.len() - k <= m < s.len() ==> s[m] == c,
        k == s.len() || s[s.len() - k - 1] != c,
    ensures
        trail_of(s, c) == k,
    decreases k,
{
    if k > 0 {
        let d = s.drop_last();
        assert forall|m: int| d.len() - (k - 1) <= m < d.len() implies d[m] == c by {
            assert(d[m] == s[m]);
        }
        if k < s.len() {
            assert(d[d.len() - (k - 1) - 1] == s[s.len() - k - 1]);
        }
        lemma_trail_of(d, c, k - 1);
    }
}

fn strip_chars(s: &[char], c: char) -> (r: Vec<char>)
    ensures
        r@ == strip_char(s@, c),
{
    let n = s.len();
    let mut a: usize = 0;
    while a < n && s[a] == c
        invariant
            a <= n == s@.len(),
            forall|m: int| 0 <= m < a ==> s@[m] == c,
        decreases n - a,
    {
        a += 1;
    }
    proof {
        lemma_lead_of(s@, c, a as int);
    }
    let ghost t = s@.skip(a as int);
    let mut b: usize = n;
    while b > a && s[b - 1] == c
        invariant
            a <= b <= n == s@.len(),
            forall|m: int| b <= m < n ==> s@[m] == c,
        decreases b - a,
    {
        b -= 1;
    }
    proof {
        assert forall|m: int| t.len() - (n - b) <= m < t.len() implies t[m] == c by {
            assert(t[m] == s@[m + a]);
        }
        if b > a {
            assert(t[t.len() - (n - b) - 1] == s@[b - 1]);
        }
        lemma_trail_of(t, c, (n - b) as int);
    }
    let mut r: Vec<char> = Vec::new();
    let mut i: usize = a;
    while i < b
        invariant
            a <= i <= b <= n == s@.len(),
            r@ == s@.subrange(a as int, i as int),
        decreases b - i,
    {
        r.push(s[i]);
        assert(s@.subrange(a as int, i + 1) =~= s@.subrange(a as int, i as int).push(s@[i as int]));
        i += 1;
    }
    assert(r@ =~= strip_char(s@, c));
    r
}

/// A value of a `Run` key: the entry's name, its command line and whether
/// it is enabled.
#[derive(Debug, Clone, PartialEq, Eq)]
pub struct RunValue {
    pub name: String,
    pub command: String,
    pub enabled: bool,
}

/// The value a line of the registry tool's listing describes, such as
/// `    App    REG_SZ    "C:\app.exe" --x`: its first word is the name,
/// everything after the second word (joined by single spaces, without
/// surrounding quotes) the command; a line that is blank, has fewer than
/// three words, names a bracketed header such as `(Default)`, or has an
/// empty command describes none.  A name starting with `.` is disabled.
pub open spec fn run_value_of(line: Seq<char>) -> Option<(Seq<char>, Seq<char>, bool)> {
    let t = trim(line);
    let ws = words(t);
    if t.len() == 0 || ws.len() < 3 || ws[0][0] == '(' {
        None
    } else {
        let v = strip_char(joined(ws.subrange(2, ws.len() as int), " "@), '"');
        if v.len() == 0 {
            None
        } else {
            Some((ws[0], v, t[0] != '.'))
        }
    }
}

/// The values the listing `text` describes, line by line, in order.
pub open spec fn run_values(lines: Seq<Seq<char>>) -> Seq<(Seq<char>, Seq<char>, bool)>
    decreases lines.len(),
{
    if lines.len() == 0 {
        Seq::empty()
    } else {
        match run_value_of(lines.last()) {
            Some(v) => run_values(lines.drop_last()).push(v),
            None => run_values(lines.drop_last()),
        }
    }
}

/// A value as plain values.
pub open spec fn run_value_view(v: RunValue) -> (Seq<char>, Seq<char>, bool) {
    (v.name@, v.command@, v.enabled)
}

fn join_words(ws: &Vec<Vec<char>>, from: usize) -> (r: Vec<char>)
    requires
        from <= ws@.len(),
    ensures
        r@ == joined(ws@.map_values(|w: Vec<char>| w@).subrange(from as int, ws@.len() as int), " "@),
{
    let ghost all = ws@.map_values(|w: Vec<char>| w@);
    let mut r: Vec<char> = Vec::new();
    let mut i: usize = from;
    while i < ws.len()
        invariant
            from <= i <= ws@.len(),
            all == ws@.map_values(|w: Vec<char>| w@),
            r@ == joined(all.subrange(from as int, i as int), " "@),
        decreases ws@.len() - i,
    {
        let ghost before = all.subrange(from as int, i as int);
        assert(all.subrange(from as int, i + 1).drop_last() =~= before);
        if i > from {
            r.push(' ');
            proof {
                reveal_strlit(" ");
            }
        } else {
            assert(all.subrange(from as int, i + 1) =~= seq![all[i as int]]);
        }
        let w = &ws[i];
        let ghost r0 = r@;
        let mut k: usize = 0;
        while k < w.len()
            invariant
                k <= w@.len(),
                r@ == r0 + w@.take(k as int),
            decreases w@.len() - k,
        {
            r.push(w[k]);
            assert(w@.take(k + 1) =~= w@.take(k as int).push(w@[k as int]));
            k += 1;
        }
        assert(w@.take(k as int) =~= w@);
        assert(all[i as int] == w@);
        proof {
            reveal_strlit(" ");
            if i > from {
                assert(r@ =~= joined(before, " "@) + " "@ + all[i as int]);
            }
        }
        i += 1;
    }
    r
}

/// The values that the registry tool's listing of a `Run` key describes;
/// see `run_value_of`.
pub fn parse_run_key_output(text: &str) -> (r: Vec<RunValue>)
    ensures
        r@.map_values(|v: RunValue| run_value_view(v)) == run_values(split_on(text@, '\n')),
{
    let cs = chars_of(text);
    let lines = split_char(cs.as_slice(), '\n');
    let ghost ls = lines@.map_values(|l: Vec<char>| l@);
    let mut out: Vec<RunValue> = Vec::new();
    let mut i: usize = 0;
    while i < lines.len()
        invariant
            ls == lines@.map_values(|l: Vec<char>| l@),
            ls == split_on(text@, '\n'),
            i <= lines@.len(),
            out@.map_values(|v: RunValue| run_value_view(v)) == run_values(ls.take(i as int)),
        decreases lines@.len() - i,
    {
        assert(ls.take(i + 1).drop_last() =~= ls.take(i as int));
        assert(ls[i as int] == lines@[i as int]@);
        let line = lines[i].as_slice();
        let t = trim_chars(line);
        let ws = split_words(t.as_slice());
        let ghost wv = ws@.map_values(|w: Vec<char>| w@);
        proof {
            lemma_words_filled(t@, Seq::empty());
        }
        let ghost before = out@.map_values(|v: RunValue| run_value_view(v));
        if t.len() > 0 && ws.len() >= 3 {
            assert(wv[0] == ws@[0]@);
            assert(wv[0].len() > 0);
            if ws[0][0] != '(' {
                let joined_cmd = join_words(&ws, 2);
                let v = strip_chars(joined_cmd.as_slice(), '"');
                if v.len() > 0 {
                    let item = RunValue { name: string_of(ws[0].as_slice()), command: string_of(v.as_slice()), enabled: t[0] != '.' };
                    out.push(item);
                    assert(out@.map_values(|v: RunValue| run_value_view(v)) =~= before.push(run_value_view(item)));
                }
            }
        }
        i += 1;
    }
    assert(ls.take(i as int) =~= ls);
    out
}

/// The startup entries of the values `values` of a `Run` key registered at
/// `source`, in order (the reading of `read_run_key`).
pub fn run_items(values: &Vec<RunValue>, source: StartupSource) -> (r: Vec<StartupItem>)
    ensures
        r@.len() == values@.len(),
        forall|i: int|
            0 <= i < r@.len() ==> discovered_as(
                #[trigger] r@[i],
                values@[i].name@,
                values@[i].command@,
                values@[i].enabled,
                source,
            ),
{
    let mut r: Vec<StartupItem> = Vec::new();
    let mut i: usize = 0;
    while i < values.len()
        invariant
            i <= values@.len(),
            r@.len() == i,
            forall|j: int|
                0 <= j < i ==> discovered_as(
                    #[trigger] r@[j],
                    values@[j].name@,
                    values@[j].command@,
                    values@[j].enabled,
                    source,
                ),
        decreases values@.len() - i,
    {
        let v = &values[i];
        r.push(StartupItem::discovered(v.name.clone(), v.command.clone(), v.enabled, source));
        i += 1;
    }
    r
}

} // verus!
