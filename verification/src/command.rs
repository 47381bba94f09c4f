//! What the text commands share: their description, the joining of their
//! arguments, and the reading of a count.

use vstd::prelude::*;
use crate::text::{lit, push_str, same_str};

verus! {

/// How a command is named and used.
pub struct CommandSpec {
    pub name: String,
    pub description: String,
    pub aliases: Vec<String>,
    pub usage: String,
}

/// The commands known to the launcher, in the order they were registered.
pub struct CommandRegistry {
    pub specs: Vec<CommandSpec>,
}

impl CommandRegistry {
    /// No command yet.
    pub fn new() -> (r: Self)
        ensures
            r.specs@.len() == 0,
    {
        CommandRegistry { specs: Vec::new() }
    }

    /// Adds a command at the end.
    pub fn register(&mut self, spec: CommandSpec)
        ensures
            final(self).specs@ == old(self).specs@.push(spec),
    {
        self.specs.push(spec);
    }
}

/// A command description with no aliases.
pub fn command_spec(name: &str, description: &str, usage: &str) -> (r: CommandSpec)
    ensures
        r.name@ == name@,
        r.description@ == description@,
        r.aliases@.len() == 0,
        r.usage@ == usage@,
{
    CommandSpec { name: lit(name), description: lit(description), aliases: Vec::new(), usage: lit(usage) }
}

/// A command description with aliases.
pub fn command_spec_aliased(name: &str, description: &str, aliases: &[&str], usage: &str) -> (r:
    CommandSpec)
    ensures
        r.name@ == name@,
        r.description@ == description@,
        r.aliases@.len() == aliases@.len(),
        forall|i: int| 0 <= i < aliases@.len() ==> #[trigger] r.aliases@[i]@ == aliases@[i]@,
        r.usage@ == usage@,
{
    let mut names: Vec<String> = Vec::new();
    let mut i: usize = 0;
    while i < aliases.len()
        invariant
            i <= aliases@.len(),
            names@.len() == i,
            forall|j: int| 0 <= j < i ==> #[trigger] names@[j]@ == aliases@[j]@,
        decreases aliases@.len() - i,
    {
        names.push(lit(aliases[i]));
        i += 1;
    }
    CommandSpec { name: lit(name), description: lit(description), aliases: names, usage: lit(usage) }
}

/// The characters of each string.
pub open spec fn views(s: Seq<String>) -> Seq<Seq<char>> {
    s.map_values(|x: String| x@)
}

/// `parts` joined with `sep` between neighbours.
pub open spec fn joined(parts: Seq<Seq<char>>, sep: Seq<char>) -> Seq<char>
    decreases parts.len(),
{
    if parts.len() == 0 {
        Seq::empty()
    } else if parts.len() == 1 {
        parts[0]
    } else {
        joined(parts.drop_last(), sep) + sep + parts.last()
    }
}

/// `parts[from..].join(sep)`.
pub fn join_from(parts: &[String], from: usize, sep: &str) -> (r: String)
    requires
        from <= parts@.len(),
    ensures
        r@ == joined(views(parts@).subrange(from as int, parts@.len() as int), sep@),
{
    let ghost all = views(parts@);
    let mut r = String::new();
    let mut i: usize = from;
    while i < parts.len()
        invariant
            from <= i <= parts@.len(),
            all == views(parts@),
            r@ == joined(all.subrange(from as int, i as int), sep@),
        decreases parts@.len() - i,
    {
        let ghost before = all.subrange(from as int, i as int);
        assert(all.subrange(from as int, i + 1).drop_last() =~= before);
        if i > from {
            push_str(&mut r, sep);
        } else {
            assert(all.subrange(from as int, i + 1) =~= seq![all[i as int]]);
        }
        push_str(&mut r, parts[i].as_str());
        i += 1;
    }
    r
}

/// The digits `'0'..='9'` of `s`, read in base ten.
pub open spec fn digits_value(s: Seq<char>) -> int
    decreases s.len(),
{
    if s.len() == 0 {
        0
    } else {
        digits_value(s.drop_last()) * 10 + (s.last() as int - '0' as int)
    }
}

/// Every character of `s` is an ASCII digit.
pub open spec fn all_digits(s: Seq<char>) -> bool {
    forall|i: int| 0 <= i < s.len() ==> '0' <= #[trigger] s[i] <= '9'
}

/// `str::parse::<u32>`: an optional `+`, then one or more ASCII digits whose
/// value fits in `u32`.
pub open spec fn u32_text(s: Seq<char>) -> Option<u32> {
    let d = if s.len() > 0 && s[0] == '+' { s.drop_first() } else { s };
    if d.len() > 0 && all_digits(d) && digits_value(d) <= u32::MAX {
        Some(digits_value(d) as u32)
    } else {
        None
    }
}

/// Reads a count as `str::parse::<u32>` does; see `u32_text`.
pub fn parse_u32(s: &str) -> (r: Option<u32>)
    ensures
        r == u32_text(s@),
{
    let cs = crate::text::chars_of(s);
    let n = cs.len();
    let start: usize = if n > 0 && cs[0] == '+' { 1 } else { 0 };
    let ghost d = if s@.len() > 0 && s@[0] == '+' { s@.drop_first() } else { s@ };
    assert(d =~= s@.subrange(start as int, n as int));
    if start >= n {
        return None;
    }
    let mut value: u64 = 0;
    let mut over = false;
    let mut i: usize = start;
    while i < n
        invariant
            cs@ == s@,
            n == cs@.len(),
            start <= i <= n,
            d =~= s@.subrange(start as int, n as int),
            d == (if s@.len() > 0 && s@[0] == '+' { s@.drop_first() } else { s@ }),
            all_digits(s@.subrange(start as int, i as int)),
            over ==> digits_value(s@.subrange(start as int, i as int)) > u32::MAX,
            !over ==> value == digits_value(s@.subrange(start as int, i as int)),
            value <= u32::MAX,
        decreases n - i,
    {
        let c = cs[i];
        let ghost pre = s@.subrange(start as int, i as int);
        let ghost next = s@.subrange(start as int, i + 1);
        assert(next.drop_last() =~= pre);
        assert(next.last() == c);
        if !('0' <= c && c <= '9') {
            proof {
                assert(d[i - start] == c);
                assert(!('0' <= d[i - start] <= '9'));
                assert(!all_digits(d));
            }
            return None;
        }
        if !over {
            let v = value * 10 + (c as u32 - '0' as u32) as u64;
            if v > 4294967295u64 {
                over = true;
            } else {
                value = v;
            }
        }
        proof {
            assert forall|j: int| 0 <= j < next.len() implies '0' <= #[trigger] next[j] <= '9' by {
                if j < pre.len() {
                    assert(next[j] == pre[j]);
                }
            }
        }
        i += 1;
    }
    assert(s@.subrange(start as int, n as int) =~= d);
    if over {
        None
    } else {
        Some(value as u32)
    }
}

/// `prefix` followed by `rest`.
pub fn prefixed(prefix: &str, rest: &str) -> (r: String)
    ensures
        r@ == prefix@ + rest@,
{
    let mut r = lit(prefix);
    push_str(&mut r, rest);
    r
}

/// `prefix` followed by `rest` and then `suffix`.
pub fn framed(prefix: &str, rest: &str, suffix: &str) -> (r: String)
    ensures
        r@ == prefix@ + rest@ + suffix@,
{
    let mut r = lit(prefix);
    push_str(&mut r, rest);
    push_str(&mut r, suffix);
    r
}

/// Whether `s` is exactly the text `word`.
pub fn is_word(s: &String, word: &str) -> (r: bool)
    ensures
        r == (s@ == word@),
{
    same_str(s.as_str(), word)
}

} // verus!
