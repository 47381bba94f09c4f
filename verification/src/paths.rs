//! Windows path helpers: joining a file name onto a directory, and the name,
//! stem and extension of a path, as `std::path` computes them for Windows
//! paths.

use vstd::prelude::*;
use crate::text::{chars_of, lowercase, push_char, push_str, string_of, to_lowercase};

verus! {

/// A path separator on Windows.
pub open spec fn is_sep(c: char) -> bool {
    c == '\\' || c == '/'
}

/// `parent` joined with the single file name `name`, as Windows
/// `PathBuf::push` does it: a `\\` goes between them unless `parent` is empty
/// or already ends with a separator.
pub open spec fn join_path(parent: Seq<char>, name: Seq<char>) -> Seq<char> {
    if parent.len() == 0 || parent.last() == '\\' || parent.last() == '/' {
        parent + name
    } else {
        parent.push('\\') + name
    }
}

/// Joins a directory path and a file name; see `join_path`.
pub fn join_name(parent: &String, name: &String) -> (r: String)
    ensures
        r@ == join_path(parent@, name@),
{
    let p = chars_of(parent.as_str());
    let mut out = parent.clone();
    let n = p.len();
    if !(n == 0 || p[n - 1] == '\\' || p[n - 1] == '/') {
        push_char(&mut out, '\\');
    }
    push_str(&mut out, name.as_str());
    out
}

/// Position of the last `.` in `s`, or -1.
pub open spec fn last_dot(s: Seq<char>) -> int
    decreases s.len(),
{
    if s.len() == 0 {
        -1
    } else if s.last() == '.' {
        s.len() - 1
    } else {
        last_dot(s.drop_last())
    }
}

/// The extension of the file name `name`, as `Path::extension` gives it: the
/// text after the last dot, unless there is no dot, the only dot leads the
/// name, or the name is `..`.
pub open spec fn file_ext(name: Seq<char>) -> Option<Seq<char>> {
    if name == seq!['.', '.'] || last_dot(name) <= 0 {
        None
    } else {
        Some(name.skip(last_dot(name) + 1))
    }
}

/// The lower-cased extension of `name`.
pub open spec fn lowered_ext(name: Seq<char>) -> Option<Seq<char>> {
    match file_ext(name) {
        Some(e) => Some(lowercase(e)),
        None => None,
    }
}

/// `r` holds `lowered_ext(name)`.
pub open spec fn ext_holds(r: Option<String>, name: Seq<char>) -> bool {
    match r {
        Some(e) => lowered_ext(name) == Some(e@),
        None => lowered_ext(name) is None,
    }
}

/// The extension of the file name `name`, lower-cased.
pub fn lowered_extension(name: &String) -> (r: Option<String>)
    ensures
        ext_holds(r, name@),
{
    let cs = chars_of(name.as_str());
    let n = cs.len();
    let mut k: usize = n;
    assert(cs@.take(n as int) =~= cs@);
    while k > 0 && cs[k - 1] != '.'
        invariant
            k <= n == cs@.len(),
            cs@ == name@,
            last_dot(name@) == last_dot(cs@.take(k as int)),
        decreases k,
    {
        assert(cs@.take(k - 1) =~= cs@.take(k as int).drop_last());
        k -= 1;
    }
    proof {
        assert(cs@.take(n as int) =~= cs@);
        if k > 0 {
            assert(cs@.take(k as int).last() == '.');
        }
    }
    let dotdot = n == 2 && cs[0] == '.' && cs[1] == '.';
    proof {
        if dotdot {
            assert(name@ =~= seq!['.', '.']);
        }
        if n == 2 && name@ == seq!['.', '.'] {
            assert(cs@[0] == '.' && cs@[1] == '.');
        }
    }
    if dotdot || k <= 1 {
        return None;
    }
    let ext = string_of(&cs.as_slice()[k..n]);
    Some(to_lowercase(ext.as_str()))
}

/// `p` without its trailing separators and trailing `.` components.
pub open spec fn strip_tail(p: Seq<char>) -> Seq<char>
    decreases p.len(),
{
    if p.len() > 0 && (is_sep(p.last()) || (p.last() == '.' && (p.len() == 1 || is_sep(p[p.len() - 2])))) {
        strip_tail(p.drop_last())
    } else {
        p
    }
}

/// `q` begins with a drive prefix such as `C:`.
pub open spec fn has_drive(q: Seq<char>) -> bool {
    q.len() >= 2 && q[1] == ':' && crate::text::is_ascii_alpha(q[0])
}

/// Position of the last separator in `p`, or -1.
pub open spec fn last_sep(p: Seq<char>) -> int
    decreases p.len(),
{
    if p.len() == 0 {
        -1
    } else if is_sep(p.last()) {
        p.len() - 1
    } else {
        last_sep(p.drop_last())
    }
}

/// The last component of the path `p`, trailing separators and `.`
/// components aside, and without a leading drive prefix such as `C:`.
pub open spec fn last_component(p: Seq<char>) -> Seq<char> {
    let q = strip_tail(p);
    if last_sep(q) < 0 && has_drive(q) {
        q.skip(2)
    } else {
        q.skip(last_sep(q) + 1)
    }
}

/// The file name of the path `p`, as `Path::file_name` gives it (empty for
/// none): its last component, unless that is `.` or `..` or there is none.
/// Separators are `\` and `/`, and a drive prefix is a letter and a colon.
pub open spec fn file_name_of(p: Seq<char>) -> Seq<char> {
    let c = last_component(p);
    if c == seq!['.'] || c == seq!['.', '.'] {
        Seq::empty()
    } else {
        c
    }
}

/// The stem of the path `p`, as `Path::file_stem` gives it (empty for `..`):
/// its last component without the text from the last dot on, unless there
/// is no dot or only a leading one.
pub open spec fn stem_of(p: Seq<char>) -> Seq<char> {
    let n = file_name_of(p);
    if n == seq!['.', '.'] {
        Seq::empty()
    } else if last_dot(n) <= 0 {
        n
    } else {
        n.take(last_dot(n))
    }
}

/// The last component of `path`; see `file_name_of`.
pub fn file_name_chars(path: &str) -> (name: Vec<char>)
    ensures
        name@ == file_name_of(path@),
{
    let cs = chars_of(path);
    let ghost p = path@;
    let mut e: usize = cs.len();
    assert(cs@.take(e as int) =~= p);
    while e > 0 && (cs[e - 1] == '\\' || cs[e - 1] == '/' || (cs[e - 1] == '.' && (e == 1 || cs[e - 2] == '\\'
        || cs[e - 2] == '/')))
        invariant
            e <= cs@.len(),
            cs@ == p,
            strip_tail(p) == strip_tail(cs@.take(e as int)),
        decreases e,
    {
        assert(cs@.take(e - 1) =~= cs@.take(e as int).drop_last());
        e -= 1;
    }
    let ghost q = cs@.take(e as int);
    assert(strip_tail(q) == q);
    let mut b: usize = e;
    assert(q.take(b as int) =~= q);
    while b > 0 && !(cs[b - 1] == '\\' || cs[b - 1] == '/')
        invariant
            b <= e <= cs@.len(),
            cs@ == p,
            q == cs@.take(e as int),
            last_sep(q) == last_sep(q.take(b as int)),
        decreases b,
    {
        assert(q.take(b - 1) =~= q.take(b as int).drop_last());
        b -= 1;
    }
    proof {
        if b > 0 {
            assert(q.take(b as int).last() == q[b - 1]);
        }
    }
    let start: usize = if b == 0 && e >= 2 && cs[1] == ':' && (('a' <= cs[0] && cs[0] <= 'z') || ('A' <= cs[0]
        && cs[0] <= 'Z')) {
        2
    } else {
        b
    };
    let mut name: Vec<char> = Vec::new();
    let mut i: usize = start;
    while i < e
        invariant
            start <= i <= e <= cs@.len(),
            name@ == cs@.subrange(start as int, i as int),
        decreases e - i,
    {
        name.push(cs[i]);
        assert(cs@.subrange(start as int, i + 1) =~= cs@.subrange(start as int, i as int).push(cs@[i as int]));
        i += 1;
    }
    assert(name@ =~= last_component(p));
    let n = name.len();
    if (n == 1 && name[0] == '.') || (n == 2 && name[0] == '.' && name[1] == '.') {
        assert(name@ =~= seq!['.'] || name@ =~= seq!['.', '.']);
        return Vec::new();
    }
    proof {
        if name@ == seq!['.'] {
            assert(name@[0] == '.');
        }
        if name@ == seq!['.', '.'] {
            assert(name@[0] == '.' && name@[1] == '.');
        }
    }
    name
}

/// The stem of the last component of `path`; see `stem_of`.
pub fn file_stem(path: &str) -> (r: Vec<char>)
    ensures
        r@ == stem_of(path@),
{
    let name = file_name_chars(path);
    let ghost n = file_name_of(path@);

    let len = name.len();
    if len == 2 && name[0] == '.' && name[1] == '.' {
        assert(n =~= seq!['.', '.']);
        return Vec::new();
    }
    proof {
        if n == seq!['.', '.'] {
            assert(name@[0] == '.' && name@[1] == '.');
        }
    }
    let mut k: usize = len;
    assert(name@.take(len as int) =~= name@);
    while k > 0 && name[k - 1] != '.'
        invariant
            k <= len == name@.len(),
            last_dot(n) == last_dot(name@.take(k as int)),
            name@ == n,
        decreases k,
    {
        assert(name@.take(k - 1) =~= name@.take(k as int).drop_last());
        k -= 1;
    }
    proof {
        if k > 0 {
            assert(name@.take(k as int).last() == '.');
        }
    }
    if k <= 1 {
        return name;
    }
    let mut r: Vec<char> = Vec::new();
    let mut j: usize = 0;
    while j < k - 1
        invariant
            j <= k - 1,
            k <= len == name@.len(),
            r@ == name@.take(j as int),
        decreases k - 1 - j,
    {
        r.push(name[j]);
        assert(name@.take(j + 1) =~= name@.take(j as int).push(name@[j as int]));
        j += 1;
    }
    r
}

/// The extension of the file name `name`; see `file_ext`.
pub fn extension_chars(name: &[char]) -> (r: Option<Vec<char>>)
    ensures
        match r {
            Some(e) => file_ext(name@) == Some(e@),
            None => file_ext(name@) is None,
        },
{
    let n = name.len();
    let mut k: usize = n;
    assert(name@.take(n as int) =~= name@);
    while k > 0 && name[k - 1] != '.'
        invariant
            k <= n == name@.len(),
            last_dot(name@) == last_dot(name@.take(k as int)),
        decreases k,
    {
        assert(name@.take(k - 1) =~= name@.take(k as int).drop_last());
        k -= 1;
    }
    proof {
        if k > 0 {
            assert(name@.take(k as int).last() == '.');
        }
    }
    let dotdot = n == 2 && name[0] == '.' && name[1] == '.';
    proof {
        if dotdot {
            assert(name@ =~= seq!['.', '.']);
        }
        if n == 2 && name@ == seq!['.', '.'] {
            assert(name@[0] == '.' && name@[1] == '.');
        }
    }
    if dotdot || k <= 1 {
        return None;
    }
    let mut e: Vec<char> = Vec::new();
    let mut i: usize = k;
    while i < n
        invariant
            k <= i <= n == name@.len(),
            e@ == name@.subrange(k as int, i as int),
        decreases n - i,
    {
        e.push(name[i]);
        assert(name@.subrange(k as int, i + 1) =~= name@.subrange(k as int, i as int).push(name@[i as int]));
        i += 1;
    }
    assert(e@ =~= name@.skip(last_dot(name@) + 1));
    Some(e)
}

} // verus!
