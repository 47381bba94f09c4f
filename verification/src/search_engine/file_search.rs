//! File index: the full-text query built from user input, the result type of
//! a file, the entries the indexer leaves out, and the drives to index.

use vstd::prelude::*;
use crate::text::{ascii_upper, chars_of, contains, has_infix, has_lit, is_ascii_alpha, is_lit, lit, lowercase, push_char, push_str, same_chars, split_words, starts_lit, starts_with, string_of, to_lowercase, upper_ascii_char, words};
use crate::platform::usn::UsnRecord;
use crate::search_engine::models::{FileResult, ResultItem, ResultType, SearchAction, SearchCategory};

verus! {

// ---------------------------------------------------------------------------
// Full-text query.

/// Characters with a meaning in an FTS5 query.
pub open spec fn is_fts_special(c: char) -> bool {
    c == '"' || c == '\'' || c == '\\' || c == '^' || c == '$' || c == '@' || c == '~' || c == '*'
        || c == '(' || c == ')' || c == '.' || c == ':' || c == '+' || c == '-'
}

/// `w` with a backslash before each special character.
pub open spec fn fts_escape(w: Seq<char>) -> Seq<char>
    decreases w.len(),
{
    if w.len() == 0 {
        Seq::empty()
    } else {
        fts_escape(w.drop_last()) + if is_fts_special(w.last()) {
            seq!['\\', w.last()]
        } else {
            seq![w.last()]
        }
    }
}

/// The prefix term for the word `w`.
pub open spec fn fts_term(w: Seq<char>) -> Seq<char> {
    fts_escape(w).push('*')
}

/// The terms of `ws`, joined by ` OR `.
pub open spec fn join_or(ws: Seq<Seq<char>>) -> Seq<char>
    decreases ws.len(),
{
    if ws.len() == 0 {
        Seq::empty()
    } else if ws.len() == 1 {
        fts_term(ws[0])
    } else {
        join_or(ws.drop_last()) + " OR "@ + fts_term(ws.last())
    }
}

/// The FTS5 match expression for a user query: each white-space separated
/// word escaped and made a prefix term, the terms joined by ` OR `; `*` when
/// the query has no word.
pub open spec fn fts_query(q: Seq<char>) -> Seq<char> {
    if words(q).len() == 0 {
        "*"@
    } else {
        join_or(words(q))
    }
}

fn push_term(out: &mut String, w: &[char])
    ensures
        final(out)@ == old(out)@ + fts_term(w@),
{
    let ghost o = out@;
    let mut i: usize = 0;
    while i < w.len()
        invariant
            i <= w@.len(),
            out@ == o + fts_escape(w@.take(i as int)),
        decreases w@.len() - i,
    {
        let c = w[i];
        assert(w@.take(i + 1).drop_last() =~= w@.take(i as int));
        if c == '"' || c == '\'' || c == '\\' || c == '^' || c == '$' || c == '@' || c == '~' || c == '*'
            || c == '(' || c == ')' || c == '.' || c == ':' || c == '+' || c == '-' {
            push_char(out, '\\');
            push_char(out, c);
            assert(out@ =~= o + fts_escape(w@.take(i + 1)));
        } else {
            push_char(out, c);
            assert(out@ =~= o + fts_escape(w@.take(i + 1)));
        }
        i += 1;
    }
    assert(w@.take(i as int) =~= w@);
    push_char(out, '*');
    assert(out@ =~= o + fts_term(w@));
}

/// The FTS5 match expression for the user query `query`; see `fts_query`.
pub fn build_fts_query(query: &str) -> (r: String)
    ensures
        r@ == fts_query(query@),
{
    let cs = chars_of(query);
    let ws = split_words(cs.as_slice());
    let ghost wv = ws@.map_values(|w: Vec<char>| w@);
    if ws.len() == 0 {
        return lit("*");
    }
    let mut out = String::new();
    let mut i: usize = 0;
    while i < ws.len()
        invariant
            wv == ws@.map_values(|w: Vec<char>| w@),
            wv == words(query@),
            ws@.len() > 0,
            i <= ws@.len(),
            i == 0 ==> out@ == Seq::<char>::empty(),
            i > 0 ==> out@ == join_or(wv.take(i as int)),
        decreases ws@.len() - i,
    {
        assert(wv[i as int] == ws@[i as int]@);
        if i > 0 {
            push_str(&mut out, " OR ");
        }
        push_term(&mut out, ws[i].as_slice());
        proof {
            let t = wv.take(i + 1);
            assert(t.drop_last() =~= wv.take(i as int));
            if i == 0 {
                assert(out@ =~= fts_term(t[0]));
            }
        }
        i += 1;
    }
    assert(wv.take(i as int) =~= wv);
    out
}

// ---------------------------------------------------------------------------
// Result type of a file.

/// The result type of a file with the lower-cased extension `e`.
pub open spec fn ext_type(e: Seq<char>) -> ResultType {
    if e == "exe"@ || e == "dll"@ || e == "msi"@ || e == "bat"@ || e == "cmd"@ || e == "ps1"@ {
        ResultType::Executable
    } else if e == "jpg"@ || e == "jpeg"@ || e == "png"@ || e == "gif"@ || e == "bmp"@ || e == "tiff"@
        || e == "ico"@ || e == "svg"@ || e == "webp"@ {
        ResultType::Image
    } else if e == "mp4"@ || e == "avi"@ || e == "mkv"@ || e == "mov"@ || e == "wmv"@ || e == "flv"@
        || e == "webm"@ {
        ResultType::Video
    } else if e == "mp3"@ || e == "wav"@ || e == "flac"@ || e == "ogg"@ || e == "aac"@ || e == "wma"@ {
        ResultType::Audio
    } else if e == "zip"@ || e == "rar"@ || e == "7z"@ || e == "tar"@ || e == "gz"@ || e == "bz2"@
        || e == "xz"@ {
        ResultType::Archive
    } else if e == "txt"@ || e == "md"@ || e == "doc"@ || e == "docx"@ || e == "pdf"@ || e == "xls"@
        || e == "xlsx"@ || e == "ppt"@ || e == "pptx"@ || e == "csv"@ || e == "json"@ || e == "xml"@ {
        ResultType::Document
    } else {
        ResultType::OtherFile
    }
}

/// The result type of a file: a directory, or the type of its lower-cased
/// extension (none counting as the empty one).
pub open spec fn file_type(f: FileResult) -> ResultType {
    if f.is_directory {
        ResultType::Directory
    } else {
        ext_type(
            lowercase(
                match f.extension {
                    Some(e) => e@,
                    None => Seq::empty(),
                },
            ),
        )
    }
}

/// The result type of the file `f`; see `file_type`.
pub fn file_type_of(f: &FileResult) -> (r: ResultType)
    ensures
        r == file_type(*f),
{
    if f.is_directory {
        return ResultType::Directory;
    }
    let lowered = match &f.extension {
        Some(e) => to_lowercase(e.as_str()),
        None => to_lowercase(""),
    };
    proof {
        if f.extension is None {
            assert(""@ =~= Seq::<char>::empty()) by {
                reveal_strlit("");
            }
        }
    }
    let e = chars_of(lowered.as_str());
    let es = e.as_slice();
    let r = if is_lit(es, "exe") || is_lit(es, "dll") || is_lit(es, "msi") || is_lit(es, "bat") || is_lit(es, "cmd") || is_lit(es, "ps1") {
        ResultType::Executable
    } else if is_lit(es, "jpg") || is_lit(es, "jpeg") || is_lit(es, "png") || is_lit(es, "gif") || is_lit(es, "bmp") || is_lit(es, "tiff") || is_lit(es, "ico") || is_lit(es, "svg") || is_lit(es, "webp") {
        ResultType::Image
    } else if is_lit(es, "mp4") || is_lit(es, "avi") || is_lit(es, "mkv") || is_lit(es, "mov") || is_lit(es, "wmv") || is_lit(es, "flv") || is_lit(es, "webm") {
        ResultType::Video
    } else if is_lit(es, "mp3") || is_lit(es, "wav") || is_lit(es, "flac") || is_lit(es, "ogg") || is_lit(es, "aac") || is_lit(es, "wma") {
        ResultType::Audio
    } else if is_lit(es, "zip") || is_lit(es, "rar") || is_lit(es, "7z") || is_lit(es, "tar") || is_lit(es, "gz") || is_lit(es, "bz2") || is_lit(es, "xz") {
        ResultType::Archive
    } else if is_lit(es, "txt") || is_lit(es, "md") || is_lit(es, "doc") || is_lit(es, "docx") || is_lit(es, "pdf") || is_lit(es, "xls") || is_lit(es, "xlsx") || is_lit(es, "ppt") || is_lit(es, "pptx") || is_lit(es, "csv") || is_lit(es, "json") || is_lit(es, "xml") {
        ResultType::Document
    } else {
        ResultType::OtherFile
    };
    r
}

// ---------------------------------------------------------------------------
// Entries the indexer leaves out.

/// File names (lower case) that are never indexed.
pub open spec fn skip_names() -> Seq<Seq<char>> {
    seq!["thumbs.db"@, "desktop.ini"@, "pagefile.sys"@]
}

/// Path fragments (lower case) below which nothing is indexed.
pub open spec fn skip_fragments() -> Seq<Seq<char>> {
    seq![
        "\\windows\\winsxs"@,
        "\\windows\\system32\\config"@,
        "\\windows\\softwaredistribution"@,
        "\\$recycle.bin"@,
    ]
}

/// The indexer leaves out a record whose lower-cased name is hidden (starts
/// with a dot, except `.git` and `.vscode`), is NTFS metadata (starts with
/// `$`) or is a listed name, or whose lower-cased path contains a listed
/// fragment.
pub open spec fn skipped(name: Seq<char>, path: Seq<char>) -> bool {
    let n = lowercase(name);
    let p = lowercase(path);
    ||| starts_with(n, "."@) && !starts_with(n, ".git"@) && !starts_with(n, ".vscode"@)
    ||| starts_with(n, "$"@)
    ||| skip_names().contains(n)
    ||| exists|i: int| 0 <= i < skip_fragments().len() && contains(p, #[trigger] skip_fragments()[i])
}

/// Whether the indexer leaves out the record; see `skipped`.
pub fn should_skip_path(record: &UsnRecord) -> (r: bool)
    ensures
        r == skipped(record.file_name@, record.full_path@),
{
    let ln = to_lowercase(record.file_name.as_str());
    let n = chars_of(ln.as_str());
    let ns = n.as_slice();
    if starts_lit(ns, ".") && !starts_lit(ns, ".git") && !starts_lit(ns, ".vscode") {
        return true;
    }
    if starts_lit(ns, "$") {
        return true;
    }
    let named = is_lit(ns, "thumbs.db") || is_lit(ns, "desktop.ini") || is_lit(ns, "pagefile.sys");
    assert(named == skip_names().contains(n@)) by {
        if skip_names().contains(n@) {
            let k = choose|k: int| 0 <= k < 3 && skip_names()[k] == n@;
        }
        if n@ == "thumbs.db"@ { assert(skip_names()[0] == n@); }
        if n@ == "desktop.ini"@ { assert(skip_names()[1] == n@); }
        if n@ == "pagefile.sys"@ { assert(skip_names()[2] == n@); }
    }
    if named {
        return true;
    }
    let lp = to_lowercase(record.full_path.as_str());
    let p = chars_of(lp.as_str());
    let ps = p.as_slice();
    let f0 = has_lit(ps, "\\windows\\winsxs");
    let f1 = has_lit(ps, "\\windows\\system32\\config");
    let f2 = has_lit(ps, "\\windows\\softwaredistribution");
    let f3 = has_lit(ps, "\\$recycle.bin");
    let hit = f0 || f1 || f2 || f3;
    assert(hit == exists|i: int| 0 <= i < skip_fragments().len() && contains(p@, #[trigger] skip_fragments()[i])) by {
        if f0 { assert(contains(p@, skip_fragments()[0])); }
        if f1 { assert(contains(p@, skip_fragments()[1])); }
        if f2 { assert(contains(p@, skip_fragments()[2])); }
        if f3 { assert(contains(p@, skip_fragments()[3])); }
    }
    hit
}

// ---------------------------------------------------------------------------
// Drives to index.

/// The drive letter that index root `r` names: its first character, upper
/// case, when that is an ASCII letter.
pub open spec fn root_drive(r: Seq<char>) -> Option<char> {
    if r.len() > 0 && is_ascii_alpha(r[0]) {
        Some(ascii_upper(r[0]))
    } else {
        None
    }
}

/// The distinct drive letters that the index roots name, each once.
pub fn extract_drives_from_roots(roots: &[String]) -> (r: Vec<char>)
    ensures
        r@.no_duplicates(),
        forall|c: char| r@.contains(c) <==> exists|i: int| 0 <= i < roots@.len() && root_drive(#[trigger] roots@[i]@) == Some(c),
{
    let mut out: Vec<char> = Vec::new();
    let mut i: usize = 0;
    while i < roots.len()
        invariant
            i <= roots@.len(),
            out@.no_duplicates(),
            forall|c: char| out@.contains(c) <==> exists|j: int| 0 <= j < i && root_drive(#[trigger] roots@[j]@) == Some(c),
        decreases roots@.len() - i,
    {
        let cs = chars_of(roots[i].as_str());
        let ghost out0 = out@;
        if cs.len() > 0 && (('a' <= cs[0] && cs[0] <= 'z') || ('A' <= cs[0] && cs[0] <= 'Z')) {
            let d = upper_ascii_char(cs[0]);
            let mut seen = false;
            let mut k: usize = 0;
            while k < out.len()
                invariant
                    k <= out@.len(),
                    seen == exists|m: int| 0 <= m < k && out@[m] == d,
                decreases out@.len() - k,
            {
                if out[k] == d {
                    seen = true;
                }
                k += 1;
            }
            if !seen {
                out.push(d);
                assert(out@.last() == d);
            }
        }
        proof {
            assert forall|c: char| out@.contains(c) <==> exists|j: int| 0 <= j < i + 1 && root_drive(#[trigger] roots@[j]@) == Some(c) by {
                if out@.contains(c) && !out0.contains(c) {
                    assert(root_drive(roots@[i as int]@) == Some(c));
                }
                if exists|j: int| 0 <= j < i + 1 && root_drive(#[trigger] roots@[j]@) == Some(c) {
                    let j = choose|j: int| 0 <= j < i + 1 && root_drive(#[trigger] roots@[j]@) == Some(c);
                    if j < i {
                        assert(out0.contains(c));
                        let m = choose|m: int| 0 <= m < out0.len() && out0[m] == c;
                        assert(out@[m] == c);
                    } else {
                        assert(out@.contains(c));
                    }
                }
            }
        }
        i += 1;
    }
    out
}

/// The icon address of files with the extension `e`.
pub open spec fn ext_icon(e: Seq<char>) -> Seq<char> {
    "file:///"@ + e + ".ico"@
}

/// The result shown for the file `f`, whose size reads `size_text`: its
/// path as identifier, subtitle and opening action, its name as title, the
/// size as secondary text unless it is a directory, the icon of its
/// extension, in the files category, typed by `file_type`.
pub fn file_result_item(f: &FileResult, size_text: String) -> (r: ResultItem)
    ensures
        r.id@ == f.path@ && r.subtitle@ == f.path@,
        r.title@ == f.name@,
        r.meta == (if f.is_directory { None } else { Some(size_text) }),
        match f.extension {
            Some(e) => r.icon matches Some(i) && i@ == ext_icon(e@),
            None => r.icon is None,
        },
        r.category == SearchCategory::Files,
        r.result_type == file_type(*f),
        r.action matches SearchAction::Open(p) && p@ == f.path@,
        r.size is None && r.modified_at is None && r.launch_count is None,
{
    let icon = match &f.extension {
        Some(e) => {
            let mut t = lit("file:///");
            push_str(&mut t, e.as_str());
            push_str(&mut t, ".ico");
            Some(t)
        },
        None => None,
    };
    let meta = if f.is_directory {
        None
    } else {
        Some(size_text)
    };
    ResultItem {
        id: f.path.clone(),
        title: f.name.clone(),
        subtitle: f.path.clone(),
        meta,
        icon,
        category: SearchCategory::Files,
        result_type: file_type_of(f),
        action: SearchAction::Open(f.path.clone()),
        size: None,
        modified_at: None,
        launch_count: None,
    }
}

} // verus!
