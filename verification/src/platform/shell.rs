//! Launching results: which shell operation a result's action takes, and the
//! executable named by a registered open command.  The operations themselves
//! run outside this library.

use vstd::prelude::*;
use crate::text::{chars_of, copy_texts, is_ws, split_words, string_of, trim, trim_chars, words};
use crate::error::AppError;
use crate::platform::icon::{is_lnk, is_lnk_path};
use crate::search_engine::models::SearchAction;

verus! {

/// A shell operation to perform.
#[derive(Debug, Clone)]
pub enum LaunchPlan {
    /// Open a shortcut through the shell, so that its target, working
    /// directory and arguments apply.
    OpenShortcut(String),
    /// Start a program with arguments.
    Run { program: String, args: Vec<String> },
    /// Show a path in the file manager.
    OpenPath(String),
}

/// The operation that activating `action` performs: a launch of a shortcut
/// opens it through the shell, a launch of anything else runs it without
/// arguments, a run runs its command, and opening or navigating shows the
/// path.
pub open spec fn plan_of(action: SearchAction, plan: LaunchPlan) -> bool {
    match action {
        SearchAction::Launch(p) => if is_lnk(p@) {
            plan matches LaunchPlan::OpenShortcut(q) && q@ == p@
        } else {
            plan matches LaunchPlan::Run { program, args } && program@ == p@ && args@.len() == 0
        },
        SearchAction::Run { command, args } => plan matches LaunchPlan::Run { program, args: a } && program@
            == command@ && a@.map_values(|x: String| x@) == args@.map_values(|x: String| x@),
        SearchAction::Open(p) => plan matches LaunchPlan::OpenPath(q) && q@ == p@,
        SearchAction::Navigate(p) => plan matches LaunchPlan::OpenPath(q) && q@ == p@,
    }
}

/// The operation for a result's action; see `plan_of`.
pub fn launch_str(action: &SearchAction) -> (r: LaunchPlan)
    ensures
        plan_of(*action, r),
{
    match action {
        SearchAction::Launch(p) => {
            if is_lnk_path(p.as_str()) {
                LaunchPlan::OpenShortcut(p.clone())
            } else {
                LaunchPlan::Run { program: p.clone(), args: Vec::new() }
            }
        },
        SearchAction::Run { command, args } => LaunchPlan::Run { program: command.clone(), args: copy_texts(args) },
        SearchAction::Open(p) => LaunchPlan::OpenPath(p.clone()),
        SearchAction::Navigate(p) => LaunchPlan::OpenPath(p.clone()),
    }
}

/// The executable that an open command such as `"C:\\App\\app.exe" --x "%1"`
/// names, before the file system is asked whether it exists: for a command
/// starting with a quote, the text up to the next quote (none without a
/// closing quote); otherwise the first word; none for a blank command.
pub open spec fn command_exe(cmd: Seq<char>) -> Option<Seq<char>> {
    let c = trim(cmd);
    if c.len() == 0 {
        None
    } else if c[0] == '"' {
        let inner = c.skip(1);
        if exists|i: int| 0 <= i < inner.len() && inner[i] == '"' {
            Some(inner.take(first_quote(inner, 0)))
        } else {
            None
        }
    } else {
        Some(words(c)[0])
    }
}

/// Position of the first quote in `s` from `i` on.
pub open spec fn first_quote(s: Seq<char>, i: int) -> int
    decreases s.len() - i,
{
    if i < 0 || i >= s.len() {
        s.len() as int
    } else if s[i] == '"' {
        i
    } else {
        first_quote(s, i + 1)
    }
}

/// The executable candidate of an open command; see `command_exe`.
pub fn command_exe_candidate(cmd: &str) -> (r: Option<String>)
    ensures
        match r {
            Some(e) => command_exe(cmd@) == Some(e@),
            None => command_exe(cmd@) is None,
        },
{
    let cs = chars_of(cmd);
    let c = trim_chars(cs.as_slice());
    if c.len() == 0 {
        return None;
    }
    if c[0] == '"' {
        let ghost inner = c@.skip(1);
        let mut i: usize = 1;
        while i < c.len() && c[i] != '"'
            invariant
                1 <= i <= c@.len(),
                inner == c@.skip(1),
                first_quote(inner, (i - 1) as int) == first_quote(inner, 0),
                forall|j: int| 0 <= j < i - 1 ==> inner[j] != '"',
            decreases c@.len() - i,
        {
            i += 1;
        }
        if i == c.len() {
            assert forall|j: int| 0 <= j < inner.len() implies inner[j] != '"' by {}
            return None;
        }
        assert(inner[i - 1] == '"');
        let mut e: Vec<char> = Vec::new();
        let mut k: usize = 1;
        while k < i
            invariant
                1 <= k <= i < c@.len(),
                e@ == c@.subrange(1, k as int),
            decreases i - k,
        {
            e.push(c[k]);
            assert(c@.subrange(1, k + 1) =~= c@.subrange(1, k as int).push(c@[k as int]));
            k += 1;
        }
        assert(e@ =~= inner.take(first_quote(inner, 0)));
        return Some(string_of(e.as_slice()));
    }
    let ws = split_words(c.as_slice());
    proof {
        crate::text::lemma_trim_starts(cs@);
        lemma_first_word_exists(c@);
    }
    assert(ws@.map_values(|w: Vec<char>| w@)[0] == ws@[0]@);
    Some(string_of(ws[0].as_slice()))
}

proof fn lemma_first_word_exists(c: Seq<char>)
    requires
        c.len() > 0,
        !is_ws(c[0]),
    ensures
        words(c).len() > 0,
{
    crate::text::lemma_words_nonempty(c, Seq::empty());
}

/// A shortcut cannot be opened without the Windows shell, which this build
/// does not link: always refused.
pub fn launch_lnk(_lnk_path: &str) -> (r: Result<(), AppError>)
    ensures
        r matches Err(AppError::Other(m)) && m@ == "非 Windows 平台不支持 .lnk 快捷方式"@,
{
    let cs = chars_of("非 Windows 平台不支持 .lnk 快捷方式");
    Err(AppError::Other(string_of(cs.as_slice())))
}

/// The file properties dialog needs the Windows shell: nothing is shown.
pub fn show_file_properties(_path: &str) -> (r: Result<(), AppError>)
    ensures
        r is Ok,
{
    Ok(())
}

} // verus!
