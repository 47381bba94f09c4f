//! Start-menu shortcuts that point at shell locations rather than files
//! (Run, Control Panel, This PC, Recycle Bin, ...): recognising them and
//! describing how to open them.

use vstd::prelude::*;
use crate::text::{ascii_lower_seq, chars_of, contains, has_infix, has_lit, has_prefix, lowercase, starts_lit, starts_with, string_of, to_lowercase};
use crate::paths::{file_stem, stem_of};

verus! {

/// What kind of shell location a special shortcut opens.
#[derive(Debug, Clone, Copy, PartialEq, Eq, Structural)]
pub enum SpecialShortcutType {
    SystemTool,
    SystemFolder,
    Search,
}

/// A shortcut that opens a shell location.
#[derive(Debug)]
pub struct SpecialShortcut {
    /// Lower-case words that identify the shortcut by its file name.
    pub match_keywords: Vec<&'static str>,
    pub display_name: &'static str,
    pub launch_command: &'static str,
    pub launch_args: Vec<&'static str>,
    /// Library holding the icon.
    pub icon_resource: &'static str,
    pub icon_index: i32,
    pub result_type: SpecialShortcutType,
}

/// Number of built-in special shortcuts.
pub const SPECIAL_SHORTCUT_COUNT: usize = 11;

/// The keywords of built-in shortcut `i`.
pub open spec fn keywords(i: int) -> Seq<Seq<char>> {
    if i == 0 {
        seq!["run"@, "运行"@]
    } else if i == 1 {
        seq!["control"@, "control panel"@, "控制面板"@]
    } else if i == 2 {
        seq!["my computer"@, "this pc"@, "此电脑"@, "我的电脑"@, "computer"@]
    } else if i == 3 {
        seq!["recycle"@, "recycle bin"@, "回收站"@, "垃圾回收站"@]
    } else if i == 4 {
        seq!["network"@, "网络"@, "网上邻居"@]
    } else if i == 5 {
        seq!["search"@, "搜索"@, "查找"@]
    } else if i == 6 {
        seq!["task view"@, "任务视图"@, "taskview"@]
    } else if i == 7 {
        seq!["quick access"@, "快速访问"@, "homegroup"@]
    } else if i == 8 {
        seq!["date and time"@, "日期和时间"@, "日期时间"@]
    } else if i == 9 {
        seq!["display"@, "显示设置"@, "屏幕设置"@]
    } else if i == 10 {
        seq!["sound"@, "声音"@, "音量"@]
    } else {
        Seq::empty()
    }
}

/// `sc` is built-in shortcut `i`.
pub open spec fn shortcut_is(sc: SpecialShortcut, i: int) -> bool {
    &&& sc.match_keywords@.map_values(|k: &str| k@) == keywords(i)
    &&& if i == 0 {
            &&& sc.display_name@ == "运行"@
            &&& sc.launch_command@ == "explorer.exe"@
            &&& sc.launch_args@.map_values(|a: &str| a@) == seq!["shell:::{2559a1f3-21d7-11d4-bdaf-00c04f60b9f0}"@]
            &&& sc.icon_resource@ == "shell32.dll"@
            &&& sc.icon_index == 24
            &&& sc.result_type == SpecialShortcutType::SystemTool
    } else if i == 1 {
            &&& sc.display_name@ == "控制面板"@
            &&& sc.launch_command@ == "explorer.exe"@
            &&& sc.launch_args@.map_values(|a: &str| a@) == seq!["shell:::{5399E694-6CE5-4D6C-8FCE-1D8870FDCBA0}"@]
            &&& sc.icon_resource@ == "shell32.dll"@
            &&& sc.icon_index == 21
            &&& sc.result_type == SpecialShortcutType::SystemTool
    } else if i == 2 {
            &&& sc.display_name@ == "此电脑"@
            &&& sc.launch_command@ == "explorer.exe"@
            &&& sc.launch_args@.map_values(|a: &str| a@) == seq!["shell:::{20D04FE0-3AEA-1069-A2D8-08002B30309D}"@]
            &&& sc.icon_resource@ == "imageres.dll"@
            &&& sc.icon_index == 102
            &&& sc.result_type == SpecialShortcutType::SystemFolder
    } else if i == 3 {
            &&& sc.display_name@ == "回收站"@
            &&& sc.launch_command@ == "explorer.exe"@
            &&& sc.launch_args@.map_values(|a: &str| a@) == seq!["shell:::{645FF040-5081-101B-9F08-00AA002F954E}"@]
            &&& sc.icon_resource@ == "shell32.dll"@
            &&& sc.icon_index == 31
            &&& sc.result_type == SpecialShortcutType::SystemFolder
    } else if i == 4 {
            &&& sc.display_name@ == "网络"@
            &&& sc.launch_command@ == "explorer.exe"@
            &&& sc.launch_args@.map_values(|a: &str| a@) == seq!["shell:::{F02C1A0D-BE21-4350-88B0-7367FC96EF3C}"@]
            &&& sc.icon_resource@ == "shell32.dll"@
            &&& sc.icon_index == 18
            &&& sc.result_type == SpecialShortcutType::SystemFolder
    } else if i == 5 {
            &&& sc.display_name@ == "搜索"@
            &&& sc.launch_command@ == "explorer.exe"@
            &&& sc.launch_args@.map_values(|a: &str| a@) == seq!["search:query="@]
            &&& sc.icon_resource@ == "shell32.dll"@
            &&& sc.icon_index == 22
            &&& sc.result_type == SpecialShortcutType::Search
    } else if i == 6 {
            &&& sc.display_name@ == "任务视图"@
            &&& sc.launch_command@ == "explorer.exe"@
            &&& sc.launch_args@.map_values(|a: &str| a@) == seq!["shell:::{3080F90E-D7AD-11D9-BD98-0000947B0257}"@]
            &&& sc.icon_resource@ == "imageres.dll"@
            &&& sc.icon_index == 118
            &&& sc.result_type == SpecialShortcutType::SystemTool
    } else if i == 7 {
            &&& sc.display_name@ == "快速访问"@
            &&& sc.launch_command@ == "explorer.exe"@
            &&& sc.launch_args@.map_values(|a: &str| a@) == seq!["shell:::{679F8556-0641-422A-BD55-75FC09C83736}"@]
            &&& sc.icon_resource@ == "imageres.dll"@
            &&& sc.icon_index == 117
            &&& sc.result_type == SpecialShortcutType::SystemFolder
    } else if i == 8 {
            &&& sc.display_name@ == "日期和时间"@
            &&& sc.launch_command@ == "control.exe"@
            &&& sc.launch_args@.map_values(|a: &str| a@) == seq!["timedate.cpl"@]
            &&& sc.icon_resource@ == "shell32.dll"@
            &&& sc.icon_index == 12
            &&& sc.result_type == SpecialShortcutType::SystemTool
    } else if i == 9 {
            &&& sc.display_name@ == "显示设置"@
            &&& sc.launch_command@ == "explorer.exe"@
            &&& sc.launch_args@.map_values(|a: &str| a@) == seq!["ms-settings:display"@]
            &&& sc.icon_resource@ == "imageres.dll"@
            &&& sc.icon_index == 109
            &&& sc.result_type == SpecialShortcutType::SystemTool
    } else if i == 10 {
            &&& sc.display_name@ == "声音设置"@
            &&& sc.launch_command@ == "explorer.exe"@
            &&& sc.launch_args@.map_values(|a: &str| a@) == seq!["ms-settings:sound"@]
            &&& sc.icon_resource@ == "mmsys.cpl"@
            &&& sc.icon_index == 0
            &&& sc.result_type == SpecialShortcutType::SystemTool
    } else {
        false
    }
}

/// Built-in shortcut `i`, in priority order.
pub fn special_shortcut_at(i: usize) -> (sc: SpecialShortcut)
    requires
        i < SPECIAL_SHORTCUT_COUNT,
    ensures
        shortcut_is(sc, i as int),
{
    let mut kw: Vec<&'static str> = Vec::new();
    let mut args: Vec<&'static str> = Vec::new();
    let (display_name, launch_command, icon_resource, icon_index, result_type) = match i {
        0 => {
            kw.push("run");
            kw.push("运行");
            args.push("shell:::{2559a1f3-21d7-11d4-bdaf-00c04f60b9f0}");
            assert(kw@.map_values(|k: &str| k@) =~= keywords(i as int));
            assert(args@.map_values(|a: &str| a@) =~= seq!["shell:::{2559a1f3-21d7-11d4-bdaf-00c04f60b9f0}"@]);
            ("运行", "explorer.exe", "shell32.dll", 24i32, SpecialShortcutType::SystemTool)
        },
        1 => {
            kw.push("control");
            kw.push("control panel");
            kw.push("控制面板");
            args.push("shell:::{5399E694-6CE5-4D6C-8FCE-1D8870FDCBA0}");
            assert(kw@.map_values(|k: &str| k@) =~= keywords(i as int));
            assert(args@.map_values(|a: &str| a@) =~= seq!["shell:::{5399E694-6CE5-4D6C-8FCE-1D8870FDCBA0}"@]);
            ("控制面板", "explorer.exe", "shell32.dll", 21i32, SpecialShortcutType::SystemTool)
        },
        2 => {
            kw.push("my computer");
            kw.push("this pc");
            kw.push("此电脑");
            kw.push("我的电脑");
            kw.push("computer");
            args.push("shell:::{20D04FE0-3AEA-1069-A2D8-08002B30309D}");
            assert(kw@.map_values(|k: &str| k@) =~= keywords(i as int));
            assert(args@.map_values(|a: &str| a@) =~= seq!["shell:::{20D04FE0-3AEA-1069-A2D8-08002B30309D}"@]);
            ("此电脑", "explorer.exe", "imageres.dll", 102i32, SpecialShortcutType::SystemFolder)
        },
        3 => {
            kw.push("recycle");
            kw.push("recycle bin");
            kw.push("回收站");
            kw.push("垃圾回收站");
            args.push("shell:::{645FF040-5081-101B-9F08-00AA002F954E}");
            assert(kw@.map_values(|k: &str| k@) =~= keywords(i as int));
            assert(args@.map_values(|a: &str| a@) =~= seq!["shell:::{645FF040-5081-101B-9F08-00AA002F954E}"@]);
            ("回收站", "explorer.exe", "shell32.dll", 31i32, SpecialShortcutType::SystemFolder)
        },
        4 => {
            kw.push("network");
            kw.push("网络");
            kw.push("网上邻居");
            args.push("shell:::{F02C1A0D-BE21-4350-88B0-7367FC96EF3C}");
            assert(kw@.map_values(|k: &str| k@) =~= keywords(i as int));
            assert(args@.map_values(|a: &str| a@) =~= seq!["shell:::{F02C1A0D-BE21-4350-88B0-7367FC96EF3C}"@]);
            ("网络", "explorer.exe", "shell32.dll", 18i32, SpecialShortcutType::SystemFolder)
        },
        5 => {
            kw.push("search");
            kw.push("搜索");
            kw.push("查找");
            args.push("search:query=");
            assert(kw@.map_values(|k: &str| k@) =~= keywords(i as int));
            assert(args@.map_values(|a: &str| a@) =~= seq!["search:query="@]);
            ("搜索", "explorer.exe", "shell32.dll", 22i32, SpecialShortcutType::Search)
        },
        6 => {
            kw.push("task view");
            kw.push("任务视图");
            kw.push("taskview");
            args.push("shell:::{3080F90E-D7AD-11D9-BD98-0000947B0257}");
            assert(kw@.map_values(|k: &str| k@) =~= keywords(i as int));
            assert(args@.map_values(|a: &str| a@) =~= seq!["shell:::{3080F90E-D7AD-11D9-BD98-0000947B0257}"@]);
            ("任务视图", "explorer.exe", "imageres.dll", 118i32, SpecialShortcutType::SystemTool)
        },
        7 => {
            kw.push("quick access");
            kw.push("快速访问");
            kw.push("homegroup");
            args.push("shell:::{679F8556-0641-422A-BD55-75FC09C83736}");
            assert(kw@.map_values(|k: &str| k@) =~= keywords(i as int));
            assert(args@.map_values(|a: &str| a@) =~= seq!["shell:::{679F8556-0641-422A-BD55-75FC09C83736}"@]);
            ("快速访问", "explorer.exe", "imageres.dll", 117i32, SpecialShortcutType::SystemFolder)
        },
        8 => {
            kw.push("date and time");
            kw.push("日期和时间");
            kw.push("日期时间");
            args.push("timedate.cpl");
            assert(kw@.map_values(|k: &str| k@) =~= keywords(i as int));
            assert(args@.map_values(|a: &str| a@) =~= seq!["timedate.cpl"@]);
            ("日期和时间", "control.exe", "shell32.dll", 12i32, SpecialShortcutType::SystemTool)
        },
        9 => {
            kw.push("display");
            kw.push("显示设置");
            kw.push("屏幕设置");
            args.push("ms-settings:display");
            assert(kw@.map_values(|k: &str| k@) =~= keywords(i as int));
            assert(args@.map_values(|a: &str| a@) =~= seq!["ms-settings:display"@]);
            ("显示设置", "explorer.exe", "imageres.dll", 109i32, SpecialShortcutType::SystemTool)
        },
        10 => {
            kw.push("sound");
            kw.push("声音");
            kw.push("音量");
            args.push("ms-settings:sound");
            assert(kw@.map_values(|k: &str| k@) =~= keywords(i as int));
            assert(args@.map_values(|a: &str| a@) =~= seq!["ms-settings:sound"@]);
            ("声音设置", "explorer.exe", "mmsys.cpl", 0i32, SpecialShortcutType::SystemTool)
        },
        _ => {
            kw.push("sound");
            kw.push("声音");
            kw.push("音量");
            args.push("ms-settings:sound");
            assert(kw@.map_values(|k: &str| k@) =~= keywords(i as int));
            assert(args@.map_values(|a: &str| a@) =~= seq!["ms-settings:sound"@]);
            ("声音设置", "explorer.exe", "mmsys.cpl", 0i32, SpecialShortcutType::SystemTool)
        },
    };
    let sc = SpecialShortcut {
        match_keywords: kw,
        display_name,
        launch_command,
        launch_args: args,
        icon_resource,
        icon_index,
        result_type,
    };
    sc
}

/// The lower-cased file name `f` contains a keyword of built-in shortcut `i`.
pub open spec fn name_matches(f: Seq<char>, i: int) -> bool {
    exists|j: int| 0 <= j < keywords(i).len() && contains(f, lowercase(#[trigger] keywords(i)[j]))
}

/// The first built-in shortcut, from `i` on, whose keywords `f` contains.
pub open spec fn first_name_match(f: Seq<char>, i: int) -> Option<int>
    decreases SPECIAL_SHORTCUT_COUNT - i,
{
    if i < 0 || i >= SPECIAL_SHORTCUT_COUNT {
        None
    } else if name_matches(f, i) {
        Some(i)
    } else {
        first_name_match(f, i + 1)
    }
}

/// The built-in shortcut that the lower-cased target `t` points at.
pub open spec fn target_match(t: Seq<char>) -> Option<int> {
    if contains(t, "shell:::{2559a1f3"@) {
        Some(0)
    } else if contains(t, "shell:::{5399e694"@) || contains(t, "control.exe"@) {
        Some(1)
    } else if contains(t, "shell:::{20d04fe0"@) {
        Some(2)
    } else if contains(t, "shell:::{645ff040"@) {
        Some(3)
    } else if contains(t, "shell:::{f02c1a0d"@) {
        Some(4)
    } else if starts_with(t, "search:"@) {
        Some(5)
    } else if starts_with(t, "ms-settings:"@) {
        Some(9)
    } else {
        None
    }
}

/// The built-in shortcut for a link file and its target: the first whose
/// keywords the link's lower-cased stem contains, else the one the
/// lower-cased target points at.
pub open spec fn special_match(lnk: Seq<char>, target: Seq<char>) -> Option<int> {
    match first_name_match(lowercase(stem_of(lnk)), 0) {
        Some(i) => Some(i),
        None => target_match(lowercase(target)),
    }
}

/// A link is special when its lower-cased target is a shell namespace or
/// settings location, or its lower-cased stem contains a keyword.
pub open spec fn is_special(lnk: Seq<char>, target: Seq<char>) -> bool {
    let t = lowercase(target);
    ||| contains(t, "shell:::"@)
    ||| starts_with(t, "::{"@)
    ||| starts_with(t, "ms-settings:"@)
    ||| first_name_match(lowercase(stem_of(lnk)), 0) is Some
}

fn lowered_chars(s: &str) -> (r: Vec<char>)
    ensures
        r@ == lowercase(s@),
{
    let l = to_lowercase(s);
    chars_of(l.as_str())
}

fn keyword_hit(f: &[char], i: usize) -> (r: bool)
    requires
        i < SPECIAL_SHORTCUT_COUNT,
    ensures
        r == name_matches(f@, i as int),
{
    let sc = special_shortcut_at(i);
    let kws = &sc.match_keywords;
    let mut j: usize = 0;
    while j < kws.len()
        invariant
            i < SPECIAL_SHORTCUT_COUNT,
            shortcut_is(sc, i as int),
            kws@ == sc.match_keywords@,
            j <= kws@.len(),
            forall|m: int| 0 <= m < j ==> !contains(f@, lowercase(#[trigger] keywords(i as int)[m])),
        decreases kws@.len() - j,
    {
        assert(kws@.map_values(|k: &str| k@)[j as int] == kws@[j as int]@);
        let kw = lowered_chars(kws[j]);
        if has_infix(f, kw.as_slice()) {
            return true;
        }
        j += 1;
    }
    assert(kws@.map_values(|k: &str| k@).len() == kws@.len());
    false
}

fn first_keyword_hit(f: &[char]) -> (r: Option<usize>)
    ensures
        match r {
            Some(i) => i < SPECIAL_SHORTCUT_COUNT && first_name_match(f@, 0) == Some(i as int),
            None => first_name_match(f@, 0) is None,
        },
{
    let mut i: usize = 0;
    while i < SPECIAL_SHORTCUT_COUNT
        invariant
            i <= SPECIAL_SHORTCUT_COUNT,
            first_name_match(f@, 0) == first_name_match(f@, i as int),
        decreases SPECIAL_SHORTCUT_COUNT - i,
    {
        if keyword_hit(f, i) {
            return Some(i);
        }
        i += 1;
    }
    None
}

/// Whether the link at `lnk_path`, pointing at `target_path`, is a special
/// shortcut; see `is_special`.
pub fn is_special_shortcut(lnk_path: &str, target_path: &str) -> (r: bool)
    ensures
        r == is_special(lnk_path@, target_path@),
{
    let t = lowered_chars(target_path);
    if has_lit(t.as_slice(), "shell:::") || starts_lit(t.as_slice(), "::{") {
        return true;
    }
    if starts_lit(t.as_slice(), "ms-settings:") {
        return true;
    }
    let stem = file_stem(lnk_path);
    let stem_s = string_of(stem.as_slice());
    let f = lowered_chars(stem_s.as_str());
    first_keyword_hit(f.as_slice()).is_some()
}

/// The special shortcut for a link and its target; see `special_match`.
pub fn get_special_shortcut(lnk_path: &str, target_path: &str) -> (r: Option<SpecialShortcut>)
    ensures
        match r {
            Some(sc) => special_match(lnk_path@, target_path@) matches Some(i) && shortcut_is(sc, i),
            None => special_match(lnk_path@, target_path@) is None,
        },
{
    let stem = file_stem(lnk_path);
    let stem_s = string_of(stem.as_slice());
    let f = lowered_chars(stem_s.as_str());
    let t = lowered_chars(target_path);
    if let Some(i) = first_keyword_hit(f.as_slice()) {
        return Some(special_shortcut_at(i));
    }
    let ts = t.as_slice();
    let idx: Option<usize> = if has_lit(ts, "shell:::{2559a1f3") {
        Some(0)
    } else if has_lit(ts, "shell:::{5399e694") || has_lit(ts, "control.exe") {
        Some(1)
    } else if has_lit(ts, "shell:::{20d04fe0") {
        Some(2)
    } else if has_lit(ts, "shell:::{645ff040") {
        Some(3)
    } else if has_lit(ts, "shell:::{f02c1a0d") {
        Some(4)
    } else if starts_lit(ts, "search:") {
        Some(5)
    } else if starts_lit(ts, "ms-settings:") {
        Some(9)
    } else {
        None
    };
    match idx {
        Some(i) => Some(special_shortcut_at(i)),
        None => None,
    }
}

/// Opening a special shortcut where shell locations do not exist: nothing to do.
pub fn launch_special_shortcut(_sc: &SpecialShortcut) -> (r: Result<(), crate::error::AppError>)
    ensures
        r is Ok,
{
    Ok(())
}

/// The start of a `shell:::{CLSID}` location: the prefix and the first
/// group of eight hexadecimal digits, which tells the built-in locations
/// apart.
pub open spec fn clsid_head(arg: Seq<char>) -> Seq<char> {
    arg.take(17)
}

/// Recognised by its target, a link opens the location it points at: when
/// no keyword matches the link's stem and its target is not `control.exe`,
/// the shortcut found takes one launch argument, and where that argument
/// is a `shell:::{CLSID}` location, the lower-cased target holds the same
/// CLSID head (compared without regard to ASCII case).
pub proof fn law_target_opens_its_location(lnk: Seq<char>, target: Seq<char>, sc: SpecialShortcut, i: int)
    requires
        first_name_match(lowercase(stem_of(lnk)), 0) is None,
        !contains(lowercase(target), "control.exe"@),
        special_match(lnk, target) == Some(i),
        shortcut_is(sc, i),
    ensures
        sc.launch_args@.len() == 1,
        starts_with(sc.launch_args@[0]@, "shell:::{"@) ==> contains(
            lowercase(target),
            ascii_lower_seq(clsid_head(sc.launch_args@[0]@)),
        ),
        starts_with(sc.launch_args@[0]@, "search:"@) ==> starts_with(lowercase(target), "search:"@),
        starts_with(sc.launch_args@[0]@, "ms-settings:"@) ==> starts_with(lowercase(target), "ms-settings:"@),
{
    let args = sc.launch_args@.map_values(|a: &str| a@);
    assert(args.len() == sc.launch_args@.len());
    assert(args[0] == sc.launch_args@[0]@);
    let a = sc.launch_args@[0]@;
    reveal_strlit("shell:::{");
    reveal_strlit("search:");
    reveal_strlit("ms-settings:");
    reveal_strlit("search:query=");
    reveal_strlit("ms-settings:display");
    if i == 0 {
        reveal_strlit("shell:::{2559a1f3-21d7-11d4-bdaf-00c04f60b9f0}");
        reveal_strlit("shell:::{2559a1f3");
        assert(ascii_lower_seq(clsid_head(a)) =~= "shell:::{2559a1f3"@);
    } else if i == 1 {
        reveal_strlit("shell:::{5399E694-6CE5-4D6C-8FCE-1D8870FDCBA0}");
        reveal_strlit("shell:::{5399e694");
        assert(ascii_lower_seq(clsid_head(a)) =~= "shell:::{5399e694"@);
    } else if i == 2 {
        reveal_strlit("shell:::{20D04FE0-3AEA-1069-A2D8-08002B30309D}");
        reveal_strlit("shell:::{20d04fe0");
        assert(ascii_lower_seq(clsid_head(a)) =~= "shell:::{20d04fe0"@);
    } else if i == 3 {
        reveal_strlit("shell:::{645FF040-5081-101B-9F08-00AA002F954E}");
        reveal_strlit("shell:::{645ff040");
        assert(ascii_lower_seq(clsid_head(a)) =~= "shell:::{645ff040"@);
    } else if i == 4 {
        reveal_strlit("shell:::{F02C1A0D-BE21-4350-88B0-7367FC96EF3C}");
        reveal_strlit("shell:::{f02c1a0d");
        assert(ascii_lower_seq(clsid_head(a)) =~= "shell:::{f02c1a0d"@);
    } else if i == 5 {
        assert(a[1] == 'e');
        if starts_with(a, "shell:::{"@) {
            assert(a.subrange(0, 9)[1] == a[1]);
        }
    } else {
        assert(i == 9);
        assert(a[0] == 'm');
        if starts_with(a, "shell:::{"@) {
            assert(a.subrange(0, 9)[0] == a[0]);
        }
    }
    if starts_with(a, "search:"@) {
        assert(a.subrange(0, 7)[0] == a[0] && a.subrange(0, 7)[1] == a[1]);
    }
    if starts_with(a, "ms-settings:"@) {
        assert(a.subrange(0, 12)[0] == a[0]);
    }
}

/// Recognised by its name, a link gives the shortcut one of whose own
/// keywords its lower-cased stem contains.
pub proof fn law_name_match_carries_keyword(lnk: Seq<char>, target: Seq<char>, sc: SpecialShortcut, i: int)
    requires
        first_name_match(lowercase(stem_of(lnk)), 0) is Some,
        special_match(lnk, target) == Some(i),
        shortcut_is(sc, i),
    ensures
        exists|j: int|
            0 <= j < sc.match_keywords@.len() && contains(
                lowercase(stem_of(lnk)),
                lowercase(#[trigger] sc.match_keywords@[j]@),
            ),
{
    let f = lowercase(stem_of(lnk));
    lemma_first_name_match(f, 0);
    let j = choose|j: int| 0 <= j < keywords(i).len() && contains(f, lowercase(#[trigger] keywords(i)[j]));
    let kws = sc.match_keywords@.map_values(|k: &str| k@);
    assert(kws.len() == sc.match_keywords@.len());
    assert(kws[j] == sc.match_keywords@[j]@);
}

proof fn lemma_first_name_match(f: Seq<char>, i: int)
    requires
        0 <= i,
    ensures
        first_name_match(f, i) matches Some(k) ==> name_matches(f, k),
    decreases SPECIAL_SHORTCUT_COUNT - i,
{
    if i < SPECIAL_SHORTCUT_COUNT && !name_matches(f, i) {
        lemma_first_name_match(f, i + 1);
    }
}

} // verus!
