//! What the application scans make of what they find: which executables
//! are system helpers rather than applications, and the entry recorded for
//! a link or executable in a folder, an installed program in the registry,
//! or a system tool.  Walking folders, resolving links, reading the
//! registry and testing whether files exist are the caller's.

use vstd::prelude::*;
use crate::text::{chars_of, contains, has_lit, lit, lowercase, same_str, string_of, texts, to_lowercase};

use crate::paths::{file_name_chars, file_name_of, file_stem, stem_of};
use crate::platform::special_shortcuts::{get_special_shortcut, shortcut_is, special_match, SpecialShortcut};
use crate::search_engine::app_search::{category, category_of};
use crate::search_engine::models::AppEntry;

verus! {

/// Directory fragments (lower case) under which executables belong to the
/// system.
pub open spec fn system_dir_keywords() -> Seq<Seq<char>> {
    seq![
        "\\windows\\system32\\"@,
        "\\windows\\syswow64\\"@,
        "\\windows\\winsxs\\"@,
        "\\windows\\servicing\\"@,
        "\\windows\\softwaredistribution\\"@,
        "\\windows\\assembly\\"@,
    ]
}

/// File names (lower case) of installers, updaters and other helpers that
/// are not applications.
pub open spec fn non_app_names() -> Seq<Seq<char>> {
    seq![
        "unins000.exe"@,
        "uninstall.exe"@,
        "uninstall_helper.exe"@,
        "uninstall_helper_64.exe"@,
        "unins.exe"@,
        "uninstaller.exe"@,
        "update.exe"@,
        "updater.exe"@,
        "_setup.exe"@,
        "setup.exe"@,
        "installer.exe"@,
        "install_helper.exe"@,
        "config.exe"@,
        "config64.exe"@,
        "diagnostics.exe"@,
        "diagnostic_tool.exe"@,
        "crash_reporter.exe"@,
        "crashpad_handler.exe"@,
        "crash_handler.exe"@,
        "debug.exe"@,
        "debugger.exe"@,
        "test.exe"@,
        "tests.exe"@,
        "benchmark.exe"@,
        "launcher_helper.exe"@,
        "migration_tool.exe"@,
        "repair.exe"@,
        "maintenance_tool.exe"@,
    ]
}

/// The executable at `path` is not a user application: its lower-cased path
/// lies in a system directory, or its lower-cased file name is a helper's.
pub open spec fn system_executable(path: Seq<char>) -> bool {
    ||| exists|j: int| 0 <= j < system_dir_keywords().len() && contains(lowercase(path), #[trigger] system_dir_keywords()[j])
    ||| non_app_names().contains(lowercase(file_name_of(path)))
}

fn non_app_name_list() -> (r: Vec<&'static str>)
    ensures
        r@.map_values(|s: &str| s@) == non_app_names(),
{
    let v: Vec<&'static str> = vec![
        "unins000.exe",
        "uninstall.exe",
        "uninstall_helper.exe",
        "uninstall_helper_64.exe",
        "unins.exe",
        "uninstaller.exe",
        "update.exe",
        "updater.exe",
        "_setup.exe",
        "setup.exe",
        "installer.exe",
        "install_helper.exe",
        "config.exe",
        "config64.exe",
        "diagnostics.exe",
        "diagnostic_tool.exe",
        "crash_reporter.exe",
        "crashpad_handler.exe",
        "crash_handler.exe",
        "debug.exe",
        "debugger.exe",
        "test.exe",
        "tests.exe",
        "benchmark.exe",
        "launcher_helper.exe",
        "migration_tool.exe",
        "repair.exe",
        "maintenance_tool.exe",
    ];
    assert(v@.map_values(|s: &str| s@) =~= non_app_names());
    v
}

/// Whether the executable at `path` is a system helper; see
/// `system_executable`.
pub fn is_system_executable(path: &str) -> (r: bool)
    ensures
        r == system_executable(path@),
{
    let lp = to_lowercase(path);
    let p = chars_of(lp.as_str());
    let ps = p.as_slice();
    let in_dir = has_lit(ps, "\\windows\\system32\\") || has_lit(ps, "\\windows\\syswow64\\") || has_lit(
        ps,
        "\\windows\\winsxs\\",
    ) || has_lit(ps, "\\windows\\servicing\\") || has_lit(ps, "\\windows\\softwaredistribution\\") || has_lit(
        ps,
        "\\windows\\assembly\\",
    );
    let ghost pv = p@;
    assert(in_dir == exists|j: int|
        0 <= j < system_dir_keywords().len() && contains(pv, #[trigger] system_dir_keywords()[j])) by {
        if exists|j: int| 0 <= j < system_dir_keywords().len() && contains(pv, #[trigger] system_dir_keywords()[j]) {
            let j = choose|j: int| 0 <= j < system_dir_keywords().len() && contains(pv, #[trigger] system_dir_keywords()[j]);
        }
        if contains(pv, "\\windows\\system32\\"@) { assert(contains(pv, system_dir_keywords()[0])); }
        if contains(pv, "\\windows\\syswow64\\"@) { assert(contains(pv, system_dir_keywords()[1])); }
        if contains(pv, "\\windows\\winsxs\\"@) { assert(contains(pv, system_dir_keywords()[2])); }
        if contains(pv, "\\windows\\servicing\\"@) { assert(contains(pv, system_dir_keywords()[3])); }
        if contains(pv, "\\windows\\softwaredistribution\\"@) { assert(contains(pv, system_dir_keywords()[4])); }
        if contains(pv, "\\windows\\assembly\\"@) { assert(contains(pv, system_dir_keywords()[5])); }
    }
    if in_dir {
        return true;
    }
    let name = file_name_chars(path);
    let name_s = string_of(name.as_slice());
    let lname = to_lowercase(name_s.as_str());
    let names = non_app_name_list();
    let ghost ns = names@.map_values(|s: &str| s@);
    let mut i: usize = 0;
    while i < names.len()
        invariant
            i <= names@.len(),
            ns == names@.map_values(|s: &str| s@),
            ns == non_app_names(),
            lname@ == lowercase(file_name_of(path@)),
            forall|j: int| 0 <= j < i ==> ns[j] != lname@,
        decreases names@.len() - i,
    {
        if same_str(lname.as_str(), names[i]) {
            assert(ns[i as int] == lname@);
            return true;
        }
        i += 1;
    }
    false
}

/// The fields every newly found application starts with: a fresh
/// identifier, no icon, never launched, no alias, no pinyin, no version and
/// no file types.
pub open spec fn fresh_app(e: AppEntry) -> bool {
    &&& e.id@.len() == 36
    &&& e.icon_path is None && e.last_launched is None && e.launch_count == 0 && e.alias is None
    &&& e.pinyin_initials is None && e.pinyin_full is None && e.version is None && e.file_types@.len() == 0
}

/// `e` is the plain application named `name` at `path` in the category
/// `cat`.
pub open spec fn plain_app(e: AppEntry, name: Seq<char>, path: Seq<char>, cat: Seq<char>) -> bool {
    &&& fresh_app(e)
    &&& e.name@ == name && e.path@ == path && e.category@ == cat
    &&& !e.is_special_shortcut && e.special_command is None && e.special_args is None
}

/// `e` is the entry of the special shortcut `sc` found as the link `link`:
/// its display name, the link's path, the category `System Tools`, and the
/// shortcut's command and arguments.
pub open spec fn shortcut_app(e: AppEntry, link: Seq<char>, sc: SpecialShortcut) -> bool {
    &&& fresh_app(e)
    &&& e.name@ == sc.display_name@ && e.path@ == link && e.category@ == "System Tools"@
    &&& e.is_special_shortcut
    &&& e.special_command matches Some(c) && c@ == sc.launch_command@
    &&& e.special_args matches Some(a) && texts(a@) == sc.launch_args@.map_values(|s: &str| s@)
}

/// The name of an application found as `link` (a link file when `is_lnk`)
/// resolving to `target`: a link takes its target's stem, or its own when
/// the target has none; an executable its own stem.
pub open spec fn scanned_name(link: Seq<char>, target: Seq<char>, is_lnk: bool) -> Seq<char> {
    if is_lnk && stem_of(target).len() > 0 {
        stem_of(target)
    } else {
        stem_of(link)
    }
}

fn new_app(name: String, path: String, category: String) -> (r: AppEntry)
    ensures
        plain_app(r, name@, path@, category@),
{
    AppEntry {
        id: crate::repositories::commands::new_command_id(),
        name,
        path,
        icon_path: None,
        category,
        last_launched: None,
        launch_count: 0,
        alias: None,
        is_special_shortcut: false,
        special_command: None,
        special_args: None,
        pinyin_initials: None,
        pinyin_full: None,
        version: None,
        file_types: Vec::new(),
    }
}

fn owned_texts(v: &Vec<&'static str>) -> (r: Vec<String>)
    ensures
        texts(r@) == v@.map_values(|s: &str| s@),
{
    let mut r: Vec<String> = Vec::new();
    let mut i: usize = 0;
    while i < v.len()
        invariant
            i <= v@.len(),
            r@.len() == i,
            forall|j: int| 0 <= j < i ==> #[trigger] r@[j]@ == v@[j]@,
        decreases v@.len() - i,
    {
        r.push(lit(v[i]));
        i += 1;
    }
    assert(texts(r@) =~= v@.map_values(|s: &str| s@));
    r
}

/// The application recorded for the file `link` found in a scanned folder,
/// a link file when `is_lnk`, resolving to `target` (the file itself for an
/// executable), whose existence is `target_exists`:
/// - a link to a special location becomes that shortcut's entry
///   (`shortcut_app`), whether its target exists or not;
/// - otherwise nothing when the target is missing or a system helper, or
///   the name (`scanned_name`) is empty;
/// - otherwise the plain application at the target, in its category.
pub fn scanned_app(link: &str, target: &str, is_lnk: bool, target_exists: bool) -> (r: Option<AppEntry>)
    ensures
        is_lnk && special_match(link@, target@) is Some ==> (r matches Some(e) && exists|sc: SpecialShortcut|
            shortcut_is(sc, special_match(link@, target@)->0) && #[trigger] shortcut_app(e, link@, sc)),
        !(is_lnk && special_match(link@, target@) is Some) ==> if !target_exists || system_executable(target@)
            || scanned_name(link@, target@, is_lnk).len() == 0 {
            r is None
        } else {
            r matches Some(e) && plain_app(
                e,
                scanned_name(link@, target@, is_lnk),
                target@,
                category(target@, scanned_name(link@, target@, is_lnk)),
            )
        },
{
    if is_lnk {
        if let Some(sc) = get_special_shortcut(link, target) {
            let e = AppEntry {
                id: crate::repositories::commands::new_command_id(),
                name: lit(sc.display_name),
                path: lit(link),
                icon_path: None,
                category: lit("System Tools"),
                last_launched: None,
                launch_count: 0,
                alias: None,
                is_special_shortcut: true,
                special_command: Some(lit(sc.launch_command)),
                special_args: Some(owned_texts(&sc.launch_args)),
                pinyin_initials: None,
                pinyin_full: None,
                version: None,
                file_types: Vec::new(),
            };
            assert(shortcut_app(e, link@, sc));
            return Some(e);
        }
    }
    if !target_exists || is_system_executable(target) {
        return None;
    }
    let ts = file_stem(target);
    let stem = if is_lnk && ts.len() > 0 {
        ts
    } else {
        file_stem(link)
    };
    if stem.len() == 0 {
        return None;
    }
    let name = string_of(stem.as_slice());
    let cat = category_of(target, name.as_str());
    Some(new_app(name, lit(target), cat))
}

/// The application recorded for an installed program whose uninstall
/// entry names the executable `exe` (see `display_icon_exe`) and the
/// display name `name`, `exe_found` telling whether the executable exists: the
/// plain application in `Applications`, unless the executable is missing or
/// a system helper or the name is empty.
pub fn registry_app(exe: &str, name: &str, exe_found: bool) -> (r: Option<AppEntry>)
    ensures
        !exe_found || system_executable(exe@) || name@.len() == 0 ==> r is None,
        exe_found && !system_executable(exe@) && name@.len() > 0 ==> (r matches Some(e) && plain_app(
            e,
            name@,
            exe@,
            "Applications"@,
        )),
{
    if !exe_found || is_system_executable(exe) || name.is_empty() {
        return None;
    }
    Some(new_app(lit(name), lit(exe), lit("Applications")))
}

/// The system tools offered as applications: executable (or settings
/// address) and display name, in order.
pub open spec fn system_tools() -> Seq<(Seq<char>, Seq<char>)> {
    seq![
        ("notepad.exe"@, "记事本"@),
        ("calc.exe"@, "计算器"@),
        ("mspaint.exe"@, "画图"@),
        ("explorer.exe"@, "文件资源管理器"@),
        ("taskmgr.exe"@, "任务管理器"@),
        ("cmd.exe"@, "命令提示符"@),
        ("powershell.exe"@, "Windows PowerShell"@),
        ("control.exe"@, "控制面板"@),
        ("ms-settings:"@, "设置"@),
        ("notepad++.exe"@, "Notepad++"@),
        ("write.exe"@, "写字板"@),
        ("mstsc.exe"@, "远程桌面连接"@),
        ("mmc.exe"@, "管理控制台"@),
        ("devmgmt.msc"@, "设备管理器"@),
        ("diskmgmt.msc"@, "磁盘管理"@),
        ("services.msc"@, "服务"@),
        ("taskschd.msc"@, "任务计划程序"@),
        ("eventvwr.msc"@, "事件查看器"@),
        ("perfmon.msc"@, "性能监视器"@),
        ("resmon.exe"@, "资源监视器"@),
        ("msinfo32.exe"@, "系统信息"@),
        ("dxdiag.exe"@, "DirectX 诊断工具"@),
        ("cleanmgr.exe"@, "磁盘清理"@),
        ("dfrgui.exe"@, "磁盘碎片整理"@),
        ("charmap.exe"@, "字符映射表"@),
        ("snippingtool.exe"@, "截图工具"@),
        ("magnify.exe"@, "放大镜"@),
        ("osk.exe"@, "屏幕键盘"@),
        ("narrator.exe"@, "讲述人"@),
    ]
}

/// The system tools; see `system_tools`.
pub fn system_tool_list() -> (r: Vec<(&'static str, &'static str)>)
    ensures
        r@.map_values(|t: (&str, &str)| (t.0@, t.1@)) == system_tools(),
{
    let v: Vec<(&'static str, &'static str)> = vec![
        ("notepad.exe", "记事本"),
        ("calc.exe", "计算器"),
        ("mspaint.exe", "画图"),
        ("explorer.exe", "文件资源管理器"),
        ("taskmgr.exe", "任务管理器"),
        ("cmd.exe", "命令提示符"),
        ("powershell.exe", "Windows PowerShell"),
        ("control.exe", "控制面板"),
        ("ms-settings:", "设置"),
        ("notepad++.exe", "Notepad++"),
        ("write.exe", "写字板"),
        ("mstsc.exe", "远程桌面连接"),
        ("mmc.exe", "管理控制台"),
        ("devmgmt.msc", "设备管理器"),
        ("diskmgmt.msc", "磁盘管理"),
        ("services.msc", "服务"),
        ("taskschd.msc", "任务计划程序"),
        ("eventvwr.msc", "事件查看器"),
        ("perfmon.msc", "性能监视器"),
        ("resmon.exe", "资源监视器"),
        ("msinfo32.exe", "系统信息"),
        ("dxdiag.exe", "DirectX 诊断工具"),
        ("cleanmgr.exe", "磁盘清理"),
        ("dfrgui.exe", "磁盘碎片整理"),
        ("charmap.exe", "字符映射表"),
        ("snippingtool.exe", "截图工具"),
        ("magnify.exe", "放大镜"),
        ("osk.exe", "屏幕键盘"),
        ("narrator.exe", "讲述人"),
    ];
    assert(v@.map_values(|t: (&str, &str)| (t.0@, t.1@)) =~= system_tools());
    v
}

/// The application recorded for the system tool `name` found at `path`: the
/// plain application in `System`.
pub fn system_app(path: &str, name: &str) -> (r: AppEntry)
    ensures
        plain_app(r, name@, path@, "System"@),
{
    new_app(lit(name), lit(path), lit("System"))
}

/// `app` with the pinyin of its name as the caller computed it (initials
/// and full spelling, lower case; none for a name without Chinese
/// characters); nothing else changes.
pub fn with_pinyin(app: AppEntry, initials: Option<String>, full: Option<String>) -> (r: AppEntry)
    ensures
        r == (AppEntry { pinyin_initials: initials, pinyin_full: full, ..app }),
{
    let mut r = app;
    r.pinyin_initials = initials;
    r.pinyin_full = full;
    r
}

} // verus!
