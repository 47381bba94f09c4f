use monotools::platform::special_shortcuts::{
    get_special_shortcut, is_special_shortcut, special_shortcut_at, SpecialShortcutType, SPECIAL_SHORTCUT_COUNT,
};

#[test]
fn test_is_special_shortcut_by_name() {
    let lnk = "C:\\Users\\test\\AppData\\Roaming\\Microsoft\\Windows\\Start Menu\\Programs\\Run.lnk";
    let target = "";
    assert!(is_special_shortcut(lnk, target));
}

#[test]
fn test_is_special_shortcut_by_target() {
    let lnk = "C:\\test\\something.lnk";
    let target = "shell:::{2559a1f3-21d7-11d4-bdaf-00c04f60b9f0}";
    assert!(is_special_shortcut(lnk, target));
}

#[test]
fn test_get_special_shortcut_run() {
    let lnk = "Run.lnk";
    let target = "";
    let sc = get_special_shortcut(lnk, target);
    assert!(sc.is_some());
    assert_eq!(sc.unwrap().display_name, "运行");
}

#[test]
fn test_normal_exe_not_special() {
    let lnk = "Chrome.lnk";
    let target = "C:\\Program Files\\Chrome\\chrome.exe";
    assert!(!is_special_shortcut(lnk, target));
}

#[test]
fn special_shortcut_by_target_rules() {
    let sc = get_special_shortcut("x.lnk", "C:\\Windows\\System32\\CONTROL.EXE").unwrap();
    assert_eq!(sc.display_name, "控制面板");
    let sc = get_special_shortcut("x.lnk", "ms-settings:privacy").unwrap();
    assert_eq!(sc.display_name, "显示设置");
    let sc = get_special_shortcut("x.lnk", "search:query=abc").unwrap();
    assert_eq!(sc.result_type, SpecialShortcutType::Search);
    assert!(get_special_shortcut("x.lnk", "C:\\app.exe").is_none());
    assert!(is_special_shortcut("x.lnk", "::{20D04FE0-3AEA-1069-A2D8-08002B30309D}"));
}

#[test]
fn special_shortcut_name_beats_target_and_table_order() {
    let sc = get_special_shortcut("此电脑.lnk", "shell:::{645FF040-5081-101B-9F08-00AA002F954E}").unwrap();
    assert_eq!(sc.display_name, "此电脑");
    assert_eq!(sc.icon_index, 102);
    let sc = get_special_shortcut("Recycle Bin.lnk", "").unwrap();
    assert_eq!(sc.launch_args, vec!["shell:::{645FF040-5081-101B-9F08-00AA002F954E}"]);
    assert_eq!(SPECIAL_SHORTCUT_COUNT, 11);
    assert_eq!(special_shortcut_at(10).display_name, "声音设置");
}
