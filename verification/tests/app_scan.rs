use monotools::search_engine::app_search::scan::{is_system_executable, registry_app, scanned_app, system_app, system_tool_list, with_pinyin};

#[test]
fn system_directories_are_not_applications() {
    assert!(is_system_executable(r"C:\Windows\System32\notepad.exe"));
    assert!(is_system_executable(r"C:\WINDOWS\SysWOW64\x.exe"));
    assert!(!is_system_executable(r"C:\Program Files\App\app.exe"));
}

#[test]
fn helper_executables_are_not_applications() {
    assert!(is_system_executable(r"C:\Program Files\App\unins000.exe"));
    assert!(is_system_executable(r"C:\Apps\Setup.EXE"));
    assert!(is_system_executable(r"D:\tools\crashpad_handler.exe"));
    assert!(!is_system_executable(r"D:\tools\setup_wizard.exe"));
}

#[test]
fn scanned_executable_becomes_plain_app() {
    let app = scanned_app(r"C:\Apps\Tool.exe", r"C:\Apps\Tool.exe", false, true).unwrap();
    assert_eq!(app.name, "Tool");
    assert_eq!(app.path, r"C:\Apps\Tool.exe");
    assert_eq!(app.category, "Applications");
    assert!(!app.is_special_shortcut);
    assert_eq!(app.launch_count, 0);
    assert_eq!(app.id.len(), 36);
}

#[test]
fn scanned_link_takes_target_name_and_category() {
    let app = scanned_app(r"C:\Menu\My Browser.lnk", r"C:\Program Files\Google\chrome.exe", true, true).unwrap();
    assert_eq!(app.name, "chrome");
    assert_eq!(app.path, r"C:\Program Files\Google\chrome.exe");
    assert_eq!(app.category, "Browser");
}

#[test]
fn missing_or_system_targets_are_skipped() {
    assert!(scanned_app(r"C:\Menu\Gone.lnk", r"C:\Gone\gone.exe", true, false).is_none());
    assert!(scanned_app(r"C:\Apps\unins000.exe", r"C:\Apps\unins000.exe", false, true).is_none());
}

#[test]
fn special_link_becomes_shortcut_entry() {
    let app = scanned_app(r"C:\Menu\Run.lnk", r"C:\Windows\explorer.exe", true, false).unwrap();
    assert!(app.is_special_shortcut);
    assert_eq!(app.name, "运行");
    assert_eq!(app.path, r"C:\Menu\Run.lnk");
    assert_eq!(app.category, "System Tools");
    assert_eq!(app.special_command.as_deref(), Some("explorer.exe"));
    assert_eq!(
        app.special_args,
        Some(vec!["shell:::{2559a1f3-21d7-11d4-bdaf-00c04f60b9f0}".to_string()])
    );
}

#[test]
fn registry_entries_need_file_and_name() {
    let app = registry_app(r"C:\Games\game.exe", "Game", true).unwrap();
    assert_eq!(app.name, "Game");
    assert_eq!(app.category, "Applications");
    assert!(registry_app(r"C:\Games\game.exe", "", true).is_none());
    assert!(registry_app(r"C:\Games\game.exe", "Game", false).is_none());
    assert!(registry_app(r"C:\Games\uninstall.exe", "Game", true).is_none());
}

#[test]
fn system_tools_are_listed_in_order() {
    let tools = system_tool_list();
    assert_eq!(tools.len(), 29);
    assert_eq!(tools[0], ("notepad.exe", "记事本"));
    assert_eq!(tools[28], ("narrator.exe", "讲述人"));
    let app = system_app(r"C:\Windows\System32\notepad.exe", "记事本");
    assert_eq!(app.category, "System");
    assert_eq!(app.name, "记事本");
}

#[test]
fn pinyin_is_set_as_given() {
    let app = system_app(r"C:\Windows\System32\calc.exe", "计算器");
    let app = with_pinyin(app, Some("jsq".to_string()), Some("jisuanqi".to_string()));
    assert_eq!(app.pinyin_initials.as_deref(), Some("jsq"));
    assert_eq!(app.pinyin_full.as_deref(), Some("jisuanqi"));
    assert_eq!(app.name, "计算器");
    assert_eq!(app.category, "System");
}
