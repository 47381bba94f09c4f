use monotools::search_engine::app_search::{app_type_of, category_of};
use monotools::search_engine::models::{AppEntry, ResultType};

#[test]
fn category_browser_keyword_match() {
    assert_eq!(category_of(r"c:\x", "Google Chrome"), "Browser");
    assert_eq!(category_of(r"c:\x", "Firefox Nightly"), "Browser");
    assert_eq!(category_of(r"c:\x", "Microsoft Edge"), "Browser");
}

#[test]
fn category_development_keyword_match() {
    assert_eq!(category_of(r"c:\x", "vscode.exe"), "Development");
    assert_eq!(category_of(r"c:\x", "JetBrains IntelliJ"), "Development");
    assert_eq!(category_of(r"c:\x", "GitHub Desktop"), "Development");
    assert_eq!(category_of(r"c:\tools", "git"), "Development");
}

#[test]
fn category_communication_match() {
    assert_eq!(category_of(r"c:\x", "WeChat"), "Communication");
    assert_eq!(category_of(r"c:\x", "Slack"), "Communication");
    assert_eq!(category_of(r"c:\x", "Discord"), "Communication");
}

#[test]
fn category_media_match() {
    assert_eq!(category_of(r"c:\x", "Spotify"), "Media");
    assert_eq!(category_of(r"c:\x", "MusicBee"), "Media");
}

#[test]
fn category_system_via_path_keyword() {
    assert_eq!(category_of(r"c:\program files\microsoft\foo.exe", "FooApp"), "System");
}

#[test]
fn category_default_applications() {
    assert_eq!(category_of(r"c:\random\app.exe", "Some Random Tool"), "Applications");
}

#[test]
fn category_order_sensitive_browser_wins() {
    assert_eq!(category_of(r"c:\x", "GitHub Chrome Edition"), "Browser");
}

#[test]
fn category_case_insensitive() {
    assert_eq!(category_of(r"c:\x", "CHROME"), "Browser");
    assert_eq!(category_of(r"c:\x", "vScOdE"), "Development");
}

#[test]
fn category_path_keyword_is_case_insensitive() {
    assert_eq!(category_of(r"C:\Program Files\MICROSOFT\x.exe", "Tool"), "System");
}

fn app(path: &str, special: bool) -> AppEntry {
    AppEntry {
        id: "id".to_string(),
        name: "name".to_string(),
        path: path.to_string(),
        icon_path: None,
        category: "Applications".to_string(),
        last_launched: None,
        launch_count: 0,
        alias: None,
        is_special_shortcut: special,
        special_command: None,
        special_args: None,
        pinyin_initials: None,
        pinyin_full: None,
        version: None,
        file_types: vec![],
    }
}

#[test]
fn app_type_of_classifies_locations() {
    assert_eq!(app_type_of(&app(r"C:\Users\a\Run.lnk", true)), ResultType::SystemApp);
    assert_eq!(app_type_of(&app(r"C:\Program Files\WindowsApps\x\app.exe", false)), ResultType::UwpApp);
    assert_eq!(app_type_of(&app(r"C:\Windows\notepad.exe", false)), ResultType::SystemApp);
    assert_eq!(app_type_of(&app(r"C:\Program Files\Microsoft Office\root\WINWORD.EXE", false)), ResultType::SystemApp);
    assert_eq!(app_type_of(&app(r"C:\Program Files (x86)\Microsoft\Edge\msedge.exe", false)), ResultType::UserApp);
    assert_eq!(app_type_of(&app(r"C:\Program Files\Mozilla Firefox\firefox.exe", false)), ResultType::UserApp);
    assert_eq!(app_type_of(&app(r"C:\Users\a\AppData\Local\app.exe", false)), ResultType::UserApp);
    assert_eq!(app_type_of(&app(r"D:\tools\x.exe", false)), ResultType::UserApp);
}

#[test]
fn category_development_more_keywords() {
    assert_eq!(category_of(r"c:\x", "JetBrains Rider"), "Development");
    assert_eq!(category_of(r"c:\x", "VisualCodium"), "Development");
    assert_eq!(category_of(r"c:\x", "TortoiseGit"), "Development");
}
