use monotools::platform::usn::{UsnChangeReason, UsnRecord};
use monotools::search_engine::file_search::{build_fts_query, extract_drives_from_roots, file_result_item, file_type_of, should_skip_path};
use monotools::search_engine::models::{FileResult, ResultType, SearchAction, SearchCategory};

#[test]
fn build_fts_query_single_char_gets_prefix() {
    let q = build_fts_query("s");
    assert_eq!(q, "s*", "单字符 term 应自动加 * 后缀");
}

#[test]
fn build_fts_query_multi_term_uses_or() {
    let q = build_fts_query("chrome remote");
    assert_eq!(q, "chrome* OR remote*");
}

#[test]
fn build_fts_query_empty_returns_star() {
    let q = build_fts_query("");
    assert_eq!(q, "*");
    let q = build_fts_query("   ");
    assert_eq!(q, "*");
}

#[test]
fn build_fts_query_escapes_plus_minus() {
    let q = build_fts_query("c++");
    assert_eq!(q, "c\\+\\+*", "+ 必须转义");
    let q = build_fts_query("win-kb");
    assert_eq!(q, "win\\-kb*", "- 必须转义 (避免被解析为 NOT)");
}

#[test]
fn build_fts_query_escapes_column_colon() {
    let q = build_fts_query("c:");
    assert_eq!(q, "c\\:*");
}

#[test]
fn build_fts_query_escapes_all_fts5_operators() {
    let specials = vec!['"', '\'', '\\', '^', '$', '@', '~', '*', '(', ')', '.', ':'];
    for c in specials {
        let q = build_fts_query(&c.to_string());
        let expected = format!("\\{}*", c);
        assert_eq!(q, expected, "特殊字符 {:?} 必须转义", c);
    }
}

#[test]
fn build_fts_query_preserves_alphanumeric() {
    let q = build_fts_query("abc 123");
    assert_eq!(q, "abc* OR 123*");
}

#[test]
fn build_fts_query_splits_on_unicode_space_and_tabs() {
    assert_eq!(build_fts_query("\ta\u{3000}b \n"), "a* OR b*");
    assert_eq!(build_fts_query("a.b c"), "a\\.b* OR c*");
}

fn make_record(name: &str, path: &str) -> UsnRecord {
    UsnRecord {
        file_name: name.to_string(),
        full_path: path.to_string(),
        file_reference_number: 0,
        parent_file_reference: 0,
        file_size: 0,
        last_write_time: 0,
        is_directory: false,
        extension: None,
        reason: UsnChangeReason::Modified,
        usn: 0,
    }
}

#[test]
fn should_skip_thumbs_db() {
    let r = make_record("thumbs.db", r"C:\Users\foo\Pictures\thumbs.db");
    assert!(should_skip_path(&r), "thumbs.db 应被跳过");
}

#[test]
fn should_skip_desktop_ini() {
    let r = make_record("desktop.ini", r"C:\Windows\System32\desktop.ini");
    assert!(should_skip_path(&r), "desktop.ini 应被跳过");
}

#[test]
fn should_skip_pagefile_sys() {
    let r = make_record("pagefile.sys", r"C:\pagefile.sys");
    assert!(should_skip_path(&r), "pagefile.sys 应被跳过");
}

#[test]
fn should_skip_winsxs_path() {
    let r = make_record("manifest.txt", r"C:\Windows\Winsxs\manifest.txt");
    assert!(should_skip_path(&r), r"\Windows\Winsxs 路径应被跳过");
}

#[test]
fn should_skip_system32_config_path() {
    let r = make_record("SYSTEM", r"C:\Windows\System32\config\SYSTEM");
    assert!(should_skip_path(&r), r"system32\config 路径应被跳过");
}

#[test]
fn should_skip_softwaredistribution_path() {
    let r = make_record("data.dat", r"C:\Windows\SoftwareDistribution\data.dat");
    assert!(should_skip_path(&r), "softwaredistribution 路径应被跳过");
}

#[test]
fn should_skip_recycle_bin_path() {
    let r = make_record("file.txt", r"C:\$Recycle.Bin\file.txt");
    assert!(should_skip_path(&r), r"\$Recycle.Bin 路径应被跳过");
}

#[test]
fn should_not_skip_normal_files() {
    let r = make_record("readme.md", r"D:\projects\mono\readme.md");
    assert!(!should_skip_path(&r), "正常文件不应被跳过");
}

#[test]
fn should_not_skip_git_dir() {
    let r = make_record(".git", r"D:\projects\mono\.git");
    assert!(!should_skip_path(&r), ".git 目录不应被跳过 (用户可能想搜)");
}

#[test]
fn should_not_skip_vscode_dir() {
    let r = make_record(".vscode", r"D:\projects\mono\.vscode");
    assert!(!should_skip_path(&r), ".vscode 目录不应被跳过");
}

#[test]
fn should_skip_ntfs_system_streams() {
    let r = make_record("$MFT", r"C:\$MFT");
    assert!(should_skip_path(&r), "NTFS 系统流 ($MFT) 应被跳过");
}

#[test]
fn should_skip_other_hidden_names_and_upper_case_names() {
    assert!(should_skip_path(&make_record(".cache", r"D:\x\.cache")));
    assert!(should_skip_path(&make_record("Thumbs.DB", r"D:\x\Thumbs.DB")));
    assert!(!should_skip_path(&make_record(".gitignore", r"D:\x\.gitignore")));
}

fn file(ext: Option<&str>, dir: bool) -> FileResult {
    FileResult {
        path: "C:\\x".to_string(),
        name: "x".to_string(),
        extension: ext.map(|e| e.to_string()),
        size: 0,
        modified_at: 0,
        is_directory: dir,
    }
}

#[test]
fn file_type_of_maps_extensions() {
    assert_eq!(file_type_of(&file(Some("exe"), true)), ResultType::Directory);
    assert_eq!(file_type_of(&file(Some("EXE"), false)), ResultType::Executable);
    assert_eq!(file_type_of(&file(Some("Png"), false)), ResultType::Image);
    assert_eq!(file_type_of(&file(Some("mkv"), false)), ResultType::Video);
    assert_eq!(file_type_of(&file(Some("flac"), false)), ResultType::Audio);
    assert_eq!(file_type_of(&file(Some("7z"), false)), ResultType::Archive);
    assert_eq!(file_type_of(&file(Some("json"), false)), ResultType::Document);
    assert_eq!(file_type_of(&file(Some("rs"), false)), ResultType::OtherFile);
    assert_eq!(file_type_of(&file(None, false)), ResultType::OtherFile);
}

#[test]
fn extract_drives_from_roots_dedups_and_uppercases() {
    let roots = vec![
        "c:\\Users".to_string(),
        "D:\\data".to_string(),
        "C:\\Windows".to_string(),
        "\\\\server\\share".to_string(),
        "".to_string(),
    ];
    let mut d = extract_drives_from_roots(&roots);
    d.sort();
    assert_eq!(d, vec!['C', 'D']);
}

#[test]
fn file_result_shows_path_size_and_icon() {
    let f = file(Some("PDF"), false);
    let r = file_result_item(&f, "1.5 KB".to_string());
    assert_eq!(r.id, "C:\\x");
    assert_eq!(r.title, "x");
    assert_eq!(r.subtitle, "C:\\x");
    assert_eq!(r.meta.as_deref(), Some("1.5 KB"));
    assert_eq!(r.icon.as_deref(), Some("file:///PDF.ico"));
    assert_eq!(r.category, SearchCategory::Files);
    assert_eq!(r.result_type, ResultType::Document);
    assert!(matches!(r.action, SearchAction::Open(ref p) if p == "C:\\x"));
}

#[test]
fn directory_result_has_no_size_or_icon() {
    let f = file(None, true);
    let r = file_result_item(&f, "0 B".to_string());
    assert!(r.meta.is_none());
    assert!(r.icon.is_none());
    assert_eq!(r.result_type, ResultType::Directory);
}
