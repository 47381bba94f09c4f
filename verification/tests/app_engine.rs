use monotools::search_engine::app_search::engine::{app_result, display_icon_exe, listing_order, registry_string, AppCache};
use monotools::search_engine::models::{AppEntry, ResultType, SearchAction, SearchCategory};

fn entry(path: &str, name: &str, launches: u32) -> AppEntry {
    AppEntry {
        id: format!("app:{}", path),
        name: name.to_string(),
        path: path.to_string(),
        icon_path: None,
        category: "Applications".to_string(),
        last_launched: None,
        launch_count: launches,
        alias: None,
        is_special_shortcut: false,
        special_command: None,
        special_args: None,
        pinyin_initials: None,
        pinyin_full: None,
        version: None,
        file_types: Vec::new(),
    }
}

#[test]
fn cache_insert_replaces_same_path() {
    let mut cache = AppCache::new_empty();
    cache.insert(entry(r"c:\a.exe", "A", 0));
    cache.insert(entry(r"c:\b.exe", "B", 0));
    cache.insert(entry(r"c:\a.exe", "A2", 3));
    assert_eq!(cache.total(), 2);
    let listed = cache.listing();
    assert_eq!(listed, vec![r"c:\a.exe".to_string(), r"c:\b.exe".to_string()]);
}

#[test]
fn cache_insert_if_absent_keeps_first() {
    let mut cache = AppCache::new_empty();
    cache.insert(entry(r"c:\a.exe", "Alpha", 5));
    cache.insert_if_absent(entry(r"c:\a.exe", "Other", 0));
    cache.insert_if_absent(entry(r"c:\z.exe", "Zed", 0));
    assert_eq!(cache.total(), 2);
    assert_eq!(cache.listing(), vec![r"c:\a.exe".to_string(), r"c:\z.exe".to_string()]);
}

#[test]
fn cache_clear_forgets_everything() {
    let mut cache = AppCache::new_empty();
    cache.insert(entry(r"c:\a.exe", "A", 0));
    cache.clear();
    assert_eq!(cache.total(), 0);
    assert!(cache.listing().is_empty());
}

#[test]
fn record_launch_moves_app_up_the_listing() {
    let mut cache = AppCache::new_empty();
    cache.insert(entry(r"c:\a.exe", "Alpha", 0));
    cache.insert(entry(r"c:\b.exe", "Beta", 0));
    assert_eq!(cache.listing()[0], r"c:\a.exe");
    cache.record_launch(r"c:\b.exe");
    assert_eq!(cache.listing()[0], r"c:\b.exe");
    cache.record_launch_at(r"c:\missing.exe", 10);
    assert_eq!(cache.total(), 2);
}

#[test]
fn listing_orders_by_launches_then_name() {
    let keys = vec![
        (1u32, "zeta".to_string()),
        (5u32, "beta".to_string()),
        (1u32, "alpha".to_string()),
        (5u32, "alpha".to_string()),
        (1u32, "alpha".to_string()),
    ];
    assert_eq!(listing_order(&keys), vec![3, 1, 2, 4, 0]);
}

#[test]
fn listing_of_nothing_is_empty() {
    assert!(listing_order(&[]).is_empty());
}

#[test]
fn listing_names_compare_case_folded() {
    let mut cache = AppCache::new_empty();
    cache.insert(entry(r"c:\b.exe", "beta", 0));
    cache.insert(entry(r"c:\a.exe", "ALPHA", 0));
    assert_eq!(cache.listing(), vec![r"c:\a.exe".to_string(), r"c:\b.exe".to_string()]);
}

#[test]
fn display_icon_drops_icon_index() {
    assert_eq!(display_icon_exe(r"C:\Program Files\App\app.exe,0"), r"C:\Program Files\App\app.exe");
    assert_eq!(display_icon_exe(r"C:\app.exe"), r"C:\app.exe");
    assert_eq!(display_icon_exe(""), "");
}

#[test]
fn registry_string_reads_utf16_up_to_nul() {
    let buf = [b'H', 0, b'i', 0, 0, 0, b'X', 0];
    assert_eq!(registry_string(1, &buf, 8), Some("Hi".to_string()));
    assert_eq!(registry_string(2, &buf, 4), Some("Hi".to_string()));
    assert_eq!(registry_string(4, &buf, 8), None);
    assert_eq!(registry_string(1, &buf, 0), Some(String::new()));
}

#[test]
fn app_result_launches_plain_app() {
    let a = entry(r"C:\Program Files\Tool\tool.exe", "Tool", 2);
    let r = app_result(&a);
    assert_eq!(r.title, "Tool");
    assert_eq!(r.subtitle, "");
    assert_eq!(r.category, SearchCategory::Apps);
    assert_eq!(r.result_type, ResultType::UserApp);
    assert!(matches!(r.action, SearchAction::Launch(ref p) if p == r"C:\Program Files\Tool\tool.exe"));
    assert!(r.meta.is_none() && r.icon.is_none());
}

#[test]
fn app_result_runs_special_shortcut() {
    let mut a = entry(r"C:\Menu\Run.lnk", "运行", 0);
    a.is_special_shortcut = true;
    a.special_command = Some("explorer.exe".to_string());
    a.special_args = Some(vec!["shell:::{x}".to_string()]);
    let r = app_result(&a);
    assert_eq!(r.subtitle, r"C:\Menu\Run.lnk");
    assert_eq!(r.result_type, ResultType::SystemApp);
    match r.action {
        SearchAction::Run { command, args } => {
            assert_eq!(command, "explorer.exe");
            assert_eq!(args, vec!["shell:::{x}".to_string()]);
        }
        _ => panic!("expected a run action"),
    }
    a.special_command = None;
    a.special_args = None;
    match app_result(&a).action {
        SearchAction::Run { command, args } => {
            assert_eq!(command, "");
            assert!(args.is_empty());
        }
        _ => panic!("expected a run action"),
    }
}
