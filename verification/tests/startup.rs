use monotools::models::startup::{NewStartupItem, StartupItem, StartupSource};
use monotools::platform::registry::{parse_run_key_output, run_items};
use monotools::platform::startup_folder::folder_items;
use monotools::repositories::startup_repo::{InMemoryStartupRepo, StartupRepo};

fn item(id: &str, name: &str, enabled: bool) -> StartupItem {
    StartupItem {
        id: id.to_string(),
        name: name.to_string(),
        command: format!(r"C:\{}.exe", name),
        args: vec!["--quiet".to_string()],
        working_dir: None,
        enabled,
        delay_seconds: 0,
        run_as_admin: false,
        source: StartupSource::Custom,
        created_at: 1_700_000_000,
    }
}

fn names(items: &[StartupItem]) -> Vec<String> {
    items.iter().map(|i| i.name.clone()).collect()
}

#[test]
fn repo_lists_what_was_added_in_order() {
    let mut repo = InMemoryStartupRepo::new();
    assert!(repo.list().is_empty());
    repo.add(item("1", "a", true)).unwrap();
    repo.add(item("2", "b", false)).unwrap();
    repo.add(item("3", "c", true)).unwrap();
    let all = repo.list();
    assert_eq!(names(&all), vec!["a", "b", "c"]);
    assert_eq!(all[0].args, vec!["--quiet".to_string()]);
    assert_eq!(names(&repo.list_enabled()), vec!["a", "c"]);
}

#[test]
fn repo_update_replaces_first_match_only() {
    let mut repo = InMemoryStartupRepo::default();
    repo.add(item("1", "a", true)).unwrap();
    repo.add(item("1", "dup", true)).unwrap();
    repo.update("1", &item("1", "z", false)).unwrap();
    assert_eq!(names(&repo.list()), vec!["z", "dup"]);
    repo.update("missing", &item("9", "q", true)).unwrap();
    assert_eq!(names(&repo.list()), vec!["z", "dup"]);
    assert_eq!(names(&repo.list_enabled()), vec!["dup"]);
}

#[test]
fn repo_remove_drops_every_match() {
    let mut repo = InMemoryStartupRepo::new();
    repo.add(item("1", "a", true)).unwrap();
    repo.add(item("2", "b", true)).unwrap();
    repo.add(item("1", "c", true)).unwrap();
    repo.remove("1").unwrap();
    assert_eq!(names(&repo.list()), vec!["b"]);
    repo.remove("nothing").unwrap();
    assert_eq!(names(&repo.list()), vec!["b"]);
}

#[test]
fn repo_replace_holds_new_items() {
    let mut repo = InMemoryStartupRepo::new();
    repo.add(item("1", "a", true)).unwrap();
    repo.replace(vec![item("7", "x", false), item("8", "y", true)]);
    assert_eq!(names(&repo.list()), vec!["x", "y"]);
}

#[test]
fn new_item_is_enabled_custom_entry() {
    let n = NewStartupItem {
        name: "Tool".to_string(),
        command: r"C:\tool.exe".to_string(),
        args: vec!["-x".to_string()],
        working_dir: Some(r"C:\".to_string()),
        delay_seconds: 5,
        run_as_admin: true,
    };
    let it = StartupItem::from_new(n);
    assert_eq!(it.id.len(), 36);
    assert!(it.enabled);
    assert_eq!(it.source, StartupSource::Custom);
    assert_eq!(it.name, "Tool");
    assert_eq!(it.delay_seconds, 5);
    assert!(it.run_as_admin);
    assert_eq!(it.working_dir.as_deref(), Some(r"C:\"));
}

#[test]
fn run_key_listing_becomes_entries() {
    let text = "\r\nHKEY_CURRENT_USER\\Software\\Microsoft\\Windows\\CurrentVersion\\Run\r\n    App    REG_SZ    \"C:\\app.exe\" --min\r\n    .Off    REG_SZ    C:\\off.exe\r\n";
    let values = parse_run_key_output(text);
    let items = run_items(&values, StartupSource::RegistryRun);
    assert_eq!(items.len(), 2);
    assert_eq!(items[0].name, "App");
    assert_eq!(items[0].command, "C:\\app.exe\" --min");
    assert!(items[0].enabled);
    assert!(!items[1].enabled);
    assert_eq!(items[1].source, StartupSource::RegistryRun);
    assert!(items[1].args.is_empty());
    assert_ne!(items[0].id, items[1].id);
}

#[test]
fn folder_files_without_name_are_skipped() {
    let files = vec![
        ("Tool".to_string(), r"C:\Startup\Tool.lnk".to_string()),
        (String::new(), r"C:\Startup\.lnk".to_string()),
        ("Other".to_string(), r"C:\Startup\Other.lnk".to_string()),
    ];
    let items = folder_items(&files);
    assert_eq!(names(&items), vec!["Tool", "Other"]);
    assert_eq!(items[1].command, r"C:\Startup\Other.lnk");
    assert_eq!(items[0].source, StartupSource::StartupFolder);
    assert!(items[0].enabled);
}
