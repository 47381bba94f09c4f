use monotools::platform::icon_cache::{extraction_paths, IconCache, IconStep};

#[test]
fn first_request_extracts_and_second_waits() {
    let mut c = IconCache::new();
    assert!(matches!(c.request("k"), IconStep::Extract));
    assert!(matches!(c.request("k"), IconStep::Sleep));
    assert!(matches!(c.wait_step("k", 10), IconStep::Sleep));
    assert!(matches!(c.wait_step("k", 3000), IconStep::Extract));
    c.store("k", Some(vec![1, 2, 3]));
    match c.wait_step("k", 10) {
        IconStep::Ready(Some(b)) => assert_eq!(b, vec![1, 2, 3]),
        other => panic!("{:?}", other),
    }
    match c.request("k") {
        IconStep::Ready(Some(b)) => assert_eq!(b, vec![1, 2, 3]),
        other => panic!("{:?}", other),
    }
    assert!(c.begin("k"));
}

#[test]
fn failed_extraction_is_cached_as_none() {
    let mut c = IconCache::new();
    assert!(c.begin("x"));
    c.store("x", None);
    assert_eq!(c.lookup("x"), Some(None));
    assert_eq!(c.lookup("y"), None);
}

#[test]
fn store_replaces_and_snapshot_lists_each_key_once() {
    let mut c = IconCache::new();
    c.store("a", Some(vec![1]));
    c.store("b", None);
    c.store("a", Some(vec![2]));
    let mut snap = c.cache_snapshot();
    snap.sort();
    assert_eq!(snap, vec![("a".to_string(), Some(vec![2])), ("b".to_string(), None)]);
    c.clear_cache_for_tests();
    assert!(c.cache_snapshot().is_empty());
    assert_eq!(c.lookup("a"), None);
}

#[test]
fn shortcut_tries_target_first() {
    assert_eq!(
        extraction_paths("C:\\x.lnk", true, Some("C:\\app.exe")),
        vec!["C:\\app.exe".to_string(), "C:\\x.lnk".to_string()]
    );
    assert_eq!(extraction_paths("C:\\x.lnk", true, None), vec!["C:\\x.lnk".to_string()]);
    assert_eq!(extraction_paths("C:\\a.exe", false, Some("C:\\b.exe")), vec!["C:\\a.exe".to_string()]);
}
