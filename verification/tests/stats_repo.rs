use monotools::repositories::stats_repo::{order_desc, AppStat, StatsRepo};

#[test]
fn record_launch_counts_and_keeps_latest_time() {
    let mut repo = StatsRepo::new();
    repo.record_launch("C:\\a.exe", "A", 100);
    repo.record_launch("C:\\a.exe", "", 200);
    let s = repo.get("C:\\a.exe").unwrap();
    assert_eq!(s.app_path, "C:\\a.exe");
    assert_eq!(s.launch_count, 2);
    assert_eq!(s.last_launched, 200);
    assert_eq!(s.name, "A");
    repo.record_launch("C:\\a.exe", "Alpha", 300);
    assert_eq!(repo.get("C:\\a.exe").unwrap().name, "Alpha");
    assert!(repo.get("C:\\b.exe").is_none());
}

#[test]
fn first_launch_with_empty_name_stores_empty_name() {
    let mut repo = StatsRepo::default();
    repo.record_launch("k", "", 5);
    let s = repo.get("k").unwrap();
    assert_eq!(s.launch_count, 1);
    assert_eq!(s.name, "");
}

#[test]
fn list_is_latest_first() {
    let mut repo = StatsRepo::new();
    repo.record_launch("a", "a", 10);
    repo.record_launch("b", "b", 30);
    repo.record_launch("c", "c", 20);
    let l = repo.list();
    let paths: Vec<&str> = l.iter().map(|s| s.app_path.as_str()).collect();
    assert_eq!(paths, vec!["b", "c", "a"]);
}

#[test]
fn top_by_count_takes_most_launched() {
    let mut repo = StatsRepo::new();
    for _ in 0..3 {
        repo.record_launch("x", "x", 1);
    }
    repo.record_launch("y", "y", 50);
    for _ in 0..2 {
        repo.record_launch("z", "z", 2);
    }
    let t = repo.top_by_count(2);
    assert_eq!(t.len(), 2);
    assert_eq!(t[0].app_path, "x");
    assert_eq!(t[1].app_path, "z");
    assert_eq!(repo.top_by_count(10).len(), 3);
    assert_eq!(repo.top_by_count(0).len(), 0);
}

#[test]
fn top_by_recent_and_history_take_latest() {
    let mut repo = StatsRepo::new();
    repo.record_launch("a", "a", 10);
    repo.record_launch("b", "b", 30);
    repo.record_launch("c", "c", 20);
    let t = repo.top_by_recent(2);
    assert_eq!(t[0].app_path, "b");
    assert_eq!(t[1].app_path, "c");
    let h = repo.search_history(1);
    assert_eq!(h.len(), 1);
    assert_eq!(h[0].app_path, "b");
}

#[test]
fn order_desc_is_stable() {
    let o = order_desc(&[3, 5, 3, 1, 5]);
    assert_eq!(o, vec![1, 4, 0, 2, 3]);
    assert!(order_desc(&[]).is_empty());
}

#[test]
fn app_stat_default_and_copy() {
    let d = AppStat::default();
    assert_eq!(d.app_path, "");
    assert_eq!(d.launch_count, 0);
    let s = AppStat { app_path: "p".into(), launch_count: 4, last_launched: -3, name: "n".into() };
    let c = s.duplicate();
    assert_eq!(c.app_path, "p");
    assert_eq!(c.launch_count, 4);
    assert_eq!(c.last_launched, -3);
    assert_eq!(c.name, "n");
}
