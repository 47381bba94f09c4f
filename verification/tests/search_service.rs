use fuzzy_matcher::skim::SkimMatcherV2;
use fuzzy_matcher::FuzzyMatcher;
use monotools::search_engine::models::{SearchAction, SearchCategory};
use monotools::search_engine::pin::PinRepo;
use monotools::search_engine::service::{remove_duplicates, source_limit, with_default_action};

#[test]
fn pins_latest_first_without_repeats() {
    let mut p = PinRepo::new();
    p.add("a".into());
    p.add("b".into());
    p.add("a".into());
    assert_eq!(p.list(), vec!["a".to_string(), "b".to_string()]);
    p.remove("a");
    assert_eq!(p.list(), vec!["b".to_string()]);
    p.remove("zzz");
    assert_eq!(p.list(), vec!["b".to_string()]);
    p.hydrate(vec!["x".into(), "y".into()]);
    assert_eq!(p.list(), vec!["x".to_string(), "y".to_string()]);
    assert!(PinRepo::default().list().is_empty());
}

#[test]
fn source_limits_per_category() {
    assert_eq!(source_limit(50, 3, SearchCategory::Apps), 50);
    assert_eq!(source_limit(200, 4, SearchCategory::Apps), 100);
    assert_eq!(source_limit(200, 4, SearchCategory::Files), 120);
    assert_eq!(source_limit(200, 4, SearchCategory::Commands), 70);
    assert_eq!(source_limit(20, 4, SearchCategory::All), 30);
}

#[test]
fn duplicates_keep_first() {
    let keys = vec![
        ("A".to_string(), SearchCategory::Apps),
        ("A".to_string(), SearchCategory::Files),
        ("A".to_string(), SearchCategory::Apps),
        ("B".to_string(), SearchCategory::Apps),
    ];
    assert_eq!(remove_duplicates(&keys), vec![0, 1, 3]);
}

#[test]
fn untitled_launch_opens_explorer() {
    match with_default_action("", SearchAction::Launch("x".into())) {
        SearchAction::Launch(p) => assert_eq!(p, "explorer.exe"),
        other => panic!("{:?}", other),
    }
    match with_default_action("t", SearchAction::Launch("x".into())) {
        SearchAction::Launch(p) => assert_eq!(p, "x"),
        other => panic!("{:?}", other),
    }
    match with_default_action("", SearchAction::Open("o".into())) {
        SearchAction::Open(p) => assert_eq!(p, "o"),
        other => panic!("{:?}", other),
    }
}

#[test]
fn fuzzy_scores_lowercase_both_sides() {
    let m = SkimMatcherV2::default();
    let texts = vec![("xAxB".to_string(), String::new()), ("zz".to_string(), "Ab".to_string())];
    let r = monotools::search_engine::service::fuzzy_scores("AB", &texts);
    assert_eq!(r.len(), 2);
    assert_eq!(r[0].0, m.fuzzy_match("xaxb", "ab"));
    assert!(r[0].0.is_some());
    assert_eq!(r[0].1, None);
    assert_eq!(r[1].0, None);
    assert_eq!(r[1].1, m.fuzzy_match("ab", "ab"));
    assert!(r[1].1.unwrap() > 0);
    let e = monotools::search_engine::service::fuzzy_scores("", &texts);
    assert_eq!(e[0], (Some(0), Some(0)));
}
