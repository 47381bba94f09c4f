use monotools::recommend::service::RecommendService;
use monotools::recommend::types::{FeedbackEvent, FeedbackType, RecommendConfig, RecommendContext, RecommendItem};

fn item(id: &str, count: u32) -> RecommendItem {
    RecommendItem {
        id: id.into(),
        title: id.to_uppercase(),
        subtitle: String::new(),
        category: "apps".into(),
        launch_count: count,
        last_launched: None,
        tags: vec!["t".into()],
    }
}

fn feedback(id: &str, t: FeedbackType) -> FeedbackEvent {
    FeedbackEvent { item_id: id.into(), feedback_type: t, position: None, context: RecommendContext::default(), timestamp: 0 }
}

#[test]
fn service_starts_empty() {
    let s = RecommendService::new(RecommendConfig::default());
    assert_eq!(s.item_count(), 0);
    let st = s.status();
    assert!(st.enabled);
    assert_eq!(st.total_feedbacks, 0);
    assert_eq!(st.total_recommendations, 0);
    assert!(!s.has_py_engine());
    assert_eq!(s.config().max_results, 20);
}

#[test]
fn scoring_input_merges_launches() {
    let mut s = RecommendService::new(RecommendConfig::default());
    assert!(s.scoring_input().is_none());
    s.set_items(vec![item("a", 5), item("b", 0)]);
    assert_eq!(s.item_count(), 2);
    s.record_launch_at("b", 77);
    s.record_launch_at("b", 88);
    let v = s.scoring_input().unwrap();
    assert_eq!(v.len(), 2);
    assert_eq!(v[0].id, "a");
    assert_eq!(v[0].launch_count, 5);
    assert_eq!(v[0].last_launched, None);
    assert_eq!(v[1].launch_count, 2);
    assert_eq!(v[1].last_launched, Some(88));
    assert_eq!(v[1].tags, vec!["t".to_string()]);
    assert_eq!(s.status().total_recommendations, 1);
    assert_eq!(s.status().total_feedbacks, 2);
}

#[test]
fn disabled_service_gives_no_input() {
    let mut s = RecommendService::new(RecommendConfig { enabled: false, max_results: 5 });
    s.set_items(vec![item("a", 1)]);
    assert!(s.scoring_input().is_none());
    assert!(!s.status().enabled);
    assert_eq!(s.status().total_recommendations, 0);
}

#[test]
fn click_feedback_counts_as_launch() {
    let mut s = RecommendService::new(RecommendConfig::default());
    s.set_items(vec![item("a", 0)]);
    s.report_feedback_at(&feedback("a", FeedbackType::Click), 10);
    s.report_feedback_at(&feedback("a", FeedbackType::Dislike), 11);
    s.report_feedback(&feedback("a", FeedbackType::Pin));
    assert_eq!(s.status().total_feedbacks, 3);
    let v = s.scoring_input().unwrap();
    assert_eq!(v[0].launch_count, 2);
}

fn make_item(id: &str, title: &str, launch_count: u32) -> RecommendItem {
    RecommendItem {
        id: id.to_string(),
        title: title.to_string(),
        subtitle: String::new(),
        category: "apps".to_string(),
        launch_count,
        last_launched: None,
        tags: Vec::new(),
    }
}

#[test]
fn test_service_basic() {
    let config = RecommendConfig::default();
    let service = RecommendService::new(config);
    assert_eq!(service.config().enabled, true);
    assert_eq!(service.has_py_engine(), false);
    assert_eq!(service.item_count(), 0);
}

#[test]
fn test_set_items() {
    let config = RecommendConfig::default();
    let mut service = RecommendService::new(config);
    let items = vec![make_item("1", "A", 10), make_item("2", "B", 5)];
    service.set_items(items);
    assert_eq!(service.item_count(), 2);
}

#[test]
fn test_status() {
    let config = RecommendConfig::default();
    let service = RecommendService::new(config);
    let status = service.status();
    assert_eq!(status.enabled, true);
    assert_eq!(status.py_engine_available, false);
    assert_eq!(status.total_recommendations, 0);
    assert_eq!(status.total_feedbacks, 0);
}

#[test]
fn mod_test_report_feedback() {
    let config = RecommendConfig::default();
    let mut service = RecommendService::new(config);
    let items = vec![make_item("1", "Test", 0)];
    service.set_items(items);
    let feedback = FeedbackEvent {
        item_id: "1".to_string(),
        feedback_type: FeedbackType::Click,
        position: Some(0),
        context: RecommendContext::default(),
        timestamp: 12345,
    };
    service.report_feedback(&feedback);
    let status = service.status();
    assert_eq!(status.total_feedbacks, 1);
}

#[test]
fn record_launch_counts_feedback_and_launch() {
    let mut service = RecommendService::new(RecommendConfig::default());
    service.set_items(vec![make_item("1", "Test", 0)]);
    service.record_launch("1");
    service.record_launch("1");
    assert_eq!(service.status().total_feedbacks, 2);
    let v = service.scoring_input().unwrap();
    assert_eq!(v[0].launch_count, 2);
    assert!(v[0].last_launched.is_some());
}
