use monotools::recommend::rule_engine::{related_categories, CategoryMatch, RuleEngine};
use monotools::recommend::types::{
    FeedbackEvent, FeedbackType, RecommendConfig, RecommendContext, RecommendItem, RecommendStatus,
};
use monotools::recommend::window_monitor::{WindowDebounce, WindowMonitorState, MAX_RECENT_APPS};
use monotools::recommend::RecommendInitConfig;

#[test]
fn test_config_default() {
    let config = RecommendConfig::default();
    assert_eq!(config.enabled, true);
    assert_eq!(config.max_results, 20);
}

#[test]
fn test_recommend_item() {
    let item = RecommendItem {
        id: "1".to_string(),
        title: "Test App".to_string(),
        subtitle: "test.exe".to_string(),
        category: "apps".to_string(),
        launch_count: 10,
        last_launched: Some(1234567890),
        tags: vec!["dev".to_string()],
    };
    assert_eq!(item.id, "1");
    assert_eq!(item.tags.len(), 1);
}

#[test]
fn test_context_default() {
    let ctx = RecommendContext::default();
    assert_eq!(ctx.query, "");
    assert!(ctx.foreground_app_path.is_empty());
}

#[test]
fn test_recommend_status_default() {
    let status = RecommendStatus::default();
    assert_eq!(status.enabled, false);
    assert_eq!(status.py_engine_available, false);
    assert_eq!(status.total_recommendations, 0);
    assert_eq!(status.total_feedbacks, 0);
}

#[test]
fn test_feedback_event() {
    let event = FeedbackEvent {
        item_id: "app1".to_string(),
        feedback_type: FeedbackType::Click,
        position: Some(0),
        context: RecommendContext::default(),
        timestamp: 12345,
    };
    assert_eq!(event.item_id, "app1");
    assert_eq!(event.feedback_type, FeedbackType::Click);
    assert_eq!(event.position, Some(0));
}

#[test]
fn test_related_categories() {
    let related = related_categories("dev");
    assert!(related.contains(&"terminal"));
    assert!(related.contains(&"browser"));
    assert!(!related.contains(&"media"));

    let related = related_categories("unknown");
    assert!(related.is_empty());
}

#[test]
fn related_categories_full_rows() {
    assert_eq!(related_categories("archive"), vec!["filemanager", "download"]);
    assert_eq!(related_categories("office"), vec!["filemanager", "browser", "communication"]);
    assert!(related_categories("Dev").is_empty());
}

fn feedback(kind: FeedbackType) -> FeedbackEvent {
    FeedbackEvent {
        item_id: "app1".to_string(),
        feedback_type: kind,
        position: None,
        context: RecommendContext::default(),
        timestamp: 0,
    }
}

#[test]
fn test_record_feedback_click() {
    let mut engine = RuleEngine::new();
    let feedback = feedback(FeedbackType::Click);
    engine.record_feedback(&feedback);
    engine.record_feedback(&feedback);
    assert_eq!(engine.click_count("app1").unwrap(), 2);
}

#[test]
fn test_record_feedback_pin() {
    let mut engine = RuleEngine::new();
    engine.record_feedback(&feedback(FeedbackType::Pin));
    assert_eq!(engine.click_count("app1").unwrap(), 1);
}

#[test]
fn test_record_feedback_dislike() {
    let mut engine = RuleEngine::new();
    engine.record_feedback(&feedback(FeedbackType::Dislike));
    assert!(engine.click_count("app1").is_none());
}

#[test]
fn record_feedback_counts_items_separately() {
    let mut engine = RuleEngine::new();
    engine.record_feedback(&feedback(FeedbackType::Click));
    engine.record_feedback(&feedback(FeedbackType::Ignore));
    let mut other = feedback(FeedbackType::Pin);
    other.item_id = "app2".to_string();
    engine.record_feedback(&other);
    engine.record_feedback(&feedback(FeedbackType::Pin));
    assert_eq!(engine.click_count("app1"), Some(2));
    assert_eq!(engine.click_count("app2"), Some(1));
}

#[test]
fn recommend_init_config_default_monitors_windows() {
    assert!(RecommendInitConfig::default().enable_window_monitor);
}

#[test]
fn window_monitor_history_order_and_limit() {
    let mut s = WindowMonitorState::default();
    let now = std::time::Instant::now();
    assert!(s.update("a.exe".into(), "A".into(), now));
    assert!(s.recent_apps.is_empty());
    assert!(!s.update("a.exe".into(), "A2".into(), now));
    assert_eq!(s.active_app_title, "A");
    for i in 0..12 {
        assert!(s.update(format!("p{}.exe", i), format!("P{}", i), now));
    }
    assert_eq!(s.recent_apps.len(), MAX_RECENT_APPS);
    assert_eq!(s.recent_apps[0].path, "p10.exe");
    assert_eq!(s.recent_apps[0].switch_count, 1);
    assert_eq!(s.recent_apps[9].path, "p1.exe");
    assert_eq!(s.active_app_path, "p11.exe");
}

#[test]
fn window_debounce_confirms_on_third_poll() {
    let mut d = WindowDebounce::new();
    let p = "a.exe".to_string();
    let t = "A".to_string();
    assert!(!d.observe(&p, &t));
    assert!(!d.observe(&p, &t));
    assert!(d.observe(&p, &t));
    assert_eq!(d.stable_count, 0);
    assert!(!d.observe(&p, &t));
    let other = "b.exe".to_string();
    assert!(!d.observe(&other, &t));
    assert_eq!(d.stable_count, 1);
    let empty = String::new();
    for _ in 0..5 {
        assert!(!d.observe(&empty, &t));
    }
}

#[test]
fn score_factors_name_and_category() {
    let engine = RuleEngine::new();
    let item = RecommendItem {
        id: "code".into(),
        title: "Visual Studio Code".into(),
        subtitle: String::new(),
        category: "apps".into(),
        launch_count: 3,
        last_launched: None,
        tags: vec!["dev".into()],
    };
    let mut ctx = RecommendContext::default();
    ctx.query = "STUDIO".into();
    ctx.foreground_category = Some("dev".into());
    let f = engine.score_factors(&item, &ctx);
    assert!(f.name_match);
    assert_eq!(f.category, CategoryMatch::Same);
    assert_eq!(f.reasons, vec!["启动 3 次".to_string(), "名称匹配".to_string(), "同类应用".to_string()]);

    let mut ctx2 = RecommendContext::default();
    ctx2.foreground_app_title = "Windows Terminal".into();
    ctx2.foreground_category = Some("terminal".into());
    let f2 = engine.score_factors(&item, &ctx2);
    assert!(!f2.name_match);
    assert_eq!(f2.category, CategoryMatch::Related);
    assert_eq!(f2.reasons, vec!["启动 3 次".to_string(), "相关类别".to_string()]);

    let mut plain = item.clone();
    plain.launch_count = 0;
    plain.tags = vec!["media".into()];
    let f3 = engine.score_factors(&plain, &RecommendContext::default());
    assert!(!f3.name_match);
    assert_eq!(f3.category, CategoryMatch::Unrelated);
    assert!(f3.reasons.is_empty());
}

#[test]
fn rule_engine_test_report_feedback() {
    let mut engine = RuleEngine::new();
    let feedback = FeedbackEvent {
        item_id: "app1".to_string(),
        feedback_type: FeedbackType::Click,
        position: Some(0),
        context: RecommendContext::default(),
        timestamp: 12345,
    };
    let result = engine.report_feedback(&feedback);
    assert!(result.is_ok());
    assert_eq!(engine.click_count("app1").unwrap(), 1);
}
