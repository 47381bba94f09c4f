use monotools::repositories::settings_repo::{InMemorySettingsRepo, SettingsRepo};
use monotools::models::search_result::SearchOptions;
use monotools::models::settings::{default_pin_to_top, SettingValue, Settings, ThemeMode};

#[test]
fn settings_default_values() {
    let s = Settings::default();
    assert_eq!(s.hotkey, "Alt+Space");
    assert_eq!(s.theme, ThemeMode::Dark);
    assert_eq!(s.accent_color, "#ffffff");
    assert!(s.file_search_enabled);
    assert!(s.file_search_roots.is_empty());
    assert_eq!(s.enabled_categories, vec!["apps", "files", "commands"]);
    assert!(s.pin_to_top);
    assert!(default_pin_to_top());
    assert_eq!(ThemeMode::default(), ThemeMode::Dark);
    assert_eq!(SearchOptions::default().max_results, 20);
}

#[test]
fn settings_apply_field_by_key_and_kind() {
    let mut s = Settings::default();
    s.apply_field("hotkey", &SettingValue::Str("Ctrl+K".into()));
    assert_eq!(s.hotkey, "Ctrl+K");
    s.apply_field("hotkey", &SettingValue::Bool(true));
    assert_eq!(s.hotkey, "Ctrl+K");
    s.apply_field("theme", &SettingValue::Str("light".into()));
    assert_eq!(s.theme, ThemeMode::Light);
    s.apply_field("theme", &SettingValue::Str("auto".into()));
    assert_eq!(s.theme, ThemeMode::Auto);
    s.apply_field("theme", &SettingValue::Str("Light".into()));
    assert_eq!(s.theme, ThemeMode::Dark);
    s.apply_field("accentColor", &SettingValue::Str("#000000".into()));
    assert_eq!(s.accent_color, "#000000");
    s.apply_field("accent_color", &SettingValue::Str("#111111".into()));
    assert_eq!(s.accent_color, "#111111");
    s.apply_field("fileSearchEnabled", &SettingValue::Bool(false));
    assert!(!s.file_search_enabled);
    s.apply_field("file_search_enabled", &SettingValue::Str("true".into()));
    assert!(!s.file_search_enabled);
    s.apply_field("pin_to_top", &SettingValue::Bool(false));
    assert!(!s.pin_to_top);
    s.apply_field("pinToTop", &SettingValue::Other);
    assert!(!s.pin_to_top);
    s.apply_field("unknown", &SettingValue::Str("x".into()));
    assert_eq!(s.hotkey, "Ctrl+K");
}

#[test]
fn settings_set_field_raw_writes_strings() {
    let mut s = Settings::default();
    s.set_field_raw("hotkey", "Alt+J");
    assert_eq!(s.hotkey, "Alt+J");
    s.set_field_raw("pin_to_top", "false");
    assert!(s.pin_to_top);
    s.set_field("theme", SettingValue::Str("auto".into()));
    assert_eq!(s.theme, ThemeMode::Auto);
}

#[test]
fn in_memory_settings_round_trip() {
    let mut repo = InMemorySettingsRepo::new(monotools::models::settings::Settings::default());
    let mut s = repo.get();
    assert_eq!(s.hotkey, "Alt+Space");
    s.hotkey = "Ctrl+K".into();
    s.file_search_roots.push("C:\\".into());
    assert!(repo.save(s).is_ok());
    let t = repo.get();
    assert_eq!(t.hotkey, "Ctrl+K");
    assert_eq!(t.file_search_roots, vec!["C:\\".to_string()]);
}

#[test]
fn appearance_sets_theme_and_accent() {
    let mut s = Settings::default();
    s.apply_appearance(Some("light"), Some("#123456"));
    assert_eq!(s.theme, ThemeMode::Light);
    assert_eq!(s.accent_color, "#123456");
    s.apply_appearance(Some("weird"), None);
    assert_eq!(s.theme, ThemeMode::Dark);
    assert_eq!(s.accent_color, "#ffffff");
    s.apply_appearance(Some("auto"), None);
    assert_eq!(s.theme, ThemeMode::Auto);
    s.apply_appearance(None, Some("#000000"));
    assert_eq!(s.theme, ThemeMode::Dark);
    assert_eq!(s.hotkey, "Alt+Space");
}
