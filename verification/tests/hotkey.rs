use monotools::error::AppError;
use monotools::platform::hotkey::{hotkey_to_vk, register_hotkey, unregister_hotkey};
use monotools::platform::shortcut::{parse_hotkey_str, parse_key, KeyCode, Shortcut};

#[test]
fn hotkey_to_vk_reads_key_and_alt() {
    assert_eq!(hotkey_to_vk("Alt+Space"), Ok((0x20, true)));
    assert_eq!(hotkey_to_vk("Ctrl+Shift+K"), Ok((0x4B, false)));
    assert_eq!(hotkey_to_vk(" control + f12 "), Ok((0x7B, false)));
    assert_eq!(hotkey_to_vk("ALT+page up"), Ok((0x21, true)));
    assert_eq!(hotkey_to_vk("a"), Ok((0x41, false)));
    assert_eq!(hotkey_to_vk("Win+5"), Ok((0x35, false)));
    assert_eq!(hotkey_to_vk("Q+Alt+W"), Ok((0x57, true)));
}

#[test]
fn hotkey_to_vk_errors() {
    assert_eq!(hotkey_to_vk("Alt+Shift"), Err(AppError::InvalidInput("快捷键缺少主键".to_string())));
    assert_eq!(hotkey_to_vk("Alt+Foo"), Err(AppError::InvalidInput("未知按键: Foo".to_string())));
    assert_eq!(hotkey_to_vk(""), Err(AppError::InvalidInput("未知按键: ".to_string())));
    assert_eq!(hotkey_to_vk("Alt+é"), Err(AppError::InvalidInput("未知按键: é".to_string())));
}

#[test]
fn hotkey_registration_without_the_shell() {
    assert_eq!(register_hotkey("Alt+Space"), Err(AppError::Other("全局快捷键仅支持 Windows 平台".to_string())));
    assert!(unregister_hotkey().is_ok());
}

#[test]
fn shortcut_strings_read_modifiers_and_key() {
    assert_eq!(
        parse_hotkey_str("Ctrl+Shift+K"),
        Ok(Shortcut { ctrl: true, shift: true, alt: false, meta: false, key: KeyCode::Letter('K') })
    );
    assert_eq!(
        parse_hotkey_str("alt + space"),
        Ok(Shortcut { ctrl: false, shift: false, alt: true, meta: false, key: KeyCode::Space })
    );
    assert_eq!(
        parse_hotkey_str("Win+F24"),
        Ok(Shortcut { ctrl: false, shift: false, alt: false, meta: true, key: KeyCode::Function(24) })
    );
    assert_eq!(parse_hotkey_str("Ctrl+A+7").unwrap().key, KeyCode::Digit('7'));
    assert_eq!(parse_hotkey_str("Ctrl+Alt"), Err(AppError::InvalidInput("快捷键缺少主键".into())));
    assert_eq!(parse_hotkey_str("Ctrl+Nope+K"), Err(AppError::InvalidInput("未知按键: Nope".into())));
    assert_eq!(parse_key("page up"), Ok(KeyCode::PageUp));
    assert_eq!(parse_key("f13"), Ok(KeyCode::Function(13)));
    assert_eq!(parse_key("F25"), Err(AppError::InvalidInput("未知按键: F25".into())));
    assert_eq!(parse_key("esc"), Ok(KeyCode::Escape));
}
