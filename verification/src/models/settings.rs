//! User settings and how single fields are written.

use vstd::prelude::*;
use crate::text::{chars_of, is_lit, lit, same_chars};

verus! {

/// Colour scheme.
#[derive(Debug, Clone, Copy, PartialEq, Eq, Structural)]
pub enum ThemeMode {
    Light,
    Dark,
    Auto,
}

impl Default for ThemeMode {
    /// Dark.
    fn default() -> (r: Self)
        ensures
            r == ThemeMode::Dark,
    {
        ThemeMode::Dark
    }
}

/// The user's settings.
#[derive(Debug, Clone)]
pub struct Settings {
    /// Global shortcut, such as `Alt+Space`.
    pub hotkey: String,
    pub theme: ThemeMode,
    /// Accent colour, `#rrggbb`.
    pub accent_color: String,
    pub file_search_enabled: bool,
    /// Directories the file index covers.
    pub file_search_roots: Vec<String>,
    /// Result categories searched together.
    pub enabled_categories: Vec<String>,
    /// Keep the window above others.
    pub pin_to_top: bool,
}

/// The value a missing `pin_to_top` field takes: on.
pub fn default_pin_to_top() -> (r: bool)
    ensures
        r,
{
    true
}

impl Default for Settings {
    /// `Alt+Space`, dark, white accent, file search on over no roots, the
    /// apps, files and commands categories, pinned on top.
    fn default() -> (r: Self)
        ensures
            r.hotkey@ == "Alt+Space"@,
            r.theme == ThemeMode::Dark,
            r.accent_color@ == "#ffffff"@,
            r.file_search_enabled,
            r.file_search_roots@.len() == 0,
            r.enabled_categories@.map_values(|c: String| c@) == seq!["apps"@, "files"@, "commands"@],
            r.pin_to_top,
    {
        let mut cats: Vec<String> = Vec::new();
        cats.push(lit("apps"));
        cats.push(lit("files"));
        cats.push(lit("commands"));
        assert(cats@.map_values(|c: String| c@) =~= seq!["apps"@, "files"@, "commands"@]);
        Settings {
            hotkey: lit("Alt+Space"),
            theme: ThemeMode::Dark,
            accent_color: lit("#ffffff"),
            file_search_enabled: true,
            file_search_roots: Vec::new(),
            enabled_categories: cats,
            pin_to_top: default_pin_to_top(),
        }
    }
}

/// A setting value as written: a string, a boolean, or anything else.
#[derive(Debug, Clone)]
pub enum SettingValue {
    Str(String),
    Bool(bool),
    Other,
}

/// The theme a string names: `light`, `auto`, anything else dark.
pub open spec fn theme_named(s: Seq<char>) -> ThemeMode {
    if s == "light"@ {
        ThemeMode::Light
    } else if s == "auto"@ {
        ThemeMode::Auto
    } else {
        ThemeMode::Dark
    }
}

/// The settings after writing `v` under `key`: `hotkey` and the accent colour
/// (`accentColor` or `accent_color`) take strings, `theme` takes a theme
/// name, file search (`fileSearchEnabled` or `file_search_enabled`) and
/// pinning (`pinToTop` or `pin_to_top`) take booleans; a value of another
/// kind, or an unknown key, changes nothing.
pub open spec fn with_field(s: Settings, key: Seq<char>, v: SettingValue) -> Settings {
    if key == "hotkey"@ {
        match v {
            SettingValue::Str(x) => Settings { hotkey: x, ..s },
            _ => s,
        }
    } else if key == "theme"@ {
        match v {
            SettingValue::Str(x) => Settings { theme: theme_named(x@), ..s },
            _ => s,
        }
    } else if key == "accentColor"@ || key == "accent_color"@ {
        match v {
            SettingValue::Str(x) => Settings { accent_color: x, ..s },
            _ => s,
        }
    } else if key == "fileSearchEnabled"@ || key == "file_search_enabled"@ {
        match v {
            SettingValue::Bool(b) => Settings { file_search_enabled: b, ..s },
            _ => s,
        }
    } else if key == "pinToTop"@ || key == "pin_to_top"@ {
        match v {
            SettingValue::Bool(b) => Settings { pin_to_top: b, ..s },
            _ => s,
        }
    } else {
        s
    }
}

impl Settings {
    /// Writes `value` under `key`; see `with_field`.
    pub fn apply_field(&mut self, key: &str, value: &SettingValue)
        ensures
            *final(self) == with_field(*old(self), key@, *value),
    {
        let kc = chars_of(key);
        let k = kc.as_slice();
        if is_lit(k, "hotkey") {
            if let SettingValue::Str(x) = value {
                self.hotkey = x.clone();
            }
        } else if is_lit(k, "theme") {
            if let SettingValue::Str(x) = value {
                let xc = chars_of(x.as_str());
                self.theme = if is_lit(xc.as_slice(), "light") {
                    ThemeMode::Light
                } else if is_lit(xc.as_slice(), "auto") {
                    ThemeMode::Auto
                } else {
                    ThemeMode::Dark
                };
            }
        } else if is_lit(k, "accentColor") || is_lit(k, "accent_color") {
            if let SettingValue::Str(x) = value {
                self.accent_color = x.clone();
            }
        } else if is_lit(k, "fileSearchEnabled") || is_lit(k, "file_search_enabled") {
            if let SettingValue::Bool(b) = value {
                self.file_search_enabled = *b;
            }
        } else if is_lit(k, "pinToTop") || is_lit(k, "pin_to_top") {
            if let SettingValue::Bool(b) = value {
                self.pin_to_top = *b;
            }
        }
    }

    /// Writes `value` under `key`; see `with_field`.
    pub fn set_field(&mut self, key: &str, value: SettingValue)
        ensures
            *final(self) == with_field(*old(self), key@, value),
    {
        self.apply_field(key, &value);
    }

    /// Writes the string `raw` under `key`; see `with_field`.
    pub fn set_field_raw(&mut self, key: &str, raw: &str)
        ensures
            exists|x: String| x@ == raw@ && *final(self) == with_field(*old(self), key@, SettingValue::Str(x)),
    {
        let v = SettingValue::Str(lit(raw));
        self.set_field(key, v);
    }

    /// Writes an appearance: the theme named by `mode` (`dark` when absent,
    /// see `theme_named`) and the accent colour `accent` (`#ffffff` when
    /// absent); nothing else changes.
    pub fn apply_appearance(&mut self, mode: Option<&str>, accent: Option<&str>)
        ensures
            final(self).theme == theme_named(
                match mode {
                    Some(m) => m@,
                    None => "dark"@,
                },
            ),
            final(self).accent_color@ == (match accent {
                Some(a) => a@,
                None => "#ffffff"@,
            }),
            final(self).hotkey == old(self).hotkey,
            final(self).file_search_enabled == old(self).file_search_enabled,
            final(self).file_search_roots == old(self).file_search_roots,
            final(self).enabled_categories == old(self).enabled_categories,
            final(self).pin_to_top == old(self).pin_to_top,
    {
        let m = match mode {
            Some(m) => m,
            None => "dark",
        };
        let mc = chars_of(m);
        self.theme = if is_lit(mc.as_slice(), "light") {
            ThemeMode::Light
        } else if is_lit(mc.as_slice(), "auto") {
            ThemeMode::Auto
        } else {
            ThemeMode::Dark
        };
        self.accent_color = match accent {
            Some(a) => lit(a),
            None => lit("#ffffff"),
        };
    }
}

} // verus!
