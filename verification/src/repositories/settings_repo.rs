//! Where the settings are kept.

use vstd::prelude::*;
use crate::text::copy_texts;
use crate::error::AppError;
use crate::models::settings::Settings;

verus! {

/// The settings as plain values: the texts of the string fields and of the
/// lists, and the other fields as they are.
pub open spec fn settings_view(s: Settings) -> (
    Seq<char>,
    crate::models::settings::ThemeMode,
    Seq<char>,
    bool,
    Seq<Seq<char>>,
    Seq<Seq<char>>,
    bool,
) {
    (
        s.hotkey@,
        s.theme,
        s.accent_color@,
        s.file_search_enabled,
        s.file_search_roots@.map_values(|x: String| x@),
        s.enabled_categories@.map_values(|x: String| x@),
        s.pin_to_top,
    )
}

/// A copy of `s`.
pub fn copy_settings(s: &Settings) -> (r: Settings)
    ensures
        settings_view(r) == settings_view(*s),
{
    Settings {
        hotkey: s.hotkey.clone(),
        theme: s.theme,
        accent_color: s.accent_color.clone(),
        file_search_enabled: s.file_search_enabled,
        file_search_roots: copy_texts(&s.file_search_roots),
        enabled_categories: copy_texts(&s.enabled_categories),
        pin_to_top: s.pin_to_top,
    }
}

/// A store of the settings.
pub trait SettingsRepo {
    /// The current settings.
    fn get(&self) -> Settings;

    /// Replaces the settings.
    fn save(&mut self, settings: Settings) -> Result<(), AppError>;
}

/// Settings kept in memory.
pub struct InMemorySettingsRepo {
    inner: Settings,
}

impl InMemorySettingsRepo {
    /// The settings held.
    pub closed spec fn current(&self) -> Settings {
        self.inner
    }

    /// A store holding `initial`.
    pub fn new(initial: Settings) -> (r: Self)
        ensures
            r.current() == initial,
    {
        InMemorySettingsRepo { inner: initial }
    }
}

impl SettingsRepo for InMemorySettingsRepo {
    /// A copy of the settings held.
    fn get(&self) -> (r: Settings)
        ensures
            settings_view(r) == settings_view(self.current()),
    {
        copy_settings(&self.inner)
    }

    /// Holds `settings` from now on; never fails.
    fn save(&mut self, settings: Settings) -> (r: Result<(), AppError>)
        ensures
            r is Ok,
            final(self).current() == settings,
    {
        self.inner = settings;
        Ok(())
    }
}

} // verus!
