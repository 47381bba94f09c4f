//! Decisions and decoders behind the system integration.

pub mod commands;
pub mod hotkey;
pub mod icon;
pub mod icon_cache;
pub mod registry;
pub mod shell;
pub mod shortcut;
pub mod special_shortcuts;
pub mod startup_folder;
pub mod usn;
pub mod version;
