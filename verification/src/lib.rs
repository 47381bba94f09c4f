//! Core logic of a desktop launcher: app and file search indexing, NTFS
//! change-journal decoding, hotkeys, shortcut classification, recommendation
//! bookkeeping and plugin checks.

pub(crate) mod clock;
pub mod command;
pub mod error;
pub mod keyed;
pub mod models;
pub mod paths;
pub mod platform;
pub mod plugins;
pub mod pybridge;
pub mod recommend;
pub mod repositories;
pub mod search_engine;
pub mod text;
