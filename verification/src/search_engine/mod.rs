//! Application and file search.

pub mod app_search;
pub mod commands;
pub mod file_search;
pub mod index_update;
pub mod models;
pub mod pin;
pub mod progress;
pub mod service;
