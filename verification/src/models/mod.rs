//! General data models: settings, plugin manifests, workspaces and the
//! records exchanged with the front end.

pub mod app_entry;
pub mod command;
pub mod custom_command;
pub mod file_entry;
pub mod file_result;
pub mod plugin;
pub mod search_result;
pub mod settings;
pub mod workspace;
pub mod startup;
