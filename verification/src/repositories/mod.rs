//! In-memory stores behind the launcher, and the commands that read and
//! change them.

pub mod commands;
pub mod settings_repo;
pub mod stats_repo;
pub mod startup_repo;
