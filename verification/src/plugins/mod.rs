//! Plugins: permission checks, manifest checks and the kinds of code a
//! plugin brings.

pub mod api;
pub mod loader;
pub mod manager;
pub mod registry;
pub mod sandbox;
