//! Bridge to a Python helper process: its configuration, errors and the
//! registry of services it offers.

pub mod bridge;
pub mod config;
pub mod process;
pub mod registry;
pub mod types;
