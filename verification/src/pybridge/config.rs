//! Configuration of the Python bridge.

use vstd::prelude::*;
use crate::text::lit;

verus! {

/// How the bridge starts and talks to the Python process.
#[derive(Debug, Clone)]
pub struct PyBridgeConfig {
    /// Whether the bridge runs at all.
    pub enabled: bool,
    /// The Python interpreter.
    pub python_path: String,
    /// The server script.
    pub script_path: String,
    pub startup_timeout_ms: u64,
    pub request_timeout_ms: u64,
    pub max_restarts: u32,
    pub health_check_interval_secs: u64,
}

/// The timing and restart settings shared by every configuration.
pub open spec fn default_limits(c: PyBridgeConfig) -> bool {
    &&& c.startup_timeout_ms == 5000
    &&& c.request_timeout_ms == 500
    &&& c.max_restarts == 3
    &&& c.health_check_interval_secs == 30
}

impl Default for PyBridgeConfig {
    /// Disabled, `python` running `python/pybridge/server.py`, with the
    /// default limits.
    fn default() -> (c: Self)
        ensures
            !c.enabled,
            c.python_path@ == "python"@,
            c.script_path@ == "python/pybridge/server.py"@,
            default_limits(c),
    {
        PyBridgeConfig {
            enabled: false,
            python_path: lit("python"),
            script_path: lit("python/pybridge/server.py"),
            startup_timeout_ms: 5000,
            request_timeout_ms: 500,
            max_restarts: 3,
            health_check_interval_secs: 30,
        }
    }
}

impl PyBridgeConfig {
    /// An enabled configuration for the given interpreter and script, with
    /// the default limits.
    pub fn enabled(python_path: &str, script_path: &str) -> (c: Self)
        ensures
            c.enabled,
            c.python_path@ == python_path@,
            c.script_path@ == script_path@,
            default_limits(c),
    {
        let base = PyBridgeConfig::default();
        PyBridgeConfig { enabled: true, python_path: lit(python_path), script_path: lit(script_path), ..base }
    }
}

} // verus!
