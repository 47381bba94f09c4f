//! Saved window layouts.

use vstd::prelude::*;

verus! {

/// Position and size of a window.
#[derive(Debug, Clone, Copy)]
pub struct WindowRect {
    pub x: i32,
    pub y: i32,
    pub width: i32,
    pub height: i32,
}

/// How a window is shown.
#[derive(Debug, Clone, Copy, PartialEq, Eq, Structural)]
pub enum WindowState {
    Normal,
    Minimized,
    Maximized,
    Fullscreen,
}

/// One application of a saved workspace.
#[derive(Debug, Clone)]
pub struct AppSnapshot {
    pub id: String,
    pub exe_path: String,
    pub args: Vec<String>,
    pub working_dir: Option<String>,
    pub window_title: String,
    pub window_rect: WindowRect,
    pub window_state: WindowState,
    pub launch_order: u32,
    pub launch_delay_ms: u64,
    pub require_admin: bool,
}

} // verus!
