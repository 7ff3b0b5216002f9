//! The window model that notifications are matched against: a flat
//! description of one open window, and the snapshot of all windows that
//! is current at one instant. A snapshot is replaced wholesale on every
//! window update, never mutated in place.

use vstd::prelude::*;

verus! {

/// One open window as the window source reports it.
pub struct WindowInfo {
    /// Opaque window identifier, unique and stable for the window's lifetime.
    pub id: u64,
    /// The application identifier of the window, when known.
    pub app_id: Option<String>,
    /// The window title, when known.
    pub title: Option<String>,
    /// The process id that owns the window, when known.
    pub pid: Option<i64>,
    /// Whether the window currently has the user's focus.
    pub is_focused: bool,
    /// The name of the display the window is on, when known.
    pub output: Option<String>,
}

/// The ordered collection of windows valid at one instant.
pub type WindowSnapshot = Vec<WindowInfo>;

} // verus!
