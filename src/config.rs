//! Window settings of the engine.
use vstd::prelude::*;

verus! {

/// Window configuration.
#[derive(Clone, Debug)]
pub struct WindowConfig {
    /// Window title
    pub title: String,
    /// Window width in pixels
    pub width: u32,
    /// Window height in pixels
    pub height: u32,
    /// Whether to start in fullscreen mode
    pub fullscreen: bool,
    /// Whether the window is resizable
    pub resizable: bool,
    /// VSync enabled
    pub vsync: bool,
}

} // verus!
