//! Window management abstraction.

use vstd::prelude::*;

verus! {

/// Window configuration.
#[derive(Debug, Clone)]
pub struct WindowConfig {
    /// Window title.
    pub title: String,
    /// Width in logical pixels.
    pub width: u32,
    /// Height in logical pixels.
    pub height: u32,
    /// Enable high-DPI scaling.
    pub high_dpi: bool,
    /// Start in fullscreen.
    pub fullscreen: bool,
}

impl Default for WindowConfig {
    fn default() -> (r: Self)
        ensures
            r.title@ == "Workspace"@,
            r.width == 1280,
            r.height == 720,
            r.high_dpi,
            !r.fullscreen,
    {
        WindowConfig {
            title: String::from_str("Workspace"),
            width: 1280,
            height: 720,
            high_dpi: true,
            fullscreen: false,
        }
    }
}

/// Platform-agnostic window handle.
pub struct Window {
    config: WindowConfig,
}

impl Window {
    /// The configuration the window was created with.
    pub closed spec fn spec_config(&self) -> WindowConfig {
        self.config
    }

    /// Create a new window with the given configuration.
    pub fn new(config: WindowConfig) -> (r: Self)
        ensures
            r.spec_config() == config,
    {
        Window { config }
    }

    /// Returns the window configuration.
    pub fn config(&self) -> (r: &WindowConfig)
        ensures
            *r == self.spec_config(),
    {
        &self.config
    }

    /// Request window close. The handle itself stays as it is; closing is
    /// carried out by the platform's event loop.
    pub fn request_close(&mut self)
        ensures
            final(self).spec_config() == old(self).spec_config(),
    {
    }
}

} // verus!
