//! Host-level events, identifiers and errors shared by every platform
//! backend.

use vstd::prelude::*;
use crate::events::InputEvent;

verus! {

/// Opaque handle to a host window.
#[derive(Debug, Clone, Copy, PartialEq, Eq, Hash, Structural)]
pub struct WindowId(pub u64);

/// Unified event produced by the host platform.
#[derive(Debug, Clone, Copy, PartialEq, Eq, Structural)]
pub enum HostEvent {
    /// Window resized.
    Resize {
        /// Window handle.
        window: WindowId,
        /// New width in physical pixels.
        width: u32,
        /// New height in physical pixels.
        height: u32,
    },
    /// Window moved.
    Move {
        /// Window handle.
        window: WindowId,
        /// New X position on screen.
        x: i32,
        /// New Y position on screen.
        y: i32,
    },
    /// Window close requested.
    Close {
        /// Window handle.
        window: WindowId,
    },
    /// Window focus changed.
    Focus {
        /// Window handle.
        window: WindowId,
        /// Gained or lost focus.
        focused: bool,
    },
    /// Window minimized.
    Minimize {
        /// Window handle.
        window: WindowId,
    },
    /// Window maximized.
    Maximize {
        /// Window handle.
        window: WindowId,
    },
    /// Window restored from minimized/maximized.
    Restore {
        /// Window handle.
        window: WindowId,
    },
    /// System panic gesture triggered (Ctrl+Shift+Esc, etc.).
    PanicExit,
    /// Raw input event.
    Input(InputEvent),
}

/// Errors reported by a host backend.
#[derive(Debug)]
pub enum HostError {
    /// A window (or the event loop behind it) could not be created.
    WindowCreationFailed(String),
    /// The current operating system has no backend.
    PlatformNotSupported,
    /// The audio subsystem is unavailable.
    AudioUnavailable,
    /// The network stack could not be initialized.
    NetworkInitFailed(String),
}

/// The human-readable description of a host error.
pub open spec fn host_error_text(e: HostError) -> Seq<char> {
    match e {
        HostError::WindowCreationFailed(m) => "window creation failed: "@ + m@,
        HostError::PlatformNotSupported => "platform not supported"@,
        HostError::AudioUnavailable => "audio unavailable"@,
        HostError::NetworkInitFailed(m) => "network init failed: "@ + m@,
    }
}

impl HostError {
    /// Human-readable description of the error.
    pub fn message(&self) -> (r: String)
        ensures
            r@ == host_error_text(*self),
    {
        match self {
            HostError::WindowCreationFailed(m) => {
                let mut r = String::from_str("window creation failed: ");
                r.append(m.as_str());
                r
            },
            HostError::PlatformNotSupported => String::from_str("platform not supported"),
            HostError::AudioUnavailable => String::from_str("audio unavailable"),
            HostError::NetworkInitFailed(m) => {
                let mut r = String::from_str("network init failed: ");
                r.append(m.as_str());
                r
            },
        }
    }
}

/// Mouse cursor appearance.
#[derive(Debug, Clone, Copy, PartialEq, Eq, Structural)]
pub enum CursorStyle {
    /// Platform default arrow.
    Default,
    /// Text insertion beam.
    Text,
    /// Pointing hand.
    Pointer,
    /// Move cross.
    Move,
    /// Operation not allowed.
    NotAllowed,
    /// East-west resize.
    ResizeHorizontal,
    /// North-south resize.
    ResizeVertical,
    /// North-east / south-west resize.
    ResizeDiagonal1,
    /// North-west / south-east resize.
    ResizeDiagonal2,
    /// Cursor hidden.
    Hidden,
}

} // verus!
