//! Cross-platform audio subsystem: configuration, device descriptors, the
//! sample ring buffer and the per-callback stream logic. All audio data is
//! interleaved samples, carried as `f32` bit patterns.

pub mod config;
pub mod device;
pub mod ring_buffer;
pub mod stream;

use vstd::prelude::*;

verus! {

/// Audio subsystem errors.
#[derive(Debug)]
pub enum AudioError {
    /// No audio device found.
    NoDeviceFound,
    /// Device is unavailable or in use.
    DeviceUnavailable(String),
    /// Stream configuration not supported by the device.
    ConfigNotSupported(String),
    /// Failed to open an audio stream.
    StreamOpenFailed(String),
    /// The audio host could not be initialized.
    HostInitFailed(String),
}

/// The text of `prefix` followed by `detail`.
fn prefixed(prefix: &str, detail: &String) -> (r: String)
    ensures
        r@ == prefix@ + detail@,
{
    let mut r = String::from_str(prefix);
    r.append(detail.as_str());
    r
}

/// The human-readable description of an audio error.
pub open spec fn audio_error_text(e: AudioError) -> Seq<char> {
    match e {
        AudioError::NoDeviceFound => "no audio device found"@,
        AudioError::DeviceUnavailable(m) => "audio device unavailable: "@ + m@,
        AudioError::ConfigNotSupported(m) => "audio config not supported: "@ + m@,
        AudioError::StreamOpenFailed(m) => "audio stream failed: "@ + m@,
        AudioError::HostInitFailed(m) => "audio host init failed: "@ + m@,
    }
}

impl AudioError {
    /// Human-readable description of the error.
    pub fn message(&self) -> (r: String)
        ensures
            r@ == audio_error_text(*self),
    {
        match self {
            AudioError::NoDeviceFound => String::from_str("no audio device found"),
            AudioError::DeviceUnavailable(m) => prefixed("audio device unavailable: ", m),
            AudioError::ConfigNotSupported(m) => prefixed("audio config not supported: ", m),
            AudioError::StreamOpenFailed(m) => prefixed("audio stream failed: ", m),
            AudioError::HostInitFailed(m) => prefixed("audio host init failed: ", m),
        }
    }
}

} // verus!
