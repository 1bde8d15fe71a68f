//! Audio stream configuration types and constants.

use vstd::prelude::*;

verus! {

/// Default sample rate for general audio playback and capture (48 kHz).
pub const DEFAULT_SAMPLE_RATE: u32 = 48_000;

/// Sample rate for automatic speech recognition pipelines (16 kHz).
pub const ASR_SAMPLE_RATE: u32 = 16_000;

/// Default buffer duration in milliseconds per callback period.
pub const DEFAULT_BUFFER_DURATION_MS: u32 = 10;

/// Default channel count (mono).
pub const DEFAULT_CHANNELS: u16 = 1;

/// Maximum buffer duration in milliseconds.
pub const MAX_BUFFER_DURATION_MS: u32 = 100;

/// Audio stream direction.
#[derive(Debug, Clone, Copy, PartialEq, Eq, Structural)]
pub enum AudioDirection {
    /// Microphone / line-in.
    Input,
    /// Speakers / headphones.
    Output,
}

/// Configuration for an audio stream.
#[derive(Debug, Clone, Copy)]
pub struct AudioConfig {
    /// Sample rate in Hz.
    pub sample_rate: u32,
    /// Number of channels (1 = mono, 2 = stereo).
    pub channels: u16,
    /// Desired buffer duration per callback in milliseconds.
    pub buffer_duration_ms: u32,
}

impl Default for AudioConfig {
    fn default() -> (r: Self)
        ensures
            r.sample_rate == DEFAULT_SAMPLE_RATE,
            r.channels == DEFAULT_CHANNELS,
            r.buffer_duration_ms == DEFAULT_BUFFER_DURATION_MS,
    {
        AudioConfig {
            sample_rate: DEFAULT_SAMPLE_RATE,
            channels: DEFAULT_CHANNELS,
            buffer_duration_ms: DEFAULT_BUFFER_DURATION_MS,
        }
    }
}

/// Samples per channel in one callback period of `ms` milliseconds at `rate` Hz.
pub open spec fn samples_per_period(rate: nat, ms: nat) -> nat {
    rate * ms / 1000
}

/// Interleaved samples to hold about 100 ms of audio, never below 1024.
pub open spec fn ring_capacity_for(rate: nat, channels: nat) -> nat {
    let per_ms = rate * channels / 1000;
    if per_ms * 100 > 1024 {
        per_ms * 100
    } else {
        1024
    }
}

impl AudioConfig {
    /// Configuration tuned for speech recognition (16 kHz mono).
    pub fn asr() -> (r: Self)
        ensures
            r.sample_rate == ASR_SAMPLE_RATE,
            r.channels == DEFAULT_CHANNELS,
            r.buffer_duration_ms == DEFAULT_BUFFER_DURATION_MS,
    {
        AudioConfig {
            sample_rate: ASR_SAMPLE_RATE,
            channels: DEFAULT_CHANNELS,
            buffer_duration_ms: DEFAULT_BUFFER_DURATION_MS,
        }
    }

    /// Stereo configuration at the default sample rate.
    pub fn stereo() -> (r: Self)
        ensures
            r.sample_rate == DEFAULT_SAMPLE_RATE,
            r.channels == 2,
            r.buffer_duration_ms == DEFAULT_BUFFER_DURATION_MS,
    {
        let d = AudioConfig::default();
        AudioConfig { channels: 2, ..d }
    }

    /// Buffer size in samples (per channel) for one callback period. The
    /// count is computed in 64 bits and converted to `usize` as `as` does,
    /// keeping the low bits where `usize` is narrower.
    pub fn buffer_size_samples(&self) -> (r: usize)
        ensures
            r == samples_per_period(self.sample_rate as nat, self.buffer_duration_ms as nat)
                as usize,
            samples_per_period(self.sample_rate as nat, self.buffer_duration_ms as nat)
                <= usize::MAX ==> r == samples_per_period(
                self.sample_rate as nat,
                self.buffer_duration_ms as nat,
            ),
    {
        let rate = self.sample_rate as u64;
        let ms = self.buffer_duration_ms as u64;
        assert(rate * ms <= 0xffff_ffff * 0xffff_ffffu64) by (nonlinear_arith)
            requires
                rate <= 0xffff_ffff,
                ms <= 0xffff_ffff,
        ;
        let n = (rate * ms) / 1000;
        (#[verifier::truncate] (n as usize))
    }

    /// Ring buffer capacity in total interleaved samples, sized to hold about
    /// 100 ms of audio to absorb timing jitter.
    pub fn ring_buffer_capacity(&self) -> (r: usize)
        requires
            self.sample_rate * self.channels <= usize::MAX,
            (self.sample_rate * self.channels / 1000) * 100 <= usize::MAX,
        ensures
            r == ring_capacity_for(self.sample_rate as nat, self.channels as nat),
    {
        let samples_per_ms = self.sample_rate as usize * self.channels as usize / 1000;
        let total = samples_per_ms * 100;
        if total > 1024 {
            total
        } else {
            1024
        }
    }
}

} // verus!
