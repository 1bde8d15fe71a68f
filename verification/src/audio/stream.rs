//! Per-callback logic of the audio streams: how a playback callback fills the
//! device buffer from the ring, and how a capture callback feeds the ring.
//! The device streams themselves belong to the audio backend.

use vstd::prelude::*;
use crate::audio::config::AudioConfig;
use crate::audio::ring_buffer::{overwritten_count, read_count, RingBufferInner};

verus! {

/// Errors that can occur when opening an audio stream.
#[derive(Debug)]
pub enum AudioStreamError {
    /// No device supports the requested configuration.
    ConfigNotSupported(String),
    /// The stream could not be opened.
    OpenFailed(String),
}

/// The human-readable description of a stream error.
pub open spec fn stream_error_text(e: AudioStreamError) -> Seq<char> {
    match e {
        AudioStreamError::ConfigNotSupported(m) => "audio config not supported: "@ + m@,
        AudioStreamError::OpenFailed(m) => "audio stream open failed: "@ + m@,
    }
}

impl AudioStreamError {
    /// Human-readable description of the error.
    pub fn message(&self) -> (r: String)
        ensures
            r@ == stream_error_text(*self),
    {
        let (prefix, m) = match self {
            AudioStreamError::ConfigNotSupported(m) => ("audio config not supported: ", m),
            AudioStreamError::OpenFailed(m) => ("audio stream open failed: ", m),
        };
        let mut r = String::from_str(prefix);
        r.append(m.as_str());
        r
    }
}

/// Number of whole frames in `len` interleaved samples of `channels` channels.
pub open spec fn frame_count(len: nat, channels: nat) -> nat {
    len / channels
}

/// The sample a playback callback plays for frame `f`: the `f`-th queued
/// sample while there are any, silence after that.
pub open spec fn played_sample(q: Seq<u32>, f: int) -> u32 {
    if f < q.len() {
        q[f]
    } else {
        0u32
    }
}

/// The mono signal a capture callback takes from interleaved input: the
/// first channel of every whole frame.
pub open spec fn first_channel(data: Seq<u32>, channels: nat) -> Seq<u32> {
    Seq::new(frame_count(data.len(), channels), |f: int| data[f * channels])
}

/// Fill one playback buffer of interleaved samples from the ring.
///
/// The ring holds one mono signal; each frame of `data` gets the next queued
/// sample in every channel, and silence once the ring runs dry. Samples past
/// the last whole frame are left untouched. Returns `true` on underrun.
pub fn render_output(ring: &mut RingBufferInner, data: &mut [u32], channels: usize) -> (underran:
    bool)
    requires
        old(ring).wf(),
        channels >= 1,
    ensures
        final(ring).wf(),
        final(ring).spec_capacity() == old(ring).spec_capacity(),
        underran == (frame_count(old(data)@.len(), channels as nat) > old(ring)@.len()),
        final(ring)@ == old(ring)@.skip(
            read_count(old(ring)@.len(), frame_count(old(data)@.len(), channels as nat)) as int,
        ),
        final(data)@.len() == old(data)@.len(),
        forall|f: int, c: int|
            0 <= f < frame_count(old(data)@.len(), channels as nat) && 0 <= c < channels
                ==> #[trigger] final(data)@[f * channels + c] == played_sample(old(ring)@, f),
        forall|i: int|
            frame_count(old(data)@.len(), channels as nat) * channels <= i < old(data)@.len()
                ==> #[trigger] final(data)@[i] == old(data)@[i],
{
    let ghost q = ring@;
    let ghost old_data = data@;
    if channels == 1 {
        let underran = ring.read_or_silence(data);
        proof {
            let n = old_data.len();
            assert(n / 1 == n) by (nonlinear_arith);
            assert(frame_count(old_data.len(), 1) == old_data.len());
            assert forall|f: int, c: int|
                0 <= f < frame_count(old_data.len(), channels as nat) && 0 <= c < channels
                    implies #[trigger] data@[f * channels + c] == played_sample(q, f) by {
                assert(f * channels + c == f) by (nonlinear_arith)
                    requires
                        channels == 1,
                        c == 0,
                ;
            }
        }
        underran
    } else {
        let len = data.len();
        let frames = len / channels;
        let mut tmp: Vec<u32> = Vec::new();
        while tmp.len() < frames
            invariant
                tmp.len() <= frames,
            decreases frames - tmp.len(),
        {
            tmp.push(0u32);
        }
        let underran = ring.read_or_silence(tmp.as_mut_slice());
        let ghost filled = tmp@;
        assert(forall|f: int| 0 <= f < frames ==> filled[f] == played_sample(q, f));
        let mut frame_idx: usize = 0;
        while frame_idx < frames
            invariant
                len == old_data.len(),
                frames == old_data.len() / (channels as nat),
                channels >= 2,
                tmp@ == filled,
                filled.len() == frames,
                frame_idx <= frames,
                data@.len() == old_data.len(),
                forall|f: int| 0 <= f < frames ==> filled[f] == played_sample(q, f),
                forall|f: int, c: int|
                    0 <= f < frame_idx && 0 <= c < channels ==> #[trigger] data@[f * channels
                        + c] == played_sample(q, f),
                forall|i: int| frame_idx * channels <= i < data@.len() ==> data@[i] == old_data[i],
            decreases frames - frame_idx,
        {
            proof {
                assert(frame_idx * channels + channels <= frames * channels) by (nonlinear_arith)
                    requires
                        frame_idx < frames,
                ;
                assert(frames * channels <= old_data.len()) by (nonlinear_arith)
                    requires
                        frames == old_data.len() / (channels as nat),
                        channels >= 2,
                ;
            }
            let sample = tmp[frame_idx];
            let base = frame_idx * channels;
            let mut ch: usize = 0;
            while ch < channels
                invariant
                    len == old_data.len(),
                    frames == old_data.len() / (channels as nat),
                    channels >= 2,
                    frame_idx < frames,
                    base == frame_idx * channels,
                    base + channels <= old_data.len(),
                    sample == played_sample(q, frame_idx as int),
                    ch <= channels,
                    data@.len() == old_data.len(),
                    forall|f: int, c: int|
                        0 <= f < frame_idx && 0 <= c < channels ==> #[trigger] data@[f * channels
                            + c] == played_sample(q, f),
                    forall|c: int| 0 <= c < ch ==> #[trigger] data@[base + c] == sample,
                    forall|i: int| base + ch <= i < data@.len() ==> data@[i] == old_data[i],
                decreases channels - ch,
            {
                let ghost before = data@;
                data[base + ch] = sample;
                proof {
                    assert forall|f: int, c: int|
                        0 <= f < frame_idx && 0 <= c < channels implies #[trigger] data@[f
                        * channels + c] == played_sample(q, f) by {
                        assert(f * channels + c < frame_idx * channels) by (nonlinear_arith)
                            requires
                                f < frame_idx,
                                0 <= c < channels,
                        ;
                        assert(before[f * channels + c] == played_sample(q, f));
                    }
                }
                ch = ch + 1;
            }
            proof {
                assert forall|f: int, c: int|
                    0 <= f < frame_idx + 1 && 0 <= c < channels implies #[trigger] data@[f
                    * channels + c] == played_sample(q, f) by {
                    if f == frame_idx {
                        assert(data@[base + c] == sample);
                    }
                }
                assert((frame_idx + 1) * channels == base + channels) by (nonlinear_arith)
                    requires
                        base == frame_idx * channels,
                ;
            }
            frame_idx = frame_idx + 1;
        }
        underran
    }
}

/// Feed one capture callback's interleaved input into the ring.
///
/// Mono input goes in whole; for more channels, the first channel of each
/// whole frame is kept. The oldest queued samples are dropped when the ring
/// is full. Returns `true` when samples had to be dropped (an overrun).
pub fn capture_input(ring: &mut RingBufferInner, data: &[u32], channels: usize) -> (overran: bool)
    requires
        old(ring).wf(),
        channels >= 1,
    ensures
        final(ring).wf(),
        final(ring).spec_capacity() == old(ring).spec_capacity(),
        overran == (overwritten_count(
            old(ring)@.len(),
            old(ring).spec_capacity(),
            first_channel(data@, channels as nat).len(),
        ) > 0),
        final(ring)@ == (old(ring)@ + first_channel(data@, channels as nat)).skip(
            overwritten_count(
                old(ring)@.len(),
                old(ring).spec_capacity(),
                first_channel(data@, channels as nat).len(),
            ) as int,
        ),
{
    if channels == 1 {
        let ghost n = data@.len();
        assert(n / 1 == n) by (nonlinear_arith);
        assert(frame_count(data@.len(), 1) == data@.len());
        assert forall|f: int| 0 <= f < data@.len() implies #[trigger] first_channel(data@, 1)[f]
            == data@[f] by {
            assert(f * 1 == f);
        }
        assert(first_channel(data@, 1) =~= data@);
        let overwritten = ring.write_overwrite(data);
        overwritten > 0
    } else {
        let len = data.len();
        let frames = len / channels;
        let mut mono: Vec<u32> = Vec::new();
        let mut frame: usize = 0;
        while frame < frames
            invariant
                len == data@.len(),
                frames == data@.len() / (channels as nat),
                channels >= 2,
                frame <= frames,
                mono@.len() == frame,
                forall|f: int| 0 <= f < frame ==> mono@[f] == data@[f * channels],
            decreases frames - frame,
        {
            assert(frame * channels < data@.len()) by (nonlinear_arith)
                requires
                    frame < frames,
                    frames == data@.len() / (channels as nat),
                    channels >= 2,
            ;
            mono.push(data[frame * channels]);
            frame = frame + 1;
        }
        assert(mono@ =~= first_channel(data@, channels as nat));
        let overwritten = ring.write_overwrite(mono.as_slice());
        overwritten > 0
    }
}

/// One stream configuration range a device reports.
#[derive(Debug, Clone, Copy, PartialEq, Eq, Structural)]
pub struct SupportedRange {
    /// Channel count.
    pub channels: u16,
    /// Whether samples are 32-bit floats.
    pub f32_samples: bool,
    /// Lowest supported sample rate in Hz.
    pub min_rate: u32,
    /// Highest supported sample rate in Hz.
    pub max_rate: u32,
}

/// The configuration picked for a stream: a position in the device's list
/// and the sample rate to run it at.
#[derive(Debug, Clone, Copy, PartialEq, Eq, Structural)]
pub struct StreamChoice {
    /// Position of the chosen range in the list.
    pub index: usize,
    /// Sample rate in Hz.
    pub sample_rate: u32,
}

/// `r` can carry a stream of `channels` float channels.
pub open spec fn usable(r: SupportedRange, channels: u16) -> bool {
    r.channels == channels && r.f32_samples
}

/// `r` can run at `rate`.
pub open spec fn covers(r: SupportedRange, rate: u32) -> bool {
    r.min_rate <= rate <= r.max_rate
}

/// Pick a configuration for `config` among the ranges a device supports:
/// among the ranges with the requested channel count and float samples, the
/// first whose rates include the requested rate, at that rate; failing that,
/// the first such range at its highest rate (the system resamples). `None`
/// when no range has the channel count with float samples.
pub fn choose_stream_config(supported: &[SupportedRange], config: &AudioConfig) -> (r: Option<
    StreamChoice,
>)
    ensures
        r is None <==> forall|i: int|
            0 <= i < supported@.len() ==> !usable(#[trigger] supported@[i], config.channels),
        r matches Some(c) ==> c.index < supported@.len() && usable(
            supported@[c.index as int],
            config.channels,
        ),
        r matches Some(c) ==> if exists|i: int|
            0 <= i < supported@.len() && usable(#[trigger] supported@[i], config.channels) && covers(
                supported@[i],
                config.sample_rate,
            ) {
            &&& covers(supported@[c.index as int], config.sample_rate)
            &&& c.sample_rate == config.sample_rate
            &&& forall|j: int|
                0 <= j < c.index ==> !(usable(#[trigger] supported@[j], config.channels) && covers(
                    supported@[j],
                    config.sample_rate,
                ))
        } else {
            &&& c.sample_rate == supported@[c.index as int].max_rate
            &&& forall|j: int| 0 <= j < c.index ==> !usable(#[trigger] supported@[j], config.channels)
        },
{
    let mut first: Option<usize> = None;
    let mut i: usize = 0;
    while i < supported.len()
        invariant
            i <= supported@.len(),
            forall|j: int|
                0 <= j < i ==> !(usable(#[trigger] supported@[j], config.channels) && covers(
                    supported@[j],
                    config.sample_rate,
                )),
            match first {
                Some(f) => f < i && usable(supported@[f as int], config.channels) && forall|j: int|
                    0 <= j < f ==> !usable(#[trigger] supported@[j], config.channels),
                None => forall|j: int| 0 <= j < i ==> !usable(#[trigger] supported@[j], config.channels),
            },
        decreases supported@.len() - i,
    {
        let range = supported[i];
        if range.channels == config.channels && range.f32_samples {
            if range.min_rate <= config.sample_rate && config.sample_rate <= range.max_rate {
                return Some(StreamChoice { index: i, sample_rate: config.sample_rate });
            }
            if first.is_none() {
                first = Some(i);
            }
        }
        i = i + 1;
    }
    match first {
        Some(f) => Some(StreamChoice { index: f, sample_rate: supported[f].max_rate }),
        None => None,
    }
}

} // verus!
