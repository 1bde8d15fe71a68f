use workspace::audio::config::{AudioConfig, AudioDirection};
use workspace::audio::device::{
    default_device, devices_from_probes, find_device_index, AudioDevice, AudioDeviceId, DeviceProbe,
};
use workspace::audio::ring_buffer::RingBufferInner;
use workspace::audio::stream::{
    capture_input, choose_stream_config, render_output, AudioStreamError, StreamChoice,
    SupportedRange,
};
use workspace::audio::AudioError;

fn bits(v: &[f32]) -> Vec<u32> {
    v.iter().map(|x| x.to_bits()).collect()
}

fn floats(v: &[u32]) -> Vec<f32> {
    v.iter().map(|x| f32::from_bits(*x)).collect()
}

// ---------------------------------------------------------------- config

#[test]
fn default_config() {
    let c = AudioConfig::default();
    assert_eq!(c.sample_rate, 48_000);
    assert_eq!(c.channels, 1);
    assert_eq!(c.buffer_duration_ms, 10);
}

#[test]
fn asr_config() {
    let c = AudioConfig::asr();
    assert_eq!(c.sample_rate, 16_000);
    assert_eq!(c.channels, 1);
}

#[test]
fn stereo_config() {
    let c = AudioConfig::stereo();
    assert_eq!(c.channels, 2);
    assert_eq!(c.sample_rate, 48_000);
}

#[test]
fn buffer_size_samples() {
    let c = AudioConfig::default();
    assert_eq!(c.buffer_size_samples(), 480);
}

#[test]
fn ring_buffer_capacity_minimum() {
    let c = AudioConfig::asr();
    assert!(c.ring_buffer_capacity() >= 1024);
}

#[test]
fn buffer_size_samples_is_per_channel() {
    assert_eq!(AudioConfig::stereo().buffer_size_samples(), 480);
    assert_eq!(AudioConfig::asr().buffer_size_samples(), 160);
}

#[test]
fn ring_buffer_capacity_exact_values() {
    // 100 ms of 48 kHz stereo.
    assert_eq!(AudioConfig::stereo().ring_buffer_capacity(), 9600);
    // 100 ms of 16 kHz mono is 1600 samples.
    assert_eq!(AudioConfig::asr().ring_buffer_capacity(), 1600);
}

// ---------------------------------------------------------------- devices

#[test]
fn device_new() {
    let dev = AudioDevice::new("Speakers", AudioDirection::Output, AudioDeviceId("speakers".into()));
    assert_eq!(dev.name, "Speakers");
    assert_eq!(dev.direction, AudioDirection::Output);
    assert_eq!(dev.id, AudioDeviceId("speakers".into()));
}

#[test]
fn device_id_equality() {
    let a = AudioDeviceId("mic".into());
    let b = AudioDeviceId("mic".into());
    let c = AudioDeviceId("speakers".into());
    assert_eq!(a, b);
    assert_ne!(a, c);
}

#[test]
fn devices_from_probes_lists_input_then_output() {
    let probes = vec![
        DeviceProbe { name: Some("Headset".into()), has_input: true, has_output: true },
        DeviceProbe { name: None, has_input: false, has_output: true },
        DeviceProbe { name: Some("Dead".into()), has_input: false, has_output: false },
    ];
    let devs = devices_from_probes(&probes);
    assert_eq!(devs.len(), 3);
    assert_eq!(devs[0].name, "Headset");
    assert_eq!(devs[0].direction, AudioDirection::Input);
    assert_eq!(devs[0].id, AudioDeviceId("input:Headset".into()));
    assert_eq!(devs[1].direction, AudioDirection::Output);
    assert_eq!(devs[1].id, AudioDeviceId("output:Headset".into()));
    assert_eq!(devs[2].name, "<unknown>");
    assert_eq!(devs[2].id, AudioDeviceId("output:<unknown>".into()));
}

#[test]
fn default_device_ids() {
    let out = default_device(&Some("Speakers".into()), AudioDirection::Output);
    assert_eq!(out.name, "Speakers");
    assert_eq!(out.id, AudioDeviceId("default:output".into()));
    let inp = default_device(&None, AudioDirection::Input);
    assert_eq!(inp.name, "<unknown>");
    assert_eq!(inp.direction, AudioDirection::Input);
    assert_eq!(inp.id, AudioDeviceId("default:input".into()));
}

#[test]
fn find_device_index_first_match() {
    let names = vec![None, Some("Mic".to_string()), Some("Speakers".to_string()), Some("Mic".to_string())];
    assert_eq!(find_device_index(&names, "Mic"), Some(1));
    assert_eq!(find_device_index(&names, "Speakers"), Some(2));
    assert_eq!(find_device_index(&names, "Other"), None);
    assert_eq!(find_device_index(&[], "Mic"), None);
}

// ---------------------------------------------------------------- errors

#[derive(Debug)]
struct ShownAudioError(AudioError);

impl std::fmt::Display for ShownAudioError {
    fn fmt(&self, f: &mut std::fmt::Formatter<'_>) -> std::fmt::Result {
        f.write_str(&self.0.message())
    }
}

impl std::error::Error for ShownAudioError {}

#[test]
fn audio_error_display() {
    assert!(!AudioError::NoDeviceFound.message().is_empty());
    assert!(AudioError::DeviceUnavailable("busy".into()).message().contains("busy"));
    assert!(AudioError::StreamOpenFailed("oops".into()).message().contains("oops"));
}

#[test]
fn audio_error_is_std_error() {
    let err: Box<dyn std::error::Error> = Box::new(ShownAudioError(AudioError::NoDeviceFound));
    assert!(!err.to_string().is_empty());
}

#[test]
fn audio_error_messages_exact() {
    assert_eq!(AudioError::NoDeviceFound.message(), "no audio device found");
    assert_eq!(AudioError::DeviceUnavailable("busy".into()).message(), "audio device unavailable: busy");
    assert_eq!(AudioError::ConfigNotSupported("x".into()).message(), "audio config not supported: x");
    assert_eq!(AudioError::StreamOpenFailed("oops".into()).message(), "audio stream failed: oops");
    assert_eq!(AudioError::HostInitFailed("h".into()).message(), "audio host init failed: h");
}

#[test]
fn audio_stream_error_messages_exact() {
    assert_eq!(
        AudioStreamError::ConfigNotSupported("rate".into()).message(),
        "audio config not supported: rate"
    );
    assert_eq!(AudioStreamError::OpenFailed("busy".into()).message(), "audio stream open failed: busy");
}

// ---------------------------------------------------------------- ring buffer

#[test]
fn write_then_read() {
    let mut rb = RingBufferInner::new(16);
    let written = rb.write(&bits(&[1.0, 2.0, 3.0]));
    assert_eq!(written, 3);

    let mut out = [0u32; 3];
    let read = rb.read(&mut out);
    assert_eq!(read, 3);
    assert_eq!(floats(&out), vec![1.0, 2.0, 3.0]);
}

#[test]
fn read_empty_returns_zero() {
    let mut rb = RingBufferInner::new(16);
    let mut out = [0u32; 4];
    let read = rb.read(&mut out);
    assert_eq!(read, 0);
}

#[test]
fn write_full() {
    let mut rb = RingBufferInner::new(16);
    let data = vec![1.0f32.to_bits(); rb.capacity() + 10];
    let written = rb.write(&data);
    assert_eq!(written, rb.capacity());
    assert_eq!(rb.available_write(), 0);
}

#[test]
fn write_overwrite_drops_oldest() {
    let mut rb = RingBufferInner::new(16);
    let cap = rb.capacity();
    let half = vec![1.0f32.to_bits(); cap / 2];
    rb.write(&half);
    rb.write(&half);
    assert_eq!(rb.available_write(), 0);

    let extra = vec![99.0f32.to_bits(); 4];
    let overwritten = rb.write_overwrite(&extra);
    assert!(overwritten > 0);

    let mut out = vec![0u32; cap];
    let read = rb.read(&mut out);
    assert_eq!(read, cap);
    assert_eq!(f32::from_bits(out[0]), 1.0);
    assert_eq!(f32::from_bits(out[cap - 4]), 99.0);
}

#[test]
fn read_or_silence_fills_zeros() {
    let mut rb = RingBufferInner::new(16);
    rb.write(&bits(&[42.0]));

    let mut out = [7u32; 4];
    let underrun = rb.read_or_silence(&mut out);
    assert!(underrun);
    assert_eq!(f32::from_bits(out[0]), 42.0);
    assert_eq!(f32::from_bits(out[1]), 0.0);
    assert_eq!(f32::from_bits(out[2]), 0.0);
    assert_eq!(f32::from_bits(out[3]), 0.0);
}

#[test]
fn read_or_silence_no_underrun() {
    let mut rb = RingBufferInner::new(16);
    rb.write(&bits(&[1.0, 2.0, 3.0, 4.0]));

    let mut out = [0u32; 4];
    let underrun = rb.read_or_silence(&mut out);
    assert!(!underrun);
    assert_eq!(floats(&out), vec![1.0, 2.0, 3.0, 4.0]);
}

#[test]
fn zeroize_clears_buffer() {
    let mut rb = RingBufferInner::new(16);
    rb.write(&bits(&[1.0, 2.0, 3.0]));
    assert_eq!(rb.available_read(), 3);

    rb.zeroize();
    assert_eq!(rb.available_read(), 0);
}

#[test]
fn wrapping_works() {
    let mut rb = RingBufferInner::new(8);
    for round in 0..10 {
        let data: Vec<f32> = (0..5).map(|i| round as f32 * 10.0 + i as f32).collect();
        rb.write(&bits(&data));
        let mut out = [0u32; 5];
        let read = rb.read(&mut out);
        assert_eq!(read, 5);
        for (i, val) in out.iter().take(5).enumerate() {
            assert_eq!(f32::from_bits(*val), round as f32 * 10.0 + i as f32);
        }
    }
}

#[test]
fn ring_capacity_rounds_up_to_power_of_two() {
    assert_eq!(RingBufferInner::new(0).capacity(), 1024);
    assert_eq!(RingBufferInner::new(1024).capacity(), 1024);
    assert_eq!(RingBufferInner::new(1025).capacity(), 2048);
    assert_eq!(RingBufferInner::new(9600).capacity(), 16384);
}

#[test]
fn ring_occupancy_adds_up() {
    let mut rb = RingBufferInner::new(16);
    rb.write(&[1, 2, 3]);
    assert_eq!(rb.available_read() + rb.available_write(), rb.capacity());
    assert_eq!(rb.available_write(), rb.capacity() - 3);
}

#[test]
fn write_overwrite_keeps_newest_in_order() {
    let mut rb = RingBufferInner::new(16);
    let cap = rb.capacity();
    let first: Vec<u32> = (0..cap as u32).collect();
    assert_eq!(rb.write_overwrite(&first), 0);
    let more: Vec<u32> = (cap as u32..cap as u32 + 10).collect();
    assert_eq!(rb.write_overwrite(&more), 10);
    let mut out = vec![0u32; cap];
    assert_eq!(rb.read(&mut out), cap);
    let expected: Vec<u32> = (10..cap as u32 + 10).collect();
    assert_eq!(out, expected);
}

#[test]
fn zeroize_then_reuse() {
    let mut rb = RingBufferInner::new(16);
    rb.write(&[5, 6]);
    rb.zeroize();
    let mut out = [9u32; 2];
    assert!(rb.read_or_silence(&mut out));
    assert_eq!(out, [0, 0]);
    assert_eq!(rb.write(&[7]), 1);
    let mut one = [0u32; 1];
    assert_eq!(rb.read(&mut one), 1);
    assert_eq!(one, [7]);
}

// ---------------------------------------------------------------- streams

#[test]
fn render_output_duplicates_mono_into_channels() {
    let mut rb = RingBufferInner::new(16);
    rb.write(&[10, 20]);
    let mut data = [1u32; 7];
    let underran = render_output(&mut rb, &mut data, 2);
    assert!(underran);
    // Frames: (10,10) (20,20) then silence; the sample past the last whole frame stays.
    assert_eq!(data, [10, 10, 20, 20, 0, 0, 1]);
    assert_eq!(rb.available_read(), 0);
}

#[test]
fn render_output_mono_no_underrun() {
    let mut rb = RingBufferInner::new(16);
    rb.write(&[1, 2, 3, 4, 5]);
    let mut data = [0u32; 3];
    assert!(!render_output(&mut rb, &mut data, 1));
    assert_eq!(data, [1, 2, 3]);
    assert_eq!(rb.available_read(), 2);
}

#[test]
fn capture_input_keeps_first_channel() {
    let mut rb = RingBufferInner::new(16);
    let overran = capture_input(&mut rb, &[1, 100, 2, 200, 3], 2);
    assert!(!overran);
    let mut out = [0u32; 4];
    assert_eq!(rb.read(&mut out), 2);
    assert_eq!(&out[..2], &[1, 2]);
}

#[test]
fn capture_input_reports_overrun() {
    let mut rb = RingBufferInner::new(16);
    let cap = rb.capacity();
    let full = vec![3u32; cap];
    assert!(!capture_input(&mut rb, &full, 1));
    assert!(capture_input(&mut rb, &[4, 5], 1));
    assert_eq!(rb.available_read(), cap);
}

#[test]
fn choose_stream_config_prefers_covering_range() {
    let config = AudioConfig::default();
    let ranges = [
        SupportedRange { channels: 2, f32_samples: true, min_rate: 8_000, max_rate: 96_000 },
        SupportedRange { channels: 1, f32_samples: false, min_rate: 8_000, max_rate: 96_000 },
        SupportedRange { channels: 1, f32_samples: true, min_rate: 8_000, max_rate: 44_100 },
        SupportedRange { channels: 1, f32_samples: true, min_rate: 44_100, max_rate: 48_000 },
    ];
    assert_eq!(
        choose_stream_config(&ranges, &config),
        Some(StreamChoice { index: 3, sample_rate: 48_000 })
    );
}

#[test]
fn choose_stream_config_falls_back_to_first_max_rate() {
    let config = AudioConfig::default();
    let ranges = [
        SupportedRange { channels: 1, f32_samples: true, min_rate: 8_000, max_rate: 22_050 },
        SupportedRange { channels: 1, f32_samples: true, min_rate: 8_000, max_rate: 44_100 },
    ];
    assert_eq!(
        choose_stream_config(&ranges, &config),
        Some(StreamChoice { index: 0, sample_rate: 22_050 })
    );
}

#[test]
fn choose_stream_config_none_without_channels() {
    let config = AudioConfig::stereo();
    let ranges = [SupportedRange { channels: 1, f32_samples: true, min_rate: 8_000, max_rate: 96_000 }];
    assert_eq!(choose_stream_config(&ranges, &config), None);
    assert_eq!(choose_stream_config(&[], &config), None);
}
