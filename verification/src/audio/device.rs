//! Audio device identification.

use vstd::prelude::*;
use crate::audio::config::AudioDirection;

verus! {

/// Opaque device identifier; holds the backend's device name.
#[derive(Debug, Clone, PartialEq, Eq, Hash)]
pub struct AudioDeviceId(pub String);

/// Describes an audio device (input or output).
#[derive(Debug, Clone)]
pub struct AudioDevice {
    /// Human-readable device name (e.g. "Speakers (Realtek HD Audio)").
    pub name: String,
    /// Whether this device is an input or output.
    pub direction: AudioDirection,
    /// Opaque identifier used to open the device.
    pub id: AudioDeviceId,
}

impl AudioDevice {
    /// Create a new device descriptor.
    pub fn new(name: &str, direction: AudioDirection, id: AudioDeviceId) -> (r: Self)
        ensures
            r.name@ == name@,
            r.direction == direction,
            r.id == id,
    {
        AudioDevice { name: name.to_owned(), direction, id }
    }
}

/// What the backend reports about one device: its name, if it could be
/// read, and whether it has a default input and a default output
/// configuration.
#[derive(Debug, Clone)]
pub struct DeviceProbe {
    /// Device name, if the backend could read it.
    pub name: Option<String>,
    /// Whether the device can capture.
    pub has_input: bool,
    /// Whether the device can play.
    pub has_output: bool,
}

/// The name shown for a device: its own, or `<unknown>`.
pub open spec fn shown_name(name: Option<String>) -> Seq<char> {
    match name {
        Some(n) => n@,
        None => "<unknown>"@,
    }
}

/// The devices a probe list describes, as (name, direction, id) triples: per
/// probe, an input entry with id `input:<name>` if it can capture, then an
/// output entry with id `output:<name>` if it can play.
pub open spec fn listed_devices(probes: Seq<DeviceProbe>) -> Seq<(Seq<char>, AudioDirection, Seq<char>)>
    decreases probes.len(),
{
    if probes.len() == 0 {
        Seq::empty()
    } else {
        let p = probes.last();
        let n = shown_name(p.name);
        let inputs = if p.has_input {
            seq![(n, AudioDirection::Input, "input:"@ + n)]
        } else {
            Seq::empty()
        };
        let outputs = if p.has_output {
            seq![(n, AudioDirection::Output, "output:"@ + n)]
        } else {
            Seq::empty()
        };
        listed_devices(probes.drop_last()) + inputs + outputs
    }
}

/// A device as a (name, direction, id) triple.
pub open spec fn device_entry(d: AudioDevice) -> (Seq<char>, AudioDirection, Seq<char>) {
    (d.name@, d.direction, d.id.0@)
}

/// The text of `prefix` followed by `rest`.
fn joined(prefix: &str, rest: &str) -> (r: String)
    ensures
        r@ == prefix@ + rest@,
{
    let mut r = String::from_str(prefix);
    r.append(rest);
    r
}

/// The name shown for a device.
fn name_of(name: &Option<String>) -> (r: String)
    ensures
        r@ == shown_name(*name),
{
    match name {
        Some(n) => n.clone(),
        None => String::from_str("<unknown>"),
    }
}

/// The device list for what the backend found, in the order found.
pub fn devices_from_probes(probes: &[DeviceProbe]) -> (r: Vec<AudioDevice>)
    ensures
        r@.map_values(|d: AudioDevice| device_entry(d)) == listed_devices(probes@),
{
    let mut r: Vec<AudioDevice> = Vec::new();
    let mut i: usize = 0;
    while i < probes.len()
        invariant
            i <= probes@.len(),
            r@.map_values(|d: AudioDevice| device_entry(d)) == listed_devices(probes@.take(i as int)),
        decreases probes@.len() - i,
    {
        let p = &probes[i];
        let ghost before = r@.map_values(|d: AudioDevice| device_entry(d));
        let name = name_of(&p.name);
        if p.has_input {
            let id = joined("input:", name.as_str());
            r.push(AudioDevice::new(name.as_str(), AudioDirection::Input, AudioDeviceId(id)));
        }
        let ghost mid = r@.map_values(|d: AudioDevice| device_entry(d));
        if p.has_output {
            let id = joined("output:", name.as_str());
            r.push(AudioDevice::new(name.as_str(), AudioDirection::Output, AudioDeviceId(id)));
        }
        proof {
            let ps = probes@.take(i + 1);
            assert(ps.drop_last() =~= probes@.take(i as int));
            assert(ps.last() == probes@[i as int]);
            let n = shown_name(probes@[i as int].name);
            let inputs = if probes@[i as int].has_input {
                seq![(n, AudioDirection::Input, "input:"@ + n)]
            } else {
                Seq::empty()
            };
            let outputs = if probes@[i as int].has_output {
                seq![(n, AudioDirection::Output, "output:"@ + n)]
            } else {
                Seq::empty()
            };
            assert(mid =~= before + inputs);
            assert(r@.map_values(|d: AudioDevice| device_entry(d)) =~= before + inputs + outputs);
        }
        i = i + 1;
    }
    assert(probes@.take(probes@.len() as int) =~= probes@);
    r
}

/// The descriptor of a system default device, with id `default:output` or
/// `default:input`.
pub fn default_device(name: &Option<String>, direction: AudioDirection) -> (r: AudioDevice)
    ensures
        r.name@ == shown_name(*name),
        r.direction == direction,
        r.id.0@ == (if direction == AudioDirection::Output {
            "default:output"@
        } else {
            "default:input"@
        }),
{
    let n = name_of(name);
    let id = match direction {
        AudioDirection::Output => String::from_str("default:output"),
        AudioDirection::Input => String::from_str("default:input"),
    };
    AudioDevice::new(n.as_str(), direction, AudioDeviceId(id))
}

/// Whether a device name that may be missing is `target`.
pub open spec fn is_named(name: Option<String>, target: Seq<char>) -> bool {
    match name {
        Some(n) => n@ == target,
        None => false,
    }
}

/// The position of the first device whose name is `target`; devices whose
/// name could not be read never match.
pub fn find_device_index(names: &[Option<String>], target: &str) -> (r: Option<usize>)
    ensures
        match r {
            Some(i) => i < names@.len() && is_named(names@[i as int], target@) && forall|j: int|
                0 <= j < i ==> !is_named(#[trigger] names@[j], target@),
            None => forall|j: int| 0 <= j < names@.len() ==> !is_named(#[trigger] names@[j], target@),
        },
{
    let t = target.to_owned();
    let mut i: usize = 0;
    while i < names.len()
        invariant
            i <= names@.len(),
            t@ == target@,
            forall|j: int| 0 <= j < i ==> !is_named(#[trigger] names@[j], target@),
        decreases names@.len() - i,
    {
        match &names[i] {
            Some(n) => {
                if *n == t {
                    return Some(i);
                }
            },
            None => {},
        }
        i = i + 1;
    }
    None
}

} // verus!
