//! Audio device descriptions and open/create parameters.

use vstd::prelude::*;

use crate::audio::AudioFormat;

verus! {

/// Marker for a concrete audio endpoint implementation.
pub trait AudioDevice {}

/// Sample rate in Hz.
pub type SampleRate = u32;

/// Parameters for creating a virtual audio device.
pub struct VirtualDeviceConfig {
    /// Stable identifier for the virtual device.
    pub id: AudioDeviceId,
    /// Human-readable device name.
    pub name: String,
    /// Sample rate in Hz.
    pub sample_rate: SampleRate,
    /// Channel count.
    pub channels: u16,
}

/// Which hardware endpoints to open.
pub struct HardwareDeviceConfig {
    /// Optional capture device id.
    pub input: Option<AudioDeviceId>,
    /// Optional playback device id.
    pub output: Option<AudioDeviceId>,
}

/// Backend-specific device identifier.
#[derive(Debug, Clone, PartialEq, Eq, Hash)]
pub enum AudioDeviceId {
    /// Numeric host id (e.g. PipeWire node id).
    Numeric(u64),
    /// Textual host id (e.g. CPAL device name).
    Text(String),
}

/// Metadata for a discoverable audio endpoint.
#[derive(Debug, Clone, PartialEq, Eq, Hash)]
pub struct AudioDeviceInfo {
    /// Device identifier used when opening.
    pub id: AudioDeviceId,
    /// Human-readable name.
    pub name: String,
    /// Capture or playback.
    pub direction: AudioDirection,
    /// Formats the device claims to support.
    pub formats: Vec<AudioFormat>,
    /// Preferred format when none is specified.
    pub default_format: AudioFormat,
    /// Whether this is the host default for its direction.
    pub default: bool,
    /// Whether the endpoint is a virtual/software device.
    pub virtual_device: bool,
}

/// Capture vs playback direction.
#[derive(Debug, Clone, PartialEq, Eq, Hash)]
pub enum AudioDirection {
    /// Microphone / capture.
    Input,
    /// Speaker / playback.
    Output,
}

} // verus!
