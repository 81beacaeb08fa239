//! Stream configurations for device input and output.

use vstd::prelude::*;

use crate::latency_config::{latency_frames, spec_latency_frames, TARGET_LATENCY_MS};

verus! {

/// Buffer size requested from the audio host.
#[derive(Debug, Clone, Copy, PartialEq, Eq, Structural)]
pub enum BufferSize {
    /// The host's default buffer size.
    Default,
    /// A fixed number of frames per callback.
    Fixed(u32),
}

/// Parameters of a device stream.
#[derive(Debug, Clone, Copy, PartialEq, Eq, Structural)]
pub struct StreamConfig {
    /// Number of channels.
    pub channels: u16,
    /// Samples per second.
    pub sample_rate: u32,
    /// Buffer size per callback.
    pub buffer_size: BufferSize,
}

/// Output configuration with a small fixed buffer sized for the target
/// latency. Needs no device.
pub fn build_fixed_config(sample_rate: u32, channels: u16) -> (config: StreamConfig)
    requires
        sample_rate * TARGET_LATENCY_MS <= u32::MAX,
    ensures
        config.channels == channels,
        config.sample_rate == sample_rate,
        config.buffer_size == BufferSize::Fixed(spec_latency_frames(sample_rate as int) as u32),
{
    StreamConfig {
        channels,
        sample_rate,
        buffer_size: BufferSize::Fixed(latency_frames(sample_rate)),
    }
}

/// The final buffer size: the fixed latency buffer when the device accepted
/// it, the host default otherwise.
pub fn resolve_buffer_size(fixed_accepted: bool, sample_rate: u32) -> (size: BufferSize)
    requires
        fixed_accepted ==> sample_rate * TARGET_LATENCY_MS <= u32::MAX,
    ensures
        fixed_accepted ==> size == BufferSize::Fixed(spec_latency_frames(sample_rate as int) as u32),
        !fixed_accepted ==> size == BufferSize::Default,
{
    if fixed_accepted {
        BufferSize::Fixed(latency_frames(sample_rate))
    } else {
        BufferSize::Default
    }
}

/// Configuration after probing the device with the fixed buffer of `config`:
/// unchanged when the device accepted it, with the host default buffer size otherwise.
pub fn with_probe_result(config: StreamConfig, fixed_accepted: bool) -> (result: StreamConfig)
    ensures
        result.channels == config.channels,
        result.sample_rate == config.sample_rate,
        fixed_accepted ==> result.buffer_size == config.buffer_size,
        !fixed_accepted ==> result.buffer_size == BufferSize::Default,
{
    if fixed_accepted {
        config
    } else {
        StreamConfig { buffer_size: resolve_buffer_size(false, config.sample_rate), ..config }
    }
}

/// Input configuration from the device's default: its channels and rate, the host default buffer.
pub fn default_input_config(channels: u16, sample_rate: u32) -> (config: StreamConfig)
    ensures
        config == (StreamConfig { channels, sample_rate, buffer_size: BufferSize::Default }),
{
    StreamConfig { channels, sample_rate, buffer_size: BufferSize::Default }
}

/// Capture and playback stream rate, whatever the device's default.
pub const STREAM_SAMPLE_RATE: u32 = 48_000;

/// Capture or playback configuration: the device's channels at 48 kHz, the host default buffer.
pub fn fixed_rate_config(channels: u16) -> (config: StreamConfig)
    ensures
        config == (StreamConfig { channels, sample_rate: STREAM_SAMPLE_RATE, buffer_size: BufferSize::Default }),
{
    StreamConfig { channels, sample_rate: STREAM_SAMPLE_RATE, buffer_size: BufferSize::Default }
}

} // verus!
