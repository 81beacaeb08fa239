//! Device sample layout and stream parameters.

use vstd::prelude::*;

use crate::encoded_audio::{AudioCodec, EncodedAudioFormat, Endianness, PcmFormat};

verus! {

/// Sample rate and channel count of a stream.
#[derive(Debug, Clone, Copy, PartialEq, Eq, Hash, Structural)]
pub struct AudioSpec {
    /// Samples per second.
    pub rate: u32,
    /// Number of channels.
    pub channels: usize,
}

/// Nanoseconds in a second.
pub const NANOS_PER_SECOND: u64 = 1_000_000_000;

/// How long `frames` frames last at `rate` frames per second, in whole
/// nanoseconds (rounded down); zero when the rate is zero.
pub fn duration_nanos(frames: u64, rate: u64) -> (nanos: u64)
    requires
        rate != 0 ==> frames * NANOS_PER_SECOND <= u64::MAX,
    ensures
        nanos == (if rate == 0 { 0 } else { (frames * NANOS_PER_SECOND) / (rate as int) }),
{
    if rate == 0 {
        return 0;
    }
    frames * NANOS_PER_SECOND / rate
}

/// Audio sample layout.
#[derive(Debug, Clone, Copy, PartialEq, Eq, Hash, Structural)]
pub struct AudioFormat {
    /// Samples per second.
    pub sample_rate: u32,
    /// Number of channels.
    pub channels: u16,
    /// Sample representation.
    pub sample_format: PcmFormat,
}

impl AudioFormat {
    /// Returns the stream parameters of this format: its rate, and its channels as discrete channels.
    pub fn spec(&self) -> (spec: AudioSpec)
        ensures
            spec == (AudioSpec { rate: self.sample_rate, channels: self.channels as usize }),
    {
        AudioSpec { rate: self.sample_rate, channels: self.channels as usize }
    }

    /// Returns the size of a single audio frame in bytes.
    pub fn frame_size(&self) -> (n: usize)
        ensures
            n == self.channels * self.sample_format.spec_sample_size(),
    {
        self.channels as usize * self.sample_format.sample_size()
    }
}

/// Sample type of a device stream, as the audio host reports it.
#[derive(Debug, Clone, Copy, PartialEq, Eq, Hash, Structural)]
pub enum SampleFormat {
    I8,
    I16,
    I24,
    I32,
    I64,
    U8,
    U16,
    U24,
    U32,
    U64,
    F32,
    F64,
    DsdU8,
    DsdU16,
    DsdU32,
}

/// The PCM format of a device sample type: native little-endian layout.
pub open spec fn spec_sample_to_pcm_format(format: SampleFormat) -> PcmFormat {
    match format {
        SampleFormat::I8 => PcmFormat::I8,
        SampleFormat::I16 => PcmFormat::I16(Endianness::Little),
        SampleFormat::I24 => PcmFormat::I24(Endianness::Little),
        SampleFormat::I32 => PcmFormat::I32(Endianness::Little),
        SampleFormat::I64 => PcmFormat::I64(Endianness::Little),
        SampleFormat::U8 => PcmFormat::U8,
        SampleFormat::U16 => PcmFormat::U16(Endianness::Little),
        SampleFormat::U24 => PcmFormat::U24(Endianness::Little),
        SampleFormat::U32 => PcmFormat::U32(Endianness::Little),
        SampleFormat::U64 => PcmFormat::U64(Endianness::Little),
        SampleFormat::F32 => PcmFormat::F32(Endianness::Little),
        SampleFormat::F64 => PcmFormat::F64(Endianness::Little),
        SampleFormat::DsdU8 => PcmFormat::DsdU8,
        SampleFormat::DsdU16 => PcmFormat::DsdU16(Endianness::Little),
        SampleFormat::DsdU32 => PcmFormat::DsdU32(Endianness::Little),
    }
}

/// Maps a device sample type to the matching little-endian PCM format.
pub fn sample_to_pcm_format(format: SampleFormat) -> (pcm: PcmFormat)
    ensures
        pcm == spec_sample_to_pcm_format(format),
{
    match format {
        SampleFormat::I8 => PcmFormat::I8,
        SampleFormat::I16 => PcmFormat::I16(Endianness::Little),
        SampleFormat::I24 => PcmFormat::I24(Endianness::Little),
        SampleFormat::I32 => PcmFormat::I32(Endianness::Little),
        SampleFormat::I64 => PcmFormat::I64(Endianness::Little),
        SampleFormat::U8 => PcmFormat::U8,
        SampleFormat::U16 => PcmFormat::U16(Endianness::Little),
        SampleFormat::U24 => PcmFormat::U24(Endianness::Little),
        SampleFormat::U32 => PcmFormat::U32(Endianness::Little),
        SampleFormat::U64 => PcmFormat::U64(Endianness::Little),
        SampleFormat::F32 => PcmFormat::F32(Endianness::Little),
        SampleFormat::F64 => PcmFormat::F64(Endianness::Little),
        SampleFormat::DsdU8 => PcmFormat::DsdU8,
        SampleFormat::DsdU16 => PcmFormat::DsdU16(Endianness::Little),
        SampleFormat::DsdU32 => PcmFormat::DsdU32(Endianness::Little),
    }
}

/// The sample format a stream format takes from a codec: its PCM format,
/// or 32-bit little-endian float for other codecs.
pub open spec fn spec_codec_sample_format(codec: AudioCodec) -> PcmFormat {
    match codec {
        AudioCodec::Pcm(pcm) => pcm,
        _ => PcmFormat::F32(Endianness::Little),
    }
}

/// The sample format a stream format takes from a codec: its PCM format,
/// or 32-bit little-endian float for other codecs.
pub fn codec_sample_format(codec: &AudioCodec) -> (pcm: PcmFormat)
    ensures
        pcm == spec_codec_sample_format(*codec),
{
    match codec {
        AudioCodec::Pcm(pcm) => *pcm,
        _ => PcmFormat::F32(Endianness::Little),
    }
}

/// The stream format of an encoded format: its rate, its channel count (cut
/// to 16 bits) and the sample format of its codec.
pub open spec fn spec_format_of(format: EncodedAudioFormat) -> AudioFormat {
    AudioFormat {
        sample_rate: format.spec.rate,
        channels: format.spec.channels as u16,
        sample_format: spec_codec_sample_format(format.codec),
    }
}

impl From<EncodedAudioFormat> for AudioFormat {
    fn from(format: EncodedAudioFormat) -> (f: Self) {
        let spec = format.spec();
        AudioFormat {
            sample_rate: spec.rate,
            channels: spec.channels as u16,
            sample_format: codec_sample_format(&format.codec),
        }
    }
}

impl vstd::std_specs::convert::FromSpecImpl<EncodedAudioFormat> for AudioFormat {
    open spec fn obeys_from_spec() -> bool {
        true
    }

    open spec fn from_spec(format: EncodedAudioFormat) -> AudioFormat {
        spec_format_of(format)
    }
}

} // verus!
