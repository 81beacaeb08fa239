//! Encoded audio formats and the byte layout of PCM samples.

use vstd::prelude::*;

use vstd::utf8::{decode_utf8, valid_utf8};

use crate::audio::AudioSpec;
use crate::error::CoreError;
use crate::byte_order::{
    read_be, read_le, write_be, write_le,
    be_bytes, be_value, lemma_be_bytes_of_value, lemma_be_bytes_len, lemma_be_value_bound,
    lemma_be_value_of_bytes, lemma_le_bytes_of_value, lemma_le_bytes_len, lemma_le_value_bound,
    lemma_le_value_of_bytes, lemma_pow256_values, le_bytes, le_value, pow256,
};

verus! {

/// Byte order for PCM encoded audio.
#[derive(Debug, Clone, Copy, PartialEq, Eq, Hash, Structural)]
pub enum Endianness {
    /// Little-endian byte order.
    Little,
    /// Big-endian byte order.
    Big,
}

/// Description of encoded audio: container, codec, text or binary encoding, and stream parameters.
#[derive(Debug, Clone)]
pub struct EncodedAudioFormat {
    /// Container.
    pub container: AudioContainer,
    /// Codec.
    pub codec: AudioCodec,
    /// Binary or text encoding.
    pub encoding: BinaryEncoding,
    /// Stream parameters.
    pub spec: AudioSpec,
}

impl EncodedAudioFormat {
    /// A format made of the given parts.
    pub fn new(container: AudioContainer, codec: AudioCodec, encoding: BinaryEncoding, spec: AudioSpec) -> (f: Self)
        ensures
            f.container == container,
            f.codec == codec,
            f.encoding == encoding,
            f.spec == spec,
    {
        EncodedAudioFormat { container, codec, encoding, spec }
    }

    /// The internal voice format: raw binary 32-bit little-endian float PCM, 48 kHz mono.
    pub fn internal_for_voice() -> (f: Self)
        ensures
            f.container == AudioContainer::Raw,
            f.codec == AudioCodec::Pcm(PcmFormat::F32(Endianness::Little)),
            f.encoding == BinaryEncoding::Binary,
            f.spec == (AudioSpec { rate: 48_000, channels: 1 }),
    {
        EncodedAudioFormat {
            container: AudioContainer::Raw,
            codec: AudioCodec::Pcm(PcmFormat::F32(Endianness::Little)),
            encoding: BinaryEncoding::Binary,
            spec: AudioSpec { rate: 48_000, channels: 1 },
        }
    }

    /// A copy of the container.
    pub fn container(&self) -> (c: AudioContainer)
        ensures
            c == self.container,
    {
        match &self.container {
            AudioContainer::Raw => AudioContainer::Raw,
            AudioContainer::Wav => AudioContainer::Wav,
            AudioContainer::Caf => AudioContainer::Caf,
            AudioContainer::Ogg => AudioContainer::Ogg,
            AudioContainer::Mp3 => AudioContainer::Mp3,
            AudioContainer::Mp4 => AudioContainer::Mp4,
            AudioContainer::Flac => AudioContainer::Flac,
            AudioContainer::Matroska => AudioContainer::Matroska,
            AudioContainer::Webm => AudioContainer::Webm,
            AudioContainer::Custom(name) => AudioContainer::Custom(name.clone()),
        }
    }

    /// A copy of the codec.
    pub fn codec(&self) -> (c: AudioCodec)
        ensures
            c == self.codec,
    {
        match &self.codec {
            AudioCodec::Pcm(format) => AudioCodec::Pcm(*format),
            AudioCodec::Opus => AudioCodec::Opus,
            AudioCodec::Vorbis => AudioCodec::Vorbis,
            AudioCodec::Aac => AudioCodec::Aac,
            AudioCodec::Flac => AudioCodec::Flac,
            AudioCodec::Alac => AudioCodec::Alac,
            AudioCodec::Ldac => AudioCodec::Ldac,
            AudioCodec::Mpeg3 => AudioCodec::Mpeg3,
            AudioCodec::Custom(name) => AudioCodec::Custom(name.clone()),
        }
    }

    /// A copy of the binary encoding.
    pub fn encoding(&self) -> (e: BinaryEncoding)
        ensures
            e == self.encoding,
    {
        match &self.encoding {
            BinaryEncoding::Binary => BinaryEncoding::Binary,
            BinaryEncoding::Base64 => BinaryEncoding::Base64,
            BinaryEncoding::Custom(name) => BinaryEncoding::Custom(name.clone()),
        }
    }

    /// A copy of the whole format.
    pub(crate) fn copied(&self) -> (f: Self)
        ensures
            f == *self,
    {
        EncodedAudioFormat {
            container: self.container(),
            codec: self.codec(),
            encoding: self.encoding(),
            spec: self.spec,
        }
    }

    /// The stream parameters.
    pub fn spec(&self) -> (spec: AudioSpec)
        ensures
            spec == self.spec,
    {
        self.spec
    }

}

#[verifier::external_type_specification]
#[verifier::external_body]
pub struct ExUtf8Error(core::str::Utf8Error);

#[verifier::external_type_specification]
#[verifier::external_body]
pub struct ExFromUtf8Error(std::string::FromUtf8Error);

/// Calls `core::str::from_utf8`: the bytes as text when they are valid UTF-8.
///
/// Trusted to succeed exactly on valid UTF-8, with the characters it encodes.
#[verifier::external_body]
fn str_from_utf8(bytes: &[u8]) -> (r: Result<&str, core::str::Utf8Error>)
    ensures
        r is Ok <==> valid_utf8(bytes@),
        r matches Ok(s) ==> s@ == decode_utf8(bytes@),
{
    core::str::from_utf8(bytes)
}

/// Calls `String::from_utf8`: the bytes as a string when they are valid UTF-8.
///
/// Trusted to succeed exactly on valid UTF-8, with the characters it encodes.
#[verifier::external_body]
fn string_from_utf8(bytes: Vec<u8>) -> (r: Result<String, std::string::FromUtf8Error>)
    ensures
        r is Ok <==> valid_utf8(bytes@),
        r matches Ok(s) ==> s@ == decode_utf8(bytes@),
{
    String::from_utf8(bytes)
}

/// Encoded audio: a format and the bytes in it.
#[derive(Debug, Clone)]
pub struct EncodedAudio {
    format: EncodedAudioFormat,
    data: Vec<u8>,
}

impl EncodedAudio {
    /// The format of the data.
    pub closed spec fn spec_format(&self) -> EncodedAudioFormat {
        self.format
    }

    /// The encoded bytes.
    pub closed spec fn spec_data(&self) -> Seq<u8> {
        self.data@
    }

    /// Encoded audio in a PCM format.
    pub fn new(format: EncodedAudioFormat, data: Vec<u8>) -> (e: EncodedAudio)
        requires
            format.codec is Pcm,
        ensures
            e.spec_format() == format,
            e.spec_data() == data@,
    {
        EncodedAudio { format, data }
    }

    /// The container.
    pub fn container(&self) -> (c: &AudioContainer)
        ensures
            *c == self.spec_format().container,
    {
        &self.format.container
    }

    /// The codec.
    pub fn codec(&self) -> (c: &AudioCodec)
        ensures
            *c == self.spec_format().codec,
    {
        &self.format.codec
    }

    /// The binary or text encoding.
    pub fn encoding(&self) -> (e: &BinaryEncoding)
        ensures
            *e == self.spec_format().encoding,
    {
        &self.format.encoding
    }

    /// The stream parameters.
    pub fn spec(&self) -> (s: &AudioSpec)
        ensures
            *s == self.spec_format().spec,
    {
        &self.format.spec
    }

    /// The encoded bytes.
    pub fn bytes(&self) -> (b: &[u8])
        ensures
            b@ == self.spec_data(),
    {
        self.data.as_slice()
    }

    /// The data as text: base64-encoded audio whose bytes are valid UTF-8.
    pub fn as_str(&self) -> (r: Result<&str, CoreError>)
        ensures
            r is Ok <==> (self.spec_format().encoding is Base64 && valid_utf8(self.spec_data())),
            r matches Ok(s) ==> s@ == decode_utf8(self.spec_data()),
            r matches Err(e) ==> (e is NotText <==> !(self.spec_format().encoding is Base64)),
            r matches Err(e) ==> (e is NotText || e is InvalidUtf8),
    {
        match self.format.encoding {
            BinaryEncoding::Base64 => match str_from_utf8(self.data.as_slice()) {
                Ok(s) => Ok(s),
                Err(_) => Err(CoreError::InvalidUtf8),
            },
            _ => Err(CoreError::NotText),
        }
    }

    /// The data as an owned string: base64-encoded audio whose bytes are valid UTF-8.
    pub fn into_string(self) -> (r: Result<String, CoreError>)
        ensures
            r is Ok <==> (self.spec_format().encoding is Base64 && valid_utf8(self.spec_data())),
            r matches Ok(s) ==> s@ == decode_utf8(self.spec_data()),
            r matches Err(e) ==> (e is NotText <==> !(self.spec_format().encoding is Base64)),
            r matches Err(e) ==> (e is NotText || e is InvalidUtf8),
    {
        match self.format.encoding {
            BinaryEncoding::Base64 => match string_from_utf8(self.data) {
                Ok(s) => Ok(s),
                Err(_) => Err(CoreError::InvalidUtf8),
            },
            _ => Err(CoreError::NotText),
        }
    }
}

/// Audio container.
#[derive(Debug, Clone, PartialEq, Eq)]
pub enum AudioContainer {
    Raw,
    Wav,
    Caf,
    Ogg,
    Mp3,
    Mp4,
    Flac,
    Matroska,
    Webm,
    Custom(String),
}

/// Audio codec.
#[derive(Debug, Clone, PartialEq, Eq)]
pub enum AudioCodec {
    Pcm(PcmFormat),
    Opus,
    Vorbis,
    Aac,
    Flac,
    Alac,
    Ldac,
    Mpeg3,
    Custom(String),
}

/// Audio encoding.
#[derive(Debug, Clone, PartialEq, Eq)]
pub enum BinaryEncoding {
    Binary,
    Base64,
    Custom(String),
}

/// Representation of one PCM sample.
#[derive(Debug, Clone, Copy, PartialEq, Eq, Hash, Structural)]
pub enum PcmFormat {
    I8,
    I16(Endianness),
    I24(Endianness),
    I32(Endianness),
    I64(Endianness),
    U8,
    U16(Endianness),
    U24(Endianness),
    U32(Endianness),
    U64(Endianness),
    F32(Endianness),
    F64(Endianness),
    DsdU8,
    DsdU16(Endianness),
    DsdU32(Endianness),
}

/// The stored value of one PCM sample, as the integer that its bytes hold.
///
/// Signed variants hold the two's-complement value, `I24` within
/// `[-2^23, 2^23)` and `U24` below `2^24`; `F32` and `F64` hold the IEEE-754
/// bit pattern of the floating-point sample.
#[derive(Debug, Clone, Copy, PartialEq, Eq, Hash, Structural)]
pub enum PcmSample {
    I8(i8),
    I16(i16),
    I24(i32),
    I32(i32),
    I64(i64),
    U8(u8),
    U16(u16),
    U24(u32),
    U32(u32),
    U64(u64),
    F32(u32),
    F64(u64),
}

/// Two's-complement encoding of `v` in `n` bytes.
pub open spec fn twos_complement(v: int, n: nat) -> nat {
    if v < 0 {
        (v + pow256(n)) as nat
    } else {
        v as nat
    }
}

/// The signed number that `n` bytes holding `v` stand for in two's complement.
pub open spec fn from_twos_complement(v: nat, n: nat) -> int {
    if v * 2 >= pow256(n) {
        v - pow256(n)
    } else {
        v as int
    }
}

impl PcmSample {
    /// The unsigned number that the sample's bytes hold.
    pub open spec fn raw(self) -> nat {
        match self {
            PcmSample::I8(v) => twos_complement(v as int, 1),
            PcmSample::I16(v) => twos_complement(v as int, 2),
            PcmSample::I24(v) => twos_complement(v as int, 3),
            PcmSample::I32(v) => twos_complement(v as int, 4),
            PcmSample::I64(v) => twos_complement(v as int, 8),
            PcmSample::U8(v) => v as nat,
            PcmSample::U16(v) => v as nat,
            PcmSample::U24(v) => v as nat,
            PcmSample::U32(v) => v as nat,
            PcmSample::U64(v) => v as nat,
            PcmSample::F32(v) => v as nat,
            PcmSample::F64(v) => v as nat,
        }
    }
}

impl PcmFormat {
    /// Size of one sample in bytes.
    pub open spec fn spec_sample_size(self) -> nat {
        match self {
            PcmFormat::U8 => 1,
            PcmFormat::I16(_) => 2,
            PcmFormat::I24(_) => 3,
            PcmFormat::I32(_) => 4,
            PcmFormat::F32(_) => 4,
            PcmFormat::F64(_) => 8,
            PcmFormat::I8 => 1,
            PcmFormat::I64(_) => 8,
            PcmFormat::U16(_) => 2,
            PcmFormat::U24(_) => 3,
            PcmFormat::U32(_) => 4,
            PcmFormat::U64(_) => 8,
            PcmFormat::DsdU8 => 1,
            PcmFormat::DsdU16(_) => 2,
            PcmFormat::DsdU32(_) => 4,
        }
    }

    /// Returns the size of a single sample in bytes.
    pub fn sample_size(&self) -> (n: usize)
        ensures
            n == self.spec_sample_size(),
    {
        match self {
            Self::U8 => 1,
            Self::I16(_) => 2,
            Self::I24(_) => 3,
            Self::I32(_) => 4,
            Self::F32(_) => 4,
            Self::F64(_) => 8,
            Self::I8 => 1,
            Self::I64(_) => 8,
            Self::U16(_) => 2,
            Self::U24(_) => 3,
            Self::U32(_) => 4,
            Self::U64(_) => 8,
            Self::DsdU8 => 1,
            Self::DsdU16(_) => 2,
            Self::DsdU32(_) => 4,
        }
    }

    /// DSD formats, whose samples this library does not convert.
    pub open spec fn is_dsd(self) -> bool {
        self is DsdU8 || self is DsdU16 || self is DsdU32
    }

    /// The byte order of multi-byte samples (single bytes read the same either way).
    pub open spec fn byte_order(self) -> Endianness {
        match self {
            PcmFormat::I16(e) | PcmFormat::I24(e) | PcmFormat::I32(e) | PcmFormat::I64(e)
            | PcmFormat::U16(e) | PcmFormat::U24(e) | PcmFormat::U32(e) | PcmFormat::U64(e)
            | PcmFormat::F32(e) | PcmFormat::F64(e) | PcmFormat::DsdU16(e) | PcmFormat::DsdU32(e) => e,
            _ => Endianness::Little,
        }
    }

    /// True when `sample` is a value of this format.
    pub open spec fn holds(self, sample: PcmSample) -> bool {
        match (self, sample) {
            (PcmFormat::I8, PcmSample::I8(_)) => true,
            (PcmFormat::I16(_), PcmSample::I16(_)) => true,
            (PcmFormat::I24(_), PcmSample::I24(v)) => -0x80_0000 <= v < 0x80_0000,
            (PcmFormat::I32(_), PcmSample::I32(_)) => true,
            (PcmFormat::I64(_), PcmSample::I64(_)) => true,
            (PcmFormat::U8, PcmSample::U8(_)) => true,
            (PcmFormat::U16(_), PcmSample::U16(_)) => true,
            (PcmFormat::U24(_), PcmSample::U24(v)) => v < 0x100_0000,
            (PcmFormat::U32(_), PcmSample::U32(_)) => true,
            (PcmFormat::U64(_), PcmSample::U64(_)) => true,
            (PcmFormat::F32(_), PcmSample::F32(_)) => true,
            (PcmFormat::F64(_), PcmSample::F64(_)) => true,
            _ => false,
        }
    }

    /// The bytes of `v` in this format's size and byte order.
    pub open spec fn bytes_of(self, v: nat) -> Seq<u8> {
        match self.byte_order() {
            Endianness::Little => le_bytes(v, self.spec_sample_size()),
            Endianness::Big => be_bytes(v, self.spec_sample_size()),
        }
    }

    /// The number that `bytes` hold in this format's byte order.
    pub open spec fn value_of(self, bytes: Seq<u8>) -> nat {
        match self.byte_order() {
            Endianness::Little => le_value(bytes),
            Endianness::Big => be_value(bytes),
        }
    }

    /// The bytes that encode `sample` in this format.
    pub open spec fn encoded(self, sample: PcmSample) -> Seq<u8> {
        self.bytes_of(sample.raw())
    }

    /// The sample that `bytes` (one sample's worth) encode in this format.
    pub open spec fn decoded(self, bytes: Seq<u8>) -> PcmSample {
        let v = self.value_of(bytes);
        match self {
            PcmFormat::I8 => PcmSample::I8(from_twos_complement(v, 1) as i8),
            PcmFormat::I16(_) => PcmSample::I16(from_twos_complement(v, 2) as i16),
            PcmFormat::I24(_) => PcmSample::I24(from_twos_complement(v, 3) as i32),
            PcmFormat::I32(_) => PcmSample::I32(from_twos_complement(v, 4) as i32),
            PcmFormat::I64(_) => PcmSample::I64(from_twos_complement(v, 8) as i64),
            PcmFormat::U16(_) => PcmSample::U16(v as u16),
            PcmFormat::U24(_) => PcmSample::U24(v as u32),
            PcmFormat::U32(_) => PcmSample::U32(v as u32),
            PcmFormat::U64(_) => PcmSample::U64(v as u64),
            PcmFormat::F32(_) => PcmSample::F32(v as u32),
            PcmFormat::F64(_) => PcmSample::F64(v as u64),
            _ => PcmSample::U8(v as u8),
        }
    }
}

proof fn lemma_twos_complement_roundtrip(v: int, n: nat)
    requires
        pow256(n) >= 2,
        -pow256(n) <= v * 2 < pow256(n),
    ensures
        twos_complement(v, n) < pow256(n),
        from_twos_complement(twos_complement(v, n), n) == v,
{
}

proof fn lemma_from_twos_complement_roundtrip(v: nat, n: nat)
    requires
        v < pow256(n),
    ensures
        -pow256(n) <= from_twos_complement(v, n) * 2 < pow256(n),
        twos_complement(from_twos_complement(v, n), n) == v,
{
}

impl PcmSample {
    /// The unsigned number that the sample's bytes hold.
    fn raw_value(&self) -> (r: u64)
        requires
            self is I24 ==> -0x80_0000 <= self->I24_0 < 0x80_0000,
        ensures
            r as nat == self.raw(),
    {
        proof {
            lemma_pow256_values();
        }
        match *self {
            PcmSample::I8(v) => if v < 0 { (v as i16 + 0x100) as u64 } else { v as u64 },
            PcmSample::I16(v) => if v < 0 { (v as i32 + 0x1_0000) as u64 } else { v as u64 },
            PcmSample::I24(v) => if v < 0 { (v + 0x100_0000) as u64 } else { v as u64 },
            PcmSample::I32(v) => if v < 0 { (v as i64 + 0x1_0000_0000) as u64 } else { v as u64 },
            PcmSample::I64(v) => if v < 0 {
                (v + 1 + i64::MAX) as u64 + i64::MAX as u64 + 1
            } else {
                v as u64
            },
            PcmSample::U8(v) => v as u64,
            PcmSample::U16(v) => v as u64,
            PcmSample::U24(v) => v as u64,
            PcmSample::U32(v) => v as u64,
            PcmSample::U64(v) => v,
            PcmSample::F32(v) => v as u64,
            PcmSample::F64(v) => v,
        }
    }
}

impl PcmFormat {
    /// Writes the bytes of `sample` to the front of `out`.
    ///
    /// `sample` must be a value of this format and `out` must have room for one sample;
    /// the bytes of `out` after the sample are left as they were.
    pub fn write_sample(&self, sample: PcmSample, out: &mut [u8])
        requires
            self.holds(sample),
            old(out)@.len() >= self.spec_sample_size(),
        ensures
            final(out)@.len() == old(out)@.len(),
            final(out)@.subrange(0, self.spec_sample_size() as int) == self.encoded(sample),
            final(out)@.subrange(self.spec_sample_size() as int, old(out)@.len() as int)
                == old(out)@.subrange(self.spec_sample_size() as int, old(out)@.len() as int),
    {
        let raw = sample.raw_value();
        let n = self.sample_size();
        match self {
            Self::I8 | Self::U8 | Self::DsdU8 => write_le(raw, n, out),
            Self::I16(e) | Self::I24(e) | Self::I32(e) | Self::I64(e) | Self::U16(e) | Self::U24(e)
            | Self::U32(e) | Self::U64(e) | Self::F32(e) | Self::F64(e) | Self::DsdU16(e)
            | Self::DsdU32(e) => match e {
                Endianness::Little => write_le(raw, n, out),
                Endianness::Big => write_be(raw, n, out),
            },
        }
    }

    /// Reads one sample from the front of `input`.
    ///
    /// `input` must hold at least one sample; DSD formats are not supported.
    pub fn read_sample(&self, input: &[u8]) -> (sample: PcmSample)
        requires
            !self.is_dsd(),
            input@.len() >= self.spec_sample_size(),
        ensures
            sample == self.decoded(input@.subrange(0, self.spec_sample_size() as int)),
    {
        proof {
            lemma_pow256_values();
            lemma_le_value_bound(input@.subrange(0, self.spec_sample_size() as int));
            lemma_be_value_bound(input@.subrange(0, self.spec_sample_size() as int));
        }
        let n = self.sample_size();
        let v = match self {
            Self::I8 | Self::U8 | Self::DsdU8 => read_le(input, n),
            Self::I16(e) | Self::I24(e) | Self::I32(e) | Self::I64(e) | Self::U16(e) | Self::U24(e)
            | Self::U32(e) | Self::U64(e) | Self::F32(e) | Self::F64(e) | Self::DsdU16(e)
            | Self::DsdU32(e) => match e {
                Endianness::Little => read_le(input, n),
                Endianness::Big => read_be(input, n),
            },
        };
        match self {
            Self::I8 => PcmSample::I8(if v >= 0x80 { (v as i16 - 0x100) as i8 } else { v as i8 }),
            Self::I16(_) => PcmSample::I16(if v >= 0x8000 { (v as i32 - 0x1_0000) as i16 } else { v as i16 }),
            Self::I24(_) => PcmSample::I24(if v >= 0x80_0000 { v as i32 - 0x100_0000 } else { v as i32 }),
            Self::I32(_) => PcmSample::I32(
                if v >= 0x8000_0000 { (v as i64 - 0x1_0000_0000) as i32 } else { v as i32 },
            ),
            Self::I64(_) => PcmSample::I64(
                if v >= 0x8000_0000_0000_0000 {
                    (v - 0x8000_0000_0000_0000) as i64 - i64::MAX - 1
                } else {
                    v as i64
                },
            ),
            Self::U16(_) => PcmSample::U16(v as u16),
            Self::U24(_) => PcmSample::U24(v as u32),
            Self::U32(_) => PcmSample::U32(v as u32),
            Self::U64(_) => PcmSample::U64(v),
            Self::F32(_) => PcmSample::F32(v as u32),
            Self::F64(_) => PcmSample::F64(v),
            _ => PcmSample::U8(v as u8),
        }
    }

    proof fn lemma_value_of_bytes_of(self, v: nat)
        requires
            v < pow256(self.spec_sample_size()),
        ensures
            self.value_of(self.bytes_of(v)) == v,
            self.bytes_of(v).len() == self.spec_sample_size(),
    {
        let n = self.spec_sample_size();
        lemma_le_value_of_bytes(v, n);
        lemma_be_value_of_bytes(v, n);
        lemma_le_bytes_len(v, n);
        lemma_be_bytes_len(v, n);
    }

    proof fn lemma_bytes_of_value_of(self, bytes: Seq<u8>)
        requires
            bytes.len() == self.spec_sample_size(),
        ensures
            self.bytes_of(self.value_of(bytes)) == bytes,
            self.value_of(bytes) < pow256(self.spec_sample_size()),
    {
        lemma_le_bytes_of_value(bytes);
        lemma_be_bytes_of_value(bytes);
        lemma_le_value_bound(bytes);
        lemma_be_value_bound(bytes);
    }

    /// Reading back the bytes of a sample of this format gives the same sample.
    pub proof fn lemma_decode_encoded(self, sample: PcmSample)
        requires
            self.holds(sample),
        ensures
            self.encoded(sample).len() == self.spec_sample_size(),
            self.decoded(self.encoded(sample)) == sample,
    {
        lemma_pow256_values();
        let n = self.spec_sample_size();
        match sample {
            PcmSample::I8(v) => lemma_twos_complement_roundtrip(v as int, n),
            PcmSample::I16(v) => lemma_twos_complement_roundtrip(v as int, n),
            PcmSample::I24(v) => lemma_twos_complement_roundtrip(v as int, n),
            PcmSample::I32(v) => lemma_twos_complement_roundtrip(v as int, n),
            PcmSample::I64(v) => lemma_twos_complement_roundtrip(v as int, n),
            _ => {},
        }
        self.lemma_value_of_bytes_of(sample.raw());
    }

    /// Any sample's worth of bytes decodes to a sample of this format, which
    /// encodes back to the same bytes.
    pub proof fn lemma_encode_decoded(self, bytes: Seq<u8>)
        requires
            !self.is_dsd(),
            bytes.len() == self.spec_sample_size(),
        ensures
            self.holds(self.decoded(bytes)),
            self.encoded(self.decoded(bytes)) == bytes,
    {
        lemma_pow256_values();
        let n = self.spec_sample_size();
        self.lemma_bytes_of_value_of(bytes);
        let v = self.value_of(bytes);
        match self {
            PcmFormat::I8 | PcmFormat::I16(_) | PcmFormat::I24(_) | PcmFormat::I32(_) | PcmFormat::I64(_) => {
                lemma_from_twos_complement_roundtrip(v, n);
            },
            _ => {},
        }
    }
}

/// The `n` bytes of `v` in byte order `e`: least significant first for
/// little-endian, most significant first for big-endian.
pub open spec fn bytes_in_order(e: Endianness, v: nat, n: nat) -> Seq<u8> {
    match e {
        Endianness::Little => le_bytes(v, n),
        Endianness::Big => be_bytes(v, n),
    }
}

/// The number that `bytes` hold in byte order `e`.
pub open spec fn value_in_order(e: Endianness, bytes: Seq<u8>) -> nat {
    match e {
        Endianness::Little => le_value(bytes),
        Endianness::Big => be_value(bytes),
    }
}

/// Every multi-byte format writes and reads its samples in the byte order it
/// names (a big-endian format most significant byte first, a little-endian
/// one least significant first), in as many bytes as the sample type has;
/// single-byte formats write the one byte of the value.
pub proof fn lemma_formats_use_their_byte_order(e: Endianness, sample: PcmSample, bytes: Seq<u8>)
    ensures
        PcmFormat::I16(e).encoded(sample) == bytes_in_order(e, sample.raw(), 2),
        PcmFormat::I24(e).encoded(sample) == bytes_in_order(e, sample.raw(), 3),
        PcmFormat::I32(e).encoded(sample) == bytes_in_order(e, sample.raw(), 4),
        PcmFormat::I64(e).encoded(sample) == bytes_in_order(e, sample.raw(), 8),
        PcmFormat::U16(e).encoded(sample) == bytes_in_order(e, sample.raw(), 2),
        PcmFormat::U24(e).encoded(sample) == bytes_in_order(e, sample.raw(), 3),
        PcmFormat::U32(e).encoded(sample) == bytes_in_order(e, sample.raw(), 4),
        PcmFormat::U64(e).encoded(sample) == bytes_in_order(e, sample.raw(), 8),
        PcmFormat::F32(e).encoded(sample) == bytes_in_order(e, sample.raw(), 4),
        PcmFormat::F64(e).encoded(sample) == bytes_in_order(e, sample.raw(), 8),
        PcmFormat::DsdU16(e).encoded(sample) == bytes_in_order(e, sample.raw(), 2),
        PcmFormat::DsdU32(e).encoded(sample) == bytes_in_order(e, sample.raw(), 4),
        PcmFormat::I8.encoded(sample) == le_bytes(sample.raw(), 1),
        PcmFormat::U8.encoded(sample) == le_bytes(sample.raw(), 1),
        PcmFormat::DsdU8.encoded(sample) == le_bytes(sample.raw(), 1),
        PcmFormat::I16(e).value_of(bytes) == value_in_order(e, bytes),
        PcmFormat::I24(e).value_of(bytes) == value_in_order(e, bytes),
        PcmFormat::I32(e).value_of(bytes) == value_in_order(e, bytes),
        PcmFormat::I64(e).value_of(bytes) == value_in_order(e, bytes),
        PcmFormat::U16(e).value_of(bytes) == value_in_order(e, bytes),
        PcmFormat::U24(e).value_of(bytes) == value_in_order(e, bytes),
        PcmFormat::U32(e).value_of(bytes) == value_in_order(e, bytes),
        PcmFormat::U64(e).value_of(bytes) == value_in_order(e, bytes),
        PcmFormat::F32(e).value_of(bytes) == value_in_order(e, bytes),
        PcmFormat::F64(e).value_of(bytes) == value_in_order(e, bytes),
        PcmFormat::DsdU16(e).value_of(bytes) == value_in_order(e, bytes),
        PcmFormat::DsdU32(e).value_of(bytes) == value_in_order(e, bytes),
{
}

/// A 32-bit float sample written big-endian puts the most significant byte
/// of its bit pattern first; read back big-endian, the bytes give the same
/// bit pattern.
pub proof fn lemma_f32_big_endian_layout(bits: u32)
    ensures
        PcmFormat::F32(Endianness::Big).encoded(PcmSample::F32(bits)) == seq![
            (bits / 0x100_0000) as u8,
            ((bits / 0x1_0000) % 256) as u8,
            ((bits / 0x100) % 256) as u8,
            (bits % 256) as u8,
        ],
        PcmFormat::F32(Endianness::Big).decoded(PcmFormat::F32(Endianness::Big).encoded(PcmSample::F32(bits)))
            == PcmSample::F32(bits),
{
    reveal_with_fuel(be_bytes, 5);
    let b = PcmFormat::F32(Endianness::Big).encoded(PcmSample::F32(bits));
    assert(b =~= seq![
        (bits / 0x100_0000) as u8,
        ((bits / 0x1_0000) % 256) as u8,
        ((bits / 0x100) % 256) as u8,
        (bits % 256) as u8,
    ]);
    PcmFormat::F32(Endianness::Big).lemma_decode_encoded(PcmSample::F32(bits));
}

} // verus!
