//! Choice of encoder and decoder for an encoded audio format.

use vstd::prelude::*;

use crate::audio::AudioSpec;
use crate::encoded_audio::{AudioCodec, AudioContainer, BinaryEncoding, EncodedAudioFormat};
use crate::error::CoreError;
use crate::encoders::{PcmBase64Decoder, PcmBase64Encoder, PcmBinaryDecoder, PcmBinaryEncoder};

verus! {

/// An encoder for one of the supported formats.
pub enum AudioEncoder {
    /// Raw binary PCM.
    Binary(PcmBinaryEncoder),
    /// Base64 text of raw binary PCM.
    Base64(PcmBase64Encoder),
}

/// A decoder for one of the supported formats.
pub enum AudioDecoder {
    /// Raw binary PCM.
    Binary(PcmBinaryDecoder),
    /// Base64 text of raw binary PCM.
    Base64(PcmBase64Decoder),
}

/// True for the formats that have an encoder and a decoder: raw PCM, binary or base64.
pub open spec fn is_supported(format: EncodedAudioFormat) -> bool {
    &&& format.container is Raw
    &&& format.codec is Pcm
    &&& (format.encoding is Binary || format.encoding is Base64)
}

/// Whether a format has an encoder and a decoder depends only on its
/// container, codec and encoding, never on its stream parameters; every raw
/// PCM format, binary or base64, has them, whatever its rate and channel count.
pub proof fn lemma_support_ignores_stream_parameters(format: EncodedAudioFormat, spec: AudioSpec)
    ensures
        is_supported(format) == is_supported(EncodedAudioFormat { spec, ..format }),
        format.container is Raw && format.codec is Pcm && format.encoding is Binary ==> is_supported(format),
        format.container is Raw && format.codec is Pcm && format.encoding is Base64 ==> is_supported(format),
        !(format.container is Raw) ==> !is_supported(format),
        !(format.codec is Pcm) ==> !is_supported(format),
        format.encoding is Custom ==> !is_supported(format),
{
}

/// Factory for creating audio encoders and decoders.
pub struct AudioCodecs;

impl AudioCodecs {
    /// Returns an encoder for the specified format: binary or base64 raw PCM.
    pub fn encoder(format: &EncodedAudioFormat) -> (r: Result<AudioEncoder, CoreError>)
        ensures
            r is Ok <==> is_supported(*format),
            r matches Ok(e) ==> match e {
                AudioEncoder::Binary(b) => format.encoding is Binary && b.spec_format() == *format,
                AudioEncoder::Base64(b) => format.encoding is Base64 && b.spec_format() == *format,
            },
            r matches Err(e) ==> e == CoreError::UnsupportedAudioFormat(*format),
    {
        match (&format.container, &format.codec, &format.encoding) {
            (AudioContainer::Raw, AudioCodec::Pcm(_), BinaryEncoding::Binary) => match PcmBinaryEncoder::new(format) {
                Ok(e) => Ok(AudioEncoder::Binary(e)),
                Err(e) => Err(e),
            },
            (AudioContainer::Raw, AudioCodec::Pcm(_), BinaryEncoding::Base64) => match PcmBase64Encoder::new(format) {
                Ok(e) => Ok(AudioEncoder::Base64(e)),
                Err(e) => Err(e),
            },
            _ => Err(CoreError::UnsupportedAudioFormat(format.copied())),
        }
    }

    /// Returns a decoder for the specified format: binary or base64 raw PCM.
    pub fn decoder(format: &EncodedAudioFormat) -> (r: Result<AudioDecoder, CoreError>)
        ensures
            r is Ok <==> is_supported(*format),
            r matches Ok(d) ==> match d {
                AudioDecoder::Binary(b) => format.encoding is Binary && b.spec_format() == *format,
                AudioDecoder::Base64(b) => format.encoding is Base64 && b.spec_format() == *format,
            },
            r matches Err(e) ==> e == CoreError::UnsupportedAudioFormat(*format),
    {
        match (&format.container, &format.codec, &format.encoding) {
            (AudioContainer::Raw, AudioCodec::Pcm(_), BinaryEncoding::Binary) => match PcmBinaryDecoder::new(format) {
                Ok(d) => Ok(AudioDecoder::Binary(d)),
                Err(e) => Err(e),
            },
            (AudioContainer::Raw, AudioCodec::Pcm(_), BinaryEncoding::Base64) => match PcmBase64Decoder::new(format) {
                Ok(d) => Ok(AudioDecoder::Base64(d)),
                Err(e) => Err(e),
            },
            _ => Err(CoreError::UnsupportedAudioFormat(format.copied())),
        }
    }
}

} // verus!
