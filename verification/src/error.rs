//! Errors of the library's fallible operations.

use vstd::prelude::*;

use crate::encoded_audio::EncodedAudioFormat;

verus! {

/// Errors of codec selection and of encoded audio access.
#[derive(Debug)]
pub enum CoreError {
    /// The format is not one this library encodes or decodes.
    UnsupportedAudioFormat(EncodedAudioFormat),
    /// The encoded audio is not text.
    NotText,
    /// The encoded audio's text is not valid UTF-8.
    InvalidUtf8,
    /// The text is not valid standard base64.
    InvalidBase64,
    /// The decoded bytes are not whole frames of samples that can be decoded
    /// (a stream without channels, a DSD format, or a partial frame).
    UndecodableSamples,
    /// No conversion between these channel counts.
    UnsupportedChannelConversion { from: usize, to: usize },
}

} // verus!
