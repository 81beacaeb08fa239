//! Raw PCM codec parameters.

use vstd::prelude::*;

use crate::audio::AudioFormat;
use crate::encoded_audio::Endianness;

verus! {

/// Raw PCM codec: a sample layout and a byte order.
pub struct PcmCodec {
    format: AudioFormat,
    endianness: Endianness,
}

impl PcmCodec {
    /// The sample layout.
    pub closed spec fn spec_format(&self) -> AudioFormat {
        self.format
    }

    /// The byte order.
    pub closed spec fn spec_endianness(&self) -> Endianness {
        self.endianness
    }

    /// A codec for the given layout and byte order.
    pub fn new(format: AudioFormat, endianness: Endianness) -> (c: Self)
        ensures
            c.spec_format() == format,
            c.spec_endianness() == endianness,
    {
        PcmCodec { format, endianness }
    }
}

} // verus!
