//! Raw PCM encoders and decoders of sample sequences.

use vstd::prelude::*;

use crate::convert::{base64_decode, base64_encode, spec_base64_decode, spec_base64_encode};
use crate::error::CoreError;
use crate::encoded_audio::{
    AudioCodec, EncodedAudioFormat, PcmFormat, PcmSample,
};

verus! {

impl PcmFormat {
    /// The bytes of `samples`, one after another.
    pub open spec fn encoded_all(self, samples: Seq<PcmSample>) -> Seq<u8>
        decreases samples.len(),
    {
        if samples.len() == 0 {
            Seq::empty()
        } else {
            self.encoded_all(samples.drop_last()) + self.encoded(samples.last())
        }
    }

    /// The `count` samples that the front of `bytes` holds, one after another.
    pub open spec fn decoded_all(self, bytes: Seq<u8>, count: nat) -> Seq<PcmSample> {
        Seq::new(
            count,
            |i: int|
                self.decoded(
                    bytes.subrange(i * self.spec_sample_size(), (i + 1) * self.spec_sample_size()),
                ),
        )
    }
}

impl PcmFormat {
    proof fn lemma_encoded_all_len(self, samples: Seq<PcmSample>)
        requires
            forall|i: int| 0 <= i < samples.len() ==> self.holds(#[trigger] samples[i]),
        ensures
            self.encoded_all(samples).len() == samples.len() * self.spec_sample_size(),
        decreases samples.len(),
    {
        if samples.len() > 0 {
            let rest = samples.drop_last();
            assert forall|i: int| 0 <= i < rest.len() implies self.holds(#[trigger] rest[i]) by {
                assert(rest[i] == samples[i]);
            }
            self.lemma_encoded_all_len(rest);
            self.lemma_decode_encoded(samples.last());
            let n = samples.len();
            let z = self.spec_sample_size();
            assert((n - 1) * z + z == n * z) by (nonlinear_arith);
        }
    }

    proof fn lemma_encoded_all_chunk(self, samples: Seq<PcmSample>, i: int)
        requires
            forall|k: int| 0 <= k < samples.len() ==> self.holds(#[trigger] samples[k]),
            0 <= i < samples.len(),
        ensures
            self.encoded_all(samples).subrange(i * self.spec_sample_size(), (i + 1) * self.spec_sample_size())
                == self.encoded(samples[i]),
        decreases samples.len(),
    {
        let rest = samples.drop_last();
        let z = self.spec_sample_size();
        let n = samples.len();
        assert forall|k: int| 0 <= k < rest.len() implies self.holds(#[trigger] rest[k]) by {
            assert(rest[k] == samples[k]);
        }
        self.lemma_encoded_all_len(rest);
        self.lemma_decode_encoded(samples.last());
        let all = self.encoded_all(samples);
        let prefix = self.encoded_all(rest);
        assert(all == prefix + self.encoded(samples.last()));
        if i == n - 1 {
            assert(i * z == prefix.len()) by (nonlinear_arith)
                requires
                    i == n - 1,
                    prefix.len() == (n - 1) * z,
            ;
            assert((i + 1) * z == i * z + z) by (nonlinear_arith);
            assert(all.subrange(i * z, (i + 1) * z) == self.encoded(samples.last()));
        } else {
            self.lemma_encoded_all_chunk(rest, i);
            assert((i + 1) * z <= (n - 1) * z) by (nonlinear_arith)
                requires
                    i < n - 1,
                    z >= 0,
            ;
            assert(0 <= i * z) by (nonlinear_arith)
                requires
                    i >= 0,
                    z >= 0,
            ;
            assert(i * z <= (i + 1) * z) by (nonlinear_arith)
                requires
                    z >= 0,
            ;
            assert(all.subrange(i * z, (i + 1) * z) == prefix.subrange(i * z, (i + 1) * z));
            assert(rest[i] == samples[i]);
        }
    }

    /// Decoding the bytes of some samples of this format gives back the same samples.
    pub proof fn lemma_decode_all_encoded(self, samples: Seq<PcmSample>)
        requires
            forall|i: int| 0 <= i < samples.len() ==> self.holds(#[trigger] samples[i]),
        ensures
            self.encoded_all(samples).len() == samples.len() * self.spec_sample_size(),
            self.decoded_all(self.encoded_all(samples), samples.len()) == samples,
    {
        self.lemma_encoded_all_len(samples);
        let d = self.decoded_all(self.encoded_all(samples), samples.len());
        assert forall|i: int| 0 <= i < samples.len() implies #[trigger] d[i] == samples[i] by {
            self.lemma_encoded_all_chunk(samples, i);
            self.lemma_decode_encoded(samples[i]);
        }
        assert(d =~= samples);
    }
}

/// Encoder of samples to raw binary PCM.
pub struct PcmBinaryEncoder {
    format: EncodedAudioFormat,
    pcm_format: PcmFormat,
}

impl PcmBinaryEncoder {
    /// The PCM format this encoder writes.
    pub closed spec fn spec_pcm_format(&self) -> PcmFormat {
        self.pcm_format
    }

    /// The format this encoder produces.
    pub closed spec fn spec_format(&self) -> EncodedAudioFormat {
        self.format
    }

    /// An encoder for a PCM format; any other codec is unsupported.
    pub fn new(format: &EncodedAudioFormat) -> (r: Result<Self, CoreError>)
        ensures
            r is Ok <==> format.codec is Pcm,
            r matches Ok(e) ==> e.spec_pcm_format() == format.codec->Pcm_0 && e.spec_format() == *format,
            r matches Err(e) ==> e == CoreError::UnsupportedAudioFormat(*format),
    {
        let pcm_format = match &format.codec {
            AudioCodec::Pcm(f) => *f,
            _ => {
                return Err(CoreError::UnsupportedAudioFormat(format.copied()));
            },
        };
        Ok(PcmBinaryEncoder { format: format.copied(), pcm_format })
    }

    /// The format this encoder produces.
    pub fn format(&self) -> (f: &EncodedAudioFormat)
        ensures
            *f == self.spec_format(),
    {
        &self.format
    }

    /// The PCM format this encoder writes.
    pub fn pcm_format(&self) -> (f: PcmFormat)
        ensures
            f == self.spec_pcm_format(),
    {
        self.pcm_format
    }

    /// Replaces the contents of `output` with the bytes of `samples`, one after another.
    pub fn encode_samples(&self, samples: &[PcmSample], output: &mut Vec<u8>)
        requires
            forall|i: int| 0 <= i < samples@.len() ==> self.spec_pcm_format().holds(#[trigger] samples@[i]),
            samples@.len() * 8 <= usize::MAX,
        ensures
            final(output)@ == self.spec_pcm_format().encoded_all(samples@),
    {
        let format = self.pcm_format;
        let size = format.sample_size();
        output.clear();
        let mut scratch: Vec<u8> = vec![0u8; 8];
        let mut i: usize = 0;
        while i < samples.len()
            invariant
                i <= samples@.len(),
                format == self.spec_pcm_format(),
                size == format.spec_sample_size(),
                size <= 8,
                scratch@.len() == 8,
                forall|k: int| 0 <= k < samples@.len() ==> format.holds(#[trigger] samples@[k]),
                output@ == format.encoded_all(samples@.subrange(0, i as int)),
            decreases samples@.len() - i,
        {
            format.write_sample(samples[i], scratch.as_mut_slice());
            let ghost before = output@;
            let mut k: usize = 0;
            while k < size
                invariant
                    k <= size <= 8,
                    scratch@.len() == 8,
                    output@ == before + scratch@.subrange(0, k as int),
                decreases size - k,
            {
                output.push(scratch[k]);
                k = k + 1;
                assert(scratch@.subrange(0, k as int) == scratch@.subrange(0, k - 1) + seq![scratch@[k - 1]]);
            }
            proof {
                let s = samples@.subrange(0, i + 1);
                assert(s.drop_last() == samples@.subrange(0, i as int));
                assert(s.last() == samples@[i as int]);
            }
            i = i + 1;
        }
        assert(samples@.subrange(0, samples@.len() as int) == samples@);
    }
}

/// Decoder of raw binary PCM to samples.
pub struct PcmBinaryDecoder {
    format: EncodedAudioFormat,
    pcm_format: PcmFormat,
}

impl PcmBinaryDecoder {
    /// The PCM format this decoder reads.
    pub closed spec fn spec_pcm_format(&self) -> PcmFormat {
        self.pcm_format
    }

    /// The number of channels of the decoded stream.
    pub closed spec fn spec_channels(&self) -> nat {
        self.format.spec.channels as nat
    }

    /// The format this decoder expects.
    pub closed spec fn spec_format(&self) -> EncodedAudioFormat {
        self.format
    }

    /// A decoder for a PCM format; any other codec is unsupported.
    pub fn new(format: &EncodedAudioFormat) -> (r: Result<Self, CoreError>)
        ensures
            r is Ok <==> format.codec is Pcm,
            r matches Ok(d) ==> d.spec_pcm_format() == format.codec->Pcm_0
                && d.spec_channels() == format.spec.channels && d.spec_format() == *format,
            r matches Err(e) ==> e == CoreError::UnsupportedAudioFormat(*format),
    {
        let pcm_format = match &format.codec {
            AudioCodec::Pcm(f) => *f,
            _ => {
                return Err(CoreError::UnsupportedAudioFormat(format.copied()));
            },
        };
        Ok(PcmBinaryDecoder { format: format.copied(), pcm_format })
    }

    /// The format this decoder expects.
    pub fn format(&self) -> (f: &EncodedAudioFormat)
        ensures
            *f == self.spec_format(),
    {
        &self.format
    }

    /// The PCM format this decoder reads.
    pub fn pcm_format(&self) -> (f: PcmFormat)
        ensures
            f == self.spec_pcm_format(),
    {
        self.pcm_format
    }

    /// Decodes every whole sample of `bytes` (a trailing partial sample is ignored).
    ///
    /// The stream must have channels, the whole samples must make whole frames,
    /// and DSD formats are not supported.
    pub fn decode_samples(&self, bytes: &[u8]) -> (samples: Vec<PcmSample>)
        requires
            !self.spec_pcm_format().is_dsd(),
            self.spec_channels() > 0,
            (bytes@.len() / self.spec_pcm_format().spec_sample_size()) % self.spec_channels() == 0,
        ensures
            samples@ == self.spec_pcm_format().decoded_all(
                bytes@,
                bytes@.len() / self.spec_pcm_format().spec_sample_size(),
            ),
    {
        let format = self.pcm_format;
        let size = format.sample_size();
        let len = bytes.len();
        let count = len / size;
        let mut samples: Vec<PcmSample> = Vec::new();
        let mut i: usize = 0;
        let mut offset: usize = 0;
        while i < count
            invariant
                format == self.spec_pcm_format(),
                !format.is_dsd(),
                size == format.spec_sample_size(),
                1 <= size <= 8,
                len == bytes@.len(),
                count == len / size,
                i <= count,
                offset == i * size,
                samples@ == format.decoded_all(bytes@, count as nat).subrange(0, i as int),
            decreases count - i,
        {
            proof {
                assert((i + 1) * size <= count * size) by (nonlinear_arith)
                    requires
                        i < count,
                        size >= 1,
                ;
                assert(count * size <= len) by (nonlinear_arith)
                    requires
                        count == len / size,
                        size >= 1,
                ;
                assert((i + 1) * size == offset + size) by (nonlinear_arith)
                    requires
                        offset == i * size,
                ;
            }
            let chunk = &bytes[offset..offset + size];
            let sample = format.read_sample(chunk);
            samples.push(sample);
            proof {
                assert(chunk@.subrange(0, size as int) == chunk@);
            }
            i = i + 1;
            offset = offset + size;
        }
        samples
    }
}

/// Encoder of samples to base64 text of raw binary PCM.
pub struct PcmBase64Encoder {
    binary: PcmBinaryEncoder,
}

impl PcmBase64Encoder {
    /// The format this encoder produces.
    pub closed spec fn spec_format(&self) -> EncodedAudioFormat {
        self.binary.spec_format()
    }

    /// An encoder for a PCM format; any other codec is unsupported.
    pub fn new(format: &EncodedAudioFormat) -> (r: Result<Self, CoreError>)
        ensures
            r is Ok <==> format.codec is Pcm,
            r matches Ok(e) ==> e.spec_format() == *format,
            r matches Err(e) ==> e == CoreError::UnsupportedAudioFormat(*format),
    {
        match PcmBinaryEncoder::new(format) {
            Ok(binary) => Ok(PcmBase64Encoder { binary }),
            Err(e) => Err(e),
        }
    }

    /// The format this encoder produces.
    pub fn format(&self) -> (f: &EncodedAudioFormat)
        ensures
            *f == self.spec_format(),
    {
        self.binary.format()
    }

    /// The PCM format this encoder writes.
    pub closed spec fn spec_pcm_format(&self) -> PcmFormat {
        self.binary.spec_pcm_format()
    }

    /// The standard base64 text of the bytes of `samples`, one after another.
    pub fn encode_samples(&self, samples: &[PcmSample]) -> (text: String)
        requires
            forall|i: int| 0 <= i < samples@.len() ==> self.spec_pcm_format().holds(#[trigger] samples@[i]),
            4 * ((8 * samples@.len() + 2) / 3) <= usize::MAX,
        ensures
            text@ == spec_base64_encode(self.spec_pcm_format().encoded_all(samples@)),
            spec_base64_decode(text@) == Some(self.spec_pcm_format().encoded_all(samples@)),
    {
        let mut bytes: Vec<u8> = Vec::new();
        proof {
            assert(samples@.len() * 8 <= usize::MAX) by (nonlinear_arith)
                requires
                    4 * ((8 * samples@.len() + 2) / 3) <= usize::MAX,
            ;
        }
        self.binary.encode_samples(samples, &mut bytes);
        proof {
            let f = self.spec_pcm_format();
            f.lemma_encoded_all_len(samples@);
            let b = bytes@.len();
            let n = samples@.len();
            assert(b <= 8 * n) by (nonlinear_arith)
                requires
                    b == n * f.spec_sample_size(),
                    f.spec_sample_size() <= 8,
            ;
            assert(4 * ((b + 2) / 3) <= 4 * ((8 * n + 2) / 3)) by (nonlinear_arith)
                requires
                    b <= 8 * n,
            ;
        }
        base64_encode(bytes.as_slice())
    }
}

/// Whether the bytes `bytes` are whole frames of samples of `format` with
/// `channels` channels that can be decoded.
pub open spec fn decodable(format: PcmFormat, channels: nat, bytes: Seq<u8>) -> bool {
    &&& !format.is_dsd()
    &&& channels > 0
    &&& (bytes.len() / format.spec_sample_size()) % channels == 0
}

/// What decoding the base64 text `text` of samples of `format` with
/// `channels` channels gives: the samples, or why there are none.
pub open spec fn spec_base64_samples(
    format: PcmFormat,
    channels: nat,
    text: Seq<char>,
) -> Result<Seq<PcmSample>, CoreError> {
    match spec_base64_decode(text) {
        None => Err(CoreError::InvalidBase64),
        Some(bytes) => if decodable(format, channels, bytes) {
            Ok(format.decoded_all(bytes, bytes.len() / format.spec_sample_size()))
        } else {
            Err(CoreError::UndecodableSamples)
        },
    }
}

/// Decoder of base64 text of raw binary PCM to samples.
pub struct PcmBase64Decoder {
    binary: PcmBinaryDecoder,
}

impl PcmBase64Decoder {
    /// The format this decoder expects.
    pub closed spec fn spec_format(&self) -> EncodedAudioFormat {
        self.binary.spec_format()
    }

    /// A decoder for a PCM format; any other codec is unsupported.
    pub fn new(format: &EncodedAudioFormat) -> (r: Result<Self, CoreError>)
        ensures
            r is Ok <==> format.codec is Pcm,
            r matches Ok(d) ==> d.spec_format() == *format,
            r matches Err(e) ==> e == CoreError::UnsupportedAudioFormat(*format),
    {
        match PcmBinaryDecoder::new(format) {
            Ok(binary) => Ok(PcmBase64Decoder { binary }),
            Err(e) => Err(e),
        }
    }

    /// The format this decoder expects.
    pub fn format(&self) -> (f: &EncodedAudioFormat)
        ensures
            *f == self.spec_format(),
    {
        self.binary.format()
    }

    /// The PCM format this decoder reads.
    pub closed spec fn spec_pcm_format(&self) -> PcmFormat {
        self.binary.spec_pcm_format()
    }

    /// The number of channels of the decoded stream.
    pub closed spec fn spec_channels(&self) -> nat {
        self.binary.spec_channels()
    }

    /// Decodes standard base64 text and reads the bytes as samples.
    pub fn decode_samples(&self, text: &str) -> (r: Result<Vec<PcmSample>, CoreError>)
        ensures
            match (r, spec_base64_samples(self.spec_pcm_format(), self.spec_channels(), text@)) {
                (Ok(v), Ok(s)) => v@ == s,
                (Err(e), Err(f)) => e == f,
                _ => false,
            },
    {
        let bytes = match base64_decode(text) {
            Ok(bytes) => bytes,
            Err(_) => return Err(CoreError::InvalidBase64),
        };
        let format = self.binary.pcm_format();
        let channels = self.binary.format().spec.channels;
        let dsd = match format {
            PcmFormat::DsdU8 | PcmFormat::DsdU16(_) | PcmFormat::DsdU32(_) => true,
            _ => false,
        };
        if dsd || channels == 0 || (bytes.len() / format.sample_size()) % channels != 0 {
            return Err(CoreError::UndecodableSamples);
        }
        Ok(self.binary.decode_samples(bytes.as_slice()))
    }
}

/// Decoding the base64 text of whole frames of samples gives back the samples:
/// the bytes that the text decodes to are decodable, and they decode to `samples`.
pub proof fn lemma_base64_samples_roundtrip(format: PcmFormat, channels: nat, samples: Seq<PcmSample>, text: Seq<char>)
    requires
        !format.is_dsd(),
        channels > 0,
        samples.len() % channels == 0,
        forall|i: int| 0 <= i < samples.len() ==> format.holds(#[trigger] samples[i]),
        spec_base64_decode(text) == Some(format.encoded_all(samples)),
    ensures
        spec_base64_samples(format, channels, text) == Ok::<Seq<PcmSample>, CoreError>(samples),
{
    format.lemma_decode_all_encoded(samples);
    let n = samples.len();
    let z = format.spec_sample_size();
    assert(z >= 1);
    assert((n * z) / z == n) by (nonlinear_arith)
        requires
            z >= 1,
    ;
}

} // verus!
