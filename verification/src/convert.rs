//! PCM16 samples to and from base64 text (little-endian byte pairs).

use vstd::prelude::*;

use base64::engine::general_purpose::STANDARD;
use base64::Engine;

use crate::byte_order::pow256;
use crate::encoded_audio::{from_twos_complement, twos_complement};

verus! {

#[verifier::external_type_specification]
#[verifier::external_body]
pub struct ExDecodeError(base64::DecodeError);

/// What `base64::engine::general_purpose::STANDARD.decode` returns for the
/// bytes of `text`: the decoded bytes, or `None` when it reports an error.
pub uninterp spec fn spec_base64_decode(text: Seq<char>) -> Option<Seq<u8>>;

/// What `base64::engine::general_purpose::STANDARD.encode` returns for `bytes`.
pub uninterp spec fn spec_base64_encode(bytes: Seq<u8>) -> Seq<char>;

/// Calls `base64::engine::general_purpose::STANDARD.decode` (standard alphabet,
/// canonical padding) on the bytes of `text`.
///
/// Trusted to succeed exactly when the named result is `Some`, with those bytes.
#[verifier::external_body]
pub(crate) fn base64_decode(text: &str) -> (r: Result<Vec<u8>, base64::DecodeError>)
    ensures
        r is Ok <==> spec_base64_decode(text@) is Some,
        r matches Ok(bytes) ==> bytes@ == spec_base64_decode(text@).unwrap(),
{
    STANDARD.decode(text)
}

/// Calls `base64::engine::general_purpose::STANDARD.encode` on `bytes`.
///
/// Trusted: the text is the named result, four characters for every started
/// group of three bytes (padded with `=`), and the same engine decodes it back
/// to `bytes`. The call panics when that length overflows `usize`, which the
/// precondition rules out.
#[verifier::external_body]
pub(crate) fn base64_encode(bytes: &[u8]) -> (text: String)
    requires
        4 * ((bytes@.len() + 2) / 3) <= usize::MAX,
    ensures
        text@ == spec_base64_encode(bytes@),
        text@.len() == 4 * ((bytes@.len() + 2) / 3),
        spec_base64_decode(text@) == Some(bytes@),
{
    STANDARD.encode(bytes)
}

/// Why base64 text could not be read as PCM16 samples.
#[derive(Debug)]
pub enum Pcm16DecodeError {
    /// The text is not valid standard base64.
    Base64(base64::DecodeError),
    /// The decoded payload has an odd number of bytes.
    OddByteCount,
}

/// The sample that a little-endian byte pair holds.
pub open spec fn i16_from_le(lo: u8, hi: u8) -> i16 {
    from_twos_complement(lo as nat + 256 * (hi as nat), 2) as i16
}

/// Low byte of a sample's two's-complement encoding.
pub open spec fn i16_low_byte(v: i16) -> u8 {
    (twos_complement(v as int, 2) % 256) as u8
}

/// High byte of a sample's two's-complement encoding.
pub open spec fn i16_high_byte(v: i16) -> u8 {
    (twos_complement(v as int, 2) / 256) as u8
}

/// The samples that little-endian byte pairs hold (a trailing odd byte is ignored).
pub open spec fn pcm16_from_le_bytes(bytes: Seq<u8>) -> Seq<i16> {
    Seq::new(bytes.len() / 2, |i: int| i16_from_le(bytes[2 * i], bytes[2 * i + 1]))
}

/// The little-endian byte pairs of `samples`.
pub open spec fn pcm16_to_le_bytes(samples: Seq<i16>) -> Seq<u8> {
    Seq::new(
        2 * samples.len(),
        |j: int| if j % 2 == 0 { i16_low_byte(samples[j / 2]) } else { i16_high_byte(samples[j / 2]) },
    )
}

/// What `base64_to_pcm16` returns for `text`, given the decoder's result.
pub open spec fn spec_base64_to_pcm16(text: Seq<char>) -> Option<Seq<i16>> {
    match spec_base64_decode(text) {
        Some(bytes) => if bytes.len() % 2 == 0 {
            Some(pcm16_from_le_bytes(bytes))
        } else {
            None
        },
        None => None,
    }
}

/// Reads little-endian byte pairs as PCM16 samples; an odd byte count is an error.
pub fn pcm16_from_le_byte_pairs(bytes: &[u8]) -> (r: Result<Vec<i16>, Pcm16DecodeError>)
    ensures
        r is Ok <==> bytes@.len() % 2 == 0,
        r matches Ok(pcm) ==> pcm@ == pcm16_from_le_bytes(bytes@),
        r matches Err(e) ==> e is OddByteCount,
{
    if bytes.len() % 2 != 0 {
        return Err(Pcm16DecodeError::OddByteCount);
    }
    let len = bytes.len();
    let n = len / 2;
    let mut pcm: Vec<i16> = Vec::with_capacity(n);
    let mut i: usize = 0;
    while i < n
        invariant
            len == bytes@.len(),
            n == len / 2,
            len % 2 == 0,
            i <= n,
            pcm@ == pcm16_from_le_bytes(bytes@).subrange(0, i as int),
        decreases n - i,
    {
        let lo = bytes[2 * i];
        let hi = bytes[2 * i + 1];
        let u: u32 = lo as u32 + 256 * hi as u32;
        let v: i16 = if u >= 0x8000 { (u as i32 - 0x1_0000) as i16 } else { u as i16 };
        proof {
            reveal_with_fuel(pow256, 3);
        }
        pcm.push(v);
        i = i + 1;
    }
    Ok(pcm)
}

/// Base64 -> PCM16: decodes standard base64 and reads the bytes as
/// little-endian 16-bit samples.
pub fn base64_to_pcm16(data: &str) -> (r: Result<Vec<i16>, Pcm16DecodeError>)
    ensures
        r is Ok <==> spec_base64_to_pcm16(data@) is Some,
        r matches Ok(pcm) ==> pcm@ == spec_base64_to_pcm16(data@).unwrap(),
        r matches Err(e) ==> (e is Base64 <==> spec_base64_decode(data@) is None),
{
    match base64_decode(data) {
        Ok(bytes) => pcm16_from_le_byte_pairs(bytes.as_slice()),
        Err(e) => Err(Pcm16DecodeError::Base64(e)),
    }
}

/// The little-endian byte pairs of `samples`.
pub fn pcm16_to_le_byte_pairs(samples: &[i16]) -> (bytes: Vec<u8>)
    requires
        2 * samples@.len() <= usize::MAX,
    ensures
        bytes@ == pcm16_to_le_bytes(samples@),
{
    let mut bytes: Vec<u8> = Vec::with_capacity(2 * samples.len());
    let mut i: usize = 0;
    while i < samples.len()
        invariant
            i <= samples@.len(),
            bytes@ == pcm16_to_le_bytes(samples@).subrange(0, 2 * i as int),
        decreases samples@.len() - i,
    {
        let v = samples[i];
        let u: u32 = if v < 0 { (v as i32 + 0x1_0000) as u32 } else { v as u32 };
        proof {
            reveal_with_fuel(pow256, 3);
        }
        bytes.push((u % 256) as u8);
        bytes.push((u / 256) as u8);
        i = i + 1;
        assert(bytes@ =~= pcm16_to_le_bytes(samples@).subrange(0, 2 * i as int));
    }
    bytes
}

/// PCM16 -> Base64: standard base64 of the samples' little-endian byte pairs.
///
/// The bytes are always little-endian, the order `base64_to_pcm16` reads
/// back, whatever the machine's byte order; on little-endian machines this is
/// also the samples' in-memory layout.
pub fn pcm16_to_base64(samples: &[i16]) -> (text: String)
    requires
        4 * ((2 * samples@.len() + 2) / 3) <= usize::MAX,
    ensures
        text@ == spec_base64_encode(pcm16_to_le_bytes(samples@)),
        spec_base64_decode(text@) == Some(pcm16_to_le_bytes(samples@)),
{
    let bytes = pcm16_to_le_byte_pairs(samples);
    base64_encode(bytes.as_slice())
}

/// Reading the byte pairs of some samples gives back the same samples.
pub proof fn lemma_pcm16_byte_pairs_roundtrip(samples: Seq<i16>)
    ensures
        pcm16_from_le_bytes(pcm16_to_le_bytes(samples)) == samples,
{
    let bytes = pcm16_to_le_bytes(samples);
    reveal_with_fuel(pow256, 3);
    assert forall|i: int| 0 <= i < samples.len() implies
        #[trigger] pcm16_from_le_bytes(bytes)[i] == samples[i] by {
        assert(bytes[2 * i] == i16_low_byte(samples[i]));
        assert(bytes[2 * i + 1] == i16_high_byte(samples[i]));
    }
    assert(pcm16_from_le_bytes(bytes) =~= samples);
}

/// Base64 text whose decoding is the byte pairs of some samples reads back as
/// exactly those samples; `pcm16_to_base64` returns such text.
pub proof fn lemma_pcm16_base64_roundtrip(text: Seq<char>, samples: Seq<i16>)
    requires
        spec_base64_decode(text) == Some(pcm16_to_le_bytes(samples)),
    ensures
        spec_base64_to_pcm16(text) == Some(samples),
{
    lemma_pcm16_byte_pairs_roundtrip(samples);
}

} // verus!
