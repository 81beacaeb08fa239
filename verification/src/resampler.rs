//! Chunking parameters of the FFT resampler.

use vstd::prelude::*;

verus! {

/// Number of sub-chunks the resampler splits each chunk into.
pub const SUB_CHUNKS: usize = 4;

/// Duration of one resampler input chunk, in milliseconds.
pub const CHUNK_DURATION_MS: u32 = 20;

/// Number of frames that `duration_ms` milliseconds hold at `sample_rate`, rounded down.
pub fn frames_from_duration(sample_rate: u32, duration_ms: u32) -> (frames: usize)
    requires
        sample_rate * duration_ms <= usize::MAX,
    ensures
        frames == (sample_rate * duration_ms) / 1000,
{
    (sample_rate as usize * duration_ms as usize) / 1000
}

} // verus!
