//! Target hardware latency for the hot audio path.
//!
//! Used to replace the device's default quantum with a fixed buffer of the
//! chosen size.

use vstd::prelude::*;

verus! {

/// Target hardware latency per direction, in milliseconds.
///
/// 480 frames at 48 kHz is about 10 ms.
pub const TARGET_LATENCY_MS: u32 = 10;

/// Number of frames that `latency_frames` returns for a sample rate.
pub open spec fn spec_latency_frames(sample_rate: int) -> int {
    let frames = sample_rate * TARGET_LATENCY_MS / 1000;
    if frames >= 1 { frames } else { 1 }
}

/// Number of frames for the target latency at the given sample rate.
///
/// Never returns 0: at least one frame.
pub fn latency_frames(sample_rate: u32) -> (frames: u32)
    requires
        sample_rate * TARGET_LATENCY_MS <= u32::MAX,
    ensures
        frames as int == spec_latency_frames(sample_rate as int),
{
    let frames = sample_rate * TARGET_LATENCY_MS / 1000;
    if frames >= 1 { frames } else { 1 }
}

/// `latency_frames` never returns 0: at least one frame for every sample rate.
pub proof fn lemma_latency_frames_never_zero(sample_rate: int)
    ensures
        spec_latency_frames(sample_rate) >= 1,
{
}

/// `latency_frames` does not decrease as the sample rate grows.
pub proof fn lemma_latency_frames_monotonic(low: int, high: int)
    requires
        0 <= low <= high,
    ensures
        spec_latency_frames(low) <= spec_latency_frames(high),
{
    assert(low * 10 / 1000 <= high * 10 / 1000) by (nonlinear_arith)
        requires
            0 <= low <= high,
    ;
}

/// From 1 kHz up, `latency_frames(rate)` frames last the target latency to
/// within one millisecond: `frames / rate * 1000` ms lies in
/// `(TARGET_LATENCY_MS - 1, TARGET_LATENCY_MS]`.
pub proof fn lemma_latency_frames_approximates_target(sample_rate: int)
    requires
        sample_rate >= 1000,
    ensures
        spec_latency_frames(sample_rate) * 1000 <= sample_rate * TARGET_LATENCY_MS,
        sample_rate * TARGET_LATENCY_MS < spec_latency_frames(sample_rate) * 1000 + sample_rate,
{
    let f = sample_rate * 10 / 1000;
    assert(f * 1000 <= sample_rate * 10 < f * 1000 + 1000) by (nonlinear_arith)
        requires
            f == sample_rate * 10 / 1000,
            sample_rate >= 0,
    ;
    assert(f >= 10) by (nonlinear_arith)
        requires
            f == sample_rate * 10 / 1000,
            sample_rate >= 1000,
    ;
}

} // verus!
