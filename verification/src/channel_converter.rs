//! Conversion between mono and stereo planar audio.

use vstd::prelude::*;

use crate::audio::AudioSpec;
use crate::error::CoreError;
use crate::pcm_audio::PcmAudio;

verus! {

/// What converting a block to the target channel count takes.
#[derive(Debug, Clone, Copy, PartialEq, Eq, Structural)]
pub enum ChannelConversion {
    /// Same count (mono or stereo): only the layout is set.
    Relabel,
    /// Stereo to mono: each frame becomes the average of its two samples.
    StereoToMono,
    /// Mono to stereo: the channel is duplicated.
    MonoToStereo,
}

/// A DSP processor for converting between mono and stereo audio.
pub struct ChannelConverter {
    output_channels: usize,
}

impl ChannelConverter {
    /// The target channel count.
    pub closed spec fn spec_output_channels(&self) -> usize {
        self.output_channels
    }

    /// A converter to `output_channels` channels.
    pub fn new(output_channels: usize) -> (c: Self)
        ensures
            c.spec_output_channels() == output_channels,
    {
        ChannelConverter { output_channels }
    }

    /// The target channel count.
    pub fn output_channels(&self) -> (n: usize)
        ensures
            n == self.spec_output_channels(),
    {
        self.output_channels
    }

    /// The conversion from `input_channels` channels to the target: mono and
    /// stereo either way; any other pair is unsupported.
    pub fn conversion(&self, input_channels: usize) -> (r: Result<ChannelConversion, CoreError>)
        ensures
            r == (match (input_channels, self.spec_output_channels()) {
                (1, 1) | (2, 2) => Ok(ChannelConversion::Relabel),
                (2, 1) => Ok(ChannelConversion::StereoToMono),
                (1, 2) => Ok(ChannelConversion::MonoToStereo),
                (from, to) => Err(CoreError::UnsupportedChannelConversion { from, to }),
            }),
    {
        match (input_channels, self.output_channels) {
            (1, 1) | (2, 2) => Ok(ChannelConversion::Relabel),
            (2, 1) => Ok(ChannelConversion::StereoToMono),
            (1, 2) => Ok(ChannelConversion::MonoToStereo),
            (from, to) => Err(CoreError::UnsupportedChannelConversion { from, to }),
        }
    }

    /// Turns a mono block into stereo: the channel is duplicated as the second
    /// channel, and the layout becomes the target's.
    pub fn mono_to_stereo<T: Copy + Default>(&self, pcm: &mut PcmAudio<T>)
        requires
            old(pcm).data@.len() == old(pcm).frames,
            2 * old(pcm).frames <= usize::MAX,
        ensures
            final(pcm).data@ == old(pcm).data@ + old(pcm).data@,
            final(pcm).frames == old(pcm).frames,
            final(pcm).spec == (AudioSpec { rate: old(pcm).spec.rate, channels: self.spec_output_channels() }),
    {
        let frames = pcm.frames();
        let ghost original = pcm.data@;
        let mut i: usize = 0;
        while i < frames
            invariant
                frames == pcm.frames,
                frames == original.len(),
                pcm.spec == old(pcm).spec,
                original == old(pcm).data@,
                i <= frames,
                pcm.data@ == original + original.subrange(0, i as int),
            decreases frames - i,
        {
            let v = pcm.data[i];
            pcm.data.push(v);
            i = i + 1;
            assert(original.subrange(0, i as int) == original.subrange(0, i - 1) + seq![original[i - 1]]);
        }
        assert(original.subrange(0, frames as int) == original);
        pcm.set_channel_layout(self.output_channels);
    }

    /// Turns a stereo block into mono: each frame's two samples are mixed by
    /// `mix` (left, right) into the one sample of the frame, and the layout
    /// becomes the target's.
    pub fn stereo_to_mono<T: Copy + Default, F: Fn(T, T) -> T>(&self, pcm: &mut PcmAudio<T>, mix: F)
        requires
            old(pcm).data@.len() == 2 * old(pcm).frames,
            forall|l: T, r: T| #[trigger] mix.requires((l, r)),
        ensures
            final(pcm).data@.len() == old(pcm).frames,
            forall|i: int| 0 <= i < old(pcm).frames ==> #[trigger] mix.ensures(
                (old(pcm).data@[i], old(pcm).data@[old(pcm).frames + i]),
                final(pcm).data@[i],
            ),
            final(pcm).frames == old(pcm).frames,
            final(pcm).spec == (AudioSpec { rate: old(pcm).spec.rate, channels: self.spec_output_channels() }),
    {
        let frames = pcm.frames();
        let len = pcm.data.len();
        let ghost original = pcm.data@;
        let mut i: usize = 0;
        while i < frames
            invariant
                frames == pcm.frames,
                len == original.len(),
                original == old(pcm).data@,
                original.len() == 2 * frames,
                pcm.data@.len() == original.len(),
                pcm.spec == old(pcm).spec,
                i <= frames,
                forall|l: T, r: T| #[trigger] mix.requires((l, r)),
                forall|k: int| 0 <= k < i ==> #[trigger] mix.ensures((original[k], original[frames + k]), pcm.data@[k]),
                forall|k: int| i <= k < original.len() ==> #[trigger] pcm.data@[k] == original[k],
            decreases frames - i,
        {
            let left = pcm.data[i];
            let right = pcm.data[frames + i];
            let mixed = mix(left, right);
            pcm.data.set(i, mixed);
            i = i + 1;
        }
        self.finish_stereo_to_mono(pcm);
    }

    /// Keeps the first `frames` samples (the mixed mono channel) and sets the target layout.
    fn finish_stereo_to_mono<T: Copy + Default>(&self, pcm: &mut PcmAudio<T>)
        requires
            old(pcm).data@.len() >= old(pcm).frames,
        ensures
            final(pcm).data@ == old(pcm).data@.subrange(0, old(pcm).frames as int),
            final(pcm).frames == old(pcm).frames,
            final(pcm).spec == (AudioSpec { rate: old(pcm).spec.rate, channels: self.spec_output_channels() }),
    {
        let frames = pcm.frames();
        pcm.data.truncate(frames);
        pcm.set_channel_layout(self.output_channels);
    }
}

} // verus!
