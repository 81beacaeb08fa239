//! Planar PCM buffer used by DSP stages.

use vstd::prelude::*;

use crate::audio::AudioSpec;

verus! {

#[verifier::external_type_specification]
#[verifier::external_body]
pub struct ExInstant(std::time::Instant);

/// Calls `std::time::Instant::now`; nothing is claimed of the instant it returns.
#[verifier::external_body]
fn now() -> std::time::Instant {
    std::time::Instant::now()
}

/// Calls `<[T] as IndexMut<Range<usize>>>::index_mut`: the samples `start..end`
/// of `data`, borrowed mutably.
///
/// Trusted: the borrowed part starts as those samples, keeps its length, and
/// whatever it ends as replaces them in `data`.
#[verifier::external_body]
fn slice_range_mut<T>(data: &mut [T], start: usize, end: usize) -> (part: &mut [T])
    requires
        start <= end <= old(data)@.len(),
    ensures
        part@ == old(data)@.subrange(start as int, end as int),
        final(part)@.len() == end - start,
        final(data)@ == old(data)@.subrange(0, start as int) + final(part)@
            + old(data)@.subrange(end as int, old(data)@.len() as int),
{
    &mut data[start..end]
}

/// Internal DSP representation: planar samples, each channel's frames contiguous.
pub struct PcmAudio<T> {
    /// Audio specification (sample rate, channels).
    pub spec: AudioSpec,
    /// Flat array of samples (planar layout: [chan0][chan1]...).
    pub data: Vec<T>,
    /// Number of frames per channel.
    pub frames: usize,
    /// Sequence number of the block.
    pub sequence: u64,
    /// Timestamp when the audio was captured.
    pub capture_timestamp: std::time::Instant,
    /// Timestamp when the audio started processing.
    pub processing_timestamp: std::time::Instant,
}

proof fn lemma_planar_index(j: int, frames: int, channels: int)
    requires
        0 <= j < frames * channels,
        frames > 0,
    ensures
        j == (j / frames) * frames + j % frames,
        0 <= j % frames < frames,
        0 <= j / frames < channels,
{
    vstd::arithmetic::div_mod::lemma_fundamental_div_mod(j, frames);
    let c = j / frames;
    let k = j % frames;
    assert(0 <= k < frames) by {
        vstd::arithmetic::div_mod::lemma_mod_bound(j, frames);
    }
    assert(c * frames == frames * c) by (nonlinear_arith);
    assert(0 <= c < channels) by (nonlinear_arith)
        requires
            j == frames * c + k,
            0 <= k < frames,
            0 <= j < frames * channels,
            frames > 0,
    ;
}

impl<T: Copy + Default> PcmAudio<T> {
    /// A buffer of `frames` frames for each channel of `spec`, every sample `T::default()`.
    pub fn new(spec: AudioSpec, frames: usize) -> (pcm: Self)
        requires
            frames * spec.channels <= usize::MAX,
        ensures
            pcm.spec == spec,
            pcm.frames == frames,
            pcm.sequence == 0,
            pcm.data@.len() == frames * spec.channels,
            forall|i: int| 0 <= i < pcm.data@.len() ==> call_ensures(T::default, (), #[trigger] pcm.data@[i]),
    {
        let channel_count = spec.channels;
        let zero = T::default();
        let n = frames * channel_count;
        let mut data: Vec<T> = Vec::with_capacity(n);
        let mut i: usize = 0;
        while i < n
            invariant
                i <= n,
                data@.len() == i,
                call_ensures(T::default, (), zero),
                forall|k: int| 0 <= k < i ==> #[trigger] data@[k] == zero,
            decreases n - i,
        {
            data.push(zero);
            i = i + 1;
        }
        PcmAudio {
            spec,
            data,
            frames,
            sequence: 0,
            capture_timestamp: now(),
            processing_timestamp: now(),
        }
    }

    /// Returns the number of audio frames in the buffer.
    pub fn frames(&self) -> (n: usize)
        ensures
            n == self.frames,
    {
        self.frames
    }

    /// Returns the number of channels.
    pub fn channel_count(&self) -> (n: usize)
        ensures
            n == self.spec.channels,
    {
        self.spec.channels
    }

    /// The samples of channel `index`.
    pub fn channel(&self, index: usize) -> (samples: &[T])
        requires
            (index + 1) * self.frames <= self.data@.len(),
        ensures
            samples@ == self.data@.subrange(index * self.frames, (index + 1) * self.frames),
    {
        let _len = self.data.len();
        proof {
            assert(index * self.frames + self.frames == (index + 1) * self.frames) by (nonlinear_arith);
        }
        let start = index * self.frames;
        let end = start + self.frames;
        &self.data.as_slice()[start..end]
    }

    /// The samples of channel `index`, mutably.
    pub fn channel_mut(&mut self, index: usize) -> (samples: &mut [T])
        requires
            (index + 1) * old(self).frames <= old(self).data@.len(),
        ensures
            samples@ == old(self).data@.subrange(
                index * old(self).frames,
                (index + 1) * old(self).frames,
            ),
            final(samples)@.len() == old(self).frames,
            final(self).data@ == old(self).data@.subrange(0, index * old(self).frames) + final(samples)@
                + old(self).data@.subrange((index + 1) * old(self).frames, old(self).data@.len() as int),
            final(self).spec == old(self).spec,
            final(self).frames == old(self).frames,
    {
        let _len = self.data.len();
        proof {
            assert(index * self.frames + self.frames == (index + 1) * self.frames) by (nonlinear_arith);
        }
        let start = index * self.frames;
        let end = start + self.frames;
        slice_range_mut(self.data.as_mut_slice(), start, end)
    }

    /// Sets the channel layout to `channels` discrete channels, keeping the rate.
    pub fn set_channel_layout(&mut self, channels: usize)
        ensures
            final(self).spec == (AudioSpec { rate: old(self).spec.rate, channels }),
            final(self).data@ == old(self).data@,
            final(self).frames == old(self).frames,
    {
        self.spec = AudioSpec { rate: self.spec.rate, channels };
    }

    /// Changes the frame count to `frames` for `channels` channels.
    ///
    /// With the same channel count, each channel keeps its first samples and
    /// new positions hold `T::default()`. With another channel count the
    /// storage is only cut or extended with `T::default()`: the caller
    /// overwrites it. The layout in `spec` is left to the caller.
    pub fn resize(&mut self, frames: usize, channels: usize)
        requires
            frames * channels <= usize::MAX,
            old(self).data@.len() == old(self).frames * old(self).spec.channels,
        ensures
            final(self).spec == old(self).spec,
            final(self).frames == frames,
            final(self).data@.len() == frames * channels,
            frames == old(self).frames && channels == old(self).spec.channels ==> final(self).data@ == old(self).data@,
            channels != old(self).spec.channels ==> forall|j: int| 0 <= j < frames * channels ==>
                if j < old(self).data@.len() {
                    #[trigger] final(self).data@[j] == old(self).data@[j]
                } else {
                    call_ensures(T::default, (), final(self).data@[j])
                },
            channels == old(self).spec.channels ==> forall|j: int| 0 <= j < frames * channels ==>
                if j % (frames as int) < old(self).frames {
                    #[trigger] final(self).data@[j]
                        == old(self).data@[(j / (frames as int)) * old(self).frames + j % (frames as int)]
                } else {
                    call_ensures(T::default, (), final(self).data@[j])
                },
    {
        let old_frames = self.frames;
        let old_channels = self.channel_count();
        let n = frames * channels;
        let ghost old_data = self.data@;

        if frames == old_frames && channels == old_channels {
            assert forall|j: int| 0 <= j < frames * channels implies
                j % (frames as int) < old_frames
                && #[trigger] self.data@[j] == old_data[(j / (frames as int)) * old_frames + j % (frames as int)] by {
                assert(frames > 0) by (nonlinear_arith)
                    requires
                        0 <= j < frames * channels,
                        frames >= 0,
                        channels >= 0,
                ;
                lemma_planar_index(j, frames as int, channels as int);
            }
            return;
        }

        let zero = T::default();
        if channels != old_channels {
            if n <= self.data.len() {
                self.data.truncate(n);
            } else {
                while self.data.len() < n
                    invariant
                    self.spec == old(self).spec,
                    self.frames == old_frames,
                    call_ensures(T::default, (), zero),
                        n >= old_data.len(),
                        self.data@.len() <= n,
                        self.data@.len() >= old_data.len(),
                        forall|j: int| 0 <= j < old_data.len() ==> #[trigger] self.data@[j] == old_data[j],
                        forall|j: int| old_data.len() <= j < self.data@.len() ==> #[trigger] self.data@[j] == zero,
                    decreases n - self.data@.len(),
                {
                    self.data.push(zero);
                }
            }
        } else if frames > old_frames {
            let old_len = self.data.len();
            assert(old_frames * channels <= frames * channels) by (nonlinear_arith)
                requires
                    old_frames < frames,
            ;
            while self.data.len() < n
                invariant
                    self.spec == old(self).spec,
                    self.frames == old_frames,
                    call_ensures(T::default, (), zero),
                    old_len == old_data.len(),
                    old_len == old_frames * channels,
                    old_frames < frames,
                    n == frames * channels,
                    n >= old_len,
                    self.data@.len() <= n,
                    self.data@.len() >= old_len,
                    forall|j: int| 0 <= j < old_len ==> #[trigger] self.data@[j] == old_data[j],
                    forall|j: int| old_len <= j < self.data@.len() ==> #[trigger] self.data@[j] == zero,
                decreases n - self.data@.len(),
            {
                proof {
                    assert(old_frames * channels <= frames * channels) by (nonlinear_arith)
                        requires
                            old_frames < frames,
                    ;
                }
                self.data.push(zero);
            }
            let mut j: usize = n;
            while j > 0
                invariant
                    self.spec == old(self).spec,
                    self.frames == old_frames,
                    call_ensures(T::default, (), zero),
                    old_len == old_data.len(),
                    old_len == old_frames * channels,
                    old_frames < frames,
                    n == frames * channels,
                    self.data@.len() == n,
                    j <= n,
                    forall|p: int| 0 <= p < j ==> #[trigger] self.data@[p]
                        == (if p < old_len { old_data[p] } else { zero }),
                    forall|p: int| j <= p < n ==> if p % (frames as int) < old_frames {
                        #[trigger] self.data@[p] == old_data[(p / (frames as int)) * old_frames + p % (frames as int)]
                    } else {
                        self.data@[p] == zero
                    },
                decreases j,
            {
                let idx = j - 1;
                let c = idx / frames;
                let k = idx % frames;
                proof {
                    lemma_planar_index(idx as int, frames as int, channels as int);
                    assert(c * old_frames + k <= c * frames + k) by (nonlinear_arith)
                        requires
                            old_frames < frames,
                            c >= 0,
                    ;
                    assert(k < old_frames ==> c * old_frames + k < old_frames * channels) by (nonlinear_arith)
                        requires
                            c < channels,
                            k >= 0,
                    ;
                }
                let value = if k < old_frames {
                    self.data[c * old_frames + k]
                } else {
                    zero
                };
                self.data[idx] = value;
                j = idx;
            }
        } else {
            let old_len = self.data.len();
            assert(n <= old_data.len()) by (nonlinear_arith)
                requires
                    n == frames * channels,
                    old_data.len() == old_frames * channels,
                    frames < old_frames,
            ;
            let mut j: usize = 0;
            while j < n
                invariant
                    self.spec == old(self).spec,
                    self.frames == old_frames,
                    call_ensures(T::default, (), zero),
                    old_len == old_data.len(),
                    old_data.len() == old_frames * channels,
                    frames < old_frames,
                    n == frames * channels,
                    self.data@.len() == old_data.len(),
                    n <= old_data.len(),
                    j <= n,
                    forall|p: int| j <= p < old_data.len() ==> #[trigger] self.data@[p] == old_data[p],
                    forall|p: int| 0 <= p < j ==> #[trigger] self.data@[p]
                        == old_data[(p / (frames as int)) * old_frames + p % (frames as int)],
                decreases n - j,
            {
                let c = j / frames;
                let k = j % frames;
                proof {
                    lemma_planar_index(j as int, frames as int, channels as int);
                    assert(c * frames + k <= c * old_frames + k) by (nonlinear_arith)
                        requires
                            frames < old_frames,
                            c >= 0,
                    ;
                    assert(c * old_frames + k < old_frames * channels) by (nonlinear_arith)
                        requires
                            c < channels,
                            k < frames,
                            frames < old_frames,
                            k >= 0,
                    ;
                }
                let value = self.data[c * old_frames + k];
                self.data[j] = value;
                j = j + 1;
            }
            proof {
                assert(n <= old_data.len()) by (nonlinear_arith)
                    requires
                        n == frames * channels,
                        old_data.len() == old_frames * channels,
                        frames < old_frames,
                ;
            }
            self.data.truncate(n);
            assert forall|p: int| 0 <= p < n implies (p % (frames as int) < old_frames
                && #[trigger] self.data@[p] == old_data[(p / (frames as int)) * old_frames + p % (frames as int)]) by {
                lemma_planar_index(p, frames as int, channels as int);
            }
        }
        self.frames = frames;
    }
}

/// Copies planar `pcm` into `output` interleaved: frame by frame, each frame's
/// samples in channel order.
pub fn write_interleaved<T: Copy>(pcm: &PcmAudio<T>, output: &mut Vec<T>)
    requires
        pcm.data@.len() == pcm.frames * pcm.spec.channels,
    ensures
        final(output)@.len() == pcm.frames * pcm.spec.channels,
        forall|f: int, c: int| 0 <= f < pcm.frames && 0 <= c < pcm.spec.channels ==>
            #[trigger] final(output)@[f * pcm.spec.channels + c] == pcm.data@[c * pcm.frames + f],
{
    output.clear();
    let channels = pcm.spec.channels;
    let frames = pcm.frames;
    let len = pcm.data.len();
    let mut frame: usize = 0;
    while frame < frames
        invariant
            len == pcm.data@.len(),
            len == frames * channels,
            frames == pcm.frames,
            channels == pcm.spec.channels,
            frame <= frames,
            output@.len() == frame * channels,
            forall|f: int, c: int| 0 <= f < frame && 0 <= c < channels ==>
                #[trigger] output@[f * channels + c] == pcm.data@[c * frames + f],
        decreases frames - frame,
    {
        let ghost before = output@;
        let mut channel: usize = 0;
        while channel < channels
            invariant
                len == pcm.data@.len(),
                len == frames * channels,
                frames == pcm.frames,
                channels == pcm.spec.channels,
                frame < frames,
                channel <= channels,
                before.len() == frame * channels,
                output@.len() == frame * channels + channel,
                forall|i: int| 0 <= i < before.len() ==> #[trigger] output@[i] == before[i],
                forall|c: int| 0 <= c < channel ==> #[trigger] output@[frame * channels + c] == pcm.data@[c * frames + frame],
            decreases channels - channel,
        {
            proof {
                assert(channel * frames + frame < frames * channels) by (nonlinear_arith)
                    requires
                        channel < channels,
                        frame < frames,
                ;
            }
            output.push(pcm.data[channel * frames + frame]);
            channel = channel + 1;
        }
        proof {
            assert(frame * channels + channels == (frame + 1) * channels) by (nonlinear_arith);
            assert forall|f: int, c: int| 0 <= f < frame + 1 && 0 <= c < channels implies
                #[trigger] output@[f * channels + c] == pcm.data@[c * frames + f] by {
                if f < frame {
                    assert(f * channels + c < frame * channels) by (nonlinear_arith)
                        requires
                            f < frame,
                            c < channels,
                    ;
                    assert(output@[f * channels + c] == before[f * channels + c]);
                }
            }
        }
        frame = frame + 1;
    }
}

} // verus!
