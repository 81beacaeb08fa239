//! A buffer of planar samples: one FIFO per channel.

use vstd::prelude::*;

use crate::sample_buffer::SampleBuffer;

verus! {

/// A buffer for planar audio samples (each channel in its own contiguous memory).
pub struct PlanarSampleBuffer<T> {
    channels: Vec<SampleBuffer<T>>,
}

impl<T> View for PlanarSampleBuffer<T> {
    type V = Seq<Seq<T>>;

    /// The available samples of each channel, oldest first.
    closed spec fn view(&self) -> Seq<Seq<T>> {
        self.channels@.map_values(|c: SampleBuffer<T>| c@)
    }
}

impl<T: Copy> PlanarSampleBuffer<T> {
    /// The buffer's internal invariant: every channel is well formed.
    pub closed spec fn wf(&self) -> bool {
        forall|i: int| 0 <= i < self.channels@.len() ==> (#[trigger] self.channels@[i]).wf()
    }

    /// Creates a new planar sample buffer with the specified number of channels.
    pub fn new(channels: usize) -> (buffer: Self)
        ensures
            buffer.wf(),
            buffer@.len() == channels,
            forall|i: int| 0 <= i < channels ==> #[trigger] buffer@[i] == Seq::<T>::empty(),
    {
        let mut v: Vec<SampleBuffer<T>> = Vec::new();
        let mut i: usize = 0;
        while i < channels
            invariant
                i <= channels,
                v@.len() == i,
                forall|k: int| 0 <= k < i ==> (#[trigger] v@[k]).wf() && v@[k]@ == Seq::<T>::empty(),
            decreases channels - i,
        {
            v.push(SampleBuffer::new());
            i = i + 1;
        }
        PlanarSampleBuffer { channels: v }
    }

    /// Returns the number of channels in the buffer.
    pub fn channels(&self) -> (n: usize)
        ensures
            n == self@.len(),
    {
        self.channels.len()
    }

    /// Returns the number of available frames: those of the first channel, or 0 without channels.
    pub fn available(&self) -> (n: usize)
        requires
            self.wf(),
        ensures
            n == (if self@.len() == 0 { 0 } else { self@[0].len() }),
    {
        if self.channels.len() == 0 {
            0
        } else {
            self.channels[0].available()
        }
    }

    /// Returns true if the buffer is empty.
    pub fn is_empty(&self) -> (empty: bool)
        requires
            self.wf(),
        ensures
            empty == (self@.len() == 0 || self@[0].len() == 0),
    {
        self.available() == 0
    }

    /// Clears all samples from the buffer.
    pub fn clear(&mut self)
        requires
            old(self).wf(),
        ensures
            final(self).wf(),
            final(self)@.len() == old(self)@.len(),
            forall|i: int| 0 <= i < final(self)@.len() ==> #[trigger] final(self)@[i] == Seq::<T>::empty(),
    {
        let n = self.channels.len();
        let mut i: usize = 0;
        while i < n
            invariant
                n == self.channels@.len(),
                i <= n,
                forall|k: int| 0 <= k < n ==> (#[trigger] self.channels@[k]).wf(),
                forall|k: int| 0 <= k < i ==> (#[trigger] self.channels@[k])@ == Seq::<T>::empty(),
            decreases n - i,
        {
            self.channels[i].clear();
            i = i + 1;
        }
    }

    /// Pushes one slice of samples per channel: `input[i]` goes to channel `i`.
    ///
    /// There must be one slice per channel, and all of them must hold the
    /// same number of frames.
    pub fn push(&mut self, input: &[&[T]])
        requires
            old(self).wf(),
            input@.len() == old(self)@.len(),
            forall|i: int| 0 <= i < input@.len() ==> (#[trigger] input@[i])@.len() == input@[0]@.len(),
        ensures
            final(self).wf(),
            final(self)@.len() == old(self)@.len(),
            forall|i: int| 0 <= i < final(self)@.len() ==> #[trigger] final(self)@[i] == old(self)@[i] + input@[i]@,
    {
        let n = self.channels.len();
        if input.len() == 0 {
            return;
        }
        let mut i: usize = 0;
        while i < n
            invariant
                n == self.channels@.len(),
                n == input@.len(),
                i <= n,
                forall|k: int| 0 <= k < n ==> (#[trigger] self.channels@[k]).wf(),
                forall|k: int| 0 <= k < i ==> (#[trigger] self.channels@[k])@ == old(self).channels@[k]@ + input@[k]@,
                forall|k: int| i <= k < n ==> #[trigger] self.channels@[k] == old(self).channels@[k],
            decreases n - i,
        {
            self.channels[i].push(input[i]);
            i = i + 1;
        }
    }

    /// Pushes samples into a single channel.
    pub fn push_channel(&mut self, channel: usize, input: &[T])
        requires
            old(self).wf(),
            channel < old(self)@.len(),
        ensures
            final(self).wf(),
            final(self)@ == old(self)@.update(channel as int, old(self)@[channel as int] + input@),
    {
        self.channels[channel].push(input);
    }

    /// The `frames` oldest samples of one channel, or `None` when the channel
    /// does not exist or holds fewer samples.
    pub fn read_channel(&self, channel: usize, frames: usize) -> (r: Option<&[T]>)
        requires
            self.wf(),
        ensures
            (channel >= self@.len() || frames > self@[channel as int].len()) ==> r is None,
            (channel < self@.len() && frames <= self@[channel as int].len()) ==> (r matches Some(s)
                && s@ == self@[channel as int].subrange(0, frames as int)),
    {
        if channel >= self.channels.len() {
            return None;
        }
        self.channels[channel].read(frames)
    }

    /// Consumes the specified number of frames from all channels.
    pub fn consume(&mut self, frames: usize)
        requires
            old(self).wf(),
            forall|i: int| 0 <= i < old(self)@.len() ==> frames <= (#[trigger] old(self)@[i]).len(),
        ensures
            final(self).wf(),
            final(self)@.len() == old(self)@.len(),
            forall|i: int| 0 <= i < final(self)@.len() ==> #[trigger] final(self)@[i]
                == old(self)@[i].subrange(frames as int, old(self)@[i].len() as int),
    {
        let n = self.channels.len();
        assert forall|k: int| 0 <= k < n implies frames <= (#[trigger] old(self).channels@[k])@.len() by {
            assert(old(self)@[k] == old(self).channels@[k]@);
        }
        let mut i: usize = 0;
        while i < n
            invariant
                n == self.channels@.len(),
                n == old(self).channels@.len(),
                i <= n,
                forall|k: int| 0 <= k < n ==> (#[trigger] self.channels@[k]).wf(),
                forall|k: int| 0 <= k < i ==> (#[trigger] self.channels@[k])@
                    == old(self).channels@[k]@.subrange(frames as int, old(self).channels@[k]@.len() as int),
                forall|k: int| i <= k < n ==> #[trigger] self.channels@[k] == old(self).channels@[k],
                forall|k: int| 0 <= k < n ==> frames <= (#[trigger] old(self).channels@[k])@.len(),
            decreases n - i,
        {
            self.channels[i].consume(frames);
            i = i + 1;
        }
    }

    /// Changes the number of channels and clears every channel.
    pub fn resize(&mut self, channels: usize)
        requires
            old(self).wf(),
        ensures
            final(self).wf(),
            final(self)@.len() == channels,
            forall|i: int| 0 <= i < channels ==> #[trigger] final(self)@[i] == Seq::<T>::empty(),
    {
        self.clear();
        let n = self.channels.len();
        assert forall|k: int| 0 <= k < n implies (#[trigger] self.channels@[k])@ == Seq::<T>::empty() by {
            assert(self@[k] == self.channels@[k]@);
        }
        if channels > n {
            let mut i: usize = n;
            while i < channels
                invariant
                    n <= i <= channels,
                    self.channels@.len() == i,
                    forall|k: int| 0 <= k < i ==> (#[trigger] self.channels@[k]).wf()
                        && self.channels@[k]@ == Seq::<T>::empty(),
                decreases channels - i,
            {
                self.channels.push(SampleBuffer::new());
                i = i + 1;
            }
        } else if channels < n {
            self.channels.truncate(channels);
        }
    }
}

impl<T: Copy> Default for PlanarSampleBuffer<T> {
    /// A buffer without channels.
    fn default() -> (buffer: Self)
        ensures
            buffer.wf(),
            buffer@.len() == 0,
    {
        PlanarSampleBuffer { channels: Vec::new() }
    }
}

} // verus!
