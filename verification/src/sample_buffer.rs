//! A growable FIFO of samples that compacts its storage as it is consumed.

use vstd::prelude::*;

verus! {

/// FIFO buffer of samples: pushed at the back, read and consumed at the front.
///
/// The samples before `head` have been consumed; the storage is compacted
/// once more than half of it is consumed.
pub struct SampleBuffer<T> {
    data: Vec<T>,
    head: usize,
}

impl<T> View for SampleBuffer<T> {
    type V = Seq<T>;

    /// The samples that are available, oldest first.
    closed spec fn view(&self) -> Seq<T> {
        self.data@.subrange(self.head as int, self.data@.len() as int)
    }
}

impl<T: Copy> SampleBuffer<T> {
    /// The buffer's internal invariant: the read position lies within the storage.
    pub closed spec fn wf(&self) -> bool {
        self.head <= self.data@.len()
    }

    /// Creates an empty buffer.
    pub fn new() -> (buffer: Self)
        ensures
            buffer.wf(),
            buffer@ == Seq::<T>::empty(),
    {
        SampleBuffer { data: Vec::new(), head: 0 }
    }

    /// Number of samples available for reading.
    pub fn available(&self) -> (n: usize)
        requires
            self.wf(),
        ensures
            n == self@.len(),
    {
        self.data.len() - self.head
    }

    /// True when no sample is available.
    pub fn is_empty(&self) -> (empty: bool)
        requires
            self.wf(),
        ensures
            empty == (self@.len() == 0),
    {
        self.available() == 0
    }

    /// Drops every sample.
    pub fn clear(&mut self)
        ensures
            final(self).wf(),
            final(self)@ == Seq::<T>::empty(),
    {
        self.head = 0;
        self.data.clear();
    }

    /// Appends `input` after the available samples.
    pub fn push(&mut self, input: &[T])
        requires
            old(self).wf(),
        ensures
            final(self).wf(),
            final(self)@ == pushed(old(self)@, input@),
    {
        let ghost before = self.data@;
        let mut i: usize = 0;
        while i < input.len()
            invariant
                self.head == old(self).head,
                self.head <= before.len(),
                self.data@ == before + input@.subrange(0, i as int),
                i <= input@.len(),
            decreases input@.len() - i,
        {
            self.data.push(input[i]);
            i = i + 1;
            assert(input@.subrange(0, i as int) == input@.subrange(0, i - 1) + seq![input@[i - 1]]);
        }
        assert(input@.subrange(0, i as int) == input@);
        assert(self@ == old(self)@ + input@);
    }

    /// The `count` oldest samples, or `None` when fewer are available.
    pub fn read(&self, count: usize) -> (r: Option<&[T]>)
        requires
            self.wf(),
        ensures
            count > self@.len() ==> r is None,
            count <= self@.len() ==> (r matches Some(s) && s@ == self@.subrange(0, count as int)),
    {
        if self.available() < count {
            return None;
        }
        let _len = self.data.len();
        Some(&self.data.as_slice()[self.head..self.head + count])
    }

    /// Removes the `count` oldest samples.
    ///
    /// Once everything is consumed the storage is emptied; once more than half
    /// of it is consumed the remaining samples move to its front.
    pub fn consume(&mut self, count: usize)
        requires
            old(self).wf(),
            count <= old(self)@.len(),
        ensures
            final(self).wf(),
            final(self)@ == consumed(old(self)@, count as int),
    {
        let len = self.data.len();
        self.head = self.head + count;

        if self.head == len {
            self.clear();
            return;
        }

        if self.head > self.data.len() / 2 {
            let tail = self.data.len() - self.head;
            let ghost kept = self@;
            let mut i: usize = 0;
            while i < tail
                invariant
                    tail == self.data@.len() - self.head,
                    self.data@.len() == len,
                    self.head <= self.data@.len(),
                    self.head > self.data@.len() / 2,
                    i <= tail,
                    kept == self.data@.subrange(self.head as int, self.data@.len() as int),
                    forall|k: int| 0 <= k < i ==> #[trigger] self.data@[k] == kept[k],
                decreases tail - i,
            {
                let v = self.data[self.head + i];
                self.data.set(i, v);
                i = i + 1;
            }
            self.head = 0;
            self.data.truncate(tail);
            assert(self@ == kept);
        }
    }
}

/// The available samples after `input` is pushed onto `available`.
pub open spec fn pushed<T>(available: Seq<T>, input: Seq<T>) -> Seq<T> {
    available + input
}

/// The available samples after the `count` oldest of `available` are consumed.
pub open spec fn consumed<T>(available: Seq<T>, count: int) -> Seq<T> {
    available.subrange(count, available.len() as int)
}

/// Samples leave in the order they arrived: pushing `input` onto the
/// available samples and then consuming as many samples as were available
/// before the push leaves exactly `input` (`push` then `consume`).
pub proof fn lemma_consumed_push_leaves_input<T>(available: Seq<T>, input: Seq<T>)
    ensures
        consumed(pushed(available, input), available.len() as int) == input,
{
    assert(consumed(pushed(available, input), available.len() as int) =~= input);
}

impl<T: Copy> Default for SampleBuffer<T> {
    /// An empty buffer.
    fn default() -> (buffer: Self)
        ensures
            buffer.wf(),
            buffer@ == Seq::<T>::empty(),
    {
        Self::new()
    }
}

} // verus!
