//! Feeding a device buffer from a queue of sample chunks, across callbacks.

use vstd::prelude::*;

verus! {

/// Copies as many samples as fit from `source[offset..]` into `output[start..]`
/// and returns how many it copied (none when `offset` is past the end of `source`).
pub fn copy_available<T: Copy>(source: &[T], offset: usize, output: &mut [T], start: usize) -> (count: usize)
    requires
        start <= old(output)@.len(),
    ensures
        count == (if offset >= source@.len() {
            0
        } else if source@.len() - offset <= old(output)@.len() - start {
            (source@.len() - offset) as int
        } else {
            old(output)@.len() - start
        }),
        final(output)@.len() == old(output)@.len(),
        forall|i: int| 0 <= i < old(output)@.len() ==> #[trigger] final(output)@[i] == (if start <= i < start + count {
            source@[offset + i - start]
        } else {
            old(output)@[i]
        }),
{
    let slen = source.len();
    let available = if offset >= slen { 0 } else { slen - offset };
    let olen = output.len();
    let space = olen - start;
    let count = if available <= space { available } else { space };
    let mut i: usize = 0;
    while i < count
        invariant
            slen == source@.len(),
            count <= space,
            olen == output@.len(),
            space == olen - start,
            output@.len() == old(output)@.len(),
            count == 0 || offset + count <= slen,
            i <= count,
            forall|p: int| 0 <= p < old(output)@.len() ==> #[trigger] output@[p] == (if start <= p < start + i {
                source@[offset + p - start]
            } else {
                old(output)@[p]
            }),
        decreases count - i,
    {
        output[start + i] = source[offset + i];
        i = i + 1;
    }
    count
}

/// Reads `source` from `*offset` into the front of `output`, fills the rest
/// of `output` with `silence`, advances `*offset` past what it read, and
/// returns whether `source` has now been read to its end.
pub fn read_into<T: Copy>(source: &[T], offset: &mut usize, output: &mut [T], silence: T) -> (finished: bool)
    requires
        *old(offset) + old(output)@.len() <= usize::MAX,
    ensures
        ({
            let copied = if *old(offset) >= source@.len() {
                0
            } else if source@.len() - *old(offset) <= old(output)@.len() {
                (source@.len() - *old(offset)) as int
            } else {
                old(output)@.len() as int
            };
            &&& final(output)@.len() == old(output)@.len()
            &&& forall|i: int| 0 <= i < old(output)@.len() ==> #[trigger] final(output)@[i] == (if i < copied {
                source@[*old(offset) + i]
            } else {
                silence
            })
            &&& *final(offset) == *old(offset) + copied
            &&& finished == (*final(offset) >= source@.len())
        }),
{
    let copied = copy_available(source, *offset, output, 0);
    let len = output.len();
    let mut i: usize = copied;
    while i < len
        invariant
            len == output@.len(),
            copied <= i <= len,
            output@.len() == old(output)@.len(),
            forall|p: int| 0 <= p < copied ==> #[trigger] output@[p] == source@[*old(offset) + p],
            forall|p: int| copied <= p < i ==> #[trigger] output@[p] == silence,
        decreases len - i,
    {
        output[i] = silence;
        i = i + 1;
    }
    *offset = *offset + copied;
    *offset >= source.len()
}

/// The samples of the chunk `remaining` that one call of `play_into` writes,
/// when it writes `count` of them.
pub open spec fn played<T>(remaining: Seq<T>, count: int) -> Seq<T> {
    remaining.subrange(0, count)
}

/// The samples of the chunk `remaining` that are left to play after a call of
/// `play_into` wrote `count` of them.
pub open spec fn unplayed<T>(remaining: Seq<T>, count: int) -> Seq<T> {
    remaining.subrange(count, remaining.len() as int)
}

/// Playback loses and repeats nothing: the samples one call of `play_into`
/// writes, followed by those it leaves to play, are the chunk it started from.
pub proof fn lemma_played_then_remaining_is_chunk<T>(remaining: Seq<T>, count: int)
    requires
        0 <= count <= remaining.len(),
    ensures
        played(remaining, count) + unplayed(remaining, count) == remaining,
{
    assert(played(remaining, count) + unplayed(remaining, count) =~= remaining);
}

/// The chunk being played and how far into it playback is.
pub struct PlaybackState<T> {
    current_samples: Vec<T>,
    offset: usize,
    has_current: bool,
}

impl<T> View for PlaybackState<T> {
    type V = Option<Seq<T>>;

    /// The samples of the current chunk still to play, or `None` without a chunk.
    closed spec fn view(&self) -> Option<Seq<T>> {
        if self.has_current {
            Some(self.current_samples@.subrange(self.offset as int, self.current_samples@.len() as int))
        } else {
            None
        }
    }
}

impl<T: Copy> PlaybackState<T> {
    /// The state's internal invariant: the position lies within the current chunk.
    pub closed spec fn wf(&self) -> bool {
        self.offset <= self.current_samples@.len()
    }

    /// No chunk yet.
    pub fn new() -> (state: Self)
        ensures
            state.wf(),
            state@ is None,
    {
        PlaybackState { current_samples: Vec::new(), offset: 0, has_current: false }
    }

    /// True when a new chunk is needed.
    pub fn is_idle(&self) -> (idle: bool)
        ensures
            idle == (self@ is None),
    {
        !self.has_current
    }

    /// Starts playing `samples`.
    pub fn load(&mut self, samples: Vec<T>)
        ensures
            final(self).wf(),
            final(self)@ == Some(samples@),
    {
        self.current_samples = samples;
        self.offset = 0;
        self.has_current = true;
    }

    /// Plays into `output[start..]` as much of the current chunk as fits and
    /// returns how many samples it wrote; a chunk that has been played out is dropped.
    pub fn play_into(&mut self, output: &mut [T], start: usize) -> (count: usize)
        requires
            old(self).wf(),
            start <= old(output)@.len(),
        ensures
            final(self).wf(),
            ({
                let remaining = match old(self)@ {
                    Some(s) => s,
                    None => Seq::<T>::empty(),
                };
                let space = old(output)@.len() - start;
                &&& count == (if remaining.len() <= space { remaining.len() as int } else { space })
                &&& final(output)@ == old(output)@.subrange(0, start as int) + played(remaining, count as int)
                    + old(output)@.subrange(start + count, old(output)@.len() as int)
                &&& final(self)@ == (if old(self)@ is Some && count < remaining.len() {
                    Some(unplayed(remaining, count as int))
                } else {
                    None
                })
            }),
    {
        if !self.has_current {
            assert(output@ =~= old(output)@.subrange(0, start as int) + Seq::<T>::empty()
                + old(output)@.subrange(start as int, old(output)@.len() as int));
            return 0;
        }
        let ghost remaining = self@->Some_0;
        let _len = self.current_samples.len();
        let count = copy_available(self.current_samples.as_slice(), self.offset, output, start);
        assert(output@ =~= old(output)@.subrange(0, start as int) + remaining.subrange(0, count as int)
            + old(output)@.subrange(start + count, old(output)@.len() as int));
        self.offset = self.offset + count;
        if self.offset >= self.current_samples.len() {
            self.current_samples.clear();
            self.offset = 0;
            self.has_current = false;
        } else {
            assert(self.current_samples@.subrange(self.offset as int, self.current_samples@.len() as int)
                =~= remaining.subrange(count as int, remaining.len() as int));
        }
        count
    }
}


/// Position of a reader in a queue of frames that it borrows one at a time:
/// the frame it reads (by id) and how far into it it is.
pub struct FrameCursor {
    current: Option<u32>,
    offset: usize,
}

impl View for FrameCursor {
    type V = Option<(u32, usize)>;

    /// The frame being read and the position in it, or `None` between frames.
    closed spec fn view(&self) -> Option<(u32, usize)> {
        match self.current {
            Some(id) => Some((id, self.offset)),
            None => None,
        }
    }
}

impl FrameCursor {
    /// A cursor between frames.
    pub fn new() -> (cursor: Self)
        ensures
            cursor@ is None,
    {
        FrameCursor { current: None, offset: 0 }
    }

    /// The frame being read, if any.
    pub fn current(&self) -> (id: Option<u32>)
        ensures
            id == (match self@ {
                Some((i, _)) => Some(i),
                None => None,
            }),
    {
        self.current
    }

    /// Starts reading frame `id` from its beginning.
    pub fn start(&mut self, id: u32)
        ensures
            final(self)@ == Some((id, 0usize)),
    {
        self.current = Some(id);
        self.offset = 0;
    }

    /// Copies as much of `frame` (the samples of the current frame) from the
    /// cursor's position as fits into `output[written..]` and returns how many
    /// samples it copied, with the frame's id when the frame is now read to its end.
    /// A finished frame is let go; otherwise the position advances.
    pub fn read_from<T: Copy>(&mut self, frame: &[T], output: &mut [T], written: usize) -> (r: (usize, Option<u32>))
        requires
            old(self)@ is Some,
            written <= old(output)@.len(),
        ensures
            ({
                let (id, offset) = old(self)@->Some_0;
                let count = if offset >= frame@.len() {
                    0
                } else if frame@.len() - offset <= old(output)@.len() - written {
                    (frame@.len() - offset) as int
                } else {
                    old(output)@.len() - written
                };
                let taken = if count == 0 { Seq::<T>::empty() } else { frame@.subrange(offset as int, offset + count) };
                &&& r.0 == count
                &&& final(output)@ == old(output)@.subrange(0, written as int) + taken
                    + old(output)@.subrange(written + count, old(output)@.len() as int)
                &&& (offset + count >= frame@.len() ==> r.1 == Some(id) && final(self)@ is None)
                &&& (offset + count < frame@.len() ==> r.1 is None && final(self)@ == Some((id, (offset + count) as usize)))
            }),
    {
        let id = match self.current {
            Some(id) => id,
            None => 0,
        };
        let offset = self.offset;
        let count = copy_available(frame, offset, output, written);
        proof {
            let c = count as int;
            let taken = if c == 0 { Seq::<T>::empty() } else { frame@.subrange(offset as int, offset + c) };
            assert(output@ =~= old(output)@.subrange(0, written as int) + taken
                + old(output)@.subrange(written + c, old(output)@.len() as int));
        }
        if count >= frame.len() || offset >= frame.len() - count {
            self.current = None;
            self.offset = 0;
            (count, Some(id))
        } else {
            self.offset = offset + count;
            (count, None)
        }
    }
}

} // verus!
