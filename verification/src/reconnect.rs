use std::collections::VecDeque;

use vstd::prelude::*;

use crate::audio::{ChunkView, StereoChunk};

verus! {

/// The bytes of all chunks of `s`.
pub open spec fn total_bytes(s: Seq<ChunkView>) -> int
    decreases s.len(),
{
    if s.len() == 0 {
        0
    } else {
        s[0].pcm.len() + total_bytes(s.drop_first())
    }
}

/// The frames of all chunks of `s`.
pub open spec fn total_frames(s: Seq<ChunkView>) -> int
    decreases s.len(),
{
    if s.len() == 0 {
        0
    } else {
        s[0].frames + total_frames(s.drop_first())
    }
}

/// How many of the oldest chunks of `s` must go so that `incoming` more
/// bytes fit within `capacity`; all of them when even an empty buffer could
/// not take it.
pub open spec fn evicted(s: Seq<ChunkView>, incoming: int, capacity: int) -> int
    decreases s.len(),
{
    if total_bytes(s) + incoming <= capacity || s.len() == 0 {
        0
    } else {
        1 + evicted(s.drop_first(), incoming, capacity)
    }
}

/// `a + b`, saturating at the largest `usize`.
pub open spec fn saturating(a: int, b: int) -> int {
    if a + b > usize::MAX {
        usize::MAX as int
    } else {
        a + b
    }
}

/// `start` plus the frames of `s`, adding one chunk at a time and saturating
/// at the largest `usize`.
pub open spec fn saturating_frames(start: int, s: Seq<ChunkView>) -> int
    decreases s.len(),
{
    if s.len() == 0 {
        start
    } else {
        saturating(saturating_frames(start, s.drop_last()), s.last().frames as int)
    }
}

/// The chunks and the drop count after `c` is pushed onto `s` with `dropped`
/// frames dropped so far: the oldest chunks go until `c` fits, and when even
/// an empty buffer cannot take it, everything goes, `c` too.
pub open spec fn after_push(s: Seq<ChunkView>, dropped: int, c: ChunkView, capacity: int) -> (Seq<ChunkView>, int) {
    let k = evicted(s, c.pcm.len() as int, capacity);
    let kept = s.skip(k);
    if total_bytes(kept) + c.pcm.len() <= capacity {
        (kept.push(c), saturating_frames(dropped, s.take(k)))
    } else {
        (Seq::empty(), saturating(saturating_frames(dropped, s), c.frames as int))
    }
}

proof fn lemma_total_frames_nonnegative(s: Seq<ChunkView>)
    ensures
        total_frames(s) >= 0,
    decreases s.len(),
{
    if s.len() > 0 {
        lemma_total_frames_nonnegative(s.drop_first());
    }
}

proof fn lemma_total_frames_split(s: Seq<ChunkView>, k: int)
    requires
        0 <= k <= s.len(),
    ensures
        total_frames(s.take(k)) + total_frames(s.skip(k)) == total_frames(s),
    decreases k,
{
    if k > 0 {
        lemma_total_frames_split(s.drop_first(), k - 1);
        assert(s.take(k).drop_first() =~= s.drop_first().take(k - 1));
        assert(s.skip(k) =~= s.drop_first().skip(k - 1));
    } else {
        assert(s.take(0) =~= Seq::<ChunkView>::empty());
        assert(s.skip(0) =~= s);
    }
}

proof fn lemma_total_frames_push(s: Seq<ChunkView>, c: ChunkView)
    ensures
        total_frames(s.push(c)) == total_frames(s) + c.frames,
    decreases s.len(),
{
    if s.len() > 0 {
        lemma_total_frames_push(s.drop_first(), c);
        assert(s.push(c).drop_first() =~= s.drop_first().push(c));
        assert(s.push(c)[0] == s[0]);
    } else {
        assert(s.push(c).drop_first() =~= Seq::<ChunkView>::empty());
        assert(s.push(c)[0] == c);
        assert(total_frames(Seq::<ChunkView>::empty()) == 0);
    }
}

proof fn lemma_saturating_frames_exact(start: int, s: Seq<ChunkView>)
    requires
        0 <= start,
        start + total_frames(s) <= usize::MAX,
    ensures
        saturating_frames(start, s) == start + total_frames(s),
    decreases s.len(),
{
    if s.len() > 0 {
        let p = s.drop_last();
        lemma_total_frames_push(p, s.last());
        assert(p.push(s.last()) =~= s);
        lemma_total_frames_nonnegative(p);
        lemma_saturating_frames_exact(start, p);
    }
}

/// No frame goes unaccounted for: after a push, the frames held and the
/// frames counted as dropped add up to those held and dropped before plus
/// the pushed chunk's, as long as the count stays below its limit.
pub proof fn every_pushed_frame_is_kept_or_counted(s: Seq<ChunkView>, dropped: int, c: ChunkView, capacity: int)
    requires
        0 <= dropped,
        dropped + total_frames(s) + c.frames <= usize::MAX,
    ensures
        ({
            let (kept, now_dropped) = after_push(s, dropped, c, capacity);
            total_frames(kept) + now_dropped == total_frames(s) + dropped + c.frames
        }),
{
    let k = evicted(s, c.pcm.len() as int, capacity);
    lemma_evicted_bounds(s, c.pcm.len() as int, capacity);
    lemma_total_frames_split(s, k);
    lemma_total_frames_nonnegative(s.take(k));
    lemma_total_frames_nonnegative(s.skip(k));
    lemma_saturating_frames_exact(dropped, s.take(k));
    lemma_saturating_frames_exact(dropped, s);
    lemma_total_frames_push(s.skip(k), c);
    assert(total_frames(Seq::<ChunkView>::empty()) == 0);
}

/// The three seconds of stereo 16-bit audio a link keeps while the sidecar
/// is unreachable: the oldest chunks go first when more arrive, and every
/// frame that goes is counted.
pub struct ReconnectBuffer {
    chunks: VecDeque<StereoChunk>,
    capacity_bytes: usize,
    buffered_bytes: usize,
    dropped_frames: usize,
}

proof fn lemma_total_bytes_nonnegative(s: Seq<ChunkView>)
    ensures
        total_bytes(s) >= 0,
        total_frames(s) >= 0,
    decreases s.len(),
{
    if s.len() > 0 {
        lemma_total_bytes_nonnegative(s.drop_first());
    }
}

proof fn lemma_total_push(s: Seq<ChunkView>, c: ChunkView)
    ensures
        total_bytes(s.push(c)) == total_bytes(s) + c.pcm.len(),
        total_frames(s.push(c)) == total_frames(s) + c.frames,
    decreases s.len(),
{
    if s.len() == 0 {
        assert(s.push(c).drop_first() =~= s);
    } else {
        assert(s.push(c).drop_first() =~= s.drop_first().push(c));
        lemma_total_push(s.drop_first(), c);
    }
}

proof fn lemma_evicted_bounds(s: Seq<ChunkView>, incoming: int, capacity: int)
    ensures
        0 <= evicted(s, incoming, capacity) <= s.len(),
    decreases s.len(),
{
    if !(total_bytes(s) + incoming <= capacity || s.len() == 0) {
        lemma_evicted_bounds(s.drop_first(), incoming, capacity);
    }
}

impl ReconnectBuffer {
    /// The chunks held, oldest first.
    pub closed spec fn chunks(&self) -> Seq<ChunkView> {
        self.chunks@.map_values(|c: StereoChunk| c@)
    }

    /// The most bytes the buffer holds.
    pub closed spec fn capacity(&self) -> int {
        self.capacity_bytes as int
    }

    /// The frames dropped so far.
    pub closed spec fn dropped(&self) -> int {
        self.dropped_frames as int
    }

    /// The buffer's bookkeeping matches the chunks it holds, within capacity.
    pub closed spec fn well_formed(&self) -> bool {
        &&& self.buffered_bytes == total_bytes(self.chunks())
        &&& self.buffered_bytes <= self.capacity_bytes
    }

    /// A buffer never holds more than its three seconds.
    pub proof fn holds_at_most_its_capacity(&self)
        requires
            self.well_formed(),
        ensures
            total_bytes(self.chunks()) <= self.capacity(),
    {
    }

    /// An empty buffer for three seconds of stereo audio at `rate` frames a
    /// second.
    pub fn new(rate: usize) -> (res: Self)
        requires
            rate * 12 <= usize::MAX,
        ensures
            res.chunks() == Seq::<ChunkView>::empty(),
            res.capacity() == rate * 2 * 2 * 3,
            res.dropped() == 0,
            res.well_formed(),
    {
        let res = ReconnectBuffer {
            chunks: VecDeque::new(),
            capacity_bytes: rate * 2 * 2 * 3,
            buffered_bytes: 0,
            dropped_frames: 0,
        };
        assert(res.chunks() =~= Seq::<ChunkView>::empty());
        res
    }

    /// Keeps `chunk`, dropping the oldest chunks that no longer fit; a chunk
    /// larger than the whole buffer empties it and is dropped itself.
    pub fn push(&mut self, chunk: StereoChunk)
        requires
            old(self).well_formed(),
        ensures
            final(self).well_formed(),
            final(self).capacity() == old(self).capacity(),
            (final(self).chunks(), final(self).dropped()) == after_push(
                old(self).chunks(),
                old(self).dropped(),
                chunk@,
                old(self).capacity(),
            ),
            ({
                let k = evicted(old(self).chunks(), chunk.pcm@.len() as int, old(self).capacity());
                let kept = old(self).chunks().skip(k);
                if total_bytes(kept) + chunk.pcm@.len() <= old(self).capacity() {
                    &&& final(self).chunks() == kept.push(chunk@)
                    &&& final(self).dropped() == saturating_frames(
                        old(self).dropped(),
                        old(self).chunks().take(k),
                    )
                } else {
                    &&& final(self).chunks() == Seq::<ChunkView>::empty()
                    &&& final(self).dropped() == saturating(
                        saturating_frames(old(self).dropped(), old(self).chunks()),
                        chunk.frames as int,
                    )
                }
            }),
    {
        let ghost old_chunks = self.chunks();
        let ghost len = chunk.pcm@.len() as int;
        let ghost cap = self.capacity();
        let mut k: Ghost<int> = Ghost(0);
        proof {
            lemma_evicted_bounds(old_chunks, len, cap);
        }
        while chunk.pcm.len() > self.capacity_bytes - self.buffered_bytes
            invariant
                self.well_formed(),
                self.capacity() == cap,
                cap == old(self).capacity(),
                old_chunks == old(self).chunks(),
                len == chunk.pcm@.len(),
                0 <= k@ <= old_chunks.len(),
                self.chunks() == old_chunks.skip(k@),
                evicted(old_chunks, len, cap) == k@ + evicted(self.chunks(), len, cap),
                self.dropped() == saturating_frames(old(self).dropped(), old_chunks.take(k@)),
            decreases self.chunks().len(),
        {
            assert(self.chunks().len() == self.chunks@.len());
            match self.chunks.pop_front() {
                None => {
                    proof {
                        assert(old_chunks.skip(k@).len() == 0);
                        assert(k@ == old_chunks.len());
                        assert(old_chunks.take(k@) =~= old_chunks);
                        assert(self.chunks() =~= Seq::<ChunkView>::empty());
                    }
                    self.dropped_frames = self.dropped_frames.saturating_add(chunk.frames);
                    return;
                },
                Some(dropped) => {
                    proof {
                        assert(dropped@ == old_chunks.skip(k@)[0]);
                        assert(self.chunks() =~= old_chunks.skip(k@).drop_first());
                        assert(old_chunks.skip(k@).drop_first() =~= old_chunks.skip(k@ + 1));
                        assert(old_chunks.take(k@ + 1) =~= old_chunks.take(k@).push(dropped@));
                        assert(old_chunks.take(k@ + 1).drop_last() =~= old_chunks.take(k@));
                        lemma_total_bytes_nonnegative(self.chunks());
                    }
                    self.buffered_bytes = self.buffered_bytes - dropped.pcm.len();
                    self.dropped_frames = self.dropped_frames.saturating_add(dropped.frames);
                    proof {
                        k@ = k@ + 1;
                    }
                },
            }
        }
        proof {
            assert(evicted(self.chunks(), len, cap) == 0);
        }
        let ghost before = self.chunks();
        self.buffered_bytes = self.buffered_bytes + chunk.pcm.len();
        self.chunks.push_back(chunk);
        proof {
            assert(self.chunks() =~= before.push(chunk@));
            lemma_total_push(before, chunk@);
        }
    }

    /// Hands out every chunk held, oldest first, and empties the buffer.
    pub fn drain(&mut self) -> (res: Vec<StereoChunk>)
        requires
            old(self).well_formed(),
        ensures
            final(self).well_formed(),
            res@.map_values(|c: StereoChunk| c@) == old(self).chunks(),
            final(self).chunks() == Seq::<ChunkView>::empty(),
            final(self).capacity() == old(self).capacity(),
            final(self).dropped() == old(self).dropped(),
    {
        let mut res: Vec<StereoChunk> = Vec::new();
        let ghost all = self.chunks();
        while self.chunks.len() > 0
            invariant
                all == res@.map_values(|c: StereoChunk| c@) + self.chunks(),
                self.dropped() == old(self).dropped(),
                self.capacity() == old(self).capacity(),
            decreases self.chunks@.len(),
        {
            let ghost rest = self.chunks();
            let ghost taken = res@;
            match self.chunks.pop_front() {
                Some(chunk) => {
                    res.push(chunk);
                    proof {
                        assert(self.chunks() =~= rest.drop_first());
                        assert(res@.map_values(|c: StereoChunk| c@) =~= taken.map_values(
                            |c: StereoChunk| c@,
                        ).push(rest[0]));
                        assert(all =~= res@.map_values(|c: StereoChunk| c@) + self.chunks());
                    }
                },
                None => {},
            }
        }
        self.buffered_bytes = 0;
        proof {
            assert(self.chunks() =~= Seq::<ChunkView>::empty());
            assert(all =~= res@.map_values(|c: StereoChunk| c@));
        }
        res
    }

    /// The oldest chunk held, if any.
    pub fn front(&self) -> (res: Option<&StereoChunk>)
        ensures
            self.chunks().len() == 0 ==> res is None,
            self.chunks().len() > 0 ==> (res matches Some(c) && c@ == self.chunks()[0]),
    {
        if self.chunks.len() == 0 {
            None
        } else {
            let c = &self.chunks[0];
            Some(c)
        }
    }

    /// Lets go of the oldest chunk, once it has been delivered.
    pub fn pop_front(&mut self)
        requires
            old(self).well_formed(),
        ensures
            final(self).well_formed(),
            final(self).chunks() == if old(self).chunks().len() == 0 {
                old(self).chunks()
            } else {
                old(self).chunks().drop_first()
            },
            final(self).capacity() == old(self).capacity(),
            final(self).dropped() == old(self).dropped(),
    {
        let ghost before = self.chunks();
        match self.chunks.pop_front() {
            Some(chunk) => {
                proof {
                    assert(self.chunks() =~= before.drop_first());
                    lemma_total_bytes_nonnegative(self.chunks());
                }
                self.buffered_bytes = self.buffered_bytes - chunk.pcm.len();
            },
            None => {
                proof {
                    assert(self.chunks() =~= before);
                }
            },
        }
    }

    /// The frames dropped so far.
    pub fn dropped_frames(&self) -> (res: usize)
        ensures
            res == self.dropped(),
    {
        self.dropped_frames
    }
}

} // verus!
