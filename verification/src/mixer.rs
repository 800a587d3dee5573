use std::collections::VecDeque;

use vstd::prelude::*;

use crate::audio::{ChunkView, StereoChunk};

verus! {

/// The two capture sources the mixer pairs.
#[derive(Clone, Copy, Debug, PartialEq, Eq, Structural)]
pub enum SourceChannel {
    System,
    Microphone,
}

/// Frames in one 100 ms tick at 48 kHz.
pub const TICK_FRAMES: usize = 4_800;

/// The most frames one source buffers while its peer lags: three seconds.
pub const MAX_BUFFERED_FRAMES: usize = 144_000;

/// The two bytes of `v`, least significant first.
pub open spec fn le_bytes(v: i16) -> Seq<u8> {
    let u: int = if v < 0 {
        v + 65536
    } else {
        v as int
    };
    seq![(u % 256) as u8, (u / 256) as u8]
}

/// A sample as it is heard: silence while its source is muted.
pub open spec fn heard(v: i16, muted: bool) -> i16 {
    if muted {
        0
    } else {
        v
    }
}

/// The stereo frames of `system` and `microphone`, paired in order, as
/// interleaved 16-bit little-endian PCM: system first in each frame.
pub open spec fn interleaved(
    system: Seq<i16>,
    microphone: Seq<i16>,
    system_muted: bool,
    microphone_muted: bool,
) -> Seq<u8>
    decreases system.len(),
{
    if system.len() == 0 {
        Seq::empty()
    } else {
        interleaved(system.drop_last(), microphone.drop_last(), system_muted, microphone_muted)
            + le_bytes(heard(system.last(), system_muted)) + le_bytes(
            heard(microphone.last(), microphone_muted),
        )
    }
}

/// `s` without its oldest elements beyond the latest `max`.
pub open spec fn keep_latest(s: Seq<i16>, max: int) -> Seq<i16> {
    if s.len() > max {
        s.skip(s.len() - max)
    } else {
        s
    }
}

/// Each chunk of `s` as plain values.
pub open spec fn chunk_views(s: Seq<StereoChunk>) -> Seq<ChunkView> {
    s.map_values(|c: StereoChunk| c@)
}

/// The mixer as plain values: the frames each source buffers, oldest
/// first, and the mute and pause flags.
pub struct MixerView {
    pub system: Seq<i16>,
    pub microphone: Seq<i16>,
    pub system_muted: bool,
    pub microphone_muted: bool,
    pub paused: bool,
}

/// Whole ticks that both sources have buffered.
pub open spec fn ticks(v: MixerView) -> int {
    let available: int = if v.system.len() <= v.microphone.len() {
        v.system.len() as int
    } else {
        v.microphone.len() as int
    };
    available / (TICK_FRAMES as int)
}

/// The chunk made of tick `k` of the buffered frames.
pub open spec fn tick_chunk(v: MixerView, k: int) -> ChunkView {
    let from = k * TICK_FRAMES;
    let to = from + TICK_FRAMES;
    ChunkView {
        pcm: interleaved(
            v.system.subrange(from, to),
            v.microphone.subrange(from, to),
            v.system_muted,
            v.microphone_muted,
        ),
        frames: TICK_FRAMES,
    }
}

/// The chunks of the first `n` ticks.
pub open spec fn tick_chunks(v: MixerView, n: int) -> Seq<ChunkView> {
    Seq::new(n as nat, |k: int| tick_chunk(v, k))
}

/// The chunks of every whole tick both sources have buffered.
pub open spec fn mixed(v: MixerView) -> Seq<ChunkView> {
    tick_chunks(v, ticks(v))
}

/// The mixer once its whole ticks are drained.
pub open spec fn drained(v: MixerView) -> MixerView {
    MixerView {
        system: v.system.skip(ticks(v) * TICK_FRAMES),
        microphone: v.microphone.skip(ticks(v) * TICK_FRAMES),
        ..v
    }
}

/// The mixer with `frames` appended to `channel`'s buffer, keeping the
/// latest three seconds.
pub open spec fn filled(v: MixerView, channel: SourceChannel, frames: Seq<i16>) -> MixerView {
    match channel {
        SourceChannel::System => MixerView {
            system: keep_latest(v.system + frames, MAX_BUFFERED_FRAMES as int),
            ..v
        },
        SourceChannel::Microphone => MixerView {
            microphone: keep_latest(v.microphone + frames, MAX_BUFFERED_FRAMES as int),
            ..v
        },
    }
}

/// Pairs system and microphone audio into stereo chunks of one tick each,
/// carrying unpaired frames to the next push.
pub struct Mixer {
    system: VecDeque<i16>,
    microphone: VecDeque<i16>,
    system_muted: bool,
    microphone_muted: bool,
    paused: bool,
}

impl View for Mixer {
    type V = MixerView;

    closed spec fn view(&self) -> MixerView {
        MixerView {
            system: self.system@,
            microphone: self.microphone@,
            system_muted: self.system_muted,
            microphone_muted: self.microphone_muted,
            paused: self.paused,
        }
    }
}

/// Neither source buffers more than three seconds.
pub open spec fn mixer_well_formed(v: MixerView) -> bool {
    &&& v.system.len() <= MAX_BUFFERED_FRAMES
    &&& v.microphone.len() <= MAX_BUFFERED_FRAMES
}

proof fn lemma_interleaved_len(system: Seq<i16>, microphone: Seq<i16>, sm: bool, mm: bool)
    ensures
        interleaved(system, microphone, sm, mm).len() == 4 * system.len(),
    decreases system.len(),
{
    if system.len() > 0 {
        lemma_interleaved_len(system.drop_last(), microphone.drop_last(), sm, mm);
    }
}

fn le_pair(v: i16) -> (res: (u8, u8))
    ensures
        seq![res.0, res.1] == le_bytes(v),
{
    let u: i32 = if v < 0 {
        v as i32 + 65536
    } else {
        v as i32
    };
    ((u % 256) as u8, (u / 256) as u8)
}

/// Appends `frames` to `buffer`, keeping only the latest three seconds.
fn fill(buffer: &mut VecDeque<i16>, frames: &[i16])
    requires
        old(buffer)@.len() <= MAX_BUFFERED_FRAMES,
    ensures
        final(buffer)@ == keep_latest(old(buffer)@ + frames@, MAX_BUFFERED_FRAMES as int),
{
    let ghost b = buffer@;
    let ghost f = frames@;
    let n = frames.len();
    let mut i: usize;
    if n >= MAX_BUFFERED_FRAMES {
        buffer.clear();
        i = n - MAX_BUFFERED_FRAMES;
    } else {
        i = 0;
        let total = buffer.len() + n;
        if total > MAX_BUFFERED_FRAMES {
            let excess = total - MAX_BUFFERED_FRAMES;
            let mut k: usize = 0;
            while k < excess
                invariant
                    excess <= b.len(),
                    k <= excess,
                    buffer@ == b.skip(k as int),
                decreases excess - k,
            {
                buffer.pop_front();
                k = k + 1;
                proof {
                    assert(b.skip(k as int) =~= b.skip(k - 1).drop_first());
                }
            }
        }
    }
    let ghost start = i as int;
    let ghost base = buffer@;
    proof {
        if n >= MAX_BUFFERED_FRAMES {
            assert(keep_latest(b + f, MAX_BUFFERED_FRAMES as int) =~= f.skip(start));
        } else if b.len() + n > MAX_BUFFERED_FRAMES {
            assert(keep_latest(b + f, MAX_BUFFERED_FRAMES as int) =~= base + f);
        } else {
            assert(keep_latest(b + f, MAX_BUFFERED_FRAMES as int) =~= base + f);
        }
    }
    while i < n
        invariant
            f == frames@,
            n == f.len(),
            0 <= start <= i <= n,
            buffer@ == base + f.subrange(start, i as int),
        decreases n - i,
    {
        buffer.push_back(frames[i]);
        i = i + 1;
        proof {
            assert(f.subrange(start, i as int) =~= f.subrange(start, i - 1).push(f[i - 1]));
        }
    }
    proof {
        if n >= MAX_BUFFERED_FRAMES {
            assert(base =~= Seq::<i16>::empty());
            assert(f.subrange(start, n as int) =~= f.skip(start));
            assert(buffer@ =~= f.skip(start));
        } else {
            assert(f.subrange(0, n as int) =~= f);
        }
    }
}

impl Mixer {
    /// A mixer with nothing buffered, nothing muted, not paused.
    pub fn new() -> (res: Self)
        ensures
            mixer_well_formed(res@),
            res@.system.len() == 0,
            res@.microphone.len() == 0,
            !res@.system_muted,
            !res@.microphone_muted,
            !res@.paused,
    {
        Mixer {
            system: VecDeque::new(),
            microphone: VecDeque::new(),
            system_muted: false,
            microphone_muted: false,
            paused: false,
        }
    }

    /// Buffers `frames` of `channel` and drains every whole tick both sources
    /// now cover. While paused, the frames are discarded and nothing comes
    /// out.
    pub fn push(&mut self, channel: SourceChannel, frames: &[i16]) -> (res: Vec<StereoChunk>)
        requires
            mixer_well_formed(old(self)@),
        ensures
            mixer_well_formed(final(self)@),
            old(self)@.paused ==> res@.len() == 0 && final(self)@ == old(self)@,
            !old(self)@.paused ==> ({
                let f = filled(old(self)@, channel, frames@);
                &&& chunk_views(res@) == mixed(f)
                &&& final(self)@ == drained(f)
            }),
    {
        if self.paused {
            return Vec::new();
        }
        match channel {
            SourceChannel::System => fill(&mut self.system, frames),
            SourceChannel::Microphone => fill(&mut self.microphone, frames),
        }
        self.drain_chunks()
    }

    /// Mutes or unmutes `channel`: a muted source is still consumed, as
    /// silence.
    pub fn set_muted(&mut self, channel: SourceChannel, muted: bool)
        ensures
            final(self)@ == (match channel {
                SourceChannel::System => (MixerView { system_muted: muted, ..old(self)@ }),
                SourceChannel::Microphone => (MixerView { microphone_muted: muted, ..old(self)@ }),
            }),
    {
        match channel {
            SourceChannel::System => self.system_muted = muted,
            SourceChannel::Microphone => self.microphone_muted = muted,
        }
    }

    /// Pauses: whatever is buffered is discarded, and so is what is pushed
    /// until the mixer resumes.
    pub fn pause(&mut self)
        ensures
            final(self)@ == (MixerView {
                system: Seq::empty(),
                microphone: Seq::empty(),
                paused: true,
                ..old(self)@
            }),
    {
        self.paused = true;
        self.system.clear();
        self.microphone.clear();
    }

    /// Resumes mixing on fresh, aligned buffers.
    pub fn resume(&mut self)
        ensures
            final(self)@ == (MixerView { paused: false, ..old(self)@ }),
    {
        self.paused = false;
    }

    fn drain_chunks(&mut self) -> (res: Vec<StereoChunk>)
        ensures
            chunk_views(res@) == mixed(old(self)@),
            final(self)@ == drained(old(self)@),
    {
        let ghost v = self@;
        let available = if self.system.len() <= self.microphone.len() {
            self.system.len()
        } else {
            self.microphone.len()
        };
        let count = available / TICK_FRAMES;
        proof {
            assert(count * TICK_FRAMES <= available) by (nonlinear_arith)
                requires
                    count == available / TICK_FRAMES,
            ;
        }
        let mut chunks: Vec<StereoChunk> = Vec::new();
        let mut k: usize = 0;
        proof {
            assert(v.system.skip(0) =~= v.system);
            assert(v.microphone.skip(0) =~= v.microphone);
            assert(chunk_views(chunks@) =~= tick_chunks(v, 0));
        }
        while k < count
            invariant
                count == ticks(v),
                count * TICK_FRAMES <= v.system.len(),
                count * TICK_FRAMES <= v.microphone.len(),
                k <= count,
                self@ == (MixerView {
                    system: v.system.skip(k * TICK_FRAMES),
                    microphone: v.microphone.skip(k * TICK_FRAMES),
                    ..v
                }),
                chunk_views(chunks@) == tick_chunks(v, k as int),
            decreases count - k,
        {
            let ghost from = k * TICK_FRAMES;
            let mut pcm: Vec<u8> = Vec::new();
            let mut j: usize = 0;
            while j < TICK_FRAMES
                invariant
                    k < count,
                    count * TICK_FRAMES <= v.system.len(),
                    count * TICK_FRAMES <= v.microphone.len(),
                    from == k * TICK_FRAMES,
                    j <= TICK_FRAMES,
                    self@ == (MixerView {
                        system: v.system.skip(from + j),
                        microphone: v.microphone.skip(from + j),
                        ..v
                    }),
                    pcm@ == interleaved(
                        v.system.subrange(from, from + j),
                        v.microphone.subrange(from, from + j),
                        v.system_muted,
                        v.microphone_muted,
                    ),
                decreases TICK_FRAMES - j,
            {
                proof {
                    assert(from + j < count * TICK_FRAMES) by (nonlinear_arith)
                        requires
                            k < count,
                            from == k * TICK_FRAMES,
                            j < TICK_FRAMES,
                    ;
                }
                let system = match self.system.pop_front() {
                    Some(sample) => sample,
                    None => 0,
                };
                let microphone = match self.microphone.pop_front() {
                    Some(sample) => sample,
                    None => 0,
                };
                let system = if self.system_muted {
                    0
                } else {
                    system
                };
                let microphone = if self.microphone_muted {
                    0
                } else {
                    microphone
                };
                let (s0, s1) = le_pair(system);
                let (m0, m1) = le_pair(microphone);
                pcm.push(s0);
                pcm.push(s1);
                pcm.push(m0);
                pcm.push(m1);
                proof {
                    let ss = v.system.subrange(from, from + j + 1);
                    let ms = v.microphone.subrange(from, from + j + 1);
                    assert(ss.drop_last() =~= v.system.subrange(from, from + j));
                    assert(ms.drop_last() =~= v.microphone.subrange(from, from + j));
                    assert(ss.last() == v.system[from + j]);
                    assert(ms.last() == v.microphone[from + j]);
                    assert(v.system.skip(from + j + 1) =~= v.system.skip(from + j).drop_first());
                    assert(v.microphone.skip(from + j + 1) =~= v.microphone.skip(
                        from + j,
                    ).drop_first());
                }
                j = j + 1;
            }
            let ghost before = chunks@;
            proof {
                assert(pcm@ == tick_chunk(v, k as int).pcm);
                assert(chunk_views(before).len() == before.len());
                assert(before.len() == k);
            }
            chunks.push(StereoChunk { pcm, frames: TICK_FRAMES });
            proof {
                let m = chunk_views(chunks@);
                assert(chunks@ == before.push(chunks@[k as int]));
                assert(m.len() == k + 1);
                assert forall|i: int| 0 <= i < k + 1 implies #[trigger] m[i] == tick_chunks(v, k + 1)[i] by {
                    if i < k {
                        assert(chunks@[i] == before[i]);
                        assert(chunk_views(before)[i] == tick_chunks(v, k as int)[i]);
                    }
                }
                assert(m =~= tick_chunks(v, k + 1));
            }
            k = k + 1;
        }
        chunks
    }
}

impl Default for Mixer {
    fn default() -> (res: Self)
        ensures
            mixer_well_formed(res@),
            res@.system.len() == 0,
            res@.microphone.len() == 0,
            !res@.system_muted,
            !res@.microphone_muted,
            !res@.paused,
    {
        Mixer::new()
    }
}

/// Every chunk the mixer makes is one tick: 4 800 frames, 19 200 bytes.
pub proof fn mixed_chunks_are_one_tick(v: MixerView)
    ensures
        forall|k: int|
            0 <= k < mixed(v).len() ==> (#[trigger] mixed(v)[k]).frames == TICK_FRAMES
                && mixed(v)[k].pcm.len() == 19_200,
{
    assert forall|k: int| 0 <= k < mixed(v).len() implies (#[trigger] mixed(v)[k]).frames
        == TICK_FRAMES && mixed(v)[k].pcm.len() == 19_200 by {
        let from = k * TICK_FRAMES;
        lemma_interleaved_len(
            v.system.subrange(from, from + TICK_FRAMES),
            v.microphone.subrange(from, from + TICK_FRAMES),
            v.system_muted,
            v.microphone_muted,
        );
    }
}

/// Muting a source never shifts the other: the same ticks drain, the same
/// frames are left over, and only the muted side's samples turn to silence.
pub proof fn muting_keeps_the_sources_aligned(v: MixerView, system_muted: bool, microphone_muted: bool)
    ensures
        ({
            let w = MixerView { system_muted, microphone_muted, ..v };
            &&& ticks(w) == ticks(v)
            &&& drained(w).system == drained(v).system
            &&& drained(w).microphone == drained(v).microphone
            &&& mixed(w).len() == mixed(v).len()
        }),
{
}

/// Draining leaves less than one whole tick of paired frames: what remains
/// waits for its peer.
pub proof fn draining_leaves_less_than_a_paired_tick(v: MixerView)
    ensures
        ticks(drained(v)) == 0,
{
    let a = if v.system.len() <= v.microphone.len() {
        v.system.len() as int
    } else {
        v.microphone.len() as int
    };
    let n = ticks(v);
    assert(n == a / 4800);
    assert(a - n * 4800 < 4800) by (nonlinear_arith)
        requires
            n == a / 4800,
            a >= 0,
    ;
    assert(n * 4800 <= a) by (nonlinear_arith)
        requires
            n == a / 4800,
            a >= 0,
    ;
}

} // verus!
