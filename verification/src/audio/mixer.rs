//! The mix of all peers.
use crate::audio::chunk::AudioChunk;
use crate::audio::codec::{AudioDecoder, EncodedChunk};
use crate::audio::conceal;
pub use crate::audio::conceal::{Conceal, PLC_FADE_SAMPLES};
use crate::audio::float::{self, Arithmetic};
use crate::audio::sample::{self, Resampler, SyncSampleSource};
pub use crate::audio::slot::{ChunkDecoder, InputSlot, JitterStage, MixerInput};
use crate::audio::transform::{self, ChannelMap, ChunkTransform, Clip, MaybeChunk};
use crate::audio::window::Window;
use crate::audio::AudioFormat;
use std::collections::VecDeque;
use vstd::prelude::*;

verus! {

pub const DEFAULT_JITTER_CHUNKS: usize = 10;

pub const DEFAULT_OUT_FRAMES: usize = 480;

/// What the mixer has counted. Chunks that a full window pushes out, and stale ones, are not
/// counted by the mixer itself.
#[derive(Debug, Clone, Copy, PartialEq, Eq)]
pub struct MixerMetrics {
    pub gap_detected: usize,
    pub late_dropped: usize,
    pub overflow_dropped: usize,
    pub underrun: usize,
    pub plc_hold: usize,
    pub clip_hits: usize,
    pub fills: usize,
    pub stale_dropped: usize,
}

impl Default for MixerMetrics {
    fn default() -> (metrics: Self)
        ensures
            metrics == (MixerMetrics {
                gap_detected: 0,
                late_dropped: 0,
                overflow_dropped: 0,
                underrun: 0,
                plc_hold: 0,
                clip_hits: 0,
                fills: 0,
                stale_dropped: 0,
            }),
    {
        MixerMetrics {
            gap_detected: 0,
            late_dropped: 0,
            overflow_dropped: 0,
            underrun: 0,
            plc_hold: 0,
            clip_hits: 0,
            fills: 0,
            stale_dropped: 0,
        }
    }
}

/// Sums the peers, sends the sum through the bus, and bounds what comes out.
#[verifier::reject_recursive_types(D)]
#[verifier::reject_recursive_types(FD)]
pub struct Mixer<D, T, R, M, FD, A> where
    D: AudioDecoder,
    T: ChunkTransform,
    R: Resampler,
    M: ChunkTransform,
    FD: FnMut(&AudioFormat) -> Option<D>,
    A: Arithmetic,
 {
    /// The peers by their number, in the order in which they are added up.
    pub slots: Vec<(u32, InputSlot<D, T, R, FD, A>)>,
    pub bus: M,
    pub clip: Clip,
    pub pending: VecDeque<u32>,
    pub out_format: AudioFormat,
    pub out_frames: usize,
    pub out_sequence: u128,
    pub jitter_chunks: usize,
    pub fills: usize,
    pub next_id: u32,
}

/// Whether a peer has this number.
pub open spec fn has_slot<S>(slots: Seq<(u32, S)>, id: u32) -> bool {
    exists|i: int| 0 <= i < slots.len() && (#[trigger] slots[i]).0 == id
}

/// No number stands twice.
pub open spec fn distinct<S>(slots: Seq<(u32, S)>) -> bool {
    forall|i: int, j: int|
        0 <= i < j < slots.len() ==> (#[trigger] slots[i]).0 != (#[trigger] slots[j]).0
}

/// The sum of a count over the first `n` peers.
pub open spec fn total<S>(slots: Seq<(u32, S)>, n: int, count: spec_fn(S) -> int) -> int
    decreases n,
{
    if n <= 0 {
        0
    } else {
        total(slots, n - 1, count) + count(slots[n - 1].1)
    }
}

proof fn total_grows<S>(slots: Seq<(u32, S)>, n: int, count: spec_fn(S) -> int)
    requires
        0 <= n <= slots.len(),
        forall|s: S| #[trigger] count(s) >= 0,
    ensures
        0 <= total(slots, n, count) <= total(slots, slots.len() as int, count),
    decreases slots.len() - n, n,
{
    if n > 0 {
        total_nonnegative(slots, n, count);
    }
    if n < slots.len() {
        total_grows(slots, n + 1, count);
    }
}

proof fn total_nonnegative<S>(slots: Seq<(u32, S)>, n: int, count: spec_fn(S) -> int)
    requires
        0 <= n <= slots.len(),
        forall|s: S| #[trigger] count(s) >= 0,
    ensures
        0 <= total(slots, n, count),
    decreases n,
{
    if n > 0 {
        total_nonnegative(slots, n - 1, count);
    }
}

/// A slot that nothing has reached yet.
pub open spec fn fresh_slot<D, T, R, FD, A>(
    slot: InputSlot<D, T, R, FD, A>,
    transform: T,
    rebuild: FD,
    resampler: R,
    channels: u16,
    jitter_chunks: usize,
) -> bool where
    D: AudioDecoder,
    T: ChunkTransform,
    R: Resampler,
    FD: FnMut(&AudioFormat) -> Option<D>,
    A: Arithmetic,
 {
    &&& slot.decoder.decoder_cache.codec is None
    &&& slot.decoder.decoder_cache.format is None
    &&& slot.decoder.decoder_cache.rebuild == rebuild
    &&& slot.channel_map.dst_channels == channels
    &&& !slot.channel_map.cap_channels
    &&& slot.transform == transform
    &&& slot.jitter.buffer@ == Window::<AudioChunk>::fresh(jitter_chunks as int)
    &&& slot.jitter.gap_detected == 0
    &&& slot.jitter.late_dropped == 0
    &&& slot.resampler == resampler
    &&& slot.conceal.fade_pos == 0
    &&& slot.conceal.last_sample == float::ZERO
    &&& slot.conceal.fade_start == float::ZERO
    &&& slot.conceal.underrun == 0
    &&& slot.conceal.plc_hold == 0
}

/// A block of silence.
pub open spec fn silence(n: nat) -> Seq<u32> {
    Seq::new(n, |i: int| float::ZERO)
}

/// The sum of the first `n` peers, added to silence in order.
pub open spec fn mixed<D, T, R, FD, A>(
    before: Seq<(u32, InputSlot<D, T, R, FD, A>)>,
    after: Seq<(u32, InputSlot<D, T, R, FD, A>)>,
    n: int,
    needed: nat,
    mix: Seq<u32>,
) -> bool where
    D: AudioDecoder,
    T: ChunkTransform,
    T::OutputT: MaybeChunk,
    R: Resampler,
    FD: FnMut(&AudioFormat) -> Option<D>,
    A: Arithmetic,

    decreases n,
{
    if n <= 0 {
        mix == silence(needed)
    } else {
        after[n - 1].0 == before[n - 1].0 && exists|earlier: Seq<u32>|
            mixed(before, after, n - 1, needed, earlier) && #[trigger] before[n - 1].1.mixes(
                earlier,
                after[n - 1].1,
                mix,
            )
    }
}

impl<D, T, R, M, FD, A> Mixer<D, T, R, M, FD, A> where
    D: AudioDecoder,
    T: ChunkTransform,
    T::OutputT: MaybeChunk,
    R: Resampler,
    M: ChunkTransform,
    M::OutputT: MaybeChunk,
    FD: FnMut(&AudioFormat) -> Option<D>,
    A: Arithmetic,
 {
    /// Samples of a block.
    pub open spec fn needed(&self) -> int {
        self.out_frames * self.out_format.channel_count
    }

    /// The peers are well formed and their numbers distinct, a block can be counted, and what is
    /// pending has been bounded.
    pub open spec fn wf(&self) -> bool {
        &&& self.out_frames > 0
        &&& self.jitter_chunks > 0
        &&& self.needed() <= usize::MAX
        &&& distinct(self.slots@)
        &&& forall|i: int| 0 <= i < self.slots@.len() ==> (#[trigger] self.slots@[i]).1.wf()
        &&& forall|i: int|
            0 <= i < self.pending@.len() ==> float::clamp_unit(#[trigger] self.pending@[i])
                == self.pending@[i]
    }

    /// Everything but the peers and the next number is as in `other`.
    pub open spec fn keeps(&self, other: Self) -> bool {
        &&& self.bus == other.bus
        &&& self.clip == other.clip
        &&& self.pending@ == other.pending@
        &&& self.out_format == other.out_format
        &&& self.out_frames == other.out_frames
        &&& self.out_sequence == other.out_sequence
        &&& self.jitter_chunks == other.jitter_chunks
        &&& self.fills == other.fills
    }

    pub fn new(out_format: AudioFormat, jitter_chunks: usize, out_frames: usize, bus: M) -> (mixer:
        Self)
        requires
            (if out_frames > 0 {
                out_frames
            } else {
                1
            }) * out_format.channel_count <= usize::MAX,
        ensures
            mixer.wf(),
            mixer.slots@.len() == 0,
            mixer.bus == bus,
            mixer.clip.clip_hits == 0,
            mixer.pending@ == Seq::<u32>::empty(),
            mixer.out_format == out_format,
            mixer.out_frames == if out_frames > 0 {
                out_frames
            } else {
                1
            },
            mixer.out_sequence == 0,
            mixer.jitter_chunks == if jitter_chunks > 0 {
                jitter_chunks
            } else {
                1
            },
            mixer.fills == 0,
            mixer.next_id == 0,
    {
        Mixer {
            slots: Vec::new(),
            bus,
            clip: Clip::new(),
            pending: VecDeque::new(),
            out_format,
            out_frames: if out_frames > 0 {
                out_frames
            } else {
                1
            },
            out_sequence: 0,
            jitter_chunks: if jitter_chunks > 0 {
                jitter_chunks
            } else {
                1
            },
            fills: 0,
            next_id: 0,
        }
    }

    /// `post` is the mixer with one more peer, under the number `id`. Numbers are given out in
    /// turn, and a peer that still has the number from the last round gives way.
    pub open spec fn subscribes(
        self,
        transform: T,
        rebuild: FD,
        resampler: R,
        id: u32,
        post: Self,
    ) -> bool {
        let slots = post.slots@;
        &&& post.keeps(self)
        &&& id == self.next_id
        &&& post.next_id == (id + 1) % 0x1_0000_0000
        &&& exists|i: int|
            0 <= i < slots.len() && (#[trigger] slots[i]).0 == id && (if has_slot(
                self.slots@,
                id,
            ) {
                i < self.slots@.len() && self.slots@[i].0 == id && slots == self.slots@.update(
                    i,
                    slots[i],
                )
            } else {
                i == self.slots@.len() && slots == self.slots@.push(slots[i])
            }) && fresh_slot(
                slots[i].1,
                transform,
                rebuild,
                resampler,
                self.out_format.channel_count,
                self.jitter_chunks,
            )
    }

    /// `post` is the mixer without the peer of this number.
    pub open spec fn unsubscribes(self, id: u32, post: Self) -> bool {
        &&& post.keeps(self)
        &&& post.next_id == self.next_id
        &&& !has_slot(post.slots@, id)
        &&& if has_slot(self.slots@, id) {
            exists|i: int|
                0 <= i < self.slots@.len() && (#[trigger] self.slots@[i]).0 == id && post.slots@
                    == self.slots@.remove(i)
        } else {
            post.slots@ == self.slots@
        }
    }

    /// Whether the counts of all peers can be added up.
    pub open spec fn countable(&self) -> bool {
        let slots = self.slots@;
        let n = slots.len() as int;
        &&& total(slots, n, |s: InputSlot<D, T, R, FD, A>| s.jitter.gap_detected as int)
            <= usize::MAX
        &&& total(slots, n, |s: InputSlot<D, T, R, FD, A>| s.jitter.late_dropped as int)
            <= usize::MAX
        &&& total(slots, n, |s: InputSlot<D, T, R, FD, A>| s.conceal.underrun as int) <= usize::MAX
        &&& total(slots, n, |s: InputSlot<D, T, R, FD, A>| s.conceal.plc_hold as int) <= usize::MAX
    }

    /// `metrics` is what has been counted, over all peers.
    pub open spec fn counted(&self, metrics: MixerMetrics) -> bool {
        let slots = self.slots@;
        let n = slots.len() as int;
        &&& metrics.gap_detected == total(
            slots,
            n,
            |s: InputSlot<D, T, R, FD, A>| s.jitter.gap_detected as int,
        )
        &&& metrics.late_dropped == total(
            slots,
            n,
            |s: InputSlot<D, T, R, FD, A>| s.jitter.late_dropped as int,
        )
        &&& metrics.underrun == total(
            slots,
            n,
            |s: InputSlot<D, T, R, FD, A>| s.conceal.underrun as int,
        )
        &&& metrics.plc_hold == total(
            slots,
            n,
            |s: InputSlot<D, T, R, FD, A>| s.conceal.plc_hold as int,
        )
        &&& metrics.clip_hits == self.clip.clip_hits
        &&& metrics.fills == self.fills
        &&& metrics.overflow_dropped == 0
        &&& metrics.stale_dropped == 0
    }

    /// `post` is the mixer once `frame` has been pushed to the peer of this number, if there is
    /// one.
    pub open spec fn pushes(self, id: u32, frame: EncodedChunk, post: Self) -> bool {
        &&& post.keeps(self)
        &&& post.next_id == self.next_id
        &&& if has_slot(self.slots@, id) {
            exists|i: int|
                0 <= i < self.slots@.len() && (#[trigger] self.slots@[i]).0 == id && post.slots@
                    == self.slots@.update(i, (id, post.slots@[i].1)) && InputSlot::takes(
                    self.slots@[i].1,
                    frame,
                    post.slots@[i].1,
                )
        } else {
            post.slots@ == self.slots@
        }
    }

    /// Pushes a frame to a peer. Without a peer of this number, the frame is dropped.
    pub fn push_to_slot(&mut self, id: u32, frame: EncodedChunk)
        requires
            old(self).wf(),
            forall|i: int|
                0 <= i < old(self).slots@.len() && (#[trigger] old(self).slots@[i]).0 == id
                    ==> old(self).slots@[i].1.admits(frame),
        ensures
            final(self).wf(),
            old(self).pushes(id, frame, *final(self)),
    {
        match self.find(id) {
            Some(i) => {
                proof {
                    assert(old(self).slots@[i as int].0 == id);
                }
                self.slots[i].1.push_frame(frame);
                proof {
                    assert(self.slots@ =~= old(self).slots@.update(
                        i as int,
                        (id, self.slots@[i as int].1),
                    ));
                }
            },
            None => {},
        }
    }

    fn find(&self, id: u32) -> (index: Option<usize>)
        ensures
            match index {
                Some(i) => i < self.slots@.len() && self.slots@[i as int].0 == id,
                None => !has_slot(self.slots@, id),
            },
    {
        let mut i: usize = 0;
        while i < self.slots.len()
            invariant
                i <= self.slots@.len(),
                forall|k: int| 0 <= k < i ==> (#[trigger] self.slots@[k]).0 != id,
            decreases self.slots@.len() - i,
        {
            if self.slots[i].0 == id {
                return Some(i);
            }
            i += 1;
        }
        None
    }

    /// Adds a peer and returns its number.
    pub fn subscribe(&mut self, transform: T, rebuild: FD, resampler: R) -> (id: u32)
        requires
            old(self).wf(),
        ensures
            final(self).wf(),
            old(self).subscribes(transform, rebuild, resampler, id, *final(self)),
    {
        let id: u32 = self.next_id;
        self.next_id = self.next_id.wrapping_add(1);
        let slot: InputSlot<D, T, R, FD, A> = InputSlot {
            decoder: ChunkDecoder::new(rebuild),
            channel_map: ChannelMap::new(self.out_format.channel_count),
            transform,
            jitter: JitterStage::new(self.jitter_chunks),
            resampler,
            conceal: Conceal::new(),
        };
        match self.find(id) {
            Some(i) => {
                self.slots[i] = (id, slot);
                proof {
                    assert(self.slots@[i as int] == (id, slot));
                }
            },
            None => {
                self.slots.push((id, slot));
                proof {
                    assert(self.slots@.last() == (id, slot));
                }
            },
        }
        id
    }

    /// Removes a peer, if there is one with this number.
    pub fn unsubscribe(&mut self, id: u32)
        requires
            old(self).wf(),
        ensures
            final(self).wf(),
            old(self).unsubscribes(id, *final(self)),
    {
        match self.find(id) {
            Some(i) => {
                proof {
                    assert(old(self).slots@[i as int].0 == id);
                }
                self.slots.remove(i);
                proof {
                    let (was, is) = (old(self).slots@, self.slots@);
                    assert forall|k: int| 0 <= k < is.len() implies (#[trigger] is[k]).0 != id
                        && is[k].1.wf() by {
                        assert(is[k] == was[if k < i {
                            k
                        } else {
                            k + 1
                        }]);
                    }
                }
            },
            None => {},
        }
    }

    /// A peer's input.
    pub fn input_mut(&mut self, id: u32) -> (slot: Option<&mut InputSlot<D, T, R, FD, A>>)
        ensures
            match slot {
                Some(slot) => exists|i: int|
                    0 <= i < old(self).slots@.len() && (#[trigger] old(self).slots@[i]).0 == id
                        && *slot == old(self).slots@[i].1 && final(self).slots@
                        == old(self).slots@.update(i, (id, *final(slot))),
                None => !has_slot(old(self).slots@, id) && final(self).slots@ == old(self).slots@,
            },
            final(self).keeps(*old(self)),
            final(self).next_id == old(self).next_id,
    {
        match self.find(id) {
            Some(i) => {
                proof {
                    assert(old(self).slots@[i as int].0 == id);
                }
                Some(&mut self.slots[i].1)
            },
            None => None,
        }
    }

    pub fn peer_count(&self) -> (n: usize)
        ensures
            n == self.slots@.len(),
    {
        self.slots.len()
    }

    /// What has been counted, over all peers.
    pub fn metrics_snapshot(&self) -> (metrics: MixerMetrics)
        requires
            self.countable(),
        ensures
            self.counted(metrics),
    {
        let mut metrics: MixerMetrics = MixerMetrics::default();
        metrics.clip_hits = self.clip.clip_hits;
        metrics.fills = self.fills;
        let ghost slots = self.slots@;
        let ghost gaps = |s: InputSlot<D, T, R, FD, A>| s.jitter.gap_detected as int;
        let ghost late = |s: InputSlot<D, T, R, FD, A>| s.jitter.late_dropped as int;
        let ghost underruns = |s: InputSlot<D, T, R, FD, A>| s.conceal.underrun as int;
        let ghost held = |s: InputSlot<D, T, R, FD, A>| s.conceal.plc_hold as int;
        let mut i: usize = 0;
        while i < self.slots.len()
            invariant
                i <= self.slots@.len(),
                slots == self.slots@,
                gaps == (|s: InputSlot<D, T, R, FD, A>| s.jitter.gap_detected as int),
                late == (|s: InputSlot<D, T, R, FD, A>| s.jitter.late_dropped as int),
                underruns == (|s: InputSlot<D, T, R, FD, A>| s.conceal.underrun as int),
                held == (|s: InputSlot<D, T, R, FD, A>| s.conceal.plc_hold as int),
                total(slots, slots.len() as int, gaps) <= usize::MAX,
                total(slots, slots.len() as int, late) <= usize::MAX,
                total(slots, slots.len() as int, underruns) <= usize::MAX,
                total(slots, slots.len() as int, held) <= usize::MAX,
                metrics.gap_detected == total(slots, i as int, gaps),
                metrics.late_dropped == total(slots, i as int, late),
                metrics.underrun == total(slots, i as int, underruns),
                metrics.plc_hold == total(slots, i as int, held),
                metrics.clip_hits == self.clip.clip_hits,
                metrics.fills == self.fills,
                metrics.overflow_dropped == 0,
                metrics.stale_dropped == 0,
            decreases self.slots@.len() - i,
        {
            proof {
                total_grows(slots, i + 1, gaps);
                total_grows(slots, i + 1, late);
                total_grows(slots, i + 1, underruns);
                total_grows(slots, i + 1, held);
            }
            let slot: &InputSlot<D, T, R, FD, A> = &self.slots[i].1;
            metrics.gap_detected += slot.jitter.gap_detected;
            metrics.late_dropped += slot.jitter.late_dropped;
            metrics.underrun += slot.conceal.underrun;
            metrics.plc_hold += slot.conceal.plc_hold;
            i += 1;
        }
        metrics
    }
}

proof fn mixed_looks_back<D, T, R, FD, A>(
    before: Seq<(u32, InputSlot<D, T, R, FD, A>)>,
    after: Seq<(u32, InputSlot<D, T, R, FD, A>)>,
    later: Seq<(u32, InputSlot<D, T, R, FD, A>)>,
    n: int,
    needed: nat,
    mix: Seq<u32>,
) where
    D: AudioDecoder,
    T: ChunkTransform,
    T::OutputT: MaybeChunk,
    R: Resampler,
    FD: FnMut(&AudioFormat) -> Option<D>,
    A: Arithmetic,

    requires
        mixed(before, after, n, needed, mix),
        forall|k: int| 0 <= k < n ==> #[trigger] later[k] == after[k],
    ensures
        mixed(before, later, n, needed, mix),
    decreases n,
{
    if n > 0 {
        let earlier = choose|earlier: Seq<u32>|
            mixed(before, after, n - 1, needed, earlier) && #[trigger] before[n - 1].1.mixes(
                earlier,
                after[n - 1].1,
                mix,
            );
        mixed_looks_back(before, after, later, n - 1, needed, earlier);
        assert(later[n - 1] == after[n - 1]);
        assert(before[n - 1].1.mixes(earlier, later[n - 1].1, mix));
    }
}

impl<D, T, R, M, FD, A> Mixer<D, T, R, M, FD, A> where
    D: AudioDecoder,
    T: ChunkTransform,
    T::OutputT: MaybeChunk,
    R: Resampler,
    M: ChunkTransform,
    M::OutputT: MaybeChunk,
    FD: FnMut(&AudioFormat) -> Option<D>,
    A: Arithmetic,
 {
    /// Whether `chunk` may be the next sum of the peers.
    pub open spec fn is_next_sum(&self, chunk: AudioChunk) -> bool {
        &&& chunk.sequence_number == self.out_sequence
        &&& chunk.format == self.out_format
        &&& chunk.audio_data@.len() == self.needed()
    }

    /// Whether one more block can be counted, and the bus and the bound behind it can take it.
    pub open spec fn can_refill(&self) -> bool {
        &&& self.fills < usize::MAX
        &&& self.out_sequence < u128::MAX
        &&& forall|i: int|
            0 <= i < self.slots@.len() ==> (#[trigger] self.slots@[i]).1.conceal.has_room(
                self.needed(),
            )
        &&& forall|chunk: AudioChunk|
            #![trigger self.bus.accepts(chunk)]
            self.is_next_sum(chunk) ==> self.bus.accepts(chunk)
        &&& forall|chunk: AudioChunk, bus: M, out: M::OutputT|
            self.is_next_sum(chunk) && #[trigger] M::transforms(self.bus, chunk, bus, out)
                ==> match out.spec_into_chunk() {
                Some(summed) => self.clip.accepts(summed),
                None => true,
            }
    }

    /// `post` is the mixer with one more block pending: the sum of the peers, processed by the
    /// bus and bounded. A block that the bus drops is counted and not heard.
    pub open spec fn refills(self, post: Self) -> bool {
        &&& post.out_format == self.out_format
        &&& post.out_frames == self.out_frames
        &&& post.jitter_chunks == self.jitter_chunks
        &&& post.next_id == self.next_id
        &&& post.fills == self.fills + 1
        &&& post.out_sequence == self.out_sequence + 1
        &&& post.slots@.len() == self.slots@.len()
        &&& exists|chunk: AudioChunk, out: M::OutputT| #[trigger]
            M::transforms(self.bus, chunk, post.bus, out) && self.is_next_sum(chunk) && mixed(
                self.slots@,
                post.slots@,
                self.slots@.len() as int,
                self.needed() as nat,
                chunk.audio_data@,
            ) && match out.spec_into_chunk() {
                Some(summed) => post.clip.clip_hits == self.clip.clip_hits + transform::hits(
                    summed.audio_data@,
                ) && post.pending@ == self.pending@ + transform::clipped(summed.audio_data@),
                None => post.clip == self.clip && post.pending@ == self.pending@,
            }
    }

    fn refill(&mut self)
        requires
            old(self).wf(),
            old(self).can_refill(),
        ensures
            final(self).wf(),
            old(self).refills(*final(self)),
    {
        self.fills += 1;
        let channels: usize = self.out_format.channel_count as usize;
        proof {
            assert(0 <= self.out_frames * channels) by (nonlinear_arith);
        }
        let needed: usize = self.out_frames * channels;
        let mut mix: Vec<u32> = vec![float::ZERO; needed];
        let mut i: usize = 0;
        proof {
            assert(mix@ =~= silence(needed as nat));
        }
        while i < self.slots.len()
            invariant
                i <= self.slots@.len(),
                self.slots@.len() == old(self).slots@.len(),
                needed == old(self).needed(),
                mix@.len() == needed,
                old(self).wf(),
                old(self).can_refill(),
                self.bus == old(self).bus,
                self.clip == old(self).clip,
                self.pending@ == old(self).pending@,
                self.out_format == old(self).out_format,
                self.out_frames == old(self).out_frames,
                self.out_sequence == old(self).out_sequence,
                self.jitter_chunks == old(self).jitter_chunks,
                self.fills == old(self).fills + 1,
                self.next_id == old(self).next_id,
                forall|k: int|
                    i <= k < self.slots@.len() ==> #[trigger] self.slots@[k]
                        == old(self).slots@[k],
                forall|k: int|
                    0 <= k < self.slots@.len() ==> (#[trigger] self.slots@[k]).0
                        == old(self).slots@[k].0,
                forall|k: int| 0 <= k < self.slots@.len() ==> (#[trigger] self.slots@[k]).1.wf(),
                mixed(old(self).slots@, self.slots@, i as int, needed as nat, mix@),
            decreases self.slots@.len() - i,
        {
            let ghost earlier = mix@;
            let ghost then = self.slots@;
            proof {
                assert(then[i as int] == old(self).slots@[i as int]);
                assert(old(self).slots@[i as int].1.conceal.has_room(old(self).needed()));
            }
            self.slots[i].1.mix_into(&mut mix);
            proof {
                let now = self.slots@;
                assert forall|k: int| 0 <= k < i implies #[trigger] now[k] == then[k] by {}
                mixed_looks_back(
                    old(self).slots@,
                    then,
                    now,
                    i as int,
                    needed as nat,
                    earlier,
                );
                assert(old(self).slots@[i as int].1.mixes(earlier, now[i as int].1, mix@));
            }
            i += 1;
        }
        let sequence: u128 = self.out_sequence;
        self.out_sequence = sequence + 1;
        let chunk: AudioChunk = AudioChunk::new(sequence, self.out_format, mix);
        let ghost sum = chunk;
        proof {
            assert(old(self).is_next_sum(sum));
            assert(old(self).bus.accepts(sum));
        }
        let out = self.bus.transform(chunk);
        let ghost made = out;
        proof {
            assert(M::transforms(old(self).bus, sum, self.bus, made));
        }
        match out.into_chunk() {
            Some(converted) => {
                let ghost summed = converted;
                let output: AudioChunk = self.clip.transform(converted);
                let ghost before = self.pending@;
                let ghost data = output.audio_data@;
                let mut k: usize = 0;
                while k < output.audio_data.len()
                    invariant
                        k <= data.len(),
                        data == output.audio_data@,
                        before == old(self).pending@,
                        self.pending@ =~= before + data.take(k as int),
                        self.slots@.len() == old(self).slots@.len(),
                        M::transforms(old(self).bus, sum, self.bus, made),
                        Clip::transforms(old(self).clip, summed, self.clip, output),
                        self.out_format == old(self).out_format,
                        self.out_frames == old(self).out_frames,
                        self.out_sequence == old(self).out_sequence + 1,
                        self.jitter_chunks == old(self).jitter_chunks,
                        self.fills == old(self).fills + 1,
                        self.next_id == old(self).next_id,
                        forall|j: int|
                            0 <= j < self.slots@.len() ==> (#[trigger] self.slots@[j]).0
                                == old(self).slots@[j].0,
                        forall|j: int|
                            0 <= j < self.slots@.len() ==> (#[trigger] self.slots@[j]).1.wf(),
                        mixed(
                            old(self).slots@,
                            self.slots@,
                            self.slots@.len() as int,
                            needed as nat,
                            sum.audio_data@,
                        ),
                    decreases data.len() - k,
                {
                    self.pending.push_back(output.audio_data[k]);
                    k += 1;
                }
                proof {
                    assert(data.take(k as int) =~= data);
                    assert forall|j: int| 0 <= j < self.pending@.len() implies float::clamp_unit(
                        #[trigger] self.pending@[j],
                    ) == self.pending@[j] by {
                        if j >= before.len() {
                            let x = j - before.len();
                            float::clamp_unit_bounds(summed.audio_data@[x]);
                        }
                    }
                }
            },
            None => {},
        }
        proof {
            assert(M::transforms(old(self).bus, sum, self.bus, made));
        }
    }
}

/// Everything but what is pending is as before.
pub open spec fn only_pending_differs<D, T, R, M, FD, A>(
    pre: Mixer<D, T, R, M, FD, A>,
    post: Mixer<D, T, R, M, FD, A>,
) -> bool where
    D: AudioDecoder,
    T: ChunkTransform,
    R: Resampler,
    M: ChunkTransform,
    FD: FnMut(&AudioFormat) -> Option<D>,
    A: Arithmetic,
 {
    &&& post.slots@ == pre.slots@
    &&& post.bus == pre.bus
    &&& post.clip == pre.clip
    &&& post.out_format == pre.out_format
    &&& post.out_frames == pre.out_frames
    &&& post.out_sequence == pre.out_sequence
    &&& post.jitter_chunks == pre.jitter_chunks
    &&& post.fills == pre.fills
    &&& post.next_id == pre.next_id
}

/// The next pending sample is handed out, or silence where nothing is pending.
pub open spec fn takes_pending<D, T, R, M, FD, A>(
    pre: Mixer<D, T, R, M, FD, A>,
    sample: Option<u32>,
    post: Mixer<D, T, R, M, FD, A>,
) -> bool where
    D: AudioDecoder,
    T: ChunkTransform,
    R: Resampler,
    M: ChunkTransform,
    FD: FnMut(&AudioFormat) -> Option<D>,
    A: Arithmetic,
 {
    &&& only_pending_differs(pre, post)
    &&& if pre.pending@.len() > 0 {
        sample == Some(pre.pending@[0]) && post.pending@ == pre.pending@.skip(1)
    } else {
        sample == Some(float::ZERO) && post.pending@ == pre.pending@
    }
}

impl<D, T, R, M, FD, A> SyncSampleSource for Mixer<D, T, R, M, FD, A> where
    D: AudioDecoder,
    T: ChunkTransform,
    T::OutputT: MaybeChunk,
    R: Resampler,
    M: ChunkTransform,
    M::OutputT: MaybeChunk,
    FD: FnMut(&AudioFormat) -> Option<D>,
    A: Arithmetic,
 {
    open spec fn ready(&self) -> bool {
        &&& self.wf()
        &&& self.slots@.len() > 0 && self.pending@.len() == 0 ==> self.can_refill()
    }

    open spec fn yields(pre: Self, sample: Option<u32>, post: Self) -> bool {
        &&& post.wf()
        &&& if pre.slots@.len() == 0 {
            sample == Some(float::ZERO) && post == pre
        } else if pre.pending@.len() > 0 {
            takes_pending(pre, sample, post)
        } else {
            exists|filled: Self| #[trigger]
                pre.refills(filled) && takes_pending(filled, sample, post)
        }
    }

    fn next_sync(&mut self) -> (sample: Option<u32>) {
        if self.slots.len() == 0 {
            return Some(float::ZERO);
        }
        if self.pending.len() == 0 {
            self.refill();
        }
        let ghost filled = *self;
        let sample: u32 = match self.pending.pop_front() {
            Some(sample) => sample,
            None => float::ZERO,
        };
        proof {
            if filled.pending@.len() > 0 {
                assert(self.pending@ =~= filled.pending@.skip(1));
            } else {
                assert(self.pending@ =~= filled.pending@);
            }
            assert(takes_pending(filled, Some(sample), *self));
            if old(self).pending@.len() == 0 {
                assert(old(self).refills(filled));
            }
        }
        Some(sample)
    }
}

/// A mixer never ends, and what it hands out is bounded: a number in -1 ..= 1, or not a number.
pub proof fn mixer_never_ends_and_is_bounded<D, T, R, M, FD, A>(
    mixer: Mixer<D, T, R, M, FD, A>,
    sample: Option<u32>,
    after: Mixer<D, T, R, M, FD, A>,
) where
    D: AudioDecoder,
    T: ChunkTransform,
    T::OutputT: MaybeChunk,
    R: Resampler,
    M: ChunkTransform,
    M::OutputT: MaybeChunk,
    FD: FnMut(&AudioFormat) -> Option<D>,
    A: Arithmetic,

    requires
        mixer.wf(),
        Mixer::<D, T, R, M, FD, A>::yields(mixer, sample, after),
    ensures
        after.wf(),
        sample is Some,
        float::clamp_unit(sample->0) == sample->0,
{
    if mixer.slots@.len() > 0 && mixer.pending@.len() == 0 {
        let filled = choose|filled: Mixer<D, T, R, M, FD, A>| #[trigger]
            mixer.refills(filled) && takes_pending(filled, sample, after);
        let (chunk, out) = choose|chunk: AudioChunk, out: M::OutputT| #[trigger]
            M::transforms(mixer.bus, chunk, filled.bus, out) && mixer.is_next_sum(chunk) && mixed(
                mixer.slots@,
                filled.slots@,
                mixer.slots@.len() as int,
                mixer.needed() as nat,
                chunk.audio_data@,
            ) && match out.spec_into_chunk() {
                Some(summed) => filled.clip.clip_hits == mixer.clip.clip_hits + transform::hits(
                    summed.audio_data@,
                ) && filled.pending@ == mixer.pending@ + transform::clipped(summed.audio_data@),
                None => filled.clip == mixer.clip && filled.pending@ == mixer.pending@,
            };
        if filled.pending@.len() > 0 {
            float::clamp_unit_bounds(out.spec_into_chunk()->0.audio_data@[0]);
        }
    }
}

/// Without a peer there is silence, and asking for it changes nothing.
pub proof fn no_peer_is_silence<D, T, R, M, FD, A>(
    mixer: Mixer<D, T, R, M, FD, A>,
    sample: Option<u32>,
    after: Mixer<D, T, R, M, FD, A>,
) where
    D: AudioDecoder,
    T: ChunkTransform,
    T::OutputT: MaybeChunk,
    R: Resampler,
    M: ChunkTransform,
    M::OutputT: MaybeChunk,
    FD: FnMut(&AudioFormat) -> Option<D>,
    A: Arithmetic,

    requires
        mixer.slots@.len() == 0,
        Mixer::<D, T, R, M, FD, A>::yields(mixer, sample, after),
    ensures
        sample == Some(float::ZERO),
        after == mixer,
{
}

proof fn slot_counts<D, T, R, FD, A>(
    before: InputSlot<D, T, R, FD, A>,
    earlier: Seq<u32>,
    after: InputSlot<D, T, R, FD, A>,
    mix: Seq<u32>,
) where
    D: AudioDecoder,
    T: ChunkTransform,
    T::OutputT: MaybeChunk,
    R: Resampler,
    FD: FnMut(&AudioFormat) -> Option<D>,
    A: Arithmetic,

    requires
        before.wf(),
        before.conceal.has_room(earlier.len() as int),
        before.mixes(earlier, after, mix),
    ensures
        mix.len() == earlier.len(),
        after.conceal.underrun <= before.conceal.underrun + earlier.len(),
        after.conceal.plc_hold <= before.conceal.plc_hold + earlier.len(),
{
    let (full, outs) = choose|full: R, outs: Seq<u32>| #[trigger]
        crate::audio::slot::feeds(
            before.jitter.buffer@,
            before.resampler,
            earlier.len() as int,
            after.jitter.buffer@,
            full,
        ) && #[trigger] conceal::concealed(
            before.conceal,
            crate::audio::slot::popped(full.flow().waiting, earlier.len()),
            after.conceal,
            outs,
        ) && crate::audio::slot::adds::<A>(earlier, outs, mix);
    conceal::run_counts(
        before.conceal,
        crate::audio::slot::popped(full.flow().waiting, earlier.len()),
        after.conceal,
        outs,
    );
}

proof fn mixed_counts<D, T, R, FD, A>(
    before: Seq<(u32, InputSlot<D, T, R, FD, A>)>,
    after: Seq<(u32, InputSlot<D, T, R, FD, A>)>,
    n: int,
    needed: nat,
    mix: Seq<u32>,
) where
    D: AudioDecoder,
    T: ChunkTransform,
    T::OutputT: MaybeChunk,
    R: Resampler,
    FD: FnMut(&AudioFormat) -> Option<D>,
    A: Arithmetic,

    requires
        0 <= n <= before.len(),
        forall|k: int| 0 <= k < n ==> (#[trigger] before[k]).1.wf(),
        forall|k: int|
            0 <= k < n ==> (#[trigger] before[k]).1.conceal.has_room(needed as int),
        mixed(before, after, n, needed, mix),
    ensures
        mix.len() == needed,
        forall|k: int|
            0 <= k < n ==> (#[trigger] after[k]).1.conceal.underrun <= before[k].1.conceal.underrun
                + needed && after[k].1.conceal.plc_hold <= before[k].1.conceal.plc_hold + needed,
    decreases n,
{
    if n > 0 {
        let earlier = choose|earlier: Seq<u32>|
            mixed(before, after, n - 1, needed, earlier) && #[trigger] before[n - 1].1.mixes(
                earlier,
                after[n - 1].1,
                mix,
            );
        mixed_counts(before, after, n - 1, needed, earlier);
        assert(before[n - 1].1.wf() && before[n - 1].1.conceal.has_room(needed as int));
        slot_counts(before[n - 1].1, earlier, after[n - 1].1, mix);
    }
}

/// A bus that takes every chunk and keeps its length.
pub open spec fn even_bus<M: ChunkTransform>() -> bool where M::OutputT: MaybeChunk {
    &&& forall|bus: M, chunk: AudioChunk| #[trigger] bus.accepts(chunk)
    &&& forall|bus: M, chunk: AudioChunk, after: M, out: M::OutputT| #[trigger]
        M::transforms(bus, chunk, after, out) ==> match out.spec_into_chunk() {
            Some(made) => made.audio_data@.len() == chunk.audio_data@.len(),
            None => true,
        }
}

/// Whether `n` more blocks can be counted.
pub open spec fn has_room_for<D, T, R, M, FD, A>(
    mixer: Mixer<D, T, R, M, FD, A>,
    n: nat,
) -> bool where
    D: AudioDecoder,
    T: ChunkTransform,
    T::OutputT: MaybeChunk,
    R: Resampler,
    M: ChunkTransform,
    M::OutputT: MaybeChunk,
    FD: FnMut(&AudioFormat) -> Option<D>,
    A: Arithmetic,
 {
    &&& mixer.fills + n <= usize::MAX
    &&& mixer.out_sequence + n <= u128::MAX
    &&& mixer.clip.clip_hits + n * mixer.needed() <= usize::MAX
    &&& forall|i: int|
        0 <= i < mixer.slots@.len() ==> (#[trigger] mixer.slots@[i]).1.conceal.has_room(
            n * mixer.needed(),
        )
}

proof fn one_more_block(n: nat, needed: int)
    requires
        n > 0,
        needed >= 0,
    ensures
        n * needed == (n - 1) * needed + needed,
        n * needed >= needed,
        (n - 1) * needed >= 0,
{
    assert(n * needed == (n - 1) * needed + needed) by (nonlinear_arith);
    assert((n - 1) * needed >= 0) by (nonlinear_arith)
        requires
            n >= 1,
            needed >= 0,
    ;
}

proof fn refill_keeps_room<D, T, R, M, FD, A>(
    mixer: Mixer<D, T, R, M, FD, A>,
    filled: Mixer<D, T, R, M, FD, A>,
    n: nat,
) where
    D: AudioDecoder,
    T: ChunkTransform,
    T::OutputT: MaybeChunk,
    R: Resampler,
    M: ChunkTransform,
    M::OutputT: MaybeChunk,
    FD: FnMut(&AudioFormat) -> Option<D>,
    A: Arithmetic,

    requires
        n > 0,
        mixer.wf(),
        even_bus::<M>(),
        has_room_for(mixer, n),
        mixer.refills(filled),
    ensures
        has_room_for(filled, (n - 1) as nat),
{
    let needed = mixer.needed();
    assert(needed >= 0) by (nonlinear_arith)
        requires
            needed == mixer.out_frames * mixer.out_format.channel_count,
    ;
    one_more_block(n, needed);
    let (chunk, out) = choose|chunk: AudioChunk, out: M::OutputT| #[trigger]
        M::transforms(mixer.bus, chunk, filled.bus, out) && mixer.is_next_sum(chunk) && mixed(
            mixer.slots@,
            filled.slots@,
            mixer.slots@.len() as int,
            mixer.needed() as nat,
            chunk.audio_data@,
        ) && match out.spec_into_chunk() {
            Some(summed) => filled.clip.clip_hits == mixer.clip.clip_hits + transform::hits(
                summed.audio_data@,
            ) && filled.pending@ == mixer.pending@ + transform::clipped(summed.audio_data@),
            None => filled.clip == mixer.clip && filled.pending@ == mixer.pending@,
        };
    if out.spec_into_chunk() is Some {
        transform::hits_are_counted_once(out.spec_into_chunk()->0.audio_data@);
    }
    mixed_counts(
        mixer.slots@,
        filled.slots@,
        mixer.slots@.len() as int,
        needed as nat,
        chunk.audio_data@,
    );
    assert forall|i: int| 0 <= i < filled.slots@.len() implies (
    #[trigger] filled.slots@[i]).1.conceal.has_room((n - 1) * filled.needed()) by {
        assert(mixer.slots@[i].1.conceal.has_room(n * needed));
    }
}

/// A mixer with an even bus and room for `n` more blocks can be asked for `n` samples.
pub proof fn mixer_lasts<D, T, R, M, FD, A>(mixer: Mixer<D, T, R, M, FD, A>, n: nat) where
    D: AudioDecoder,
    T: ChunkTransform,
    T::OutputT: MaybeChunk,
    R: Resampler,
    M: ChunkTransform,
    M::OutputT: MaybeChunk,
    FD: FnMut(&AudioFormat) -> Option<D>,
    A: Arithmetic,

    requires
        mixer.wf(),
        even_bus::<M>(),
        has_room_for(mixer, n),
    ensures
        sample::lasts(mixer, n),
    decreases n,
{
    if n > 0 {
        let needed = mixer.needed();
        assert(needed >= 0) by (nonlinear_arith)
            requires
                needed == mixer.out_frames * mixer.out_format.channel_count,
        ;
        one_more_block(n, needed);
        assert(mixer.can_refill()) by {
            assert forall|i: int| 0 <= i < mixer.slots@.len() implies (
            #[trigger] mixer.slots@[i]).1.conceal.has_room(needed) by {}
        }
        assert forall|sample: Option<u32>, post: Mixer<D, T, R, M, FD, A>| #[trigger]
            Mixer::<D, T, R, M, FD, A>::yields(mixer, sample, post) implies sample::lasts(
            post,
            (n - 1) as nat,
        ) by {
            if mixer.slots@.len() > 0 && mixer.pending@.len() == 0 {
                let filled = choose|filled: Mixer<D, T, R, M, FD, A>| #[trigger]
                    mixer.refills(filled) && takes_pending(filled, sample, post);
                refill_keeps_room(mixer, filled, n);
                assert(has_room_for(post, (n - 1) as nat));
            } else {
                assert forall|i: int| 0 <= i < post.slots@.len() implies (
                #[trigger] post.slots@[i]).1.conceal.has_room((n - 1) * needed) by {
                    assert(mixer.slots@[i].1.conceal.has_room(n * needed));
                }
            }
            mixer_lasts(post, (n - 1) as nat);
        }
    }
}

} // verus!
