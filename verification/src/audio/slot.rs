//! One peer's way into the mix.
use crate::audio::chunk::AudioChunk;
use crate::audio::codec::{AudioDecoder, EncodedChunk, FormatCache};
use crate::audio::conceal::{self, Conceal};
use crate::audio::float::Arithmetic;
use crate::audio::jitter::JitterBuffer;
use crate::audio::sample::{self, push_all, Flow, Resampler};
use crate::audio::transform::{ChannelMap, ChunkTransform, MaybeChunk};
use crate::audio::window::Window;
use crate::audio::AudioFormat;
use vstd::prelude::*;

verus! {

/// Decodes frames with a decoder that fits their format.
#[verifier::reject_recursive_types(D)]
#[verifier::reject_recursive_types(F)]
pub struct ChunkDecoder<D: AudioDecoder, F: FnMut(&AudioFormat) -> Option<D>> {
    pub decoder_cache: FormatCache<D, F>,
}

impl<D: AudioDecoder, F: FnMut(&AudioFormat) -> Option<D>> ChunkDecoder<D, F> {
    /// Whether a frame can be taken: a decoder may have to be built for it.
    pub open spec fn accepts(&self, frame: EncodedChunk) -> bool {
        self.decoder_cache.format != Some(frame.format) ==> call_requires(
            self.decoder_cache.rebuild,
            (&frame.format,),
        )
    }

    /// `chunk` is what may become of `frame`: nothing where no decoder can be built for it.
    pub open spec fn decodes(
        self,
        frame: EncodedChunk,
        after: Self,
        chunk: Option<AudioChunk>,
    ) -> bool {
        exists|current: FormatCache<D, F>, usable: bool| #[trigger]
            self.decoder_cache.brings(frame.format, current, usable) && if usable {
                &&& D::decodes(current.codec->0, frame, after.decoder_cache.codec->0, chunk)
                &&& after.decoder_cache == (FormatCache {
                    codec: Some(after.decoder_cache.codec->0),
                    format: current.format,
                    rebuild: current.rebuild,
                })
            } else {
                after.decoder_cache == current && chunk is None
            }
    }

    pub fn new(rebuild: F) -> (decoder: Self)
        ensures
            decoder.decoder_cache.codec is None,
            decoder.decoder_cache.format is None,
            decoder.decoder_cache.rebuild == rebuild,
    {
        ChunkDecoder { decoder_cache: FormatCache::new(rebuild) }
    }

    pub fn decode_frame(&mut self, frame: &EncodedChunk) -> (chunk: Option<AudioChunk>)
        requires
            old(self).accepts(*frame),
        ensures
            old(self).decodes(*frame, *final(self), chunk),
    {
        match self.decoder_cache.ensure_current(&frame.format) {
            Some(decoder) => decoder.decode(frame),
            None => None,
        }
    }
}

/// Puts chunks back in order and counts those that came late or left a gap.
pub struct JitterStage {
    pub buffer: JitterBuffer<AudioChunk>,
    pub gap_detected: usize,
    pub late_dropped: usize,
}

impl JitterStage {
    /// The buffer is well formed and its newest number is not the last one there is.
    pub open spec fn wf(&self) -> bool {
        self.buffer.wf() && self.buffer@.prev < u128::MAX
    }

    /// Whether one more chunk can be counted.
    pub open spec fn has_room(&self) -> bool {
        self.gap_detected < usize::MAX && self.late_dropped < usize::MAX
    }

    /// Whether nothing has reached the buffer yet.
    pub open spec fn is_virgin(&self) -> bool {
        self.buffer@.items.dom().len() == 0 && self.buffer@.head == 0 && self.buffer@.prev == 0
    }

    /// Whether a chunk with this number leaves a gap behind the newest one. The first chunk leaves
    /// one unless its number is 0.
    pub open spec fn leaves_gap(&self, sequence: int) -> bool {
        if sequence < self.buffer@.head {
            false
        } else if self.is_virgin() {
            sequence != 0
        } else {
            sequence > self.buffer@.prev + 1
        }
    }

    /// `after` is the stage once `chunk` has arrived.
    pub open spec fn receives(self, chunk: AudioChunk, after: Self) -> bool {
        let sequence = chunk.sequence_number as int;
        &&& after.buffer.wf()
        &&& after.buffer@ == self.buffer@.set(sequence, chunk)
        &&& after.late_dropped == self.late_dropped + if sequence < self.buffer@.head {
            1int
        } else {
            0
        }
        &&& after.gap_detected == self.gap_detected + if self.leaves_gap(sequence) {
            1int
        } else {
            0
        }
    }

    pub fn new(capacity_chunks: usize) -> (stage: Self)
        requires
            capacity_chunks > 0,
        ensures
            stage.wf(),
            stage.buffer@ == Window::<AudioChunk>::fresh(capacity_chunks as int),
            stage.gap_detected == 0,
            stage.late_dropped == 0,
    {
        JitterStage {
            buffer: JitterBuffer::new(capacity_chunks),
            gap_detected: 0,
            late_dropped: 0,
        }
    }

    pub fn push(&mut self, chunk: AudioChunk)
        requires
            old(self).wf(),
            old(self).has_room(),
            chunk.sequence_number < u128::MAX,
        ensures
            final(self).wf(),
            old(self).receives(chunk, *final(self)),
    {
        let sequence: u128 = chunk.sequence_number;
        let head: u128 = self.buffer.head();
        let prev: u128 = self.buffer.prev();
        let virgin: bool = self.buffer.is_empty() && head == 0 && prev == 0;
        if sequence < head {
            self.late_dropped += 1;
        } else if virgin {
            if sequence != 0 {
                self.gap_detected += 1;
            }
        } else if sequence > prev && sequence != prev + 1 {
            self.gap_detected += 1;
        }
        self.buffer.set(sequence, chunk);
    }

    pub fn pull(&mut self) -> (chunk: Option<AudioChunk>)
        requires
            old(self).wf(),
        ensures
            final(self).wf(),
            chunk == old(self).buffer@.current(),
            final(self).buffer@ == old(self).buffer@.advance(),
            final(self).gap_detected == old(self).gap_detected,
            final(self).late_dropped == old(self).late_dropped,
    {
        self.buffer.next_item()
    }
}

/// What takes a peer's frames.
pub trait MixerInput: Sized {
    /// Whether `frame` can be taken.
    open spec fn admits(&self, frame: EncodedChunk) -> bool {
        true
    }

    /// `after` is the input once `frame` has been taken.
    open spec fn takes(pre: Self, frame: EncodedChunk, after: Self) -> bool {
        true
    }

    fn push_frame(&mut self, frame: EncodedChunk)
        requires
            old(self).admits(frame),
        ensures
            Self::takes(*old(self), frame, *final(self)),
    ;
}

/// A peer's decoder, processing, reordering, rate conversion and concealment.
#[verifier::reject_recursive_types(D)]
#[verifier::reject_recursive_types(FD)]
pub struct InputSlot<D, T, R, FD, A> where
    D: AudioDecoder,
    T: ChunkTransform,
    R: Resampler,
    FD: FnMut(&AudioFormat) -> Option<D>,
    A: Arithmetic,
 {
    pub decoder: ChunkDecoder<D, FD>,
    pub channel_map: ChannelMap<A>,
    pub transform: T,
    pub jitter: JitterStage,
    pub resampler: R,
    pub conceal: Conceal<A>,
}

impl<D, T, R, FD, A> InputSlot<D, T, R, FD, A> where
    D: AudioDecoder,
    T: ChunkTransform,
    T::OutputT: MaybeChunk,
    R: Resampler,
    FD: FnMut(&AudioFormat) -> Option<D>,
    A: Arithmetic,
 {
    pub open spec fn wf(&self) -> bool {
        self.jitter.wf() && self.conceal.wf()
    }

    /// Whether the stages behind the decoder can take what it has made.
    pub open spec fn accepts(&self, decoded: AudioChunk) -> bool {
        &&& self.channel_map.accepts(decoded)
        &&& forall|map: ChannelMap<A>, converted: AudioChunk| #[trigger]
            ChannelMap::<A>::transforms(self.channel_map, decoded, map, converted) ==> {
                &&& self.transform.accepts(converted)
                &&& forall|transform: T, out: T::OutputT| #[trigger]
                    T::transforms(self.transform, converted, transform, out) ==> match
                    out.spec_into_chunk() {
                        Some(processed) => processed.sequence_number < u128::MAX,
                        None => true,
                    }
            }
    }

    /// `after` is the slot once the decoder has made `decoded`.
    pub open spec fn processes(self, decoded: AudioChunk, after: Self) -> bool {
        exists|converted: AudioChunk, out: T::OutputT| #[trigger]
            ChannelMap::<A>::transforms(
                self.channel_map,
                decoded,
                after.channel_map,
                converted,
            ) && #[trigger] T::transforms(self.transform, converted, after.transform, out)
                && match out.spec_into_chunk() {
                Some(processed) => self.jitter.receives(processed, after.jitter),
                None => after.jitter == self.jitter,
            }
    }

    /// Processes a decoded chunk and puts it in its place.
    pub fn process(&mut self, decoded: AudioChunk)
        requires
            old(self).wf(),
            old(self).jitter.has_room(),
            old(self).accepts(decoded),
        ensures
            final(self).wf(),
            final(self).decoder == old(self).decoder,
            final(self).resampler == old(self).resampler,
            final(self).conceal == old(self).conceal,
            old(self).processes(decoded, *final(self)),
    {
        let converted: AudioChunk = self.channel_map.transform(decoded);
        let ghost mapped = converted;
        let out = self.transform.transform(converted);
        let ghost made = out;
        proof {
            assert(T::transforms(old(self).transform, mapped, self.transform, made));
        }
        match out.into_chunk() {
            Some(processed) => {
                self.jitter.push(processed);
            },
            None => {},
        }
        proof {
            assert(ChannelMap::<A>::transforms(
                old(self).channel_map,
                decoded,
                self.channel_map,
                mapped,
            ));
            assert(T::transforms(old(self).transform, mapped, self.transform, made));
        }
    }
}

impl<D, T, R, FD, A> MixerInput for InputSlot<D, T, R, FD, A> where
    D: AudioDecoder,
    T: ChunkTransform,
    T::OutputT: MaybeChunk,
    R: Resampler,
    FD: FnMut(&AudioFormat) -> Option<D>,
    A: Arithmetic,
 {
    open spec fn admits(&self, frame: EncodedChunk) -> bool {
        &&& self.wf()
        &&& self.jitter.has_room()
        &&& self.decoder.accepts(frame)
        &&& forall|decoder: ChunkDecoder<D, FD>, decoded: AudioChunk| #[trigger]
            self.decoder.decodes(frame, decoder, Some(decoded)) ==> self.accepts(decoded)
    }

    open spec fn takes(pre: Self, frame: EncodedChunk, after: Self) -> bool {
        &&& after.wf()
        &&& after.resampler == pre.resampler
        &&& after.conceal == pre.conceal
        &&& exists|decoded: Option<AudioChunk>| #[trigger]
            pre.decoder.decodes(frame, after.decoder, decoded) && match decoded {
                Some(decoded) => pre.processes(decoded, after),
                None => after.channel_map == pre.channel_map && after.transform == pre.transform
                    && after.jitter == pre.jitter,
            }
    }

    fn push_frame(&mut self, frame: EncodedChunk) {
        let decoded: Option<AudioChunk> = self.decoder.decode_frame(&frame);
        let ghost made = decoded;
        let ghost then = *self;
        proof {
            assert(old(self).decoder.decodes(frame, self.decoder, made));
        }
        match decoded {
            Some(decoded) => {
                proof {
                    assert(old(self).accepts(decoded));
                    assert(self.accepts(decoded));
                }
                self.process(decoded);
                proof {
                    assert(then.processes(decoded, *self));
                    let (converted, out) = choose|converted: AudioChunk, out: T::OutputT|
                        #[trigger] ChannelMap::<A>::transforms(
                            then.channel_map,
                            decoded,
                            self.channel_map,
                            converted,
                        ) && #[trigger] T::transforms(
                            then.transform,
                            converted,
                            self.transform,
                            out,
                        ) && match out.spec_into_chunk() {
                            Some(processed) => then.jitter.receives(processed, self.jitter),
                            None => self.jitter == then.jitter,
                        };
                    assert(ChannelMap::<A>::transforms(
                        old(self).channel_map,
                        decoded,
                        self.channel_map,
                        converted,
                    ));
                    assert(T::transforms(old(self).transform, converted, self.transform, out));
                    assert(old(self).processes(decoded, *self));
                }
            },
            None => {},
        }
        proof {
            assert(old(self).decoder.decodes(frame, self.decoder, made));
        }
    }
}

/// The state of a slot's reordering and rate conversion after `k` chunks have gone from the one
/// to the other: each was next in order, and came while fewer than `needed` samples were ready.
pub open spec fn fed<R: Resampler>(
    window: Window<AudioChunk>,
    resampler: R,
    needed: int,
    k: nat,
    window_then: Window<AudioChunk>,
    resampler_then: R,
) -> bool
    decreases k,
{
    if k == 0 {
        window_then == window && resampler_then == resampler
    } else {
        exists|before: Window<AudioChunk>, from: R|
            fed(window, resampler, needed, (k - 1) as nat, before, from)
                && from.flow().waiting.len() < needed && before.current() is Some && window_then
                == #[trigger] before.advance() && #[trigger] sample::takes_all(
                from,
                before.current()->0.audio_data@,
                resampler_then,
            )
    }
}

/// A slot is fed until enough samples are ready or the next chunk is missing. A missing chunk is
/// passed.
pub open spec fn feeds<R: Resampler>(
    window: Window<AudioChunk>,
    resampler: R,
    needed: int,
    window_then: Window<AudioChunk>,
    resampler_then: R,
) -> bool {
    exists|k: nat, last: Window<AudioChunk>| #[trigger]
        fed(window, resampler, needed, k, last, resampler_then) && if
        resampler_then.flow().waiting.len() >= needed {
            window_then == last
        } else {
            last.current() is None && window_then == last.advance()
        }
}

/// What comes out of a resampler that is asked for `n` samples.
pub open spec fn popped(waiting: Seq<u32>, n: nat) -> Seq<Option<u32>> {
    Seq::new(
        n,
        |i: int|
            if i < waiting.len() {
                Some(waiting[i])
            } else {
                None
            },
    )
}

/// `after` is the sum of `before` and `added`, sample by sample.
pub open spec fn adds<A: Arithmetic>(
    before: Seq<u32>,
    added: Seq<u32>,
    after: Seq<u32>,
) -> bool {
    &&& after.len() == before.len()
    &&& forall|i: int|
        0 <= i < before.len() ==> call_ensures(
            A::sum,
            (before[i], added[i]),
            #[trigger] after[i],
        )
}

/// What has gone through a resampler that is asked for `n` samples more: as many of those that
/// wait are popped, as far as they reach.
pub open spec fn drained(full: Flow, n: int) -> Flow {
    let k = if n < full.waiting.len() {
        n
    } else {
        full.waiting.len() as int
    };
    Flow {
        pushed: full.pushed,
        waiting: full.waiting.skip(k),
        popped: full.popped + full.waiting.take(k),
    }
}

impl<D, T, R, FD, A> InputSlot<D, T, R, FD, A> where
    D: AudioDecoder,
    T: ChunkTransform,
    T::OutputT: MaybeChunk,
    R: Resampler,
    FD: FnMut(&AudioFormat) -> Option<D>,
    A: Arithmetic,
 {
    /// `mixed` is what the slot may add to `before`: its resampler is fed, and what comes out of
    /// it is played, with concealment where samples are missing.
    pub open spec fn mixes(self, before: Seq<u32>, after: Self, mixed: Seq<u32>) -> bool {
        &&& after.decoder == self.decoder
        &&& after.channel_map == self.channel_map
        &&& after.transform == self.transform
        &&& after.jitter.gap_detected == self.jitter.gap_detected
        &&& after.jitter.late_dropped == self.jitter.late_dropped
        &&& exists|full: R, outs: Seq<u32>| #[trigger]
            feeds(
                self.jitter.buffer@,
                self.resampler,
                before.len() as int,
                after.jitter.buffer@,
                full,
            ) && #[trigger] conceal::concealed(
                self.conceal,
                popped(full.flow().waiting, before.len()),
                after.conceal,
                outs,
            ) && adds::<A>(before, outs, mixed) && after.resampler.flow() == drained(
                full.flow(),
                before.len() as int,
            )
    }

    /// Feeds the resampler until `needed` samples are ready or the next chunk is missing.
    fn feed(&mut self, needed: usize)
        requires
            old(self).wf(),
        ensures
            final(self).wf(),
            final(self).decoder == old(self).decoder,
            final(self).channel_map == old(self).channel_map,
            final(self).transform == old(self).transform,
            final(self).conceal == old(self).conceal,
            final(self).jitter.gap_detected == old(self).jitter.gap_detected,
            final(self).jitter.late_dropped == old(self).jitter.late_dropped,
            feeds(
                old(self).jitter.buffer@,
                old(self).resampler,
                needed as int,
                final(self).jitter.buffer@,
                final(self).resampler,
            ),
    {
        let ghost mut k: nat = 0;
        let ghost window = self.jitter.buffer@;
        let ghost resampler = self.resampler;
        proof {
            self.jitter.buffer.window_is_wf();
            assert(fed(window, resampler, needed as int, k, window, resampler));
        }
        while self.resampler.buffered() < needed
            invariant
                self.wf(),
                self.decoder == old(self).decoder,
                self.channel_map == old(self).channel_map,
                self.transform == old(self).transform,
                self.conceal == old(self).conceal,
                self.jitter.gap_detected == old(self).jitter.gap_detected,
                self.jitter.late_dropped == old(self).jitter.late_dropped,
                window == old(self).jitter.buffer@,
                resampler == old(self).resampler,
                self.jitter.buffer@.wf(),
                fed(
                    window,
                    resampler,
                    needed as int,
                    k,
                    self.jitter.buffer@,
                    self.resampler,
                ),
            decreases self.jitter.buffer@.prev + 1 - self.jitter.buffer@.head,
        {
            let ghost before = self.jitter.buffer@;
            let ghost from = self.resampler;
            match self.jitter.pull() {
                Some(ordered) => {
                    push_all(&mut self.resampler, &ordered.audio_data);
                    proof {
                        assert(sample::takes_all(
                            from,
                            before.current()->0.audio_data@,
                            self.resampler,
                        ));
                        assert(self.jitter.buffer@ == before.advance());
                        self.jitter.buffer.window_is_wf();
                        k = k + 1;
                    }
                },
                None => {
                    proof {
                        assert(fed(window, resampler, needed as int, k, before, from));
                    }
                    return;
                },
            }
        }
        proof {
            assert(fed(
                window,
                resampler,
                needed as int,
                k,
                self.jitter.buffer@,
                self.resampler,
            ));
        }
    }

    /// Adds the slot's next samples to `mixed`.
    pub fn mix_into(&mut self, mixed: &mut Vec<u32>)
        requires
            old(self).wf(),
            old(self).conceal.has_room(old(mixed)@.len() as int),
        ensures
            final(self).wf(),
            old(self).mixes(old(mixed)@, *final(self), final(mixed)@),
    {
        let needed: usize = mixed.len();
        let ghost before = mixed@;
        self.feed(needed);
        let ghost full = self.resampler;
        let ghost waiting = full.flow().waiting;
        let ghost start = self.conceal;
        let ghost mut outs: Seq<u32> = Seq::empty();
        let ghost mut samples: Seq<Option<u32>> = Seq::empty();
        let ghost buffer = self.jitter.buffer@;
        let mut i: usize = 0;
        proof {
            assert(conceal::concealed(start, samples, self.conceal, outs));
            assert(waiting.skip(0) =~= waiting);
            assert(full.flow().popped + waiting.take(0) =~= full.flow().popped);
            assert(popped(waiting, 0) =~= samples);
        }
        while i < needed
            invariant
                i <= needed,
                needed == before.len() == mixed@.len(),
                before == old(mixed)@,
                self.wf(),
                self.decoder == old(self).decoder,
                self.channel_map == old(self).channel_map,
                self.transform == old(self).transform,
                self.jitter.gap_detected == old(self).jitter.gap_detected,
                self.jitter.late_dropped == old(self).jitter.late_dropped,
                self.jitter.buffer@ == buffer,
                waiting == full.flow().waiting,
                self.resampler.flow() == drained(full.flow(), i as int),
                start == old(self).conceal,
                start.wf(),
                start.has_room(needed as int),
                samples =~= popped(waiting, i as nat),
                conceal::concealed(start, samples, self.conceal, outs),
                forall|x: int| i <= x < needed ==> mixed@[x] == before[x],
                forall|x: int|
                    0 <= x < i ==> call_ensures(
                        A::sum,
                        (before[x], outs[x]),
                        #[trigger] mixed@[x],
                    ),
            decreases needed - i,
        {
            let ghost mid = self.conceal;
            let ghost earlier = outs;
            let ghost given = samples;
            proof {
                conceal::run_counts(start, samples, mid, outs);
            }
            let sample: Option<u32> = self.resampler.pop_sample();
            proof {
                let then = drained(full.flow(), i + 1);
                assert(self.resampler.flow().waiting =~= then.waiting);
                assert(self.resampler.flow().popped =~= then.popped);
            }
            let out: u32 = self.conceal.next(sample);
            mixed[i] = A::sum(mixed[i], out);
            proof {
                outs = outs.push(out);
                samples = samples.push(sample);
                assert(samples.drop_last() =~= given);
                assert(outs.drop_last() =~= earlier);
                assert(mid.plays(samples.last(), self.conceal, outs.last()));
                assert(samples =~= popped(waiting, (i + 1) as nat));
            }
            i += 1;
        }
        proof {
            assert(samples == popped(full.flow().waiting, before.len()));
            assert(adds::<A>(before, outs, mixed@));
            assert(feeds(
                old(self).jitter.buffer@,
                old(self).resampler,
                before.len() as int,
                self.jitter.buffer@,
                full,
            ));
            assert(conceal::concealed(
                old(self).conceal,
                popped(full.flow().waiting, before.len()),
                self.conceal,
                outs,
            ));
        }
    }
}

/// The samples of the first `k` chunks that a window plays, one after the other.
pub open spec fn played(window: Window<AudioChunk>, k: nat) -> Seq<u32>
    decreases k,
{
    if k == 0 {
        Seq::empty()
    } else {
        played(window, (k - 1) as nat) + window.advance_by(
            (k - 1) as nat,
        ).current()->0.audio_data@
    }
}

/// A resampler is fed in the order of sequence numbers: after `k` chunks it has been given just
/// the samples of the chunks under the cursor and its next `k - 1` places, and none was missing.
pub proof fn feeding_is_in_order<R: Resampler>(
    window: Window<AudioChunk>,
    resampler: R,
    needed: int,
    k: nat,
    window_then: Window<AudioChunk>,
    resampler_then: R,
)
    requires
        fed(window, resampler, needed, k, window_then, resampler_then),
    ensures
        window_then == window.advance_by(k),
        resampler_then.flow().pushed == resampler.flow().pushed + played(window, k),
        forall|j: nat| j < k ==> (#[trigger] window.advance_by(j)).current() is Some,
    decreases k,
{
    if k == 0 {
        assert(resampler.flow().pushed + played(window, k) =~= resampler.flow().pushed);
    } else {
        let (before, from) = choose|before: Window<AudioChunk>, from: R|
            fed(window, resampler, needed, (k - 1) as nat, before, from)
                && from.flow().waiting.len() < needed && before.current() is Some && window_then
                == #[trigger] before.advance() && #[trigger] sample::takes_all(
                from,
                before.current()->0.audio_data@,
                resampler_then,
            );
        feeding_is_in_order(window, resampler, needed, (k - 1) as nat, before, from);
        assert(resampler.flow().pushed + played(window, k) =~= resampler.flow().pushed + played(
            window,
            (k - 1) as nat,
        ) + before.current()->0.audio_data@);
        assert forall|j: nat| j < k implies (
        #[trigger] window.advance_by(j)).current() is Some by {
            if j == k - 1 {
                assert(window.advance_by(j) == before);
            }
        }
    }
}

} // verus!
