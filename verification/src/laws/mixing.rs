//! Peers in the mix: whom a frame reaches, and who is heard.
use crate::audio::chunk::AudioChunk;
use crate::audio::codec::{AudioDecoder, EncodedChunk, FormatCache};
use crate::audio::conceal::{self, Conceal};
use crate::audio::float::{self, Arithmetic};
use crate::audio::mixer::{self, Mixer, MixerMetrics};
use crate::audio::sample::{Resampler, SyncSampleSource};
use crate::audio::slot::{self, ChunkDecoder, InputSlot, JitterStage, MixerInput};
use crate::audio::transform::{self, ChannelMap, ChunkTransform, MaybeChunk};
use crate::audio::window::Window;
use crate::audio::AudioFormat;
use crate::laws::{coding, concealment, reordering};
use vstd::prelude::*;

verus! {

/// Whether a chunk stands under its number in a stage, at its own place in the order.
pub open spec fn waits_in(stage: JitterStage, chunk: AudioChunk) -> bool {
    let k = chunk.sequence_number as int;
    stage.buffer@.items.dom().contains(k) && stage.buffer@.items[k] == chunk
}

/// What the peer at one place makes of a frame: what its decoder makes of it goes through its
/// processing and, where that keeps it and it is not late, waits in its window.
pub open spec fn hears<D, T, R, FD, A>(
    before: InputSlot<D, T, R, FD, A>,
    frame: EncodedChunk,
    after: InputSlot<D, T, R, FD, A>,
) -> bool where
    D: AudioDecoder,
    T: ChunkTransform,
    T::OutputT: MaybeChunk,
    R: Resampler,
    FD: FnMut(&AudioFormat) -> Option<D>,
    A: Arithmetic,
 {
    let cache = before.decoder.decoder_cache;
    // The decoder at hand where the format is the same, and a new one where it is not.
    let known = cache.format == Some(frame.format);
    exists|built: Option<D>, decoded: Option<AudioChunk>|
        #![trigger arrives(built, before, frame, after, decoded)]
        (if known {
            built == cache.codec
        } else {
            call_ensures(cache.rebuild, (&frame.format,), built)
        }) && arrives(built, before, frame, after, decoded)
}

/// `decoded` is what a decoder has made of a frame, and has reached its place.
pub open spec fn arrives<D, T, R, FD, A>(
    built: Option<D>,
    before: InputSlot<D, T, R, FD, A>,
    frame: EncodedChunk,
    after: InputSlot<D, T, R, FD, A>,
    decoded: Option<AudioChunk>,
) -> bool where
    D: AudioDecoder,
    T: ChunkTransform,
    T::OutputT: MaybeChunk,
    R: Resampler,
    FD: FnMut(&AudioFormat) -> Option<D>,
    A: Arithmetic,
 {
    &&& match built {
        Some(decoder) => after.decoder.decoder_cache.codec matches Some(then) && D::decodes(
            decoder,
            frame,
            then,
            decoded,
        ),
        None => decoded is None,
    }
    &&& match decoded {
        Some(chunk) => exists|converted: AudioChunk, out: T::OutputT| #[trigger]
            ChannelMap::<A>::transforms(before.channel_map, chunk, after.channel_map, converted)
                && #[trigger] T::transforms(before.transform, converted, after.transform, out)
                && match out.spec_into_chunk() {
                Some(kept) => settled(before.jitter, kept, after.jitter),
                None => after.jitter == before.jitter,
            },
        None => after.jitter == before.jitter && after.channel_map == before.channel_map
            && after.transform == before.transform,
    }
}

/// A chunk that is not late waits in its window then, and nothing in front of it is lost that
/// still fits; a late one changes nothing.
pub open spec fn settled(before: JitterStage, chunk: AudioChunk, after: JitterStage) -> bool {
    let number = chunk.sequence_number as int;
    if number < before.buffer@.head {
        after.buffer@ == before.buffer@ && after.late_dropped == before.late_dropped + 1
    } else {
        &&& waits_in(after, chunk)
        &&& after.late_dropped == before.late_dropped
        &&& forall|k: int|
            k != number && k >= after.buffer@.head ==> (#[trigger]
            after.buffer@.items.dom().contains(k) <==> before.buffer@.items.dom().contains(k))
        &&& forall|k: int|
            k != number && #[trigger] after.buffer@.items.dom().contains(k)
                ==> after.buffer@.items[k] == before.buffer@.items[k]
    }
}

proof fn chunk_settles(before: JitterStage, chunk: AudioChunk, after: JitterStage)
    requires
        before.wf(),
        before.receives(chunk, after),
    ensures
        settled(before, chunk, after),
{
}

/// A frame that an input takes is decoded, processed, and put in its place.
proof fn input_hears<D, T, R, FD, A>(
    before: InputSlot<D, T, R, FD, A>,
    frame: EncodedChunk,
    after: InputSlot<D, T, R, FD, A>,
) where
    D: AudioDecoder,
    T: ChunkTransform,
    T::OutputT: MaybeChunk,
    R: Resampler,
    FD: FnMut(&AudioFormat) -> Option<D>,
    A: Arithmetic,

    requires
        before.wf(),
        InputSlot::takes(before, frame, after),
    ensures
        hears(before, frame, after),
{
    let cache = before.decoder.decoder_cache;
    let decoded = choose|decoded: Option<AudioChunk>| #[trigger]
        before.decoder.decodes(frame, after.decoder, decoded) && match decoded {
            Some(decoded) => before.processes(decoded, after),
            None => after.channel_map == before.channel_map && after.transform == before.transform
                && after.jitter == before.jitter,
        };
    let (current, usable) = choose|current: FormatCache<D, FD>, usable: bool| #[trigger]
        cache.brings(frame.format, current, usable) && if usable {
            &&& D::decodes(current.codec->0, frame, after.decoder.decoder_cache.codec->0, decoded)
            &&& after.decoder.decoder_cache == (FormatCache {
                codec: Some(after.decoder.decoder_cache.codec->0),
                format: current.format,
                rebuild: current.rebuild,
            })
        } else {
            after.decoder.decoder_cache == current && decoded is None
        };
    if decoded is Some {
        let chunk = decoded->0;
        let (converted, out) = choose|converted: AudioChunk, out: T::OutputT| #[trigger]
            ChannelMap::<A>::transforms(before.channel_map, chunk, after.channel_map, converted)
                && #[trigger] T::transforms(before.transform, converted, after.transform, out)
                && match out.spec_into_chunk() {
                Some(processed) => before.jitter.receives(processed, after.jitter),
                None => after.jitter == before.jitter,
            };
        if out.spec_into_chunk() is Some {
            chunk_settles(before.jitter, out.spec_into_chunk()->0, after.jitter);
        }
        assert(ChannelMap::<A>::transforms(
            before.channel_map,
            chunk,
            after.channel_map,
            converted,
        ));
        assert(T::transforms(before.transform, converted, after.transform, out));
    }
    if cache.format == Some(frame.format) {
        assert(arrives(cache.codec, before, frame, after, decoded));
    } else {
        let built = choose|built: Option<D>| #[trigger]
            call_ensures(cache.rebuild, (&frame.format,), built) && match built {
                Some(codec) => usable && current == (FormatCache {
                    codec: Some(codec),
                    format: Some(frame.format),
                    rebuild: cache.rebuild,
                }),
                None => !usable && current == cache,
            };
        assert(arrives(built, before, frame, after, decoded));
    }
}

/// A frame reaches the peer it is meant for, wherever that stands among the peers, and no other.
pub proof fn frame_reaches_its_peer<D, T, R, M, FD, A>(
    mixer: &mut Mixer<D, T, R, M, FD, A>,
    id: u32,
    frame: EncodedChunk,
    i: int,
) where
    D: AudioDecoder,
    T: ChunkTransform,
    T::OutputT: MaybeChunk,
    R: Resampler,
    M: ChunkTransform,
    M::OutputT: MaybeChunk,
    FD: FnMut(&AudioFormat) -> Option<D>,
    A: Arithmetic,

    requires
        old(mixer).wf(),
        call_ensures(Mixer::<D, T, R, M, FD, A>::push_to_slot, (mixer, id, frame), ()),
        0 <= i < old(mixer).slots@.len(),
        old(mixer).slots@[i].0 == id,
    ensures
        final(mixer).slots@.len() == old(mixer).slots@.len(),
        final(mixer).slots@[i].0 == id,
        hears(old(mixer).slots@[i].1, frame, final(mixer).slots@[i].1),
        forall|k: int|
            0 <= k < old(mixer).slots@.len() && k != i ==> #[trigger] final(mixer).slots@[k]
                == old(mixer).slots@[k],
{
    assert(mixer::has_slot(old(mixer).slots@, id));
    assert forall|k: int|
        0 <= k < old(mixer).slots@.len() && (#[trigger] old(mixer).slots@[k]).0 == id implies k
        == i by {
        if k < i {
            assert(old(mixer).slots@[k].0 != old(mixer).slots@[i].0);
        } else if i < k {
            assert(old(mixer).slots@[i].0 != old(mixer).slots@[k].0);
        }
    }
    input_hears(old(mixer).slots@[i].1, frame, final(mixer).slots@[i].1);
}

/// A frame that is pushed to an input is decoded, processed, and put in its place; what has been
/// decoded before, and how missing samples are hidden, is left alone.
pub proof fn pushed_frame_is_heard<D, T, R, FD, A>(
    input: &mut InputSlot<D, T, R, FD, A>,
    frame: EncodedChunk,
) where
    D: AudioDecoder,
    T: ChunkTransform,
    T::OutputT: MaybeChunk,
    R: Resampler,
    FD: FnMut(&AudioFormat) -> Option<D>,
    A: Arithmetic,

    requires
        old(input).wf(),
        call_ensures(
            <InputSlot<D, T, R, FD, A> as MixerInput>::push_frame,
            (input, frame),
            (),
        ),
    ensures
        hears(*old(input), frame, *final(input)),
        final(input).resampler == old(input).resampler,
        final(input).conceal == old(input).conceal,
{
    input_hears(*old(input), frame, *final(input));
}

/// A new peer comes in beside the others: all of them stay as they were, unless one still has the
/// number that is due. The new one has its own number, processing and resampler, and nothing
/// waits for it.
pub proof fn new_peer_joins_the_others<D, T, R, M, FD, A>(
    mixer: &mut Mixer<D, T, R, M, FD, A>,
    transform: T,
    rebuild: FD,
    resampler: R,
    id: u32,
) where
    D: AudioDecoder,
    T: ChunkTransform,
    T::OutputT: MaybeChunk,
    R: Resampler,
    M: ChunkTransform,
    M::OutputT: MaybeChunk,
    FD: FnMut(&AudioFormat) -> Option<D>,
    A: Arithmetic,

    requires
        old(mixer).wf(),
        call_ensures(
            Mixer::<D, T, R, M, FD, A>::subscribe,
            (mixer, transform, rebuild, resampler),
            id,
        ),
    ensures
        id == old(mixer).next_id,
        final(mixer).next_id != id,
        id < u32::MAX ==> final(mixer).next_id == id + 1,
        forall|k: int|
            0 <= k < old(mixer).slots@.len() && (#[trigger] old(mixer).slots@[k]).0 != id
                ==> k < final(mixer).slots@.len() && final(mixer).slots@[k]
                == old(mixer).slots@[k],
        exists|i: int|
            0 <= i < final(mixer).slots@.len() && (#[trigger] final(mixer).slots@[i]).0 == id && ({
                let slot = final(mixer).slots@[i].1;
                &&& slot.transform == transform
                &&& slot.resampler == resampler
                &&& slot.decoder.decoder_cache.codec is None
                &&& slot.decoder.decoder_cache.format is None
                &&& slot.decoder.decoder_cache.rebuild == rebuild
                &&& slot.channel_map.dst_channels == old(mixer).out_format.channel_count
                &&& !slot.channel_map.cap_channels
                &&& slot.jitter.buffer@.capacity == old(mixer).jitter_chunks
                &&& slot.jitter.buffer@.items.dom() == Set::<int>::empty()
                &&& slot.jitter.buffer@.head == 0
                &&& slot.jitter.gap_detected == 0 && slot.jitter.late_dropped == 0
                &&& slot.conceal.last_sample == float::ZERO && slot.conceal.fade_pos == 0
                &&& slot.conceal.underrun == 0 && slot.conceal.plc_hold == 0
            }),
        final(mixer).slots@.len() <= old(mixer).slots@.len() + 1,
        final(mixer).slots@.len() >= old(mixer).slots@.len(),
        final(mixer).pending@ == old(mixer).pending@,
        final(mixer).bus == old(mixer).bus,
        final(mixer).out_format == old(mixer).out_format,
        final(mixer).out_frames == old(mixer).out_frames,
        final(mixer).out_sequence == old(mixer).out_sequence,
        final(mixer).fills == old(mixer).fills,
        final(mixer).clip == old(mixer).clip,
{
    let (before, after) = (old(mixer).slots@, final(mixer).slots@);
    let i = choose|i: int|
        0 <= i < after.len() && (#[trigger] after[i]).0 == id && (if mixer::has_slot(before, id) {
            i < before.len() && before[i].0 == id && after == before.update(i, after[i])
        } else {
            i == before.len() && after == before.push(after[i])
        }) && mixer::fresh_slot(
            after[i].1,
            transform,
            rebuild,
            resampler,
            old(mixer).out_format.channel_count,
            old(mixer).jitter_chunks,
        );
    assert(after[i].1.jitter.buffer@.items.dom() =~= Set::<int>::empty());
}

/// A peer that has just come in is heard, however many were there before.
pub proof fn frame_reaches_the_newest_peer<D, T, R, M, FD, A>(
    mixer: &mut Mixer<D, T, R, M, FD, A>,
    transform: T,
    rebuild: FD,
    resampler: R,
    id: u32,
    then: &mut Mixer<D, T, R, M, FD, A>,
    frame: EncodedChunk,
) where
    D: AudioDecoder,
    T: ChunkTransform,
    T::OutputT: MaybeChunk,
    R: Resampler,
    M: ChunkTransform,
    M::OutputT: MaybeChunk,
    FD: FnMut(&AudioFormat) -> Option<D>,
    A: Arithmetic,

    requires
        old(mixer).wf(),
        call_ensures(
            Mixer::<D, T, R, M, FD, A>::subscribe,
            (mixer, transform, rebuild, resampler),
            id,
        ),
        *old(then) == *final(mixer),
        call_ensures(Mixer::<D, T, R, M, FD, A>::push_to_slot, (then, id, frame), ()),
    ensures
        exists|i: int|
            0 <= i < final(then).slots@.len() && (#[trigger] final(then).slots@[i]).0 == id
                && hears(old(then).slots@[i].1, frame, final(then).slots@[i].1)
                && old(then).slots@[i].1.transform == transform
                && old(then).slots@[i].1.decoder.decoder_cache.rebuild == rebuild
                && old(then).slots@[i].1.resampler == resampler,
        forall|k: int|
            0 <= k < old(then).slots@.len() && (#[trigger] old(then).slots@[k]).0 != id
                ==> final(then).slots@[k] == old(then).slots@[k],
{
    new_peer_joins_the_others(mixer, transform, rebuild, resampler, id);
    let i = choose|i: int|
        0 <= i < final(mixer).slots@.len() && (#[trigger] final(mixer).slots@[i]).0 == id
            && final(mixer).slots@[i].1.transform == transform && final(mixer).slots@[i].1.resampler
            == resampler && final(mixer).slots@[i].1.decoder.decoder_cache.rebuild == rebuild;
    frame_reaches_its_peer(then, id, frame, i);
    assert(final(then).slots@[i].0 == id);
}

/// Two mixers differ in their peers only.
pub open spec fn same_but_peers<D, T, R, M, FD, A>(
    a: Mixer<D, T, R, M, FD, A>,
    b: Mixer<D, T, R, M, FD, A>,
) -> bool where
    D: AudioDecoder,
    T: ChunkTransform,
    T::OutputT: MaybeChunk,
    R: Resampler,
    M: ChunkTransform,
    M::OutputT: MaybeChunk,
    FD: FnMut(&AudioFormat) -> Option<D>,
    A: Arithmetic,
 {
    &&& a.bus == b.bus
    &&& a.clip == b.clip
    &&& a.pending@ == b.pending@
    &&& a.out_format == b.out_format
    &&& a.out_frames == b.out_frames
    &&& a.out_sequence == b.out_sequence
    &&& a.jitter_chunks == b.jitter_chunks
    &&& a.fills == b.fills
}

/// A frame was heard by every peer of its number and by no other.
pub open spec fn reaches<D, T, R, M, FD, A>(
    before: Mixer<D, T, R, M, FD, A>,
    id: u32,
    frame: EncodedChunk,
    after: Mixer<D, T, R, M, FD, A>,
) -> bool where
    D: AudioDecoder,
    T: ChunkTransform,
    T::OutputT: MaybeChunk,
    R: Resampler,
    M: ChunkTransform,
    M::OutputT: MaybeChunk,
    FD: FnMut(&AudioFormat) -> Option<D>,
    A: Arithmetic,
 {
    &&& same_but_peers(before, after)
    &&& after.next_id == before.next_id
    &&& after.slots@.len() == before.slots@.len()
    &&& forall|k: int|
        0 <= k < before.slots@.len() ==> (#[trigger] after.slots@[k]).0 == before.slots@[k].0
            && if before.slots@[k].0 == id {
            hears(before.slots@[k].1, frame, after.slots@[k].1)
        } else {
            after.slots@[k] == before.slots@[k]
        }
}

/// What a mixer does with a frame reaches its peer.
pub(crate) proof fn pushing_reaches<D, T, R, M, FD, A>(
    before: Mixer<D, T, R, M, FD, A>,
    id: u32,
    frame: EncodedChunk,
    after: Mixer<D, T, R, M, FD, A>,
) where
    D: AudioDecoder,
    T: ChunkTransform,
    T::OutputT: MaybeChunk,
    R: Resampler,
    M: ChunkTransform,
    M::OutputT: MaybeChunk,
    FD: FnMut(&AudioFormat) -> Option<D>,
    A: Arithmetic,

    requires
        before.wf(),
        before.pushes(id, frame, after),
    ensures
        reaches(before, id, frame, after),
{
    if mixer::has_slot(before.slots@, id) {
        let i = choose|i: int|
            0 <= i < before.slots@.len() && (#[trigger] before.slots@[i]).0 == id && after.slots@
                == before.slots@.update(i, (id, after.slots@[i].1)) && InputSlot::takes(
                before.slots@[i].1,
                frame,
                after.slots@[i].1,
            );
        input_hears(before.slots@[i].1, frame, after.slots@[i].1);
        assert forall|k: int| 0 <= k < before.slots@.len() implies (
        #[trigger] after.slots@[k]).0 == before.slots@[k].0 && if before.slots@[k].0 == id {
            hears(before.slots@[k].1, frame, after.slots@[k].1)
        } else {
            after.slots@[k] == before.slots@[k]
        } by {
            if before.slots@[k].0 == id && k < i {
                assert(before.slots@[k].0 != before.slots@[i].0);
            } else if before.slots@[k].0 == id && i < k {
                assert(before.slots@[i].0 != before.slots@[k].0);
            }
        }
    }
}

/// A frame is heard by every peer of its number and by no other: without one it is dropped.
pub proof fn frame_reaches_nobody_else<D, T, R, M, FD, A>(
    mixer: &mut Mixer<D, T, R, M, FD, A>,
    id: u32,
    frame: EncodedChunk,
) where
    D: AudioDecoder,
    T: ChunkTransform,
    T::OutputT: MaybeChunk,
    R: Resampler,
    M: ChunkTransform,
    M::OutputT: MaybeChunk,
    FD: FnMut(&AudioFormat) -> Option<D>,
    A: Arithmetic,

    requires
        old(mixer).wf(),
        call_ensures(Mixer::<D, T, R, M, FD, A>::push_to_slot, (mixer, id, frame), ()),
    ensures
        reaches(*old(mixer), id, frame, *final(mixer)),
{
    pushing_reaches(*old(mixer), id, frame, *final(mixer));
}

/// A peer of this number has come in beside the others, with nothing behind it.
pub open spec fn joins<D, T, R, M, FD, A>(
    before: Mixer<D, T, R, M, FD, A>,
    transform: T,
    rebuild: FD,
    resampler: R,
    id: u32,
    after: Mixer<D, T, R, M, FD, A>,
) -> bool where
    D: AudioDecoder,
    T: ChunkTransform,
    T::OutputT: MaybeChunk,
    R: Resampler,
    M: ChunkTransform,
    M::OutputT: MaybeChunk,
    FD: FnMut(&AudioFormat) -> Option<D>,
    A: Arithmetic,
 {
    &&& same_but_peers(before, after)
    &&& id == before.next_id
    &&& after.next_id == if id < u32::MAX {
        id + 1
    } else {
        0
    }
    &&& before.slots@.len() <= after.slots@.len() <= before.slots@.len() + 1
    &&& forall|k: int|
        0 <= k < before.slots@.len() && before.slots@[k].0 != id ==> #[trigger] after.slots@[k]
            == before.slots@[k]
    &&& exists|i: int|
        0 <= i < after.slots@.len() && (#[trigger] after.slots@[i]).0 == id && (i
            < before.slots@.len() ==> before.slots@[i].0 == id && after.slots@.len()
            == before.slots@.len()) && is_fresh_peer(
            after.slots@[i].1,
            transform,
            rebuild,
            resampler,
            before.out_format.channel_count as int,
            before.jitter_chunks as int,
        )
}

/// An input with its own processing and resampler that nothing has reached yet.
pub open spec fn is_fresh_peer<D, T, R, FD, A>(
    slot: InputSlot<D, T, R, FD, A>,
    transform: T,
    rebuild: FD,
    resampler: R,
    channels: int,
    room: int,
) -> bool where
    D: AudioDecoder,
    T: ChunkTransform,
    T::OutputT: MaybeChunk,
    R: Resampler,
    FD: FnMut(&AudioFormat) -> Option<D>,
    A: Arithmetic,
 {
    &&& slot.transform == transform
    &&& slot.resampler == resampler
    &&& slot.decoder.decoder_cache.codec is None
    &&& slot.decoder.decoder_cache.format is None
    &&& slot.decoder.decoder_cache.rebuild == rebuild
    &&& slot.channel_map.dst_channels == channels
    &&& !slot.channel_map.cap_channels
    &&& reordering::is_fresh(slot.jitter.buffer@, room)
    &&& slot.jitter.gap_detected == 0 && slot.jitter.late_dropped == 0
    &&& slot.conceal.last_sample == 0 && slot.conceal.fade_pos == 0
    &&& slot.conceal.underrun == 0 && slot.conceal.plc_hold == 0
}

/// What a mixer does with a new peer lets it join.
pub(crate) proof fn subscribing_joins<D, T, R, M, FD, A>(
    before: Mixer<D, T, R, M, FD, A>,
    transform: T,
    rebuild: FD,
    resampler: R,
    id: u32,
    after: Mixer<D, T, R, M, FD, A>,
) where
    D: AudioDecoder,
    T: ChunkTransform,
    T::OutputT: MaybeChunk,
    R: Resampler,
    M: ChunkTransform,
    M::OutputT: MaybeChunk,
    FD: FnMut(&AudioFormat) -> Option<D>,
    A: Arithmetic,

    requires
        before.subscribes(transform, rebuild, resampler, id, after),
    ensures
        joins(before, transform, rebuild, resampler, id, after),
{
}

/// A new peer joins the others.
pub proof fn subscribed_peer_joins<D, T, R, M, FD, A>(
    mixer: &mut Mixer<D, T, R, M, FD, A>,
    transform: T,
    rebuild: FD,
    resampler: R,
    id: u32,
) where
    D: AudioDecoder,
    T: ChunkTransform,
    T::OutputT: MaybeChunk,
    R: Resampler,
    M: ChunkTransform,
    M::OutputT: MaybeChunk,
    FD: FnMut(&AudioFormat) -> Option<D>,
    A: Arithmetic,

    requires
        call_ensures(
            Mixer::<D, T, R, M, FD, A>::subscribe,
            (mixer, transform, rebuild, resampler),
            id,
        ),
    ensures
        joins(*old(mixer), transform, rebuild, resampler, id, *final(mixer)),
{
}

/// All peers but those of this number.
pub open spec fn others<S>(id: u32) -> spec_fn((u32, S)) -> bool {
    |slot: (u32, S)| slot.0 != id
}

/// The peer of this number is gone, and all others are as they were, in their order.
pub open spec fn leaves<D, T, R, M, FD, A>(
    before: Mixer<D, T, R, M, FD, A>,
    id: u32,
    after: Mixer<D, T, R, M, FD, A>,
) -> bool where
    D: AudioDecoder,
    T: ChunkTransform,
    T::OutputT: MaybeChunk,
    R: Resampler,
    M: ChunkTransform,
    M::OutputT: MaybeChunk,
    FD: FnMut(&AudioFormat) -> Option<D>,
    A: Arithmetic,
 {
    &&& same_but_peers(before, after)
    &&& after.next_id == before.next_id
    &&& after.slots@ == before.slots@.filter(others(id))
}

/// What a mixer does without a peer lets it leave.
pub(crate) proof fn unsubscribing_leaves<D, T, R, M, FD, A>(
    before: Mixer<D, T, R, M, FD, A>,
    id: u32,
    after: Mixer<D, T, R, M, FD, A>,
) where
    D: AudioDecoder,
    T: ChunkTransform,
    T::OutputT: MaybeChunk,
    R: Resampler,
    M: ChunkTransform,
    M::OutputT: MaybeChunk,
    FD: FnMut(&AudioFormat) -> Option<D>,
    A: Arithmetic,

    requires
        before.wf(),
        before.unsubscribes(id, after),
    ensures
        leaves(before, id, after),
{
    the_others_stay(before.slots@, id, after.slots@);
}

/// A peer that leaves is gone, and all others stay as they were, in their order.
pub proof fn leaving_peer_is_gone<D, T, R, M, FD, A>(
    mixer: &mut Mixer<D, T, R, M, FD, A>,
    id: u32,
) where
    D: AudioDecoder,
    T: ChunkTransform,
    T::OutputT: MaybeChunk,
    R: Resampler,
    M: ChunkTransform,
    M::OutputT: MaybeChunk,
    FD: FnMut(&AudioFormat) -> Option<D>,
    A: Arithmetic,

    requires
        old(mixer).wf(),
        call_ensures(Mixer::<D, T, R, M, FD, A>::unsubscribe, (mixer, id), ()),
    ensures
        forall|k: int|
            0 <= k < final(mixer).slots@.len() ==> (#[trigger] final(mixer).slots@[k]).0 != id,
        final(mixer).slots@ == old(mixer).slots@.filter(others(id)),
        final(mixer).next_id == old(mixer).next_id,
        final(mixer).pending@ == old(mixer).pending@,
        final(mixer).bus == old(mixer).bus,
        final(mixer).clip == old(mixer).clip,
        final(mixer).out_sequence == old(mixer).out_sequence,
        final(mixer).fills == old(mixer).fills,
{
    the_others_stay(old(mixer).slots@, id, final(mixer).slots@);
}

proof fn the_others_stay<S>(before: Seq<(u32, S)>, id: u32, after: Seq<(u32, S)>)
    requires
        mixer::distinct(before),
        if mixer::has_slot(before, id) {
            exists|i: int|
                0 <= i < before.len() && (#[trigger] before[i]).0 == id && after
                    == before.remove(i)
        } else {
            after == before
        },
    ensures
        after == before.filter(others(id)),
{
    let others = others::<S>(id);
    if mixer::has_slot(before, id) {
        let i = choose|i: int|
            0 <= i < before.len() && (#[trigger] before[i]).0 == id && after == before.remove(i);
        let (front, back) = (before.take(i), before.skip(i + 1));
        assert(before =~= front + seq![before[i]] + back);
        assert(after =~= front + back);
        Seq::filter_distributes_over_add(front + seq![before[i]], back, others);
        Seq::filter_distributes_over_add(front, seq![before[i]], others);
        all_are_kept(front, others);
        all_are_kept(back, others);
        let gone = seq![before[i]];
        assert(gone.filter(others) =~= Seq::empty()) by {
            reveal_with_fuel(Seq::filter, 2);
            assert(gone.drop_last() =~= Seq::empty());
            assert(!others(gone.last()));
        }
    } else {
        all_are_kept(before, others);
    }
}

proof fn all_are_kept<T>(items: Seq<T>, keep: spec_fn(T) -> bool)
    requires
        forall|i: int| 0 <= i < items.len() ==> keep(#[trigger] items[i]),
    ensures
        items.filter(keep) =~= items,
    decreases items.len(),
{
    reveal(Seq::filter);
    if items.len() > 0 {
        all_are_kept(items.drop_last(), keep);
        assert(items.drop_last().push(items.last()) =~= items);
    }
}

/// The samples of chunks, one chunk behind the other.
pub open spec fn joined(chunks: Seq<AudioChunk>) -> Seq<u32>
    decreases chunks.len(),
{
    if chunks.len() == 0 {
        Seq::empty()
    } else {
        joined(chunks.drop_last()) + chunks.last().audio_data@
    }
}

/// A chunk has come under a number, and that is none that is yet to come.
pub open spec fn stands_at(window: Window<AudioChunk>, number: int, chunk: AudioChunk) -> bool {
    window.items.dom().contains(number) && number <= window.prev && window.items[number] == chunk
}

/// `chunks` are what stands under the cursor and right behind it. They are gone then, and with
/// `skipped` the cursor has passed a missing one as well.
pub open spec fn plays_through(
    before: Window<AudioChunk>,
    chunks: Seq<AudioChunk>,
    skipped: bool,
    after: Window<AudioChunk>,
) -> bool {
    let end = before.head + chunks.len();
    &&& forall|i: int|
        0 <= i < chunks.len() ==> stands_at(before, before.head + i, #[trigger] chunks[i])
    &&& skipped ==> end <= before.prev && !before.items.dom().contains(end)
    &&& after.head == if skipped {
        end + 1
    } else {
        end
    }
    &&& after.prev == before.prev
    &&& after.capacity == before.capacity
    &&& after.seen_any == before.seen_any
    &&& forall|k: int|
        (#[trigger] after.items.dom().contains(k)) <==> before.items.dom().contains(k) && !(
        before.head <= k < end)
    &&& forall|k: int| #[trigger]
        after.items.dom().contains(k) ==> after.items[k] == before.items[k]
}

/// The first chunks that a window plays stand under its cursor and right behind it.
proof fn advancing_plays_through(window: Window<AudioChunk>, k: nat) -> (chunks: Seq<AudioChunk>)
    requires
        forall|j: nat| j < k ==> (#[trigger] window.advance_by(j)).current() is Some,
    ensures
        chunks.len() == k,
        slot::played(window, k) == joined(chunks),
        plays_through(window, chunks, false, window.advance_by(k)),
    decreases k,
{
    if k == 0 {
        Seq::empty()
    } else {
        let before = window.advance_by((k - 1) as nat);
        let earlier = advancing_plays_through(window, (k - 1) as nat);
        assert(before.current() is Some);
        let chunks = earlier.push(before.current()->0);
        assert(chunks.drop_last() =~= earlier);
        assert forall|i: int| 0 <= i < chunks.len() implies stands_at(
            window,
            window.head + i,
            #[trigger] chunks[i],
        ) by {
            if i < k - 1 {
                assert(earlier[i] == chunks[i]);
            }
        }
        let after = window.advance_by(k);
        assert(after == before.advance());
        assert(after.items =~= before.items.remove(before.head));
        assert forall|i: int| (#[trigger] after.items.dom().contains(i)) <==> (
        window.items.dom().contains(i) && !(window.head <= i < window.head + chunks.len())) by {
            assert(before.items.dom().contains(i) <==> window.items.dom().contains(i) && !(
            window.head <= i < window.head + earlier.len()));
        }
        assert forall|i: int| #[trigger] after.items.dom().contains(i) implies after.items[i]
            == window.items[i] by {
            assert(before.items.dom().contains(i));
        }
        chunks
    }
}

/// The next `n` samples behind `was` in `is`, as far as there are any.
pub open spec fn came_out(was: Seq<u32>, is: Seq<u32>, n: nat) -> Seq<Option<u32>> {
    Seq::new(
        n,
        |x: int|
            if was.len() + x < is.len() {
                Some(is[was.len() + x])
            } else {
                None
            },
    )
}

/// What one peer has played: the samples that came out of its resampler since, in order, with
/// missing ones hidden. What has gone into the resampler are the chunks under the cursor, in
/// order; a sample is missing only where the next chunk is, and none is left in the resampler.
#[verifier::opaque]
pub open spec fn played_by<D, T, R, FD, A>(
    before: InputSlot<D, T, R, FD, A>,
    after: InputSlot<D, T, R, FD, A>,
    n: nat,
    outs: Seq<u32>,
) -> bool where
    D: AudioDecoder,
    T: ChunkTransform,
    T::OutputT: MaybeChunk,
    R: Resampler,
    FD: FnMut(&AudioFormat) -> Option<D>,
    A: Arithmetic, {
    let (was, is) = (before.resampler.flow().popped, after.resampler.flow().popped);
    &&& was.is_prefix_of(is)
    &&& is.len() <= was.len() + n
    &&& exists|states: Seq<Conceal<A>>| #[trigger]
        concealment::conceals(
            states,
            came_out(was, is, n),
            outs,
        ) && states[0] == before.conceal && states[n as int] == after.conceal
    &&& exists|chunks: Seq<AudioChunk>, skipped: bool| #[trigger]
        plays_through(before.jitter.buffer@, chunks, skipped, after.jitter.buffer@)
            && after.resampler.flow().pushed == before.resampler.flow().pushed + joined(chunks) && (
        skipped || is.len() < was.len() + n ==> after.resampler.flow().waiting.len() == 0) && (
        is.len() < was.len() + n ==> skipped || after.jitter.buffer@.head
            > after.jitter.buffer@.prev)
    &&& after.decoder == before.decoder
    &&& after.channel_map == before.channel_map
    &&& after.transform == before.transform
    &&& after.jitter.gap_detected == before.jitter.gap_detected
    &&& after.jitter.late_dropped == before.jitter.late_dropped
}

proof fn mixing_plays<D, T, R, FD, A>(
    slot: InputSlot<D, T, R, FD, A>,
    before: Seq<u32>,
    after: InputSlot<D, T, R, FD, A>,
    mix: Seq<u32>,
) where
    D: AudioDecoder,
    T: ChunkTransform,
    T::OutputT: MaybeChunk,
    R: Resampler,
    FD: FnMut(&AudioFormat) -> Option<D>,
    A: Arithmetic,

    requires
        slot.mixes(before, after, mix),
    ensures
        mix.len() == before.len(),
        exists|outs: Seq<u32>| #[trigger]
            played_by(slot, after, before.len(), outs) && forall|x: int|
                0 <= x < before.len() ==> call_ensures(
                    A::sum,
                    (before[x], outs[x]),
                    #[trigger] mix[x],
                ),
{
    let n = before.len();
    let (full, outs) = choose|full: R, outs: Seq<u32>| #[trigger]
        slot::feeds(
            slot.jitter.buffer@,
            slot.resampler,
            n as int,
            after.jitter.buffer@,
            full,
        ) && #[trigger] conceal::concealed(
            slot.conceal,
            slot::popped(full.flow().waiting, n),
            after.conceal,
            outs,
        ) && slot::adds::<A>(before, outs, mix) && after.resampler.flow() == slot::drained(
            full.flow(),
            n as int,
        );
    let (k, last) = choose|k: nat, last: Window<AudioChunk>| #[trigger]
        slot::fed(slot.jitter.buffer@, slot.resampler, n as int, k, last, full) && if
        full.flow().waiting.len() >= n {
            after.jitter.buffer@ == last
        } else {
            last.current() is None && after.jitter.buffer@ == last.advance()
        };
    slot::feeding_is_in_order(slot.jitter.buffer@, slot.resampler, n as int, k, last, full);
    feeding_pops_nothing(slot.jitter.buffer@, slot.resampler, n as int, k, last, full);
    let (was, is) = (slot.resampler.flow().popped, after.resampler.flow().popped);
    assert(slot::popped(full.flow().waiting, n) =~= came_out(was, is, n));
    let states = concealment::run_conceals_each(
        slot.conceal,
        slot::popped(full.flow().waiting, n),
        after.conceal,
        outs,
    );
    let chunks = advancing_plays_through(slot.jitter.buffer@, k);
    let window = slot.jitter.buffer@;
    let skipped = full.flow().waiting.len() < n && last.head <= last.prev;
    if skipped {
        assert(!last.items.dom().contains(last.head));
        assert(!window.items.dom().contains(last.head));
        assert(after.jitter.buffer@.items =~= last.items);
    }
    assert(last == window.advance_by(k));
    assert(plays_through(window, chunks, false, last));
    assert(plays_through(window, chunks, skipped, after.jitter.buffer@));
    assert(played_by(slot, after, n, outs)) by {
        reveal(played_by);
    }
}

proof fn feeding_pops_nothing<R: Resampler>(
    window: Window<AudioChunk>,
    resampler: R,
    needed: int,
    k: nat,
    window_then: Window<AudioChunk>,
    resampler_then: R,
)
    requires
        slot::fed(window, resampler, needed, k, window_then, resampler_then),
    ensures
        resampler_then.flow().popped == resampler.flow().popped,
    decreases k,
{
    if k > 0 {
        let (before, from) = choose|before: Window<AudioChunk>, from: R|
            slot::fed(window, resampler, needed, (k - 1) as nat, before, from)
                && from.flow().waiting.len() < needed && before.current() is Some && window_then
                == #[trigger] before.advance() && #[trigger] crate::audio::sample::takes_all(
                from,
                before.current()->0.audio_data@,
                resampler_then,
            );
        feeding_pops_nothing(window, resampler, needed, (k - 1) as nat, before, from);
    }
}

/// `sums` are what is heard after each peer, beginning with silence: every peer is added, and
/// none twice.
pub open spec fn sums_up<D, T, R, FD, A>(
    before: Seq<(u32, InputSlot<D, T, R, FD, A>)>,
    after: Seq<(u32, InputSlot<D, T, R, FD, A>)>,
    n: nat,
    needed: nat,
    sums: Seq<Seq<u32>>,
) -> bool where
    D: AudioDecoder,
    T: ChunkTransform,
    T::OutputT: MaybeChunk,
    R: Resampler,
    FD: FnMut(&AudioFormat) -> Option<D>,
    A: Arithmetic, {
    &&& sums.len() == n + 1
    &&& sums[0] == Seq::new(needed, |x: int| float::ZERO)
    &&& forall|k: int|
        #![trigger sums[k]]
        0 <= k < n ==> adds_one(
            before[k],
            after[k],
            needed,
            sums[k],
            sums[k + 1],
        )
}

/// `then` is `so_far` with what one peer has played added, sample by sample.
pub open spec fn adds_one<D, T, R, FD, A>(
    before: (u32, InputSlot<D, T, R, FD, A>),
    after: (u32, InputSlot<D, T, R, FD, A>),
    needed: nat,
    so_far: Seq<u32>,
    then: Seq<u32>,
) -> bool where
    D: AudioDecoder,
    T: ChunkTransform,
    T::OutputT: MaybeChunk,
    R: Resampler,
    FD: FnMut(&AudioFormat) -> Option<D>,
    A: Arithmetic, {
    &&& after.0 == before.0
    &&& so_far.len() == needed
    &&& then.len() == needed
    &&& exists|outs: Seq<u32>| #[trigger]
        played_by(before.1, after.1, needed, outs) && forall|x: int|
            0 <= x < needed ==> call_ensures(A::sum, (so_far[x], outs[x]), #[trigger] then[x])
}

proof fn mixed_sums_up<D, T, R, FD, A>(
    before: Seq<(u32, InputSlot<D, T, R, FD, A>)>,
    after: Seq<(u32, InputSlot<D, T, R, FD, A>)>,
    n: nat,
    needed: nat,
    mix: Seq<u32>,
) where
    D: AudioDecoder,
    T: ChunkTransform,
    T::OutputT: MaybeChunk,
    R: Resampler,
    FD: FnMut(&AudioFormat) -> Option<D>,
    A: Arithmetic,

    requires
        mixer::mixed(before, after, n as int, needed, mix),
    ensures
        mix.len() == needed,
        exists|sums: Seq<Seq<u32>>| #[trigger]
            sums_up(before, after, n, needed, sums) && sums[n as int] == mix,
    decreases n,
{
    if n == 0 {
        let sums = seq![mix];
        assert(mix =~= Seq::new(needed, |x: int| float::ZERO));
        assert(sums_up(before, after, n, needed, sums));
    } else {
        let earlier = choose|earlier: Seq<u32>|
            mixer::mixed(before, after, n - 1, needed, earlier)
                && #[trigger] before[n - 1].1.mixes(earlier, after[n - 1].1, mix);
        mixed_sums_up(before, after, (n - 1) as nat, needed, earlier);
        mixing_plays(before[n - 1].1, earlier, after[n - 1].1, mix);
        let so_far = choose|sums: Seq<Seq<u32>>| #[trigger]
            sums_up(before, after, (n - 1) as nat, needed, sums) && sums[n - 1] == earlier;
        let sums = so_far.push(mix);
        assert(adds_one(before[n - 1], after[n - 1], needed, earlier, mix));
        assert forall|k: int|
            #![trigger sums[k]]
            0 <= k < n implies adds_one(
            before[k],
            after[k],
            needed,
            sums[k],
            sums[k + 1],
        ) by {
            if k < n - 1 {
                assert(so_far[k] == sums[k]);
                assert(so_far[k + 1] == sums[k + 1]);
            }
        }
        assert(sums[0] == so_far[0]);
        assert(sums_up(before, after, n, needed, sums));
    }
}

/// What a call for the next sample hands out. What was pending comes first, in order. Otherwise
/// one block is made of all peers: what each of them plays is added up, the sum goes through the
/// bus, and what comes out of it is clamped and handed out from the front.
pub proof fn all_peers_are_heard<D, T, R, M, FD, A>(
    mixer: &mut Mixer<D, T, R, M, FD, A>,
    sample: Option<u32>,
) where
    D: AudioDecoder,
    T: ChunkTransform,
    T::OutputT: MaybeChunk,
    R: Resampler,
    M: ChunkTransform,
    M::OutputT: MaybeChunk,
    FD: FnMut(&AudioFormat) -> Option<D>,
    A: Arithmetic,

    requires
        old(mixer).wf(),
        call_ensures(
            <Mixer<D, T, R, M, FD, A> as SyncSampleSource>::next_sync,
            (mixer,),
            sample,
        ),
    ensures
        old(mixer).slots@.len() == 0 ==> sample == Some(float::ZERO) && *final(mixer)
            == *old(mixer),
        old(mixer).slots@.len() > 0 && old(mixer).pending@.len() > 0 ==> sample == Some(
            old(mixer).pending@[0],
        ) && old(mixer).pending@ == seq![sample->0] + final(mixer).pending@
            && final(mixer).slots@ == old(mixer).slots@ && final(mixer).fills == old(mixer).fills
            && final(mixer).bus == old(mixer).bus && final(mixer).clip == old(mixer).clip
            && final(mixer).out_sequence == old(mixer).out_sequence,
        final(mixer).out_format == old(mixer).out_format,
        final(mixer).out_frames == old(mixer).out_frames,
        final(mixer).jitter_chunks == old(mixer).jitter_chunks,
        final(mixer).next_id == old(mixer).next_id,
        old(mixer).slots@.len() > 0 && old(mixer).pending@.len() == 0 ==> exists|
            chunk: AudioChunk,
            out: M::OutputT,
            sums: Seq<Seq<u32>>,
        | #[trigger]
            M::transforms(old(mixer).bus, chunk, final(mixer).bus, out) && #[trigger] sums_up(
                old(mixer).slots@,
                final(mixer).slots@,
                old(mixer).slots@.len(),
                (old(mixer).out_frames * old(mixer).out_format.channel_count) as nat,
                sums,
            ) && chunk.audio_data@ == sums.last() && chunk.sequence_number
                == old(mixer).out_sequence && chunk.format == old(mixer).out_format
                && final(mixer).slots@.len() == old(mixer).slots@.len()
                && final(mixer).out_sequence == old(mixer).out_sequence + 1
                && final(mixer).fills == old(mixer).fills + 1 && ({
                let made = match out.spec_into_chunk() {
                    Some(made) => made.audio_data@,
                    None => Seq::empty(),
                };
                &&& final(mixer).clip.clip_hits == old(mixer).clip.clip_hits + transform::hits(made)
                &&& sample == Some(
                    if made.len() > 0 {
                        float::clamp_unit(made[0])
                    } else {
                        float::ZERO
                    },
                )
                &&& final(mixer).pending@.len() == if made.len() > 0 {
                    made.len() - 1
                } else {
                    0
                }
                &&& forall|j: int|
                    0 <= j < final(mixer).pending@.len() ==> #[trigger] final(mixer).pending@[j]
                        == float::clamp_unit(made[j + 1])
            }),
{
    let (pre, post) = (*old(mixer), *final(mixer));
    if pre.slots@.len() > 0 && pre.pending@.len() > 0 {
        assert(pre.pending@ =~= seq![sample->0] + post.pending@);
    }
    if pre.slots@.len() > 0 && pre.pending@.len() == 0 {
        let filled = choose|filled: Mixer<D, T, R, M, FD, A>| #[trigger]
            pre.refills(filled) && mixer::takes_pending(filled, sample, post);
        let (chunk, out) = choose|chunk: AudioChunk, out: M::OutputT| #[trigger]
            M::transforms(pre.bus, chunk, filled.bus, out) && pre.is_next_sum(chunk)
                && mixer::mixed(
                pre.slots@,
                filled.slots@,
                pre.slots@.len() as int,
                pre.needed() as nat,
                chunk.audio_data@,
            ) && match out.spec_into_chunk() {
                Some(summed) => filled.clip.clip_hits == pre.clip.clip_hits + transform::hits(
                    summed.audio_data@,
                ) && filled.pending@ == pre.pending@ + transform::clipped(summed.audio_data@),
                None => filled.clip == pre.clip && filled.pending@ == pre.pending@,
            };
        mixed_sums_up(
            pre.slots@,
            filled.slots@,
            pre.slots@.len(),
            pre.needed() as nat,
            chunk.audio_data@,
        );
        let sums = choose|sums: Seq<Seq<u32>>| #[trigger]
            sums_up(pre.slots@, filled.slots@, pre.slots@.len(), pre.needed() as nat, sums)
                && sums[pre.slots@.len() as int] == chunk.audio_data@;
        assert(M::transforms(pre.bus, chunk, post.bus, out));
        assert(sums_up(pre.slots@, post.slots@, pre.slots@.len(), pre.needed() as nat, sums));
        assert(sums.last() == chunk.audio_data@);
        let made = match out.spec_into_chunk() {
            Some(made) => made.audio_data@,
            None => Seq::empty(),
        };
        assert(filled.pending@ =~= Seq::new(made.len(), |j: int| float::clamp_unit(made[j])));
    }
}

/// The counts of all peers add up: one peer more adds just what that peer has counted.
pub proof fn one_more_peer_adds_its_counts<D, T, R, M, FD, A>(
    fewer: Mixer<D, T, R, M, FD, A>,
    more: Mixer<D, T, R, M, FD, A>,
    last: (u32, InputSlot<D, T, R, FD, A>),
    counted: MixerMetrics,
    counted_more: MixerMetrics,
) where
    D: AudioDecoder,
    T: ChunkTransform,
    T::OutputT: MaybeChunk,
    R: Resampler,
    M: ChunkTransform,
    M::OutputT: MaybeChunk,
    FD: FnMut(&AudioFormat) -> Option<D>,
    A: Arithmetic,

    requires
        more.slots@ == fewer.slots@.push(last),
        call_ensures(Mixer::<D, T, R, M, FD, A>::metrics_snapshot, (&fewer,), counted),
        call_ensures(Mixer::<D, T, R, M, FD, A>::metrics_snapshot, (&more,), counted_more),
    ensures
        counted_more.gap_detected == counted.gap_detected + last.1.jitter.gap_detected,
        counted_more.late_dropped == counted.late_dropped + last.1.jitter.late_dropped,
        counted_more.underrun == counted.underrun + last.1.conceal.underrun,
        counted_more.plc_hold == counted.plc_hold + last.1.conceal.plc_hold,
        counted_more.clip_hits == more.clip.clip_hits,
        counted_more.fills == more.fills,
        fewer.slots@.len() == 0 ==> counted.gap_detected == 0 && counted.late_dropped == 0
            && counted.underrun == 0 && counted.plc_hold == 0,
{
    let n = fewer.slots@.len() as int;
    let gaps = |s: InputSlot<D, T, R, FD, A>| s.jitter.gap_detected as int;
    let late = |s: InputSlot<D, T, R, FD, A>| s.jitter.late_dropped as int;
    let underruns = |s: InputSlot<D, T, R, FD, A>| s.conceal.underrun as int;
    let held = |s: InputSlot<D, T, R, FD, A>| s.conceal.plc_hold as int;
    total_of_the_first(fewer.slots@, more.slots@, n, gaps);
    total_of_the_first(fewer.slots@, more.slots@, n, late);
    total_of_the_first(fewer.slots@, more.slots@, n, underruns);
    total_of_the_first(fewer.slots@, more.slots@, n, held);
}

proof fn total_of_the_first<S>(
    a: Seq<(u32, S)>,
    b: Seq<(u32, S)>,
    n: int,
    count: spec_fn(S) -> int,
)
    requires
        0 <= n <= a.len(),
        a.len() <= b.len(),
        forall|i: int| 0 <= i < a.len() ==> #[trigger] a[i] == b[i],
    ensures
        mixer::total(a, n, count) == mixer::total(b, n, count),
    decreases n,
{
    if n > 0 {
        total_of_the_first(a, b, n - 1, count);
        assert(a[n - 1] == b[n - 1]);
    }
}

/// The sum of a count over all peers.
pub open spec fn over_all<S>(slots: Seq<(u32, S)>, count: spec_fn(S) -> int) -> int {
    slots.fold_left(0, |sum: int, slot: (u32, S)| sum + count(slot.1))
}

proof fn total_is_over_all<S>(slots: Seq<(u32, S)>, n: int, count: spec_fn(S) -> int)
    requires
        0 <= n <= slots.len(),
    ensures
        mixer::total(slots, n, count) == over_all(slots.take(n), count),
    decreases n,
{
    reveal(Seq::fold_left);
    if n > 0 {
        total_is_over_all(slots, n - 1, count);
        assert(slots.take(n).drop_last() =~= slots.take(n - 1));
    }
}

/// What is counted is what all peers have counted together, and the mixer's own counts.
pub open spec fn tallied<D, T, R, M, FD, A>(
    mixer: Mixer<D, T, R, M, FD, A>,
    metrics: MixerMetrics,
) -> bool where
    D: AudioDecoder,
    T: ChunkTransform,
    T::OutputT: MaybeChunk,
    R: Resampler,
    M: ChunkTransform,
    M::OutputT: MaybeChunk,
    FD: FnMut(&AudioFormat) -> Option<D>,
    A: Arithmetic,
 {
    let slots = mixer.slots@;
    &&& metrics.gap_detected == over_all(
        slots,
        |s: InputSlot<D, T, R, FD, A>| s.jitter.gap_detected as int,
    )
    &&& metrics.late_dropped == over_all(
        slots,
        |s: InputSlot<D, T, R, FD, A>| s.jitter.late_dropped as int,
    )
    &&& metrics.underrun == over_all(
        slots,
        |s: InputSlot<D, T, R, FD, A>| s.conceal.underrun as int,
    )
    &&& metrics.plc_hold == over_all(
        slots,
        |s: InputSlot<D, T, R, FD, A>| s.conceal.plc_hold as int,
    )
    &&& metrics.clip_hits == mixer.clip.clip_hits
    &&& metrics.fills == mixer.fills
}

/// What a mixer counts is what its peers have counted.
pub(crate) proof fn counting_tallies<D, T, R, M, FD, A>(
    mixer: Mixer<D, T, R, M, FD, A>,
    metrics: MixerMetrics,
) where
    D: AudioDecoder,
    T: ChunkTransform,
    T::OutputT: MaybeChunk,
    R: Resampler,
    M: ChunkTransform,
    M::OutputT: MaybeChunk,
    FD: FnMut(&AudioFormat) -> Option<D>,
    A: Arithmetic,

    requires
        mixer.counted(metrics),
    ensures
        tallied(mixer, metrics),
{
    let slots = mixer.slots@;
    let n = slots.len() as int;
    assert(slots.take(n) =~= slots);
    total_is_over_all(slots, n, |s: InputSlot<D, T, R, FD, A>| s.jitter.gap_detected as int);
    total_is_over_all(slots, n, |s: InputSlot<D, T, R, FD, A>| s.jitter.late_dropped as int);
    total_is_over_all(slots, n, |s: InputSlot<D, T, R, FD, A>| s.conceal.underrun as int);
    total_is_over_all(slots, n, |s: InputSlot<D, T, R, FD, A>| s.conceal.plc_hold as int);
}

/// Counts are over all peers.
pub proof fn counts_are_over_all_peers<D, T, R, M, FD, A>(
    mixer: Mixer<D, T, R, M, FD, A>,
    metrics: MixerMetrics,
) where
    D: AudioDecoder,
    T: ChunkTransform,
    T::OutputT: MaybeChunk,
    R: Resampler,
    M: ChunkTransform,
    M::OutputT: MaybeChunk,
    FD: FnMut(&AudioFormat) -> Option<D>,
    A: Arithmetic,

    requires
        call_ensures(Mixer::<D, T, R, M, FD, A>::metrics_snapshot, (&mixer,), metrics),
    ensures
        tallied(mixer, metrics),
{
    counting_tallies(mixer, metrics);
}

/// A new mixer has no peers and nothing pending, and mixes as it was asked to: at least one frame
/// at a time, with room for at least one chunk.
pub proof fn mixer_starts_afresh<D, T, R, M, FD, A>(
    out_format: AudioFormat,
    jitter_chunks: usize,
    out_frames: usize,
    bus: M,
    mixer: Mixer<D, T, R, M, FD, A>,
) where
    D: AudioDecoder,
    T: ChunkTransform,
    T::OutputT: MaybeChunk,
    R: Resampler,
    M: ChunkTransform,
    M::OutputT: MaybeChunk,
    FD: FnMut(&AudioFormat) -> Option<D>,
    A: Arithmetic,

    requires
        call_ensures(
            Mixer::<D, T, R, M, FD, A>::new,
            (out_format, jitter_chunks, out_frames, bus),
            mixer,
        ),
    ensures
        mixer.slots@.len() == 0 && mixer.pending@.len() == 0,
        mixer.bus == bus,
        mixer.out_format == out_format,
        mixer.out_frames >= out_frames && mixer.out_frames > 0 && (mixer.out_frames == out_frames
            || mixer.out_frames == 1),
        mixer.jitter_chunks >= jitter_chunks && mixer.jitter_chunks > 0 && (mixer.jitter_chunks
            == jitter_chunks || mixer.jitter_chunks == 1),
        mixer.clip.clip_hits == 0 && mixer.fills == 0,
        mixer.out_sequence == 0 && mixer.next_id == 0,
{
}

/// What is done to a peer's input is done to that peer alone; there is none exactly where no peer
/// has the number.
pub proof fn input_is_lent_of_the_peer_asked_for<D, T, R, M, FD, A>(
    mixer: &mut Mixer<D, T, R, M, FD, A>,
    id: u32,
    slot: Option<&mut InputSlot<D, T, R, FD, A>>,
) where
    D: AudioDecoder,
    T: ChunkTransform,
    T::OutputT: MaybeChunk,
    R: Resampler,
    M: ChunkTransform,
    M::OutputT: MaybeChunk,
    FD: FnMut(&AudioFormat) -> Option<D>,
    A: Arithmetic,

    requires
        call_ensures(Mixer::<D, T, R, M, FD, A>::input_mut, (mixer, id), slot),
    ensures
        same_but_peers(*old(mixer), *final(mixer)),
        final(mixer).slots@.len() == old(mixer).slots@.len(),
        slot is None ==> final(mixer).slots@ == old(mixer).slots@ && forall|k: int|
            0 <= k < old(mixer).slots@.len() ==> (#[trigger] old(mixer).slots@[k]).0 != id,
        slot matches Some(slot) ==> exists|i: int|
            0 <= i < old(mixer).slots@.len() && #[trigger] old(mixer).slots@[i] == (id, *slot)
                && final(mixer).slots@[i] == (id, *final(slot)) && forall|k: int|
                0 <= k < old(mixer).slots@.len() && k != i ==> #[trigger] final(mixer).slots@[k]
                    == old(mixer).slots@[k],
{
    if slot is Some {
        let i = choose|i: int|
            0 <= i < old(mixer).slots@.len() && (#[trigger] old(mixer).slots@[i]).0 == id
                && *(slot->0) == old(mixer).slots@[i].1 && final(mixer).slots@
                == old(mixer).slots@.update(i, (id, *final(slot->0)));
        assert(old(mixer).slots@[i] == (id, *(slot->0)));
    }
}

/// A frame is decoded by the codec for its own format, and that codec stays; without one there is
/// no chunk, and nothing changes.
pub proof fn frame_goes_through_its_codec<D: AudioDecoder, FD: FnMut(&AudioFormat) -> Option<D>>(
    rebuild: FD,
    made: ChunkDecoder<D, FD>,
    decoder: &mut ChunkDecoder<D, FD>,
    frame: EncodedChunk,
    chunk: Option<AudioChunk>,
)
    requires
        call_ensures(ChunkDecoder::<D, FD>::new, (rebuild,), made),
        call_ensures(ChunkDecoder::<D, FD>::decode_frame, (decoder, &frame), chunk),
    ensures
        made.decoder_cache.codec is None && made.decoder_cache.format is None
            && made.decoder_cache.rebuild == rebuild,
        final(decoder).decoder_cache.rebuild == old(decoder).decoder_cache.rebuild,
        ({
            ||| chunk is None && *final(decoder) == *old(decoder) && coding::codec_for(
                old(decoder).decoder_cache,
                frame.format,
                None,
            )
            ||| final(decoder).decoder_cache.format == Some(frame.format)
                && final(decoder).decoder_cache.codec is Some && exists|codec: D|
                coding::codec_for(old(decoder).decoder_cache, frame.format, Some(codec))
                    && #[trigger] D::decodes(
                    codec,
                    frame,
                    final(decoder).decoder_cache.codec->0,
                    chunk,
                )
        }),
{
}

/// What was decoded is carried over to the mix's channels, goes through the peer's processing and,
/// where that keeps it, settles in its place. The decoder, the resampler and what hides missing
/// samples are left alone.
pub proof fn decoded_chunk_settles<D, T, R, FD, A>(
    input: &mut InputSlot<D, T, R, FD, A>,
    decoded: AudioChunk,
) where
    D: AudioDecoder,
    T: ChunkTransform,
    T::OutputT: MaybeChunk,
    R: Resampler,
    FD: FnMut(&AudioFormat) -> Option<D>,
    A: Arithmetic,

    requires
        old(input).wf(),
        call_ensures(InputSlot::<D, T, R, FD, A>::process, (input, decoded), ()),
    ensures
        final(input).decoder == old(input).decoder,
        final(input).resampler == old(input).resampler,
        final(input).conceal == old(input).conceal,
        exists|converted: AudioChunk, out: T::OutputT| #[trigger]
            ChannelMap::<A>::transforms(
                old(input).channel_map,
                decoded,
                final(input).channel_map,
                converted,
            ) && #[trigger] T::transforms(
                old(input).transform,
                converted,
                final(input).transform,
                out,
            ) && match out.spec_into_chunk() {
                Some(kept) => settled(old(input).jitter, kept, final(input).jitter),
                None => final(input).jitter == old(input).jitter,
            },
{
    let (converted, out) = choose|converted: AudioChunk, out: T::OutputT| #[trigger]
        ChannelMap::<A>::transforms(
            old(input).channel_map,
            decoded,
            final(input).channel_map,
            converted,
        ) && #[trigger] T::transforms(old(input).transform, converted, final(input).transform, out)
            && match out.spec_into_chunk() {
            Some(processed) => old(input).jitter.receives(processed, final(input).jitter),
            None => final(input).jitter == old(input).jitter,
        };
    if out.spec_into_chunk() is Some {
        chunk_settles(old(input).jitter, out.spec_into_chunk()->0, final(input).jitter);
    }
    assert(ChannelMap::<A>::transforms(
        old(input).channel_map,
        decoded,
        final(input).channel_map,
        converted,
    ));
    assert(T::transforms(old(input).transform, converted, final(input).transform, out));
}

/// One peer adds what it plays to the mix, sample by sample.
pub proof fn peer_adds_what_it_plays<D, T, R, FD, A>(
    input: &mut InputSlot<D, T, R, FD, A>,
    mixed: &mut Vec<u32>,
) where
    D: AudioDecoder,
    T: ChunkTransform,
    T::OutputT: MaybeChunk,
    R: Resampler,
    FD: FnMut(&AudioFormat) -> Option<D>,
    A: Arithmetic,

    requires
        call_ensures(InputSlot::<D, T, R, FD, A>::mix_into, (input, mixed), ()),
    ensures
        final(mixed)@.len() == old(mixed)@.len(),
        exists|outs: Seq<u32>| #[trigger]
            played_by(*old(input), *final(input), old(mixed)@.len(), outs) && forall|x: int|
                0 <= x < old(mixed)@.len() ==> call_ensures(
                    A::sum,
                    (old(mixed)@[x], outs[x]),
                    #[trigger] final(mixed)@[x],
                ),
{
    mixing_plays(*old(input), old(mixed)@, *final(input), final(mixed)@);
}

/// A peer is counted from when it joins until it leaves.
pub proof fn peers_are_counted<D, T, R, M, FD, A>(
    mixer: Mixer<D, T, R, M, FD, A>,
    n: usize,
) where
    D: AudioDecoder,
    T: ChunkTransform,
    T::OutputT: MaybeChunk,
    R: Resampler,
    M: ChunkTransform,
    M::OutputT: MaybeChunk,
    FD: FnMut(&AudioFormat) -> Option<D>,
    A: Arithmetic,

    requires
        call_ensures(Mixer::<D, T, R, M, FD, A>::peer_count, (&mixer,), n),
    ensures
        n == mixer.slots@.len(),
{
}

} // verus!
