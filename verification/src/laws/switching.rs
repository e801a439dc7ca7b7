//! Inputs: what a device brings, and what happens when another one takes over.
use crate::audio::chunk::{AudioChunk, SourcePoll};
use crate::audio::config::AudioPipelineConfig;
use crate::audio::input::{build_silence, input_ring, poll_sample, publish_samples, settle};
use crate::audio::ring;
use crate::audio::stats::InputStats;
use crate::audio::switch::{
    ChunkSource, Polled, SilenceChunkSource, SwapRequest, SwitchingChunkSource,
};
use crate::audio::AudioFormat;
use rtrb::{Consumer, Producer};
use std::collections::VecDeque;
use vstd::prelude::*;

verus! {

/// A chunk as it came, but for its number.
pub open spec fn same_sound(a: AudioChunk, b: AudioChunk) -> bool {
    a.format == b.format && a.audio_data@ == b.audio_data@
}

/// What a source that can be exchanged does when it is asked: `asked` is the source that it asks,
/// the last that was to take over or else the one at hand. A chunk is passed on under the next
/// number; a source that has ended is let go, and one that has not is kept.
pub open spec fn passes_on<T: ChunkSource>(
    number: int,
    asked: Option<T>,
    polled: Polled,
    after: SwitchingChunkSource<T>,
) -> bool {
    &&& !(polled is Ended)
    &&& asked is None ==> polled is Pending && after.source is None && after.next_seq == number
    &&& asked is Some ==> exists|given: Polled, left: T| #[trigger]
        T::gives(asked->0, given, left) && (polled is Chunk <==> given is Chunk) && (after.source
            == if given is Ended {
            None
        } else {
            Some(left)
        }) && (given matches Polled::Chunk(chunk) ==> polled->Chunk_0.sequence_number == number
            && same_sound(chunk, polled->Chunk_0) && after.next_seq == number + 1) && (!(
        given is Chunk) ==> after.next_seq == number)
}

/// All that wait to take over do so, in order, and each is answered for: the last one is asked.
pub proof fn last_to_take_over_is_asked<T: ChunkSource, H>(
    source: &mut SwitchingChunkSource<T>,
    swaps: &mut VecDeque<SwapRequest<T, H>>,
    result: (Polled, Vec<H>),
)
    requires
        call_ensures(SwitchingChunkSource::<T>::poll_next::<H>, (source, swaps), result),
    ensures
        final(swaps)@.len() == 0,
        result.1@.len() == old(swaps)@.len(),
        forall|i: int|
            0 <= i < old(swaps)@.len() ==> #[trigger] result.1@[i] == old(swaps)@[i].on_adopt,
        passes_on(
            old(source).next_seq as int,
            if old(swaps)@.len() > 0 {
                Some(old(swaps)@[old(swaps)@.len() - 1].payload)
            } else {
                old(source).source
            },
            result.0,
            *final(source),
        ),
{
}

/// A source that takes over replaces the one at hand and goes on with its numbers; the first one
/// starts at 0.
pub proof fn numbers_outlive_their_source<T, H>(
    first: T,
    made: SwitchingChunkSource<T>,
    source: &mut SwitchingChunkSource<T>,
    request: SwapRequest<T, H>,
    hook: H,
    numbering: &mut SwitchingChunkSource<T>,
    chunk: AudioChunk,
    numbered: AudioChunk,
)
    requires
        call_ensures(SwitchingChunkSource::<T>::new, (first,), made),
        call_ensures(SwitchingChunkSource::<T>::adopt::<H>, (source, request), hook),
        call_ensures(SwitchingChunkSource::<T>::number, (numbering, chunk), numbered),
    ensures
        made.source == Some(first) && made.next_seq == 0,
        final(source).source == Some(request.payload),
        final(source).next_seq == old(source).next_seq,
        hook == request.on_adopt,
        numbered.sequence_number == old(numbering).next_seq,
        final(numbering).next_seq == numbered.sequence_number + 1,
        final(numbering).source == old(numbering).source,
        same_sound(chunk, numbered),
{
}

/// Silence is chunks of zeros of the length asked for, one number after the other.
pub proof fn silence_is_zeros(
    format: AudioFormat,
    frames: usize,
    made: SilenceChunkSource,
    source: &mut SilenceChunkSource,
    chunk: AudioChunk,
    asked: &mut SilenceChunkSource,
    polled: Polled,
)
    requires
        call_ensures(SilenceChunkSource::new, (format, frames), made),
        call_ensures(SilenceChunkSource::next_chunk, (source,), chunk),
        call_ensures(<SilenceChunkSource as ChunkSource>::poll_chunk, (asked,), polled),
    ensures
        made.format == format && made.frames == frames && made.next_seq == 0,
        silent_chunk(*old(source), chunk, *final(source)),
        polled is Chunk,
        silent_chunk(*old(asked), polled->Chunk_0, *final(asked)),
{
    let (a, b) = (old(source).frames as int, old(source).format.channel_count as int);
    let (c, d) = (old(asked).frames as int, old(asked).format.channel_count as int);
    assert(0 <= a * b && 0 <= c * d) by (nonlinear_arith)
        requires
            0 <= a && 0 <= b && 0 <= c && 0 <= d,
    ;
}

/// `chunk` is a chunk of silence in a source's format, under its next number.
pub open spec fn silent_chunk(
    before: SilenceChunkSource,
    chunk: AudioChunk,
    after: SilenceChunkSource,
) -> bool {
    &&& chunk.audio_data@.len() == before.frames * before.format.channel_count
    &&& forall|i: int| 0 <= i < chunk.audio_data@.len() ==> #[trigger] chunk.audio_data@[i] == 0
    &&& chunk.format == before.format && after.format == before.format
    &&& after.frames == before.frames
    &&& chunk.sequence_number == before.next_seq
    &&& after.next_seq == before.next_seq + 1
}

/// An input's ring holds eight of its blocks; one without channels or frames is refused.
pub proof fn input_has_room_for_eight_blocks(
    channels: u16,
    frames: usize,
    ring: Result<(Producer<u32>, Consumer<u32>), &'static str>,
)
    requires
        call_ensures(input_ring, (channels, frames), ring),
    ensures
        ring is Ok <==> channels > 0 && frames > 0,
        ring matches Err(message) ==> message@ == "Invalid input config with zero block size"@,
        ring matches Ok(ends) ==> {
            &&& ring::ring_capacity(ends.0) == 8 * (channels * frames)
            &&& ring::ring_room(ends.0) == 8 * (channels * frames)
            &&& ring::ring_written(ends.0).len() == 0
            &&& ring::ring_consumed(ends.1).len() == 0
            &&& ring::ring_waiting(ends.1) == 0
        },
{
}

/// What a device brings goes to the ring from its start on, as far as there is room; the rest is
/// lost, and counted.
pub proof fn overrun_loses_only_the_rest(
    producer: &mut Producer<u32>,
    stats: InputStats,
    samples: Vec<u32>,
    written: usize,
)
    requires
        call_ensures(publish_samples, (producer, &stats, samples), written),
    ensures
        written <= samples@.len(),
        ring::ring_written(*final(producer)) == ring::ring_written(*old(producer))
            + samples@.subrange(0, written as int),
        samples@.len() <= ring::ring_room(*old(producer)) ==> written == samples@.len(),
        written < samples@.len() ==> written >= ring::ring_room(*old(producer)) && ring::ring_room(
            *final(producer),
        ) == 0 && stats.overruns_counted((samples@.len() - written) as usize),
{
}

/// A sample that was there is handed on, whether or not the device is gone. Without one, the input
/// has ended exactly where the device is gone.
pub proof fn samples_come_before_the_end(popped: Option<u32>, abandoned: bool, polled: SourcePoll)
    requires
        call_ensures(settle, (popped, abandoned), polled),
    ensures
        popped matches Some(sample) ==> polled == SourcePoll::Sample(sample),
        polled is Ended <==> popped is None && abandoned,
        polled is Pending <==> popped is None && !abandoned,
{
}

/// What is asked of an input comes from the ring; it ends only once nothing waits and the device
/// was seen to be gone.
pub proof fn input_ends_when_nothing_waits(consumer: &mut Consumer<u32>, polled: SourcePoll)
    requires
        call_ensures(poll_sample, (consumer,), polled),
    ensures
        polled matches SourcePoll::Sample(sample) ==> ring::ring_consumed(*final(consumer))
            == ring::ring_consumed(*old(consumer)).push(sample),
        !(polled is Sample) ==> ring::ring_consumed(*final(consumer)) == ring::ring_consumed(
            *old(consumer),
        ) && ring::ring_waiting(*old(consumer)) == 0 && ring::ring_waiting(*final(consumer)) == 0
            && ring::seen_abandoned(*final(consumer), polled is Ended),
{
}

/// What stands in for an input is silence in the pipeline's format, in its chunks.
pub proof fn missing_input_is_silent(
    config: AudioPipelineConfig,
    input: (SilenceChunkSource, String),
)
    requires
        call_ensures(build_silence, (config,), input),
    ensures
        input.0.format.channel_count == config.spec_channels(),
        input.0.format.sample_rate == config.spec_sample_rate(),
        input.0.frames == config.spec_frames(),
        input.0.next_seq == 0,
        input.1@ == "No input device"@,
{
}

} // verus!
