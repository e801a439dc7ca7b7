//! Capturing: a stream of samples is cut into chunks without losing, adding or moving one.
use crate::audio::capture::{self, next_chunk, Capture, CaptureOutput};
use crate::audio::chunk::{AudioChunk, ChunkPoll, SampleChunker, SourcePoll};
use crate::audio::codec::{AudioEncoder, EncodedChunk};
use crate::audio::flatten::ChunkFlattener;
use crate::audio::sample::{self, SyncSampleSource};
use crate::audio::transform::{ChunkTransform, MaybeChunk};
use crate::audio::AudioFormat;
use crate::laws::coding;
use vstd::prelude::*;

verus! {

/// What a chunk holds, or nothing where there is none.
pub open spec fn data_of(chunk: Option<AudioChunk>) -> Seq<u32> {
    match chunk {
        Some(chunk) => chunk.audio_data@,
        None => Seq::empty(),
    }
}

/// The chunk of an answer, if it is one.
pub open spec fn chunk_of(answer: ChunkPoll) -> Option<AudioChunk> {
    match answer {
        ChunkPoll::Ready(chunk) => Some(chunk),
        _ => None,
    }
}

/// What one more sample does to a chunker: the chunk that it hands out, and what it still
/// collects, are what it had collected and the sample. A chunk comes exactly when it is full.
pub open spec fn goes_on(
    before: SampleChunker,
    sample: u32,
    after: SampleChunker,
    answer: ChunkPoll,
) -> bool {
    let len = before.spec_chunk_len();
    &&& after.format() == before.format()
    &&& after.spec_chunk_len() == len
    &&& after.completed() == before.completed() + (if answer is Ready {
        1int
    } else {
        0
    })
    &&& answer is Ready <==> len > 0 && before.collected().len() + 1 >= len
    &&& answer is Ended <==> len == 0
    &&& !(answer is Pending)
    &&& len > 0 ==> data_of(chunk_of(answer)) + after.collected() == before.collected().push(
        sample,
    )
    &&& answer matches ChunkPoll::Ready(chunk) ==> {
        &&& chunk.audio_data@.len() == before.collected().len() + 1
        &&& chunk.sequence_number == before.completed()
        &&& chunk.format == before.format()
    }
}

/// A new chunker has collected nothing, counts from 0, and cuts chunks of that many frames over
/// all channels.
pub proof fn chunker_starts_empty(format: AudioFormat, frames: usize, chunker: SampleChunker)
    requires
        call_ensures(SampleChunker::new, (format, frames), chunker),
    ensures
        chunker.wf(),
        chunker.format() == format,
        chunker.spec_chunk_len() == frames * format.channel_count,
        chunker.collected().len() == 0,
        chunker.completed() == 0,
{
}

/// A sample goes on to a chunk.
pub proof fn sample_goes_to_a_chunk(chunker: &mut SampleChunker, sample: u32, answer: ChunkPoll)
    requires
        old(chunker).wf(),
        call_ensures(SampleChunker::poll_next, (chunker, SourcePoll::Sample(sample)), answer),
    ensures
        goes_on(*old(chunker), sample, *final(chunker), answer),
{
    old(chunker).collected_is_short();
    if old(chunker).spec_chunk_len() > 0 {
        assert(data_of(chunk_of(answer)) + final(chunker).collected() =~= old(chunker).collected().push(sample));
    }
}

/// Where no sample comes, a chunker keeps what it has: it waits with its source, and ends with it.
pub proof fn chunker_waits_and_ends_with_its_source(
    chunker: &mut SampleChunker,
    polled: SourcePoll,
    answer: ChunkPoll,
)
    requires
        !(polled is Sample),
        call_ensures(SampleChunker::poll_next, (chunker, polled), answer),
    ensures
        final(chunker).collected() == old(chunker).collected(),
        final(chunker).completed() == old(chunker).completed(),
        polled is Ended ==> answer is Ended,
        polled is Pending && old(chunker).spec_chunk_len() > 0 ==> answer is Pending,
{
}

/// What a run of answers hands out, one chunk behind the other.
pub open spec fn handed_out(answers: Seq<ChunkPoll>) -> Seq<u32>
    decreases answers.len(),
{
    if answers.len() == 0 {
        Seq::empty()
    } else {
        handed_out(answers.drop_last()) + data_of(chunk_of(answers.last()))
    }
}

/// `chunkers` is how a chunker goes on over `samples`.
pub open spec fn runs(
    chunkers: Seq<SampleChunker>,
    samples: Seq<u32>,
    answers: Seq<ChunkPoll>,
) -> bool {
    &&& chunkers.len() == samples.len() + 1
    &&& answers.len() == samples.len()
    &&& forall|i: int|
        0 <= i < samples.len() ==> goes_on(
            #[trigger] chunkers[i],
            samples[i],
            chunkers[i + 1],
            answers[i],
        )
}

/// The chunks that come of a stream, one behind the other, and what is still collected, are the
/// stream.
pub proof fn no_sample_is_lost(
    chunkers: Seq<SampleChunker>,
    samples: Seq<u32>,
    answers: Seq<ChunkPoll>,
)
    requires
        runs(chunkers, samples, answers),
        chunkers[0].spec_chunk_len() > 0,
    ensures
        handed_out(answers) + chunkers.last().collected() == chunkers[0].collected() + samples,
        chunkers.last().spec_chunk_len() == chunkers[0].spec_chunk_len(),
    decreases samples.len(),
{
    if samples.len() > 0 {
        let n = samples.len() - 1;
        assert forall|i: int| 0 <= i < n implies goes_on(
            #[trigger] chunkers.drop_last()[i],
            samples.drop_last()[i],
            chunkers.drop_last()[i + 1],
            answers.drop_last()[i],
        ) by {
            assert(goes_on(chunkers[i], samples[i], chunkers[i + 1], answers[i]));
        }
        no_sample_is_lost(chunkers.drop_last(), samples.drop_last(), answers.drop_last());
        assert(goes_on(chunkers[n], samples[n], chunkers[n + 1], answers[n]));
        let before = handed_out(answers.drop_last());
        let given = data_of(chunk_of(answers.last()));
        assert(before + given + chunkers.last().collected() =~= before + (given
            + chunkers.last().collected()));
        assert(before + chunkers[n].collected().push(samples[n]) =~= (before
            + chunkers[n].collected()).push(samples[n]));
        assert((chunkers[0].collected() + samples.drop_last()).push(samples[n])
            =~= chunkers[0].collected() + samples);
    } else {
        assert(handed_out(answers) + chunkers.last().collected() =~= chunkers[0].collected()
            + samples);
    }
}

/// Calls of a source brought `heard`, and then, if there was one more call, nothing.
pub open spec fn brought(taken: Seq<Option<u32>>, heard: Seq<u32>) -> bool {
    &&& heard.len() <= taken.len() <= heard.len() + 1
    &&& forall|i: int| 0 <= i < heard.len() ==> #[trigger] taken[i] == Some(heard[i])
    &&& taken.len() > heard.len() ==> taken[heard.len() as int] is None
}

/// The next chunk of a source: what the chunker had collected and what the source brings are the
/// chunk and what is collected now. Without a chunk, the source has brought nothing at last.
pub proof fn next_chunk_is_what_comes_next<S: SyncSampleSource>(
    chunker: &mut SampleChunker,
    source: &mut S,
    chunk: Option<AudioChunk>,
)
    requires
        call_ensures(next_chunk::<S>, (chunker, source), chunk),
    ensures
        exists|taken: Seq<Option<u32>>, heard: Seq<u32>| #[trigger]
            sample::drawn(*old(source), taken, *final(source)) && #[trigger] brought(taken, heard)
                && data_of(chunk) + final(chunker).collected() == old(chunker).collected() + heard
                && (chunk is Some || old(chunker).spec_chunk_len() == 0 ==> taken.len()
                == heard.len()) && (chunk is None && old(chunker).spec_chunk_len() > 0
                ==> taken.len() == heard.len() + 1),
        chunk matches Some(chunk) ==> {
            &&& chunk.audio_data@.len() == old(chunker).spec_chunk_len() > 0
            &&& chunk.sequence_number == old(chunker).completed()
            &&& chunk.format == old(chunker).format()
        },
        final(chunker).completed() == old(chunker).completed() + (if chunk is Some {
            1int
        } else {
            0
        }),
        final(chunker).format() == old(chunker).format(),
        final(chunker).spec_chunk_len() == old(chunker).spec_chunk_len(),
        old(chunker).spec_chunk_len() == 0 ==> chunk is None,
{
    lemma_cut(*old(chunker), *old(source), *final(chunker), *final(source), chunk);
}

/// What a chunker cuts from a source, by its samples.
pub open spec fn cut_from<S: SyncSampleSource>(
    before: SampleChunker,
    source: S,
    after: SampleChunker,
    left: S,
    chunk: Option<AudioChunk>,
) -> bool {
    exists|taken: Seq<Option<u32>>, heard: Seq<u32>| #[trigger]
        sample::drawn(source, taken, left) && #[trigger] brought(taken, heard) && data_of(chunk)
            + after.collected() == before.collected() + heard && (chunk is Some
            || before.spec_chunk_len() == 0 ==> taken.len() == heard.len()) && (chunk is None
            && before.spec_chunk_len() > 0 ==> taken.len() == heard.len() + 1)
}

proof fn lemma_cut<S: SyncSampleSource>(
    before: SampleChunker,
    source: S,
    after: SampleChunker,
    left: S,
    chunk: Option<AudioChunk>,
)
    requires
        capture::cuts(before, source, after, left, chunk),
    ensures
        cut_from(before, source, after, left, chunk),
{
    let taken = choose|taken: Seq<Option<u32>>| #[trigger]
        sample::drawn(source, taken, left) && match chunk {
            Some(chunk) => {
                &&& forall|i: int| 0 <= i < taken.len() ==> #[trigger] taken[i] is Some
                &&& chunk.audio_data@ == before.collected() + capture::heard(taken)
                &&& chunk.audio_data@.len() == before.spec_chunk_len() > 0
                &&& chunk.sequence_number == before.completed()
                &&& chunk.format == before.format()
                &&& after.collected() == Seq::<u32>::empty()
                &&& after.completed() == before.completed() + 1
            },
            None => {
                &&& after.completed() == before.completed()
                &&& if before.spec_chunk_len() == 0 {
                    taken.len() == 0 && after.collected() == before.collected()
                } else {
                    &&& taken.len() > 0 && taken.last() is None
                    &&& forall|i: int| 0 <= i < taken.len() - 1 ==> #[trigger] taken[i] is Some
                    &&& after.collected() == before.collected() + capture::heard(
                        taken.drop_last(),
                    )
                    &&& after.collected().len() < before.spec_chunk_len()
                }
            },
        };
    let n = if chunk is Some || before.spec_chunk_len() == 0 {
        taken.len()
    } else {
        (taken.len() - 1) as nat
    };
    let heard = Seq::new(n, |i: int| taken[i]->0);
    assert(brought(taken, heard));
    if chunk is Some {
        assert(heard =~= capture::heard(taken));
    } else if before.spec_chunk_len() > 0 {
        assert(heard =~= capture::heard(taken.drop_last()));
    }
    assert(data_of(chunk) + after.collected() =~= before.collected() + heard);
}

/// What is cut goes through the stages, and what they let pass is encoded. The end of the source,
/// and a stream without channels, are the only end.
pub open spec fn goes_through<T, E, F>(
    before: Capture<T, E, F>,
    chunk: Option<AudioChunk>,
    after: Capture<T, E, F>,
    output: CaptureOutput,
) -> bool where
    T: ChunkTransform,
    T::OutputT: MaybeChunk,
    E: AudioEncoder,
    F: FnMut(&AudioFormat) -> Option<E>,
 {
    &&& output is EndOfStream <==> chunk is None || chunk->0.format.channel_count == 0
    &&& output is EndOfStream ==> after.transform == before.transform && after.encoder
        == before.encoder
    &&& !(output is EndOfStream) ==> exists|out: T::OutputT| #[trigger]
        T::transforms(before.transform, chunk->0, after.transform, out) && match
        out.spec_into_chunk() {
            Some(passed) => coding::is_encoded(
                before.encoder,
                passed,
                after.encoder,
                frame_of(output),
            ),
            None => output is Skipped && after.encoder == before.encoder,
        }
}

/// The frame of an output, if it holds one.
pub open spec fn frame_of(output: CaptureOutput) -> Option<EncodedChunk> {
    match output {
        CaptureOutput::Encoded(frame) => Some(frame),
        _ => None,
    }
}

proof fn lemma_processed<T, E, F>(
    before: Capture<T, E, F>,
    chunk: Option<AudioChunk>,
    after: Capture<T, E, F>,
    output: CaptureOutput,
) where
    T: ChunkTransform,
    T::OutputT: MaybeChunk,
    E: AudioEncoder,
    F: FnMut(&AudioFormat) -> Option<E>,

    requires
        before.processes(chunk, after, output),
    ensures
        goes_through(before, chunk, after, output),
{
    if chunk is Some && chunk->0.format.channel_count > 0 {
        let chunk = chunk->0;
        let out = choose|out: T::OutputT| #[trigger]
            T::transforms(before.transform, chunk, after.transform, out) && match
            out.spec_into_chunk() {
                Some(processed) => exists|frame: Option<EncodedChunk>| #[trigger]
                    before.encoder.encodes(processed, after.encoder, frame) && output == (
                    match frame {
                        Some(frame) => CaptureOutput::Encoded(frame),
                        None => CaptureOutput::Skipped,
                    }),
                None => after.encoder == before.encoder && output == CaptureOutput::Skipped,
            };
        if out.spec_into_chunk() is Some {
            let passed = out.spec_into_chunk()->0;
            let frame = choose|frame: Option<EncodedChunk>| #[trigger]
                before.encoder.encodes(passed, after.encoder, frame) && output == (match frame {
                    Some(frame) => CaptureOutput::Encoded(frame),
                    None => CaptureOutput::Skipped,
                });
            assert(frame == frame_of(output));
            coding::encoding_is_coding(before.encoder, passed, after.encoder, frame);
        }
    }
}

/// What was cut goes through.
pub proof fn cut_chunk_goes_through<T, E, F>(
    capture: &mut Capture<T, E, F>,
    chunk: Option<AudioChunk>,
    output: CaptureOutput,
) where
    T: ChunkTransform,
    T::OutputT: MaybeChunk,
    E: AudioEncoder,
    F: FnMut(&AudioFormat) -> Option<E>,

    requires
        call_ensures(Capture::<T, E, F>::process, (capture, chunk), output),
    ensures
        goes_through(*old(capture), chunk, *final(capture), output),
        final(capture).chunker == old(capture).chunker,
{
    lemma_processed(*old(capture), chunk, *final(capture), output);
}

/// What comes next from a source is cut, and goes through.
pub proof fn source_goes_through<T, E, F, S>(
    capture: &mut Capture<T, E, F>,
    source: &mut S,
    output: CaptureOutput,
) where
    T: ChunkTransform,
    T::OutputT: MaybeChunk,
    E: AudioEncoder,
    F: FnMut(&AudioFormat) -> Option<E>,
    S: SyncSampleSource,

    requires
        call_ensures(Capture::<T, E, F>::next_output::<S>, (capture, source), output),
    ensures
        exists|chunk: Option<AudioChunk>| #[trigger]
            cut_from(
                old(capture).chunker,
                *old(source),
                final(capture).chunker,
                *final(source),
                chunk,
            ) && goes_through(*old(capture), chunk, *final(capture), output) && (
            chunk matches Some(chunk) ==> chunk.sequence_number == old(capture).chunker.completed()
                && chunk.audio_data@.len() == old(capture).chunker.spec_chunk_len() && chunk.format
                == old(capture).chunker.format()) && final(capture).chunker.completed()
                == old(capture).chunker.completed() + (if chunk is Some {
                1int
            } else {
                0
            }),
{
    let chunk = choose|chunk: Option<AudioChunk>| #[trigger]
        capture::cuts(
            old(capture).chunker,
            *old(source),
            final(capture).chunker,
            *final(source),
            chunk,
        ) && old(capture).processes(chunk, *final(capture), output);
    lemma_cut(
        old(capture).chunker,
        *old(source),
        final(capture).chunker,
        *final(source),
        chunk,
    );
    lemma_processed(*old(capture), chunk, *final(capture), output);
}

/// A capture starts with its stages, a chunker for the stream and no codec yet.
pub proof fn capture_starts_afresh<T, E, F>(
    stream_format: AudioFormat,
    frames: usize,
    transform: T,
    rebuild: F,
    capture: Capture<T, E, F>,
) where
    T: ChunkTransform,
    T::OutputT: MaybeChunk,
    E: AudioEncoder,
    F: FnMut(&AudioFormat) -> Option<E>,

    requires
        call_ensures(
            Capture::<T, E, F>::new,
            (stream_format, frames, transform, rebuild),
            capture,
        ),
    ensures
        capture.chunker.format() == stream_format,
        capture.chunker.spec_chunk_len() == frames * stream_format.channel_count,
        capture.chunker.collected().len() == 0,
        capture.chunker.completed() == 0,
        capture.transform == transform,
        capture.encoder.encoder_cache.codec is None,
        capture.encoder.encoder_cache.format is None,
        capture.encoder.encoder_cache.rebuild == rebuild,
{
}

/// What is pushed to a flattener comes behind what is there, and leaves from the front: a sample
/// and what stays is what was there.
pub proof fn flattener_is_a_queue(
    filled: &mut ChunkFlattener,
    chunk: AudioChunk,
    emptied: &mut ChunkFlattener,
    sample: Option<u32>,
)
    requires
        call_ensures(ChunkFlattener::push_chunk, (filled, chunk), ()),
        call_ensures(<ChunkFlattener as SyncSampleSource>::next_sync, (emptied,), sample),
    ensures
        final(filled)@.len() == old(filled)@.len() + chunk.audio_data@.len(),
        forall|i: int|
            0 <= i < old(filled)@.len() ==> #[trigger] final(filled)@[i] == old(filled)@[i],
        forall|i: int|
            0 <= i < chunk.audio_data@.len() ==> final(filled)@[old(filled)@.len() + i]
                == #[trigger] chunk.audio_data@[i],
        final(filled).spec_format() == old(filled).spec_format(),
        sample is Some <==> old(emptied)@.len() > 0,
        sample matches Some(sample) ==> old(emptied)@ == seq![sample] + final(emptied)@,
        sample is None ==> final(emptied)@ == old(emptied)@,
        final(emptied).spec_format() == old(emptied).spec_format(),
{
    if sample is Some {
        assert(old(emptied)@ =~= seq![sample->0] + final(emptied)@);
    }
}

/// A flattener starts empty, and counts what waits.
pub proof fn flattener_counts(
    format: AudioFormat,
    made: ChunkFlattener,
    flattener: ChunkFlattener,
    len: usize,
    empty: bool,
    told: AudioFormat,
)
    requires
        call_ensures(ChunkFlattener::new, (format,), made),
        call_ensures(ChunkFlattener::len, (&flattener,), len),
        call_ensures(ChunkFlattener::is_empty, (&flattener,), empty),
        call_ensures(ChunkFlattener::format, (&made,), told),
    ensures
        made@.len() == 0,
        told == format,
        len == flattener@.len(),
        empty <==> len == 0,
{
}

} // verus!
