//! From samples of a source to encoded chunks.
use crate::audio::chunk::{AudioChunk, ChunkPoll, SampleChunker, SourcePoll};
pub use crate::audio::codec::ChunkEncoder;
use crate::audio::codec::{AudioEncoder, EncodedChunk};
use crate::audio::sample::{self, SyncSampleSource};
use crate::audio::transform::{ChunkTransform, MaybeChunk};
use crate::audio::AudioFormat;
use vstd::prelude::*;

verus! {

/// What one round of capturing brings.
#[derive(Debug, PartialEq)]
pub enum CaptureOutput {
    EndOfStream,
    Skipped,
    Encoded(EncodedChunk),
}

/// The samples that a run of calls has brought.
pub open spec fn heard(samples: Seq<Option<u32>>) -> Seq<u32> {
    Seq::new(samples.len(), |i: int| samples[i]->0)
}

/// `chunk` is what a chunker may cut from `source`: it takes samples until a chunk is full or the
/// source has none, and keeps what it has collected for the next call.
pub open spec fn cuts<S: SyncSampleSource>(
    pre: SampleChunker,
    source: S,
    post: SampleChunker,
    left: S,
    chunk: Option<AudioChunk>,
) -> bool {
    &&& post.format() == pre.format()
    &&& post.spec_chunk_len() == pre.spec_chunk_len()
    &&& exists|taken: Seq<Option<u32>>| #[trigger]
        sample::drawn(source, taken, left) && match chunk {
            Some(chunk) => {
                &&& forall|i: int| 0 <= i < taken.len() ==> #[trigger] taken[i] is Some
                &&& chunk.audio_data@ == pre.collected() + heard(taken)
                &&& chunk.audio_data@.len() == pre.spec_chunk_len() > 0
                &&& chunk.sequence_number == pre.completed()
                &&& chunk.format == pre.format()
                &&& post.collected() == Seq::<u32>::empty()
                &&& post.completed() == pre.completed() + 1
            },
            None => {
                &&& post.completed() == pre.completed()
                &&& if pre.spec_chunk_len() == 0 {
                    taken.len() == 0 && post.collected() == pre.collected()
                } else {
                    &&& taken.len() > 0 && taken.last() is None
                    &&& forall|i: int| 0 <= i < taken.len() - 1 ==> #[trigger] taken[i] is Some
                    &&& post.collected() == pre.collected() + heard(taken.drop_last())
                    &&& post.collected().len() < pre.spec_chunk_len()
                }
            },
        }
}

/// Cuts the next chunk from a source.
pub fn next_chunk<S: SyncSampleSource>(chunker: &mut SampleChunker, source: &mut S) -> (chunk:
    Option<AudioChunk>)
    requires
        old(chunker).wf(),
        old(chunker).completed() < u128::MAX,
        sample::lasts(
            *old(source),
            (old(chunker).spec_chunk_len() - old(chunker).collected().len()) as nat,
        ),
    ensures
        final(chunker).wf(),
        cuts(*old(chunker), *old(source), *final(chunker), *final(source), chunk),
{
    let ghost mut taken: Seq<Option<u32>> = Seq::empty();
    let ghost start = chunker.collected();
    let len: usize = chunker.chunk_len();
    proof {
        chunker.collected_is_short();
    }
    if len == 0 {
        proof {
            assert(sample::drawn(*old(source), taken, *source));
        }
        return None;
    }
    proof {
        assert(start + heard(taken) =~= start);
    }
    loop
        invariant
            len == chunker.spec_chunk_len() == old(chunker).spec_chunk_len(),
            0 < len,
            chunker.wf(),
            chunker.format() == old(chunker).format(),
            chunker.completed() == old(chunker).completed() < u128::MAX,
            chunker.collected() =~= start + heard(taken),
            start == old(chunker).collected(),
            chunker.collected().len() < len,
            sample::drawn(*old(source), taken, *source),
            forall|i: int| 0 <= i < taken.len() ==> #[trigger] taken[i] is Some,
            sample::lasts(*source, (len - chunker.collected().len()) as nat),
        decreases len - chunker.collected().len(),
    {
        let ghost before = *source;
        let ghost earlier = taken;
        let next: Option<u32> = source.next_sync();
        proof {
            taken = taken.push(next);
            assert(taken.drop_last() =~= earlier);
            assert(S::yields(before, taken.last(), *source));
            assert(sample::drawn(*old(source), taken, *source));
        }
        match next {
            Some(value) => {
                proof {
                    assert(start + heard(taken) =~= (start + heard(earlier)).push(value));
                }
                if let ChunkPoll::Ready(chunk) = chunker.poll_next(SourcePoll::Sample(value)) {
                    return Some(chunk);
                }
            },
            None => {
                return None;
            },
        }
    }
}

/// Cuts chunks, processes and encodes them.
#[verifier::reject_recursive_types(E)]
#[verifier::reject_recursive_types(F)]
pub struct Capture<T: ChunkTransform, E: AudioEncoder, F: FnMut(&AudioFormat) -> Option<E>> {
    pub chunker: SampleChunker,
    pub transform: T,
    pub encoder: ChunkEncoder<E, F>,
}

impl<T, E, F> Capture<T, E, F> where
    T: ChunkTransform,
    T::OutputT: MaybeChunk,
    E: AudioEncoder,
    F: FnMut(&AudioFormat) -> Option<E>,
 {
    /// Whether the stages can take what the chunker has cut.
    pub open spec fn accepts(&self, chunk: AudioChunk) -> bool {
        chunk.format.channel_count > 0 ==> {
            &&& self.transform.accepts(chunk)
            &&& forall|transform: T, out: T::OutputT| #[trigger]
                T::transforms(self.transform, chunk, transform, out) ==> match
                out.spec_into_chunk() {
                    Some(processed) => self.encoder.accepts(processed),
                    None => true,
                }
        }
    }

    /// `output` is what the stages may make of what the chunker has cut. The end of the source,
    /// and a stream without channels, end the stream; a chunk that a stage drops is skipped.
    pub open spec fn processes(
        self,
        chunk: Option<AudioChunk>,
        after: Self,
        output: CaptureOutput,
    ) -> bool {
        match chunk {
            Some(chunk) if chunk.format.channel_count > 0 => exists|out: T::OutputT| #[trigger]
                T::transforms(self.transform, chunk, after.transform, out) && match
                out.spec_into_chunk() {
                    Some(processed) => exists|frame: Option<EncodedChunk>| #[trigger]
                        self.encoder.encodes(processed, after.encoder, frame) && output == (
                        match frame {
                            Some(frame) => CaptureOutput::Encoded(frame),
                            None => CaptureOutput::Skipped,
                        }),
                    None => after.encoder == self.encoder && output == CaptureOutput::Skipped,
                },
            _ => after.transform == self.transform && after.encoder == self.encoder && output
                == CaptureOutput::EndOfStream,
        }
    }

    pub fn new(stream_format: AudioFormat, frames: usize, transform: T, rebuild: F) -> (capture:
        Self)
        requires
            frames * stream_format.channel_count <= usize::MAX,
        ensures
            capture.chunker.wf(),
            capture.chunker.format() == stream_format,
            capture.chunker.spec_chunk_len() == frames * stream_format.channel_count,
            capture.chunker.collected() == Seq::<u32>::empty(),
            capture.chunker.completed() == 0,
            capture.transform == transform,
            capture.encoder.encoder_cache.codec is None,
            capture.encoder.encoder_cache.format is None,
            capture.encoder.encoder_cache.rebuild == rebuild,
            capture.encoder.frames == frames,
    {
        Capture {
            chunker: SampleChunker::new(stream_format, frames),
            transform,
            encoder: ChunkEncoder::new(rebuild, frames),
        }
    }

    /// Processes and encodes what the chunker has cut.
    pub fn process(&mut self, chunk: Option<AudioChunk>) -> (output: CaptureOutput)
        requires
            chunk matches Some(chunk) ==> old(self).accepts(chunk),
        ensures
            final(self).chunker == old(self).chunker,
            old(self).processes(chunk, *final(self), output),
    {
        let cut: AudioChunk = match chunk {
            Some(cut) => cut,
            None => {
                return CaptureOutput::EndOfStream;
            },
        };
        if cut.format.channel_count == 0 {
            return CaptureOutput::EndOfStream;
        }
        let out = self.transform.transform(cut);
        let ghost processed_out = out;
        proof {
            assert(T::transforms(old(self).transform, cut, self.transform, processed_out));
        }
        let output: CaptureOutput = match out.into_chunk() {
            Some(processed) => {
                let ghost given = processed;
                let frame: Option<EncodedChunk> = self.encoder.encode_chunk(processed);
                proof {
                    assert(old(self).encoder.encodes(given, self.encoder, frame));
                }
                match frame {
                    Some(frame) => CaptureOutput::Encoded(frame),
                    None => CaptureOutput::Skipped,
                }
            },
            None => CaptureOutput::Skipped,
        };
        proof {
            assert(T::transforms(old(self).transform, cut, self.transform, processed_out));
        }
        output
    }

    /// Cuts the next chunk from a source, processes and encodes it.
    pub fn next_output<S: SyncSampleSource>(&mut self, source: &mut S) -> (output: CaptureOutput)
        requires
            old(self).chunker.wf(),
            old(self).chunker.completed() < u128::MAX,
            sample::lasts(
                *old(source),
                (old(self).chunker.spec_chunk_len() - old(self).chunker.collected().len()) as nat,
            ),
            forall|chunk: AudioChunk|
                #![trigger old(self).accepts(chunk)]
                chunk.format == old(self).chunker.format() && chunk.audio_data@.len()
                    == old(self).chunker.spec_chunk_len() ==> old(self).accepts(chunk),
        ensures
            final(self).chunker.wf(),
            exists|chunk: Option<AudioChunk>| #[trigger]
                cuts(
                    old(self).chunker,
                    *old(source),
                    final(self).chunker,
                    *final(source),
                    chunk,
                ) && old(self).processes(chunk, *final(self), output),
    {
        let chunk: Option<AudioChunk> = next_chunk(&mut self.chunker, source);
        let ghost cut = chunk;
        proof {
            if cut is Some {
                assert(old(self).accepts(cut->0));
            }
        }
        let output: CaptureOutput = self.process(chunk);
        proof {
            assert(cuts(old(self).chunker, *old(source), self.chunker, *source, cut));
        }
        output
    }
}

/// Every chunk that is cut takes the next number, whatever becomes of it: one that is skipped
/// leaves a gap that the other end can see.
pub proof fn every_chunk_takes_a_number<S: SyncSampleSource>(
    before: SampleChunker,
    source: S,
    after: SampleChunker,
    left: S,
    chunk: Option<AudioChunk>,
)
    requires
        cuts(before, source, after, left, chunk),
    ensures
        chunk matches Some(chunk) ==> chunk.sequence_number == before.completed()
            && after.completed() == before.completed() + 1,
        chunk is None ==> after.completed() == before.completed(),
{
}

} // verus!
