//! Chunks of interleaved samples, and cutting a stream of samples into them.
use crate::audio::AudioFormat;
use vstd::arithmetic::div_mod::{
    lemma_fundamental_div_mod, lemma_fundamental_div_mod_converse, lemma_mod_bound,
};
use vstd::prelude::*;

verus! {

/// A run of interleaved samples, numbered within its stream. Each sample is a bit pattern.
#[derive(Debug, Clone, PartialEq)]
pub struct AudioChunk {
    pub sequence_number: u128,
    pub format: AudioFormat,
    pub audio_data: Vec<u32>,
}

impl AudioChunk {
    pub fn new(sequence_number: u128, format: AudioFormat, audio_data: Vec<u32>) -> (chunk:
        AudioChunk)
        ensures
            chunk == (AudioChunk { sequence_number, format, audio_data }),
    {
        AudioChunk { sequence_number, format, audio_data }
    }
}

/// What polling a source of samples has brought.
#[derive(Debug, Clone, Copy, PartialEq, Eq)]
pub enum SourcePoll {
    Sample(u32),
    Ended,
    Pending,
}

/// What a chunker answers to one poll of its source.
#[derive(Debug, PartialEq)]
pub enum ChunkPoll {
    /// Poll the source again.
    NeedSample,
    /// The source has nothing yet.
    Pending,
    /// A chunk is complete.
    Ready(AudioChunk),
    /// No chunk will come any more.
    Ended,
}

/// Cuts a stream of samples into chunks of `frames` frames, numbered from 0.
pub struct SampleChunker {
    format: AudioFormat,
    frames: usize,
    buffer: Vec<u32>,
    next_sequence: u128,
}

impl SampleChunker {
    pub closed spec fn format(&self) -> AudioFormat {
        self.format
    }

    /// Samples per chunk.
    pub closed spec fn spec_chunk_len(&self) -> nat {
        (self.frames * self.format.channel_count) as nat
    }

    /// The samples of the chunk that is being collected.
    pub closed spec fn collected(&self) -> Seq<u32> {
        self.buffer@
    }

    /// How many chunks have been completed.
    pub closed spec fn completed(&self) -> nat {
        self.next_sequence as nat
    }

    pub closed spec fn wf(&self) -> bool {
        &&& self.spec_chunk_len() <= usize::MAX
        &&& self.spec_chunk_len() == 0 ==> self.buffer@.len() == 0
        &&& self.spec_chunk_len() > 0 ==> self.buffer@.len() < self.spec_chunk_len()
    }

    /// What is being collected is never a whole chunk.
    pub proof fn collected_is_short(&self)
        requires
            self.wf(),
        ensures
            self.spec_chunk_len() == 0 ==> self.collected().len() == 0,
            self.spec_chunk_len() > 0 ==> self.collected().len() < self.spec_chunk_len(),
    {
    }

    pub fn new(format: AudioFormat, frames: usize) -> (chunker: SampleChunker)
        requires
            frames * format.channel_count <= usize::MAX,
        ensures
            chunker.wf(),
            chunker.format() == format,
            chunker.spec_chunk_len() == frames * format.channel_count,
            chunker.collected() == Seq::<u32>::empty(),
            chunker.completed() == 0,
    {
        proof {
            assert(0 <= frames * format.channel_count) by (nonlinear_arith);
        }
        let buffer: Vec<u32> = Vec::with_capacity(frames * format.channel_count as usize);
        SampleChunker { format, frames, buffer, next_sequence: 0 }
    }

    /// Samples per chunk.
    pub fn chunk_len(&self) -> (len: usize)
        requires
            self.wf(),
        ensures
            len == self.spec_chunk_len(),
    {
        proof {
            assert(0 <= self.frames * self.format.channel_count) by (nonlinear_arith);
        }
        self.frames * self.format.channel_count as usize
    }

    /// Takes one poll of the source. A source of empty chunks ends at once; what is left in an
    /// unfinished chunk when the source ends is not handed out.
    pub fn poll_next(&mut self, polled: SourcePoll) -> (answer: ChunkPoll)
        requires
            old(self).wf(),
            old(self).completed() < u128::MAX,
        ensures
            final(self).wf(),
            final(self).format() == old(self).format(),
            final(self).spec_chunk_len() == old(self).spec_chunk_len(),
            ({
                let len = old(self).spec_chunk_len();
                let (collected, completed) = (old(self).collected(), old(self).completed());
                match polled {
                    SourcePoll::Sample(sample) if len > 0 => {
                        let more = collected.push(sample);
                        if more.len() < len {
                            &&& answer == ChunkPoll::NeedSample
                            &&& final(self).collected() == more
                            &&& final(self).completed() == completed
                        } else {
                            &&& answer matches ChunkPoll::Ready(chunk)
                            &&& chunk.sequence_number == completed
                            &&& chunk.format == old(self).format()
                            &&& chunk.audio_data@ == more
                            &&& final(self).collected() == Seq::<u32>::empty()
                            &&& final(self).completed() == completed + 1
                        }
                    },
                    _ => {
                        &&& answer == (if len > 0 && polled == SourcePoll::Pending {
                            ChunkPoll::Pending
                        } else {
                            ChunkPoll::Ended
                        })
                        &&& final(self).collected() == collected
                        &&& final(self).completed() == completed
                    },
                }
            }),
    {
        let len: usize = self.chunk_len();
        if len == 0 {
            return ChunkPoll::Ended;
        }
        match polled {
            SourcePoll::Sample(sample) => {
                self.buffer.push(sample);
                if self.buffer.len() < len {
                    return ChunkPoll::NeedSample;
                }
                let mut audio_data: Vec<u32> = Vec::with_capacity(len);
                std::mem::swap(&mut audio_data, &mut self.buffer);
                let sequence_number: u128 = self.next_sequence;
                self.next_sequence = self.next_sequence + 1;
                ChunkPoll::Ready(AudioChunk::new(sequence_number, self.format, audio_data))
            },
            SourcePoll::Ended => ChunkPoll::Ended,
            SourcePoll::Pending => ChunkPoll::Pending,
        }
    }
}

/// What a chunk holds, as a value.
pub open spec fn chunk_value(chunk: AudioChunk) -> (int, AudioFormat, Seq<u32>) {
    (chunk.sequence_number as int, chunk.format, chunk.audio_data@)
}

pub open spec fn chunk_values(chunks: Seq<AudioChunk>) -> Seq<(int, AudioFormat, Seq<u32>)> {
    Seq::new(chunks.len(), |i: int| chunk_value(chunks[i]))
}

/// The chunks of `len` samples that a stream of samples is cut into.
pub open spec fn cut_into_chunks(samples: Seq<u32>, format: AudioFormat, len: int) -> Seq<
    (int, AudioFormat, Seq<u32>),
> {
    Seq::new(
        if len > 0 {
            (samples.len() as int / len) as nat
        } else {
            0
        },
        |i: int| (i, format, samples.subrange(i * len, i * len + len)),
    )
}

/// What is left of a stream of samples behind its last whole chunk.
pub open spec fn cut_rest(samples: Seq<u32>, len: int) -> Seq<u32> {
    samples.skip((samples.len() as int / len) * len)
}

/// A stream without samples has no chunk and no rest.
pub proof fn cut_of_empty(format: AudioFormat, len: int)
    requires
        len > 0,
    ensures
        cut_into_chunks(Seq::empty(), format, len) =~= Seq::empty(),
        cut_rest(Seq::empty(), len) =~= Seq::empty(),
{
    lemma_fundamental_div_mod_converse(0, len, 0, 0);
}

/// One more sample extends the rest, and the rest becomes the next chunk as soon as it is full.
/// Chunks that were cut before stay as they are.
pub proof fn cut_grows(samples: Seq<u32>, sample: u32, format: AudioFormat, len: int)
    requires
        len > 0,
    ensures
        cut_rest(samples, len).len() < len,
        cut_rest(samples, len).len() + 1 < len ==> cut_into_chunks(
            samples.push(sample),
            format,
            len,
        ) =~= cut_into_chunks(samples, format, len) && cut_rest(samples.push(sample), len)
            =~= cut_rest(samples, len).push(sample),
        cut_rest(samples, len).len() + 1 == len ==> cut_into_chunks(
            samples.push(sample),
            format,
            len,
        ) =~= cut_into_chunks(samples, format, len).push(
            (samples.len() as int / len, format, cut_rest(samples, len).push(sample)),
        ) && cut_rest(samples.push(sample), len) =~= Seq::empty(),
        cut_into_chunks(samples, format, len).len() <= samples.len(),
{
    let n = samples.len() as int;
    let q = n / len;
    lemma_fundamental_div_mod(n, len);
    lemma_mod_bound(n, len);
    assert(len * q == q * len) by (nonlinear_arith);
    assert(q >= 0) by (nonlinear_arith)
        requires
            q * len + n % len == n,
            n % len < len,
            n >= 0,
            len > 0,
    ;
    assert(0 <= q <= q * len) by (nonlinear_arith)
        requires
            q >= 0,
            len > 0,
    ;
    let now = cut_into_chunks(samples, format, len);
    let more = samples.push(sample);
    let then = cut_into_chunks(more, format, len);
    if n % len + 1 < len {
        lemma_fundamental_div_mod_converse(n + 1, len, q, n % len + 1);
    } else {
        assert((q + 1) * len == q * len + len) by (nonlinear_arith);
        lemma_fundamental_div_mod_converse(n + 1, len, q + 1, 0);
        assert(more.subrange(q * len, q * len + len) =~= cut_rest(samples, len).push(sample));
        assert(then[q] == (q, format, cut_rest(samples, len).push(sample)));
    }
    assert forall|i: int| 0 <= i < q implies now[i] == then[i] by {
        assert(0 <= i * len && i * len + len <= q * len) by (nonlinear_arith)
            requires
                0 <= i,
                i + 1 <= q,
                len > 0,
        ;
        assert(samples.subrange(i * len, i * len + len) =~= more.subrange(
            i * len,
            i * len + len,
        ));
    }
}

} // verus!
