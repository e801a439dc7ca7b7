//! Sources of chunks that can be exchanged while they run.
use crate::audio::chunk::AudioChunk;
use crate::audio::float;
use crate::audio::AudioFormat;
use std::collections::VecDeque;
use vstd::prelude::*;

verus! {

/// What asking a source for a chunk brings.
#[derive(Debug, PartialEq)]
pub enum Polled {
    Chunk(AudioChunk),
    Ended,
    Pending,
}

/// A source of chunks.
pub trait ChunkSource: Sized {
    /// Whether the source can be asked.
    open spec fn ready(&self) -> bool {
        true
    }

    /// `polled` is what asking `pre` may bring, and `post` what the source is then.
    open spec fn gives(pre: Self, polled: Polled, post: Self) -> bool {
        true
    }

    fn poll_chunk(&mut self) -> (polled: Polled)
        requires
            old(self).ready(),
        ensures
            Self::gives(*old(self), polled, *final(self)),
    ;
}

/// Another source to take over, and what is to be done when it has.
pub struct SwapRequest<T, H> {
    pub payload: T,
    pub on_adopt: H,
}

/// Which device is wanted.
#[derive(Clone, Debug, PartialEq, Eq)]
pub enum Selection {
    FollowDefault,
    Explicit(String),
}

/// Hands out the chunks of a source that can be exchanged. The chunks are numbered in one run,
/// whatever source they come from; without a source, it waits for the next one.
pub struct SwitchingChunkSource<T> {
    pub source: Option<T>,
    pub next_seq: u128,
}

/// What is to be done about the sources that take over, in their order.
pub open spec fn hooks<T, H>(swaps: Seq<SwapRequest<T, H>>) -> Seq<H> {
    Seq::new(swaps.len(), |i: int| swaps[i].on_adopt)
}

/// `b` is `a` under another number.
pub open spec fn renumbered(a: AudioChunk, number: int, b: AudioChunk) -> bool {
    b.sequence_number == number && b.format == a.format && b.audio_data == a.audio_data
}

impl<T> SwitchingChunkSource<T> {
    pub fn new(source: T) -> (switching: Self)
        ensures
            switching.source == Some(source),
            switching.next_seq == 0,
    {
        SwitchingChunkSource { source: Some(source), next_seq: 0 }
    }

    /// The source once `swaps` have been adopted: the last one wins.
    pub open spec fn adopted<H>(self, swaps: Seq<SwapRequest<T, H>>) -> Option<T> {
        if swaps.len() > 0 {
            Some(swaps.last().payload)
        } else {
            self.source
        }
    }

    /// Lets a source take over, and hands back what is to be done about it.
    pub fn adopt<H>(&mut self, request: SwapRequest<T, H>) -> (hook: H)
        ensures
            hook == request.on_adopt,
            final(self).source == Some(request.payload),
            final(self).next_seq == old(self).next_seq,
    {
        self.source = Some(request.payload);
        request.on_adopt
    }

    /// Numbers a chunk.
    pub fn number(&mut self, chunk: AudioChunk) -> (numbered: AudioChunk)
        requires
            old(self).next_seq < u128::MAX,
        ensures
            renumbered(chunk, old(self).next_seq as int, numbered),
            final(self).next_seq == old(self).next_seq + 1,
            final(self).source == old(self).source,
    {
        let sequence_number: u128 = self.next_seq;
        self.next_seq = sequence_number + 1;
        AudioChunk { sequence_number, format: chunk.format, audio_data: chunk.audio_data }
    }
}

impl<T: ChunkSource> SwitchingChunkSource<T> {
    /// `polled` is what asking may bring once `swaps` have been adopted, and `after` what is left.
    /// Without a source, or where it has ended, the next one is waited for.
    pub open spec fn polls<H>(
        self,
        swaps: Seq<SwapRequest<T, H>>,
        polled: Polled,
        after: Self,
    ) -> bool {
        match self.adopted(swaps) {
            None => {
                &&& polled == Polled::Pending
                &&& after.source is None
                &&& after.next_seq == self.next_seq
            },
            Some(source) => exists|given: Polled, left: T| #[trigger]
                T::gives(source, given, left) && match given {
                    Polled::Chunk(chunk) => {
                        &&& polled matches Polled::Chunk(numbered)
                        &&& renumbered(chunk, self.next_seq as int, numbered)
                        &&& after.source == Some(left)
                        &&& after.next_seq == self.next_seq + 1
                    },
                    Polled::Ended => {
                        &&& polled == Polled::Pending
                        &&& after.source is None
                        &&& after.next_seq == self.next_seq
                    },
                    Polled::Pending => {
                        &&& polled == Polled::Pending
                        &&& after.source == Some(left)
                        &&& after.next_seq == self.next_seq
                    },
                },
        }
    }

    /// Adopts every source that waits, then asks the one at hand. `hooks` is what is to be done
    /// about those that took over. A source that has ended is let go.
    pub fn poll_next<H>(&mut self, swaps: &mut VecDeque<SwapRequest<T, H>>) -> (result: (
        Polled,
        Vec<H>,
    ))
        requires
            old(self).next_seq < u128::MAX,
            old(self).adopted(old(swaps)@) matches Some(source) ==> source.ready(),
        ensures
            final(swaps)@.len() == 0,
            result.1@ == hooks(old(swaps)@),
            old(self).polls(old(swaps)@, result.0, *final(self)),
    {
        let mut adopted: Vec<H> = Vec::new();
        let ghost all = swaps@;
        proof {
            assert(all.skip(0) =~= all);
        }
        while swaps.len() > 0
            invariant
                all == old(swaps)@,
                adopted@.len() <= all.len(),
                adopted@ =~= hooks(all.take(adopted@.len() as int)),
                swaps@ =~= all.skip(adopted@.len() as int),
                self.next_seq == old(self).next_seq,
                self.source == old(self).adopted(all.take(adopted@.len() as int)),
            decreases swaps@.len(),
        {
            if let Some(request) = swaps.pop_front() {
                let hook: H = self.adopt(request);
                proof {
                    assert(all.take(adopted@.len() as int + 1).last() == request);
                }
                adopted.push(hook);
            }
        }
        proof {
            assert(all.take(adopted@.len() as int) =~= all);
        }
        match self.source.take() {
            None => (Polled::Pending, adopted),
            Some(source) => {
                let mut source: T = source;
                let ghost before = source;
                let polled: Polled = source.poll_chunk();
                let ghost brought = polled;
                proof {
                    assert(T::gives(before, brought, source));
                }
                match polled {
                    Polled::Chunk(chunk) => {
                        self.source = Some(source);
                        (Polled::Chunk(self.number(chunk)), adopted)
                    },
                    Polled::Ended => (Polled::Pending, adopted),
                    Polled::Pending => {
                        self.source = Some(source);
                        (Polled::Pending, adopted)
                    },
                }
            },
        }
    }
}

/// A source of silence.
pub struct SilenceChunkSource {
    pub format: AudioFormat,
    pub frames: usize,
    pub next_seq: u128,
}

impl SilenceChunkSource {
    pub fn new(format: AudioFormat, frames: usize) -> (source: Self)
        ensures
            source.format == format,
            source.frames == frames,
            source.next_seq == 0,
    {
        SilenceChunkSource { format, frames, next_seq: 0 }
    }

    /// The next chunk of silence.
    pub fn next_chunk(&mut self) -> (chunk: AudioChunk)
        requires
            old(self).next_seq < u128::MAX,
            old(self).frames * old(self).format.channel_count <= usize::MAX,
        ensures
            chunk.sequence_number == old(self).next_seq,
            chunk.format == old(self).format,
            chunk.audio_data@ == Seq::new(
                (old(self).frames * old(self).format.channel_count) as nat,
                |i: int| float::ZERO,
            ),
            final(self).next_seq == old(self).next_seq + 1,
            final(self).format == old(self).format,
            final(self).frames == old(self).frames,
    {
        let sequence_number: u128 = self.next_seq;
        self.next_seq = sequence_number + 1;
        proof {
            assert(0 <= self.frames * self.format.channel_count) by (nonlinear_arith);
        }
        let samples: Vec<u32> = vec![float::ZERO; self.frames * self.format.channel_count as usize];
        proof {
            assert(samples@ =~= Seq::new(
                (old(self).frames * old(self).format.channel_count) as nat,
                |i: int| float::ZERO,
            ));
        }
        AudioChunk::new(sequence_number, self.format, samples)
    }
}

impl ChunkSource for SilenceChunkSource {
    open spec fn ready(&self) -> bool {
        &&& self.next_seq < u128::MAX
        &&& self.frames * self.format.channel_count <= usize::MAX
    }

    open spec fn gives(pre: Self, polled: Polled, post: Self) -> bool {
        &&& polled matches Polled::Chunk(chunk)
        &&& chunk.sequence_number == pre.next_seq
        &&& chunk.format == pre.format
        &&& chunk.audio_data@ == Seq::new(
            (pre.frames * pre.format.channel_count) as nat,
            |i: int| float::ZERO,
        )
        &&& post.next_seq == pre.next_seq + 1
        &&& post.format == pre.format
        &&& post.frames == pre.frames
    }

    fn poll_chunk(&mut self) -> (polled: Polled) {
        Polled::Chunk(self.next_chunk())
    }
}

/// Chunks are numbered in one run, whatever sources take over between them: a chunk takes the
/// next number, and nothing else does. A source that has ended is never the end of the stream.
pub proof fn numbers_run_on<T: ChunkSource, H>(
    source: SwitchingChunkSource<T>,
    swaps: Seq<SwapRequest<T, H>>,
    polled: Polled,
    after: SwitchingChunkSource<T>,
)
    requires
        source.polls(swaps, polled, after),
    ensures
        polled !is Ended,
        polled matches Polled::Chunk(chunk) ==> chunk.sequence_number == source.next_seq
            && after.next_seq == source.next_seq + 1,
        polled is Pending ==> after.next_seq == source.next_seq,
{
}

} // verus!
