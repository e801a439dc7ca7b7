//! Chunks as one stream of samples.
use crate::audio::chunk::AudioChunk;
use crate::audio::sample::SyncSampleSource;
use crate::audio::AudioFormat;
use std::collections::VecDeque;
use vstd::prelude::*;

verus! {

/// Hands out the samples of chunks one by one, in the order in which the chunks came.
pub struct ChunkFlattener {
    sample_buffer: VecDeque<u32>,
    format: AudioFormat,
}

impl View for ChunkFlattener {
    type V = Seq<u32>;

    /// The samples that are left.
    closed spec fn view(&self) -> Seq<u32> {
        self.sample_buffer@
    }
}

impl ChunkFlattener {
    pub closed spec fn spec_format(&self) -> AudioFormat {
        self.format
    }

    pub fn new(format: AudioFormat) -> (flattener: Self)
        ensures
            flattener@ == Seq::<u32>::empty(),
            flattener.spec_format() == format,
    {
        ChunkFlattener { sample_buffer: VecDeque::new(), format }
    }

    pub fn push_chunk(&mut self, chunk: AudioChunk)
        ensures
            final(self)@ == old(self)@ + chunk.audio_data@,
            final(self).spec_format() == old(self).spec_format(),
    {
        let ghost before = self@;
        let ghost data = chunk.audio_data@;
        let mut i: usize = 0;
        while i < chunk.audio_data.len()
            invariant
                i <= data.len(),
                data == chunk.audio_data@,
                self.spec_format() == old(self).spec_format(),
                self@ =~= before + data.take(i as int),
            decreases data.len() - i,
        {
            self.sample_buffer.push_back(chunk.audio_data[i]);
            i += 1;
        }
        proof {
            assert(data.take(i as int) =~= data);
        }
    }

    pub fn len(&self) -> (len: usize)
        ensures
            len == self@.len(),
    {
        self.sample_buffer.len()
    }

    pub fn is_empty(&self) -> (empty: bool)
        ensures
            empty == (self@.len() == 0),
    {
        self.sample_buffer.len() == 0
    }

    pub fn format(&self) -> (format: AudioFormat)
        ensures
            format == self.spec_format(),
    {
        self.format
    }
}

impl SyncSampleSource for ChunkFlattener {
    open spec fn ready(&self) -> bool {
        true
    }

    open spec fn yields(pre: Self, sample: Option<u32>, post: Self) -> bool {
        &&& post.spec_format() == pre.spec_format()
        &&& if pre@.len() == 0 {
            sample is None && post@ == pre@
        } else {
            sample == Some(pre@[0]) && post@ == pre@.skip(1)
        }
    }

    fn next_sync(&mut self) -> (sample: Option<u32>) {
        let sample: Option<u32> = self.sample_buffer.pop_front();
        proof {
            if old(self)@.len() > 0 {
                assert(self@ =~= old(self)@.skip(1));
            } else {
                assert(self@ =~= old(self)@);
            }
        }
        sample
    }
}

/// A flattener lasts for any number of calls.
pub proof fn flattener_lasts(flattener: ChunkFlattener, n: nat)
    ensures
        crate::audio::sample::lasts(flattener, n),
    decreases n,
{
    if n > 0 {
        assert forall|sample: Option<u32>, post: ChunkFlattener| #[trigger]
            ChunkFlattener::yields(flattener, sample, post) implies crate::audio::sample::lasts(
            post,
            (n - 1) as nat,
        ) by {
            flattener_lasts(post, (n - 1) as nat);
        }
    }
}

/// A flattener hands out what was pushed, in order: `n` calls bring the first `n` samples.
pub proof fn flattener_is_in_order(
    flattener: ChunkFlattener,
    samples: Seq<Option<u32>>,
    after: ChunkFlattener,
)
    requires
        crate::audio::sample::drawn(flattener, samples, after),
    ensures
        samples.len() <= flattener@.len() ==> after@ =~= flattener@.skip(samples.len() as int),
        samples.len() >= flattener@.len() ==> after@ =~= Seq::<u32>::empty(),
        forall|i: int|
            0 <= i < samples.len() ==> #[trigger] samples[i] == if i < flattener@.len() {
                Some(flattener@[i])
            } else {
                None
            },
    decreases samples.len(),
{
    if samples.len() > 0 {
        let mid = choose|mid: ChunkFlattener|
            crate::audio::sample::drawn(flattener, samples.drop_last(), mid)
                && #[trigger] ChunkFlattener::yields(mid, samples.last(), after);
        flattener_is_in_order(flattener, samples.drop_last(), mid);
        assert forall|i: int| 0 <= i < samples.len() implies #[trigger] samples[i] == if i
            < flattener@.len() {
            Some(flattener@[i])
        } else {
            None
        } by {
            if i < samples.len() - 1 {
                assert(samples.drop_last()[i] == samples[i]);
            }
        }
    }
}

} // verus!
