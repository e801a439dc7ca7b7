//! Sources of samples, and the resampler between two rates.
use crate::audio::chunk::{self, AudioChunk, ChunkPoll, SampleChunker, SourcePoll};
use crate::audio::float;
use crate::audio::AudioFormat;
use vstd::prelude::*;

verus! {

/// Something of a value that an implementation of a trait leaves unsaid: there is one for each
/// value, and nothing is known of it.
pub closed spec fn unsaid<S, V>(value: S) -> V {
    arbitrary::<spec_fn(S) -> V>()(value)
}

/// A source of samples in one format, before it is consumed.
pub trait SampleSource: Sized {
    type Samples;

    /// The format of the samples.
    open spec fn spec_format(&self) -> AudioFormat {
        unsaid::<Self, AudioFormat>(*self)
    }

    /// The samples.
    open spec fn samples(self) -> Self::Samples {
        unsaid::<Self, Self::Samples>(self)
    }

    fn format(&self) -> (format: &AudioFormat)
        ensures
            *format == self.spec_format(),
    ;

    fn into_samples(self) -> (samples: Self::Samples)
        ensures
            samples == self.samples(),
    ;

    /// Applies `f` to the samples and declares the result to be in `format`.
    fn with_format<S, F: FnOnce(Self::Samples) -> S>(self, format: AudioFormat, f: F) -> (sampled:
        Sampled<S>)
        requires
            call_requires(f, (self.samples(),)),
        ensures
            sampled.stream_format() == format,
            call_ensures(f, (self.samples(),), sampled.stream()),
    {
        let samples: S = f(self.into_samples());
        Sampled::new(format, samples)
    }

    /// Applies `f` to the samples and keeps their format.
    fn map_samples<S, F: FnOnce(Self::Samples) -> S>(self, f: F) -> (sampled: Sampled<S>)
        requires
            call_requires(f, (self.samples(),)),
        ensures
            sampled.stream_format() == self.spec_format(),
            call_ensures(f, (self.samples(),), sampled.stream()),
    {
        let format: AudioFormat = *self.format();
        self.with_format(format, f)
    }
}

/// Samples together with their format.
pub struct Sampled<S> {
    format: AudioFormat,
    samples: S,
}

impl<S> Sampled<S> {
    pub closed spec fn stream_format(&self) -> AudioFormat {
        self.format
    }

    pub closed spec fn stream(self) -> S {
        self.samples
    }

    pub fn new(format: AudioFormat, samples: S) -> (sampled: Self)
        ensures
            sampled.stream_format() == format,
            sampled.stream() == samples,
    {
        Sampled { format, samples }
    }
}

impl<S> SampleSource for Sampled<S> {
    type Samples = S;

    open spec fn spec_format(&self) -> AudioFormat {
        self.stream_format()
    }

    open spec fn samples(self) -> S {
        self.stream()
    }

    fn format(&self) -> (format: &AudioFormat) {
        &self.format
    }

    fn into_samples(self) -> (samples: S) {
        self.samples
    }
}

/// Cuts samples that have all arrived into chunks of `frames` frames; a shorter rest is dropped.
pub fn into_chunks<Q: SampleSource<Samples = Vec<u32>>>(source: Q, frames: usize) -> (chunks: Vec<
    AudioChunk,
>)
    requires
        frames * source.spec_format().channel_count <= usize::MAX,
    ensures
        chunk::chunk_values(chunks@) =~= chunk::cut_into_chunks(
            source.samples()@,
            source.spec_format(),
            frames * source.spec_format().channel_count,
        ),
{
    let format: AudioFormat = *source.format();
    let samples: Vec<u32> = source.into_samples();
    let ghost len: int = frames * format.channel_count;
    proof {
        assert(0 <= len) by (nonlinear_arith)
            requires
                len == frames * format.channel_count,
        ;
    }
    let mut chunker: SampleChunker = SampleChunker::new(format, frames);
    let mut chunks: Vec<AudioChunk> = Vec::new();
    if chunker.chunk_len() == 0 {
        return chunks;
    }
    let total: usize = samples.len();
    let mut i: usize = 0;
    proof {
        assert(samples@.take(0) =~= Seq::<u32>::empty());
        chunk::cut_of_empty(format, len);
    }
    while i < total
        invariant
            i <= total == samples@.len(),
            len > 0,
            chunker.wf(),
            chunker.format() == format,
            chunker.spec_chunk_len() == len,
            chunker.completed() == chunks@.len(),
            chunks@.len() <= i,
            chunk::chunk_values(chunks@) =~= chunk::cut_into_chunks(
                samples@.take(i as int),
                format,
                len,
            ),
            chunker.collected() =~= chunk::cut_rest(samples@.take(i as int), len),
        decreases samples@.len() - i,
    {
        let ghost before = samples@.take(i as int);
        proof {
            chunk::cut_grows(before, samples@[i as int], format, len);
            assert(before.push(samples@[i as int]) =~= samples@.take(i + 1));
        }
        match chunker.poll_next(SourcePoll::Sample(samples[i])) {
            ChunkPoll::Ready(chunk) => {
                chunks.push(chunk);
            },
            _ => {},
        }
        i += 1;
    }
    proof {
        assert(samples@.take(i as int) =~= samples@);
    }
    chunks
}

/// A source that can be asked for its next sample at any time.
pub trait SyncSampleSource: Sized {
    /// Whether the next sample can be asked for.
    open spec fn ready(&self) -> bool {
        true
    }

    /// `sample` is what `pre` may hand out next, and `post` what is left of it.
    open spec fn yields(pre: Self, sample: Option<u32>, post: Self) -> bool {
        true
    }

    fn next_sync(&mut self) -> (sample: Option<u32>)
        requires
            old(self).ready(),
        ensures
            Self::yields(*old(self), sample, *final(self)),
    ;
}

/// Whether `n` samples can be asked for, one after the other, whatever comes.
pub open spec fn lasts<S: SyncSampleSource>(source: S, n: nat) -> bool
    decreases n,
{
    n > 0 ==> source.ready() && forall|sample: Option<u32>, post: S| #[trigger]
        S::yields(source, sample, post) ==> lasts(post, (n - 1) as nat)
}

/// `samples` are what a run of calls, from `pre` to `post`, may have handed out.
pub open spec fn drawn<S: SyncSampleSource>(pre: S, samples: Seq<Option<u32>>, post: S) -> bool
    decreases samples.len(),
{
    if samples.len() == 0 {
        post == pre
    } else {
        exists|mid: S|
            drawn(pre, samples.drop_last(), mid) && #[trigger] S::yields(
                mid,
                samples.last(),
                post,
            )
    }
}

/// A source that lasts for `n` samples lasts for fewer.
pub proof fn lasts_for_fewer<S: SyncSampleSource>(source: S, n: nat, fewer: nat)
    requires
        lasts(source, n),
        fewer <= n,
    ensures
        lasts(source, fewer),
    decreases fewer,
{
    if fewer > 0 {
        assert forall|sample: Option<u32>, post: S| #[trigger]
            S::yields(source, sample, post) implies lasts(post, (fewer - 1) as nat) by {
            lasts_for_fewer(post, (n - 1) as nat, (fewer - 1) as nat);
        }
    }
}

/// What a source lasts for is used up sample by sample.
pub proof fn lasts_on<S: SyncSampleSource>(
    source: S,
    samples: Seq<Option<u32>>,
    after: S,
    n: nat,
)
    requires
        lasts(source, n),
        drawn(source, samples, after),
        samples.len() <= n,
    ensures
        lasts(after, (n - samples.len()) as nat),
    decreases samples.len(),
{
    if samples.len() > 0 {
        let mid = choose|mid: S|
            drawn(source, samples.drop_last(), mid) && #[trigger] S::yields(
                mid,
                samples.last(),
                after,
            );
        lasts_on(source, samples.drop_last(), mid, n);
    }
}

/// Two runs of calls make one.
pub proof fn drawn_twice<S: SyncSampleSource>(
    source: S,
    first: Seq<Option<u32>>,
    between: S,
    second: Seq<Option<u32>>,
    after: S,
)
    requires
        drawn(source, first, between),
        drawn(between, second, after),
    ensures
        drawn(source, first + second, after),
    decreases second.len(),
{
    if second.len() == 0 {
        assert(first + second =~= first);
    } else {
        let mid = choose|mid: S|
            drawn(between, second.drop_last(), mid) && #[trigger] S::yields(
                mid,
                second.last(),
                after,
            );
        drawn_twice(source, first, between, second.drop_last(), mid);
        assert((first + second).drop_last() =~= first + second.drop_last());
        assert(S::yields(mid, (first + second).last(), after));
    }
}

/// Samples as they are played: silence where there is none.
pub open spec fn audible(samples: Seq<Option<u32>>) -> Seq<u32> {
    Seq::new(
        samples.len(),
        |i: int|
            match samples[i] {
                Some(sample) => sample,
                None => float::ZERO,
            },
    )
}

/// The next `n` samples of a source, with silence where it has none.
pub fn pull_block<S: SyncSampleSource>(source: &mut S, n: usize) -> (block: Vec<u32>)
    requires
        lasts(*old(source), n as nat),
    ensures
        exists|samples: Seq<Option<u32>>| #[trigger]
            drawn(*old(source), samples, *final(source)) && samples.len() == n && block@
                == audible(samples),
{
    let mut block: Vec<u32> = Vec::new();
    let ghost mut samples: Seq<Option<u32>> = Seq::empty();
    let mut i: usize = 0;
    while i < n
        invariant
            i <= n,
            samples.len() == i,
            block@ =~= audible(samples),
            drawn(*old(source), samples, *source),
            lasts(*source, (n - i) as nat),
        decreases n - i,
    {
        let ghost before = *source;
        let ghost earlier = samples;
        let sample: Option<u32> = source.next_sync();
        proof {
            samples = samples.push(sample);
            assert(samples.drop_last() =~= earlier);
            assert(S::yields(before, samples.last(), *source));
        }
        block.push(match sample {
            Some(sample) => sample,
            None => float::ZERO,
        });
        i += 1;
    }
    proof {
        assert(drawn(*old(source), samples, *source));
    }
    block
}

/// What a resampler is made for.
#[derive(Debug, Clone, Copy, PartialEq, Eq)]
pub struct ResamplerSpec {
    pub source_rate: u32,
    pub source_channels: usize,
    pub target_rate: u32,
    pub block_frames: usize,
}

/// What has gone into a resampler, what is ready to be popped, and what has been popped.
pub struct Flow {
    pub pushed: Seq<u32>,
    pub waiting: Seq<u32>,
    pub popped: Seq<u32>,
}

/// The samples that one call brings: one, or none.
pub open spec fn brought(sample: Option<u32>) -> Seq<u32> {
    match sample {
        Some(sample) => seq![sample],
        None => Seq::empty(),
    }
}

impl Flow {
    /// `post` is what may have gone through once `samples` have gone in. More may be ready then;
    /// nothing has been popped.
    pub open spec fn takes(self, samples: Seq<u32>, post: Flow) -> bool {
        &&& post.pushed == self.pushed + samples
        &&& self.waiting.is_prefix_of(post.waiting)
        &&& post.popped == self.popped
    }

    /// `out` is what comes out at one request, and `post` what has gone through then: the first of
    /// what waits, if anything does.
    pub open spec fn gives(self, out: Option<u32>, post: Flow) -> bool {
        &&& out == if self.waiting.len() > 0 {
            Some(self.waiting[0])
        } else {
            None
        }
        &&& post.pushed == self.pushed
        &&& post.waiting == self.waiting.skip(brought(out).len() as int)
        &&& post.popped == self.popped + brought(out)
    }
}

/// Changes the rate of a stream of samples. What it makes of them is its own affair; what it has
/// ready comes out in order.
pub trait Resampler: Sized {
    /// What has gone through. Only contracts speak of it; it is never called.
    spec fn flow(&self) -> Flow;

    fn push_sample(&mut self, sample: u32)
        ensures
            old(self).flow().takes(seq![sample], final(self).flow()),
    ;

    fn pop_sample(&mut self) -> (sample: Option<u32>)
        ensures
            old(self).flow().gives(sample, final(self).flow()),
    ;

    fn buffered(&self) -> (n: usize)
        ensures
            n == self.flow().waiting.len(),
    ;

    fn reset(&mut self) {
    }

    fn flush(&mut self) {
    }

    fn reconfigure(
        &mut self,
        _source_rate: u32,
        _source_channels: usize,
        _target_rate: u32,
        _block_frames: usize,
    ) {
    }
}

/// `post` is what a resampler may be once `samples` have been pushed into `pre`.
pub open spec fn takes_all<R: Resampler>(pre: R, samples: Seq<u32>, post: R) -> bool {
    pre.flow().takes(samples, post.flow())
}

/// `out` is what a resampler gives when it is asked once, and `after` what it is then.
pub open spec fn gives<R: Resampler>(full: R, out: Option<u32>, after: R) -> bool {
    full.flow().gives(out, after.flow())
}

/// What a resampler has made and still has, together with what it has handed out, only ever grows:
/// nothing that it made is lost, whatever is pushed and popped.
pub proof fn nothing_made_is_lost<R: Resampler>(
    pre: R,
    samples: Seq<u32>,
    full: R,
    out: Option<u32>,
    after: R,
)
    requires
        takes_all(pre, samples, full),
        gives(full, out, after),
    ensures
        (pre.flow().popped + pre.flow().waiting).is_prefix_of(
            full.flow().popped + full.flow().waiting,
        ),
        after.flow().popped + after.flow().waiting == full.flow().popped + full.flow().waiting,
{
    assert(after.flow().popped + after.flow().waiting =~= full.flow().popped
        + full.flow().waiting);
}

/// Pushes all samples, in order.
pub fn push_all<R: Resampler>(resampler: &mut R, samples: &Vec<u32>)
    ensures
        takes_all(*old(resampler), samples@, *final(resampler)),
{
    let mut i: usize = 0;
    proof {
        assert(samples@.take(0) =~= Seq::<u32>::empty());
        assert(resampler.flow().pushed + samples@.take(0) =~= resampler.flow().pushed);
    }
    while i < samples.len()
        invariant
            i <= samples@.len(),
            takes_all(*old(resampler), samples@.take(i as int), *resampler),
        decreases samples@.len() - i,
    {
        resampler.push_sample(samples[i]);
        proof {
            assert(old(resampler).flow().pushed + samples@.take(i + 1) =~= (old(
                resampler,
            ).flow().pushed + samples@.take(i as int)) + seq![samples@[i as int]]);
        }
        i += 1;
    }
    proof {
        assert(samples@.take(i as int) =~= samples@);
    }
}

} // verus!
