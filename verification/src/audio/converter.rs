//! Carrying streams over from one format to another.
use crate::audio::chunk::AudioChunk;
use crate::audio::float::Arithmetic;
use crate::audio::sample::{
    self, push_all, Flow, Resampler, ResamplerSpec, SampleSource, SyncSampleSource,
};
use crate::audio::sample_ops::{self, convert_to_mixer_channels};
use crate::audio::AudioFormat;
use std::collections::VecDeque;
use std::marker::PhantomData;
use vstd::prelude::*;

verus! {

/// Converts samples and hands them out in blocks. What is not taken in time is dropped, oldest
/// first.
pub struct FormatConverter<R, A> {
    pub from: AudioFormat,
    pub to: AudioFormat,
    pub block_samples: usize,
    pub capacity_samples: usize,
    pub resampler: R,
    pub pending: VecDeque<u32>,
    pub arithmetic: PhantomData<A>,
}

/// The last `capacity` samples.
pub open spec fn newest(samples: Seq<u32>, capacity: int) -> Seq<u32> {
    if samples.len() > capacity {
        samples.skip(samples.len() - capacity)
    } else {
        samples
    }
}

/// How many samples do not fill a frame.
pub open spec fn ragged(samples: Seq<u32>, channels: int) -> int {
    if channels > 0 {
        samples.len() as int % channels
    } else {
        0
    }
}

/// How many samples are more than `capacity`.
pub open spec fn excess(samples: Seq<u32>, capacity: int) -> int {
    if samples.len() > capacity {
        samples.len() - capacity
    } else {
        0
    }
}

impl<R: Resampler, A: Arithmetic> FormatConverter<R, A> {
    /// Whether the channels of so many samples can be converted.
    pub open spec fn fits(&self, samples: Seq<u32>) -> bool {
        self.from != self.to && self.from.channel_count > 0 ==> (samples.len() as int
            / self.from.channel_count as int) * self.to.channel_count <= usize::MAX
    }

    /// `gained` is what `samples` may become: themselves where nothing has to be converted;
    /// otherwise their channels are converted, the result goes through the resampler, and all
    /// that it has ready comes out, and nothing else has come out of it.
    pub open spec fn converts(self, samples: Seq<u32>, resampler: R, gained: Seq<u32>) -> bool {
        if self.from == self.to {
            gained == samples && resampler == self.resampler
        } else {
            exists|mapped: Seq<u32>, full: R| #[trigger]
                sample_ops::converts::<A>(
                    samples,
                    self.from.channel_count as int,
                    self.to.channel_count as int,
                    mapped,
                ) && #[trigger] sample::takes_all(self.resampler, mapped, full) && gained
                    == full.flow().waiting && resampler.flow() == (Flow {
                    waiting: Seq::empty(),
                    popped: self.resampler.flow().popped + gained,
                    ..full.flow()
                })
        }
    }
}

impl<R: Resampler + From<ResamplerSpec>, A: Arithmetic> FormatConverter<R, A> {
    /// What the resampler between two formats is made for.
    pub open spec fn resampler_spec(
        from: AudioFormat,
        to: AudioFormat,
        block_samples: usize,
    ) -> ResamplerSpec {
        ResamplerSpec {
            source_rate: from.sample_rate,
            source_channels: to.channel_count as usize,
            target_rate: to.sample_rate,
            block_frames: if to.channel_count == 0 {
                0
            } else {
                (block_samples as int / to.channel_count as int) as usize
            },
        }
    }

    pub fn new(
        from: AudioFormat,
        to: AudioFormat,
        block_samples: usize,
        capacity_samples: usize,
    ) -> (converter: Self)
        ensures
            converter.from == from,
            converter.to == to,
            converter.block_samples == block_samples,
            converter.capacity_samples == capacity_samples,
            converter.pending@ == Seq::<u32>::empty(),
            call_ensures(
                <R as From<ResamplerSpec>>::from,
                (Self::resampler_spec(from, to, block_samples),),
                converter.resampler,
            ),
    {
        let channels: usize = to.channel_count as usize;
        let spec: ResamplerSpec = ResamplerSpec {
            source_rate: from.sample_rate,
            source_channels: channels,
            target_rate: to.sample_rate,
            block_frames: if channels == 0 {
                0
            } else {
                block_samples / channels
            },
        };
        let resampler: R = R::from(spec);
        FormatConverter {
            from,
            to,
            block_samples,
            capacity_samples,
            resampler,
            pending: VecDeque::new(),
            arithmetic: PhantomData,
        }
    }
}

impl<R: Resampler, A: Arithmetic> FormatConverter<R, A> {
    pub fn pending_samples(&self) -> (n: usize)
        ensures
            n == self.pending@.len(),
    {
        self.pending.len()
    }

    /// Converts samples, and tells how many samples were dropped: those that did not fill a frame
    /// and those that were more than the converter may hold.
    pub fn feed(&mut self, samples: Vec<u32>) -> (dropped: usize)
        requires
            old(self).fits(samples@),
        ensures
            final(self).from == old(self).from,
            final(self).to == old(self).to,
            final(self).block_samples == old(self).block_samples,
            final(self).capacity_samples == old(self).capacity_samples,
            exists|gained: Seq<u32>| #[trigger]
                old(self).converts(samples@, final(self).resampler, gained) && ({
                    let all = old(self).pending@ + gained;
                    let lost = excess(all, old(self).capacity_samples as int) + if old(self).from
                        == old(self).to {
                        0
                    } else {
                        ragged(samples@, old(self).from.channel_count as int)
                    };
                    &&& final(self).pending@ == newest(all, old(self).capacity_samples as int)
                    &&& lost <= usize::MAX ==> dropped == lost
                    &&& lost > usize::MAX ==> dropped == usize::MAX
                }),
    {
        let ghost before = self.pending@;
        let ghost given = samples@;
        let ghost mut gained: Seq<u32> = samples@;
        let mut dropped: usize = 0;
        if self.from == self.to {
            let mut i: usize = 0;
            while i < samples.len()
                invariant
                    i <= samples@.len(),
                    samples@ == given,
                    before == old(self).pending@,
                    self.pending@ =~= before + samples@.take(i as int),
                    self.from == old(self).from,
                    self.to == old(self).to,
                    self.block_samples == old(self).block_samples,
                    self.capacity_samples == old(self).capacity_samples,
                    self.resampler == old(self).resampler,
                decreases samples@.len() - i,
            {
                self.pending.push_back(samples[i]);
                i += 1;
            }
            proof {
                assert(samples@.take(i as int) =~= samples@);
            }
        } else {
            let src_channels: usize = self.from.channel_count as usize;
            if src_channels > 0 {
                dropped = samples.len() % src_channels;
            }
            let chunk: AudioChunk = AudioChunk::new(0, self.from, samples);
            let mapped: AudioChunk = convert_to_mixer_channels::<A>(chunk, self.to.channel_count);
            push_all(&mut self.resampler, &mapped.audio_data);
            let ghost full = self.resampler;
            proof {
                gained = full.flow().waiting;
                assert(before + gained.take(0) =~= before);
                assert(gained.skip(0) =~= gained);
                assert(full.flow().popped + gained.take(0) =~= full.flow().popped);
            }
            let ghost mut taken: nat = 0;
            loop
                invariant
                    taken <= gained.len(),
                    before == old(self).pending@,
                    self.pending@ =~= before + gained.take(taken as int),
                    self.resampler.flow().waiting =~= gained.skip(taken as int),
                    self.resampler.flow().popped =~= full.flow().popped + gained.take(
                        taken as int,
                    ),
                    self.resampler.flow().pushed == full.flow().pushed,
                    self.from == old(self).from,
                    self.to == old(self).to,
                    self.block_samples == old(self).block_samples,
                    self.capacity_samples == old(self).capacity_samples,
                ensures
                    taken == gained.len(),
                    self.resampler.flow().waiting.len() == 0,
                    self.resampler.flow().popped =~= full.flow().popped + gained,
                    self.resampler.flow().pushed == full.flow().pushed,
                decreases gained.len() - taken,
            {
                match self.resampler.pop_sample() {
                    Some(sample) => {
                        self.pending.push_back(sample);
                        proof {
                            taken = taken + 1;
                        }
                    },
                    None => {
                        proof {
                            assert(gained.take(taken as int) =~= gained);
                        }
                        break;
                    },
                }
            }
            proof {
                assert(gained.take(taken as int) =~= gained);
                assert(self.resampler.flow().waiting =~= Seq::empty());
                assert(sample_ops::converts::<A>(
                    given,
                    old(self).from.channel_count as int,
                    old(self).to.channel_count as int,
                    mapped.audio_data@,
                ));
                assert(sample::takes_all(old(self).resampler, mapped.audio_data@, full));
            }
        }
        proof {
            assert(old(self).converts(given, self.resampler, gained));
            assert(self.pending@ =~= before + gained);
            assert(dropped == if old(self).from == old(self).to {
                0
            } else {
                ragged(given, old(self).from.channel_count as int)
            });
        }
        if self.pending.len() > self.capacity_samples {
            let over: usize = self.pending.len() - self.capacity_samples;
            let kept: VecDeque<u32> = self.pending.split_off(over);
            self.pending = kept;
            dropped = dropped.saturating_add(over);
        }
        proof {
            assert(self.pending@ =~= newest(before + gained, old(self).capacity_samples as int));
            assert(old(self).converts(given, self.resampler, gained));
            let lost = excess(before + gained, old(self).capacity_samples as int) + if old(self).from
                == old(self).to {
                0
            } else {
                ragged(given, old(self).from.channel_count as int)
            };
            assert(lost <= usize::MAX ==> dropped == lost);
            assert(lost > usize::MAX ==> dropped == usize::MAX);
        }
        dropped
    }

    /// The oldest block, once one is complete.
    pub fn take_block(&mut self) -> (block: Option<Vec<u32>>)
        ensures
            final(self).from == old(self).from,
            final(self).to == old(self).to,
            final(self).block_samples == old(self).block_samples,
            final(self).capacity_samples == old(self).capacity_samples,
            final(self).resampler == old(self).resampler,
            if old(self).block_samples == 0 || old(self).pending@.len() < old(self).block_samples {
                block is None && *final(self) == *old(self)
            } else {
                &&& block matches Some(block) && block@ == old(self).pending@.take(
                    old(self).block_samples as int,
                )
                &&& final(self).pending@ == old(self).pending@.skip(
                    old(self).block_samples as int,
                )
            },
    {
        if self.block_samples == 0 || self.pending.len() < self.block_samples {
            return None;
        }
        let ghost before = self.pending@;
        let size: usize = self.block_samples;
        let mut block: Vec<u32> = Vec::new();
        while block.len() < size
            invariant
                size == self.block_samples,
                size <= before.len(),
                block@.len() <= size,
                block@ =~= before.take(block@.len() as int),
                self.pending@ =~= before.skip(block@.len() as int),
                self.from == old(self).from,
                self.to == old(self).to,
                self.block_samples == old(self).block_samples,
                self.capacity_samples == old(self).capacity_samples,
                self.resampler == old(self).resampler,
            decreases size - block@.len(),
        {
            if let Some(sample) = self.pending.pop_front() {
                block.push(sample);
            }
        }
        Some(block)
    }
}

/// A converter never holds more than it may, and drops the oldest samples only.
pub proof fn newest_is_bounded(samples: Seq<u32>, capacity: int)
    requires
        0 <= capacity,
    ensures
        newest(samples, capacity).len() <= capacity,
        newest(samples, capacity).len() + excess(samples, capacity) == samples.len(),
        newest(samples, capacity).is_suffix_of(samples),
{
}

/// A source at another rate.
pub struct ResampledSource<S, R> {
    pub delegate: S,
    pub resampler: R,
    pub out_format: AudioFormat,
    pub drained: bool,
}

impl<S: SampleSource, R: Resampler + From<ResamplerSpec>> ResampledSource<S, R> {
    pub fn new(delegate: S, target_rate: u32, chunk_frames: usize) -> (source: Self)
        ensures
            source.delegate == delegate,
            !source.drained,
            source.out_format == (AudioFormat {
                channel_count: delegate.spec_format().channel_count,
                sample_rate: target_rate,
            }),
            call_ensures(
                <R as From<ResamplerSpec>>::from,
                ((ResamplerSpec {
                    source_rate: delegate.spec_format().sample_rate,
                    source_channels: delegate.spec_format().channel_count as usize,
                    target_rate,
                    block_frames: chunk_frames,
                }),),
                source.resampler,
            ),
    {
        let format: AudioFormat = *delegate.format();
        let spec: ResamplerSpec = ResamplerSpec {
            source_rate: format.sample_rate,
            source_channels: format.channel_count as usize,
            target_rate,
            block_frames: chunk_frames,
        };
        let resampler: R = R::from(spec);
        ResampledSource {
            delegate,
            resampler,
            out_format: AudioFormat::new(format.channel_count, target_rate),
            drained: false,
        }
    }
}

/// `out` is what a resampler gives once a delegate has brought `input`, and `after` what it is
/// then. The end of the delegate brings nothing.
pub open spec fn drives<R: Resampler>(
    before: R,
    input: Option<u32>,
    out: Option<u32>,
    after: R,
) -> bool {
    exists|full: R| #[trigger]
        sample::takes_all(before, sample::brought(input), full) && (input is None ==> full
            == before) && sample::gives(full, out, after)
}

impl<S, R: Resampler> ResampledSource<S, R> {
    pub fn format(&self) -> (format: &AudioFormat)
        ensures
            *format == self.out_format,
    {
        &self.out_format
    }

    /// What is ready, without asking the delegate: `None` where the delegate has to be asked.
    pub fn take_ready(&mut self) -> (ready: Option<Option<u32>>)
        ensures
            final(self).delegate == old(self).delegate,
            final(self).out_format == old(self).out_format,
            final(self).drained == old(self).drained,
            exists|sample: Option<u32>| #[trigger]
                sample::gives(old(self).resampler, sample, final(self).resampler) && ready
                    == if sample is Some || old(self).drained {
                    Some(sample)
                } else {
                    None
                },
    {
        let sample: Option<u32> = self.resampler.pop_sample();
        proof {
            assert(sample::gives(old(self).resampler, sample, self.resampler));
        }
        if sample.is_some() || self.drained {
            Some(sample)
        } else {
            None
        }
    }

    /// Takes what the delegate has brought: a sample goes through the resampler, its end drains
    /// the source.
    pub fn drive(&mut self, input: Option<u32>) -> (out: Option<u32>)
        ensures
            final(self).delegate == old(self).delegate,
            final(self).out_format == old(self).out_format,
            final(self).drained == (old(self).drained || input is None),
            drives(old(self).resampler, input, out, final(self).resampler),
    {
        match input {
            Some(sample) => {
                self.resampler.push_sample(sample);
            },
            None => {
                self.drained = true;
            },
        }
        let ghost full = self.resampler;
        let out: Option<u32> = self.resampler.pop_sample();
        proof {
            let before = old(self).resampler;
            assert(before.flow().pushed + Seq::<u32>::empty() =~= before.flow().pushed);
            assert(sample::takes_all(before, sample::brought(input), full));
        }
        out
    }
}

/// Whether a resampler that `flow` has gone through has something ready, or the delegate ends,
/// within `n` more samples.
pub open spec fn settles<S: SyncSampleSource, R: Resampler>(
    delegate: S,
    flow: Flow,
    n: nat,
) -> bool
    decreases n,
{
    &&& delegate.ready()
    &&& forall|input: Option<u32>, left: S, next: R|
        #![trigger S::yields(delegate, input, left), next.flow()]
        S::yields(delegate, input, left) && input is Some && flow.takes(
            sample::brought(input),
            next.flow(),
        ) && next.flow().waiting.len() == 0 ==> n > 0 && settles::<S, R>(
            left,
            next.flow(),
            (n - 1) as nat,
        )
}

/// `hungry` is what a resampler may be after it was driven with each of `taken` in turn, as the
/// delegate brought them, and nothing was ready after any of them.
pub open spec fn starved<S: SyncSampleSource, R: Resampler>(
    delegate: S,
    resampler: R,
    taken: Seq<u32>,
    left: S,
    hungry: R,
) -> bool
    decreases taken.len(),
{
    if taken.len() == 0 {
        left == delegate && hungry == resampler
    } else {
        exists|mid: S, from: R|
            starved(delegate, resampler, taken.drop_last(), mid, from) && #[trigger] S::yields(
                mid,
                Some(taken.last()),
                left,
            ) && #[trigger] drives(from, Some(taken.last()), None, hungry)
    }
}

impl<S: SyncSampleSource, R: Resampler> SyncSampleSource for ResampledSource<S, R> {
    open spec fn ready(&self) -> bool {
        self.resampler.flow().waiting.len() > 0 || self.drained || exists|n: nat| #[trigger]
            settles::<S, R>(self.delegate, self.resampler.flow(), n)
    }

    /// What is ready comes out first. Then the delegate is asked until something is ready, or
    /// until it ends.
    open spec fn yields(pre: Self, sample: Option<u32>, post: Self) -> bool {
        &&& post.out_format == pre.out_format
        &&& if pre.resampler.flow().waiting.len() > 0 || pre.drained {
            &&& sample::gives(pre.resampler, sample, post.resampler)
            &&& post.delegate == pre.delegate
            &&& post.drained == pre.drained
        } else {
            exists|asked: R, taken: Seq<u32>, mid: S, hungry: R, input: Option<u32>|
                sample::gives(pre.resampler, None, asked) && #[trigger] starved(
                    pre.delegate,
                    asked,
                    taken,
                    mid,
                    hungry,
                ) && #[trigger] S::yields(mid, input, post.delegate) && drives(
                    hungry,
                    input,
                    sample,
                    post.resampler,
                ) && post.drained == (input is None) && (input is None <==> sample is None)
        }
    }

    fn next_sync(&mut self) -> (sample: Option<u32>) {
        if let Some(ready) = self.take_ready() {
            return ready;
        }
        let ghost asked = self.resampler;
        let ghost mut taken: Seq<u32> = Seq::empty();
        let ghost mut n: nat = choose|n: nat| #[trigger]
            settles::<S, R>(old(self).delegate, old(self).resampler.flow(), n);
        proof {
            assert(asked.flow().popped =~= old(self).resampler.flow().popped);
            assert(asked.flow().waiting =~= old(self).resampler.flow().waiting);
        }
        loop
            invariant
                !self.drained,
                !old(self).drained,
                old(self).resampler.flow().waiting.len() == 0,
                sample::gives(old(self).resampler, None, asked),
                self.out_format == old(self).out_format,
                self.resampler.flow().waiting.len() == 0,
                starved(old(self).delegate, asked, taken, self.delegate, self.resampler),
                settles::<S, R>(self.delegate, self.resampler.flow(), n),
            decreases n,
        {
            let ghost before = *self;
            let ghost earlier = taken;
            let input: Option<u32> = self.delegate.next_sync();
            let out: Option<u32> = self.drive(input);
            proof {
                assert(starved(
                    old(self).delegate,
                    asked,
                    earlier,
                    before.delegate,
                    before.resampler,
                ));
                assert(S::yields(before.delegate, input, self.delegate));
                assert(drives(before.resampler, input, out, self.resampler));
            }
            if out.is_some() || self.drained {
                return out;
            }
            proof {
                taken = taken.push(input->0);
                assert(taken.drop_last() =~= earlier);
                assert(S::yields(before.delegate, Some(taken.last()), self.delegate));
                assert(drives(before.resampler, Some(taken.last()), None, self.resampler));
                assert(self.resampler.flow().popped =~= before.resampler.flow().popped);
                n = (n - 1) as nat;
            }
        }
    }
}

/// Once a source is drained and nothing waits, it stays so.
pub proof fn drained_stays_silent<S: SyncSampleSource, R: Resampler>(
    source: ResampledSource<S, R>,
    sample: Option<u32>,
    after: ResampledSource<S, R>,
)
    requires
        source.drained,
        source.resampler.flow().waiting.len() == 0,
        ResampledSource::<S, R>::yields(source, sample, after),
    ensures
        sample is None,
        after.drained,
        after.resampler.flow().waiting.len() == 0,
        after.delegate == source.delegate,
{
}

} // verus!
