//! Telling sound from silence, and skipping work on silence.
use crate::audio::chunk::AudioChunk;
use crate::audio::float::{self, Arithmetic};
use crate::audio::transform::ChunkTransform;
use std::marker::PhantomData;
use vstd::prelude::*;

verus! {

/// Decides whether samples are worth processing.
pub trait Detector: Sized {
    /// `active` is what `pre` may decide on `samples`, and `post` what the detector is then.
    open spec fn detects(pre: Self, samples: Seq<u32>, post: Self, active: bool) -> bool {
        true
    }

    fn detect(&mut self, samples: &[u32]) -> (active: bool)
        ensures
            Self::detects(*old(self), samples@, *final(self), active),
    ;
}

/// Detects a single sample that reaches a threshold.
pub struct PeakDetector {
    pub threshold: u32,
}

/// Some sample does not stay below the threshold. What is not a number does not.
pub open spec fn peaks(samples: Seq<u32>, threshold: u32) -> bool {
    exists|i: int|
        0 <= i < samples.len() && !float::less(
            #[trigger] float::magnitude(samples[i]),
            threshold,
        )
}

impl PeakDetector {
    pub fn new(threshold: u32) -> (detector: Self)
        ensures
            detector.threshold == threshold,
    {
        PeakDetector { threshold }
    }
}

impl Detector for PeakDetector {
    open spec fn detects(pre: Self, samples: Seq<u32>, post: Self, active: bool) -> bool {
        post == pre && active == peaks(samples, pre.threshold)
    }

    fn detect(&mut self, samples: &[u32]) -> (active: bool) {
        let mut i: usize = 0;
        while i < samples.len()
            invariant
                i <= samples@.len(),
                *self == *old(self),
                forall|k: int|
                    0 <= k < i ==> float::less(
                        #[trigger] float::magnitude(samples@[k]),
                        self.threshold,
                    ),
            decreases samples@.len() - i,
        {
            if !float::less(float::magnitude(samples[i]), self.threshold) {
                return true;
            }
            i += 1;
        }
        false
    }
}

/// Detects the energy of a chunk.
pub struct RmsDetector<A> {
    pub threshold: u32,
    pub arithmetic: PhantomData<A>,
}

/// `total` is the sum of the squares of the samples, added up in order.
pub open spec fn squares_sum<A: Arithmetic>(samples: Seq<u32>, total: u32) -> bool
    decreases samples.len(),
{
    if samples.len() == 0 {
        total == float::ZERO
    } else {
        exists|before: u32, square: u32|
            squares_sum::<A>(samples.drop_last(), before) && call_ensures(
                A::product,
                (samples.last(), samples.last()),
                square,
            ) && #[trigger] call_ensures(A::sum, (before, square), total)
    }
}

/// `rms` is the root of the mean of the squares.
pub open spec fn root_mean_square<A: Arithmetic>(samples: Seq<u32>, rms: u32) -> bool {
    exists|total: u32, count: u32, mean: u32| #[trigger]
        squares_sum::<A>(samples, total) && call_ensures(
            A::count,
            (samples.len() as usize,),
            count,
        ) && #[trigger] call_ensures(A::quotient, (total, count), mean) && call_ensures(
            A::square_root,
            (mean,),
            rms,
        )
}

impl<A: Arithmetic> RmsDetector<A> {
    pub fn new(threshold: u32) -> (detector: Self)
        ensures
            detector.threshold == threshold,
    {
        RmsDetector { threshold, arithmetic: PhantomData }
    }
}

impl<A: Arithmetic> Detector for RmsDetector<A> {
    open spec fn detects(pre: Self, samples: Seq<u32>, post: Self, active: bool) -> bool {
        &&& post == pre
        &&& if samples.len() == 0 {
            !active
        } else {
            exists|rms: u32| #[trigger]
                root_mean_square::<A>(samples, rms) && active == (float::is_nan(rms)
                    || float::at_most(pre.threshold, rms))
        }
    }

    fn detect(&mut self, samples: &[u32]) -> (active: bool) {
        if samples.len() == 0 {
            return false;
        }
        let mut total: u32 = float::ZERO;
        let mut i: usize = 0;
        proof {
            assert(samples@.take(0) =~= Seq::<u32>::empty());
        }
        while i < samples.len()
            invariant
                i <= samples@.len(),
                *self == *old(self),
                squares_sum::<A>(samples@.take(i as int), total),
            decreases samples@.len() - i,
        {
            let square: u32 = A::product(samples[i], samples[i]);
            let more: u32 = A::sum(total, square);
            proof {
                let upto = samples@.take(i + 1);
                assert(upto.drop_last() =~= samples@.take(i as int));
                assert(call_ensures(A::sum, (total, square), more));
                assert(squares_sum::<A>(upto, more));
            }
            total = more;
            i += 1;
        }
        let count: u32 = A::count(samples.len());
        let mean: u32 = A::quotient(total, count);
        let rms: u32 = A::square_root(mean);
        proof {
            assert(samples@.take(i as int) =~= samples@);
            assert(squares_sum::<A>(samples@, total));
            assert(call_ensures(A::quotient, (total, count), mean));
            assert(root_mean_square::<A>(samples@, rms));
        }
        float::is_nan(rms) || float::at_most(self.threshold, rms)
    }
}

/// Stays active for `chunks` chunks after the inner detector has fallen silent.
pub struct Hysteresis<D> {
    pub inner: D,
    pub chunks: usize,
    pub left: usize,
}

/// What one chunk does to the countdown: `heard` is what the inner detector says.
pub open spec fn countdown(chunks: nat, left: nat, heard: bool) -> nat {
    if heard {
        chunks
    } else if left > 0 {
        (left - 1) as nat
    } else {
        0
    }
}

/// The countdown after `n` silent chunks.
pub open spec fn countdown_after(chunks: nat, left: nat, n: nat) -> nat
    decreases n,
{
    if n == 0 {
        left
    } else {
        countdown(chunks, countdown_after(chunks, left, (n - 1) as nat), false)
    }
}

impl<D> Hysteresis<D> {
    pub fn new(inner: D, chunks: usize) -> (detector: Self)
        ensures
            detector.inner == inner,
            detector.chunks == chunks,
            detector.left == 0,
    {
        Hysteresis { inner, chunks, left: 0 }
    }
}

impl<D: Detector> Detector for Hysteresis<D> {
    open spec fn detects(pre: Self, samples: Seq<u32>, post: Self, active: bool) -> bool {
        exists|heard: bool| #[trigger]
            D::detects(pre.inner, samples, post.inner, heard) && post.chunks == pre.chunks
                && post.left == countdown(pre.chunks as nat, pre.left as nat, heard) && active == (
            heard || pre.left > 0)
    }

    fn detect(&mut self, samples: &[u32]) -> (active: bool) {
        let heard: bool = self.inner.detect(samples);
        let active: bool = if heard {
            self.left = self.chunks;
            true
        } else {
            let active: bool = self.left > 0;
            self.left = self.left.saturating_sub(1);
            active
        };
        proof {
            assert(D::detects(old(self).inner, samples@, self.inner, heard));
        }
        active
    }
}

/// After a sound, exactly `chunks` silent chunks stay active: the countdown after `n` of them is
/// above 0 just as long as `n` is below `chunks`.
pub proof fn hangover_lasts(chunks: nat, left: nat, n: nat)
    ensures
        countdown(chunks, left, true) == chunks,
        countdown_after(chunks, left, n) == if n < left {
            (left - n) as nat
        } else {
            0
        },
        countdown_after(chunks, countdown(chunks, left, true), n) > 0 <==> n < chunks,
    decreases n,
{
    if n > 0 {
        hangover_lasts(chunks, left, (n - 1) as nat);
        hangover_lasts(chunks, chunks, (n - 1) as nat);
    }
}

/// Runs its inner stage on what the detector finds active, and passes the rest as it is.
pub struct PassthroughGate<T, D> {
    pub inner: T,
    pub detector: D,
}

impl<T, D> PassthroughGate<T, D> {
    pub fn new(inner: T, detector: D) -> (gate: Self)
        ensures
            gate.inner == inner,
            gate.detector == detector,
    {
        PassthroughGate { inner, detector }
    }
}

impl<T, D> ChunkTransform for PassthroughGate<T, D> where
    T: ChunkTransform<OutputT = AudioChunk>,
    D: Detector,
 {
    type OutputT = AudioChunk;

    open spec fn accepts(&self, chunk: AudioChunk) -> bool {
        forall|detector: D| #[trigger]
            D::detects(self.detector, chunk.audio_data@, detector, true) ==> self.inner.accepts(
                chunk,
            )
    }

    open spec fn transforms(pre: Self, chunk: AudioChunk, post: Self, out: AudioChunk) -> bool {
        exists|active: bool| #[trigger]
            D::detects(pre.detector, chunk.audio_data@, post.detector, active) && if active {
                T::transforms(pre.inner, chunk, post.inner, out)
            } else {
                post.inner == pre.inner && out == chunk
            }
    }

    fn transform(&mut self, chunk: AudioChunk) -> (out: AudioChunk) {
        let active: bool = self.detector.detect(chunk.audio_data.as_slice());
        let ghost data = chunk.audio_data@;
        let out = if active {
            self.inner.transform(chunk)
        } else {
            chunk
        };
        proof {
            assert(D::detects(old(self).detector, data, self.detector, active));
        }
        out
    }
}

/// Runs its inner stage on what the detector finds active, and drops the rest.
pub struct SilenceGate<E, O, D> {
    pub inner: E,
    pub detector: D,
    pub marker: PhantomData<O>,
}

impl<E, O, D> SilenceGate<E, O, D> {
    pub fn new(inner: E, detector: D) -> (gate: Self)
        ensures
            gate.inner == inner,
            gate.detector == detector,
    {
        SilenceGate { inner, detector, marker: PhantomData }
    }
}

impl<E, O, D> ChunkTransform for SilenceGate<E, O, D> where
    E: ChunkTransform<OutputT = Option<O>>,
    D: Detector,
 {
    type OutputT = Option<O>;

    open spec fn accepts(&self, chunk: AudioChunk) -> bool {
        forall|detector: D| #[trigger]
            D::detects(self.detector, chunk.audio_data@, detector, true) ==> self.inner.accepts(
                chunk,
            )
    }

    open spec fn transforms(pre: Self, chunk: AudioChunk, post: Self, out: Option<O>) -> bool {
        exists|active: bool| #[trigger]
            D::detects(pre.detector, chunk.audio_data@, post.detector, active) && if active {
                E::transforms(pre.inner, chunk, post.inner, out)
            } else {
                post.inner == pre.inner && out is None
            }
    }

    fn transform(&mut self, chunk: AudioChunk) -> (out: Option<O>) {
        let active: bool = self.detector.detect(chunk.audio_data.as_slice());
        let ghost data = chunk.audio_data@;
        let out = if active {
            self.inner.transform(chunk)
        } else {
            None
        };
        proof {
            assert(D::detects(old(self).detector, data, self.detector, active));
        }
        out
    }
}

} // verus!
