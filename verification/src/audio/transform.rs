//! Processing of chunks, one stage after the other.
use crate::audio::chunk::AudioChunk;
use crate::audio::float::{self, Arithmetic};
use crate::audio::jitter::JitterBuffer;
use crate::audio::sample_ops::{self, convert_to_mixer_channels};
use crate::audio::window::{self, Window};
use crate::audio::AudioFormat;
pub use crate::audio::denoiser::{Denoise, DenoiseControl};
pub use crate::audio::depop::{Depop, POP_THRESHOLD};
pub use crate::audio::detect::{
    Detector, Hysteresis, PassthroughGate, PeakDetector, RmsDetector, SilenceGate,
};
use std::marker::PhantomData;
use std::sync::atomic::{AtomicBool, AtomicU64, AtomicUsize, Ordering};
use std::sync::Arc;
use vstd::prelude::*;

verus! {

/// One stage of processing.
pub trait ChunkTransform: Sized {
    type OutputT;

    /// Whether the stage can take `chunk` as it stands.
    open spec fn accepts(&self, chunk: AudioChunk) -> bool {
        true
    }

    /// `out` is what `pre` may make of `chunk`, and `post` what the stage is then.
    open spec fn transforms(
        pre: Self,
        chunk: AudioChunk,
        post: Self,
        out: Self::OutputT,
    ) -> bool {
        true
    }

    fn transform(&mut self, chunk: AudioChunk) -> (out: Self::OutputT)
        requires
            old(self).accepts(chunk),
        ensures
            Self::transforms(*old(self), chunk, *final(self), out),
    ;

    /// This stage, and behind it `next`.
    fn chain<N>(self, next: N) -> (link: Link<Self, N>)
        ensures
            link.first == self,
            link.second == next,
    {
        Link { first: self, second: next }
    }
}

/// Two stages, the second fed by the first.
pub struct Link<A, B> {
    pub first: A,
    pub second: B,
}

impl<A: ChunkTransform<OutputT = AudioChunk>, B: ChunkTransform> ChunkTransform for Link<A, B> {
    type OutputT = B::OutputT;

    open spec fn accepts(&self, chunk: AudioChunk) -> bool {
        &&& self.first.accepts(chunk)
        &&& forall|first: A, between: AudioChunk| #[trigger]
            A::transforms(self.first, chunk, first, between) ==> self.second.accepts(between)
    }

    open spec fn transforms(
        pre: Self,
        chunk: AudioChunk,
        post: Self,
        out: Self::OutputT,
    ) -> bool {
        exists|between: AudioChunk| #[trigger]
            A::transforms(pre.first, chunk, post.first, between) && B::transforms(
                pre.second,
                between,
                post.second,
                out,
            )
    }

    fn transform(&mut self, chunk: AudioChunk) -> (out: Self::OutputT) {
        let between: AudioChunk = self.first.transform(chunk);
        let ghost passed = between;
        let out = self.second.transform(between);
        proof {
            assert(A::transforms(old(self).first, chunk, self.first, passed));
        }
        out
    }
}

impl ChunkTransform for () {
    type OutputT = AudioChunk;

    open spec fn accepts(&self, chunk: AudioChunk) -> bool {
        true
    }

    open spec fn transforms(pre: Self, chunk: AudioChunk, post: Self, out: AudioChunk) -> bool {
        post == pre && out == chunk
    }

    fn transform(&mut self, chunk: AudioChunk) -> (out: AudioChunk) {
        chunk
    }
}

/// Chaining is associative: three stages do the same, whichever two are linked first.
pub proof fn chain_is_associative<
    A: ChunkTransform<OutputT = AudioChunk>,
    B: ChunkTransform<OutputT = AudioChunk>,
    C: ChunkTransform,
>(
    left: Link<Link<A, B>, C>,
    right: Link<A, Link<B, C>>,
    chunk: AudioChunk,
    left_after: Link<Link<A, B>, C>,
    right_after: Link<A, Link<B, C>>,
    out: C::OutputT,
)
    requires
        left.first.first == right.first && left.first.second == right.second.first && left.second
            == right.second.second,
        left_after.first.first == right_after.first && left_after.first.second
            == right_after.second.first && left_after.second == right_after.second.second,
    ensures
        Link::<Link<A, B>, C>::transforms(left, chunk, left_after, out) <==> Link::<
            A,
            Link<B, C>,
        >::transforms(right, chunk, right_after, out),
{
    if Link::<Link<A, B>, C>::transforms(left, chunk, left_after, out) {
        let second = choose|between: AudioChunk| #[trigger]
            Link::<A, B>::transforms(left.first, chunk, left_after.first, between)
                && C::transforms(left.second, between, left_after.second, out);
        let first = choose|between: AudioChunk| #[trigger]
            A::transforms(left.first.first, chunk, left_after.first.first, between)
                && B::transforms(left.first.second, between, left_after.first.second, second);
        assert(B::transforms(right.second.first, first, right_after.second.first, second));
        assert(Link::<B, C>::transforms(right.second, first, right_after.second, out));
        assert(A::transforms(right.first, chunk, right_after.first, first));
    }
    if Link::<A, Link<B, C>>::transforms(right, chunk, right_after, out) {
        let first = choose|between: AudioChunk| #[trigger]
            A::transforms(right.first, chunk, right_after.first, between) && Link::<
                B,
                C,
            >::transforms(right.second, between, right_after.second, out);
        let second = choose|between: AudioChunk| #[trigger]
            B::transforms(right.second.first, first, right_after.second.first, between)
                && C::transforms(right.second.second, between, right_after.second.second, out);
        assert(A::transforms(left.first.first, chunk, left_after.first.first, first));
        assert(Link::<A, B>::transforms(left.first, chunk, left_after.first, second));
    }
}

/// The unit stage changes nothing, in front of a stage or behind it.
pub proof fn unit_is_neutral<B: ChunkTransform<OutputT = AudioChunk>>(
    before: Link<(), B>,
    behind: Link<B, ()>,
    chunk: AudioChunk,
    before_after: Link<(), B>,
    behind_after: Link<B, ()>,
    out: AudioChunk,
)
    ensures
        Link::<(), B>::transforms(before, chunk, before_after, out) <==> B::transforms(
            before.second,
            chunk,
            before_after.second,
            out,
        ),
        Link::<B, ()>::transforms(behind, chunk, behind_after, out) <==> B::transforms(
            behind.first,
            chunk,
            behind_after.first,
            out,
        ),
{
    assert(<() as ChunkTransform>::transforms(before.first, chunk, before_after.first, chunk));
    assert(<() as ChunkTransform>::transforms(behind.second, out, behind_after.second, out));
}

/// What comes out of a stage that may drop a chunk.
pub trait MaybeChunk: Sized {
    spec fn spec_into_chunk(self) -> Option<AudioChunk>;

    fn into_chunk(self) -> (chunk: Option<AudioChunk>)
        ensures
            chunk == self.spec_into_chunk(),
    ;
}

impl MaybeChunk for AudioChunk {
    open spec fn spec_into_chunk(self) -> Option<AudioChunk> {
        Some(self)
    }

    fn into_chunk(self) -> (chunk: Option<AudioChunk>) {
        Some(self)
    }
}

impl MaybeChunk for Option<AudioChunk> {
    open spec fn spec_into_chunk(self) -> Option<AudioChunk> {
        self
    }

    fn into_chunk(self) -> (chunk: Option<AudioChunk>) {
        self
    }
}

/// Another handle on what `shared` refers to.
///
/// Trusted: `Arc::clone` hands out a second pointer to the same allocation, so both refer to one
/// value.
#[verifier::external_body]
pub(crate) fn share<T>(shared: &Arc<T>) -> (other: Arc<T>)
    ensures
        other == *shared,
{
    Arc::clone(shared)
}

/// A switch that several threads can see.
pub struct MuteControl {
    muted: AtomicBool,
}

impl MuteControl {
    /// What holds the switch.
    pub closed spec fn held_in(&self) -> AtomicBool {
        self.muted
    }

    /// The switch was made at `muted`.
    pub closed spec fn made_at(&self, muted: bool) -> bool {
        call_ensures(AtomicBool::new, (muted,), self.muted)
    }

    /// The switch was moved to `muted`.
    pub closed spec fn moved_to(&self, muted: bool) -> bool {
        call_ensures(AtomicBool::store, (&self.muted, muted, Ordering::Relaxed), ())
    }

    /// A look at the switch has found it at `muted`.
    pub closed spec fn seen_at(&self, muted: bool) -> bool {
        call_ensures(AtomicBool::load, (&self.muted, Ordering::Relaxed), muted)
    }

    pub fn new(muted: bool) -> (control: Self)
        ensures
            control.made_at(muted),
    {
        MuteControl { muted: AtomicBool::new(muted) }
    }

    pub fn set(&self, muted: bool)
        ensures
            self.moved_to(muted),
    {
        self.muted.store(muted, Ordering::Relaxed);
    }

    /// What the switch was last seen at. Other threads may have moved it by then.
    pub fn is_muted(&self) -> (muted: bool)
        ensures
            self.seen_at(muted),
    {
        self.muted.load(Ordering::Relaxed)
    }
}

/// What is asked of a switch is stored as it is, where it is looked up, and told as it was found.
pub proof fn switch_is_stored_and_told_as_it_is(
    muted: bool,
    made: MuteControl,
    control: MuteControl,
    seen: bool,
)
    requires
        call_ensures(MuteControl::new, (muted,), made),
        call_ensures(MuteControl::set, (&control, muted), ()),
        call_ensures(MuteControl::is_muted, (&control,), seen),
    ensures
        call_ensures(AtomicBool::new, (muted,), made.held_in()),
        call_ensures(AtomicBool::store, (&control.held_in(), muted, Ordering::Relaxed), ()),
        call_ensures(AtomicBool::load, (&control.held_in(), Ordering::Relaxed), seen),
{
}

/// `out` is `chunk`, silenced where `muted`.
pub open spec fn mutes(chunk: AudioChunk, muted: bool, out: AudioChunk) -> bool {
    &&& out.sequence_number == chunk.sequence_number
    &&& out.format == chunk.format
    &&& out.audio_data@ == if muted {
        Seq::new(chunk.audio_data@.len(), |i: int| float::ZERO)
    } else {
        chunk.audio_data@
    }
}

/// Silences a chunk, or hands it back as it is.
pub fn mute_chunk(chunk: AudioChunk, muted: bool) -> (out: AudioChunk)
    ensures
        mutes(chunk, muted, out),
{
    if !muted {
        return chunk;
    }
    let mut out: AudioChunk = chunk;
    let len: usize = out.audio_data.len();
    let mut i: usize = 0;
    while i < len
        invariant
            i <= len,
            len == chunk.audio_data@.len(),
            out.audio_data@.len() == len,
            out.sequence_number == chunk.sequence_number,
            out.format == chunk.format,
            forall|k: int| 0 <= k < i ==> #[trigger] out.audio_data@[k] == float::ZERO,
        decreases len - i,
    {
        out.audio_data[i] = float::ZERO;
        i += 1;
    }
    proof {
        assert(out.audio_data@ =~= Seq::new(chunk.audio_data@.len(), |i: int| float::ZERO));
    }
    out
}

/// Silences chunks while a switch is on. They keep their numbers.
pub struct Mute {
    pub control: Arc<MuteControl>,
}

impl Mute {
    pub fn new(control: Arc<MuteControl>) -> (mute: Self)
        ensures
            mute.control == control,
    {
        Mute { control }
    }

    pub fn shared(muted: bool) -> (pair: (Self, Arc<MuteControl>))
        ensures
            pair.0.control == pair.1,
            pair.1.made_at(muted),
    {
        let control: Arc<MuteControl> = Arc::new(MuteControl::new(muted));
        (Mute::new(share(&control)), control)
    }
}

impl ChunkTransform for Mute {
    type OutputT = AudioChunk;

    open spec fn accepts(&self, chunk: AudioChunk) -> bool {
        true
    }

    open spec fn transforms(pre: Self, chunk: AudioChunk, post: Self, out: AudioChunk) -> bool {
        &&& post == pre
        &&& exists|muted: bool| pre.control.seen_at(muted) && #[trigger] mutes(chunk, muted, out)
    }

    fn transform(&mut self, chunk: AudioChunk) -> (out: AudioChunk) {
        let muted: bool = self.control.is_muted();
        mute_chunk(chunk, muted)
    }
}

/// A volume in percent that several threads can see, never above its maximum.
pub struct GainControl {
    volume: AtomicUsize,
    max_volume: usize,
}

impl GainControl {
    /// What holds the volume.
    pub closed spec fn held_in(&self) -> AtomicUsize {
        self.volume
    }

    pub closed spec fn max_volume(&self) -> usize {
        self.max_volume
    }

    /// A volume, or the maximum where it is above that.
    pub open spec fn bounded(volume: usize, max_volume: usize) -> usize {
        if volume < max_volume {
            volume
        } else {
            max_volume
        }
    }

    /// The control was made at `volume`.
    pub closed spec fn made_at(&self, volume: usize) -> bool {
        call_ensures(AtomicUsize::new, (volume,), self.volume)
    }

    /// The control was moved to `volume`.
    pub closed spec fn moved_to(&self, volume: usize) -> bool {
        call_ensures(AtomicUsize::store, (&self.volume, volume, Ordering::Relaxed), ())
    }

    /// A look at the control has found it at `volume`.
    pub closed spec fn seen_at(&self, volume: usize) -> bool {
        call_ensures(AtomicUsize::load, (&self.volume, Ordering::Relaxed), volume)
    }

    pub fn new(volume: usize, max_volume: usize) -> (control: Self)
        ensures
            control.max_volume() == max_volume,
            control.made_at(Self::bounded(volume, max_volume)),
    {
        GainControl { volume: AtomicUsize::new(volume.min(max_volume)), max_volume }
    }

    pub fn set(&self, volume: usize)
        ensures
            self.moved_to(Self::bounded(volume, self.max_volume())),
    {
        self.volume.store(volume.min(self.max_volume), Ordering::Relaxed);
    }

    /// The volume that was last seen. Other threads may have set it by then, to no more than the
    /// maximum.
    pub fn get(&self) -> (volume: usize)
        ensures
            volume <= self.max_volume(),
            exists|seen: usize| #[trigger]
                self.seen_at(seen) && volume == Self::bounded(seen, self.max_volume()),
    {
        let seen: usize = self.volume.load(Ordering::Relaxed);
        proof {
            assert(self.seen_at(seen));
        }
        seen.min(self.max_volume)
    }
}

/// A volume is stored as it is, up to the maximum, where it is looked up, and told as it was found,
/// up to the maximum.
pub proof fn volume_is_stored_and_told_up_to_the_maximum(
    volume: usize,
    max_volume: usize,
    made: GainControl,
    control: GainControl,
    got: usize,
)
    requires
        call_ensures(GainControl::new, (volume, max_volume), made),
        call_ensures(GainControl::set, (&control, volume), ()),
        call_ensures(GainControl::get, (&control,), got),
    ensures
        made.max_volume() == max_volume,
        volume <= max_volume ==> call_ensures(AtomicUsize::new, (volume,), made.held_in()),
        volume > max_volume ==> call_ensures(AtomicUsize::new, (max_volume,), made.held_in()),
        volume <= control.max_volume() ==> call_ensures(
            AtomicUsize::store,
            (&control.held_in(), volume, Ordering::Relaxed),
            (),
        ),
        volume > control.max_volume() ==> call_ensures(
            AtomicUsize::store,
            (&control.held_in(), control.max_volume(), Ordering::Relaxed),
            (),
        ),
        got < control.max_volume() ==> call_ensures(
            AtomicUsize::load,
            (&control.held_in(), Ordering::Relaxed),
            got,
        ),
        got >= control.max_volume() ==> got == control.max_volume() && exists|seen: usize|
            seen >= got && #[trigger] call_ensures(
                AtomicUsize::load,
                (&control.held_in(), Ordering::Relaxed),
                seen,
            ),
{
    let seen = choose|seen: usize| #[trigger]
        control.seen_at(seen) && got == GainControl::bounded(seen, control.max_volume());
    assert(call_ensures(AtomicUsize::load, (&control.held_in(), Ordering::Relaxed), seen));
}

/// A look that finds what was stored for a volume gives that volume, or the maximum where it is
/// above that. Whatever a look finds, the maximum is never exceeded.
pub proof fn stored_volume_comes_back(volume: usize, max_volume: usize, seen: usize)
    ensures
        GainControl::bounded(seen, max_volume) <= max_volume,
        seen == GainControl::bounded(volume, max_volume) ==> GainControl::bounded(seen, max_volume)
            == GainControl::bounded(volume, max_volume),
        volume <= max_volume ==> GainControl::bounded(volume, max_volume) == volume,
{
}

/// `out` is `chunk` at `volume` percent; a volume of 100 leaves every bit as it is.
pub open spec fn gains<A: Arithmetic>(chunk: AudioChunk, volume: usize, out: AudioChunk) -> bool {
    if volume == 100 {
        out == chunk
    } else {
        &&& out.sequence_number == chunk.sequence_number
        &&& out.format == chunk.format
        &&& out.audio_data@.len() == chunk.audio_data@.len()
        &&& exists|factor: u32| #[trigger]
            call_ensures(A::volume_multiplier, (volume,), factor) && forall|i: int|
                0 <= i < out.audio_data@.len() ==> call_ensures(
                    A::product,
                    (chunk.audio_data@[i], factor),
                    #[trigger] out.audio_data@[i],
                )
    }
}

/// Scales a chunk to `volume` percent.
pub fn gain_chunk<A: Arithmetic>(chunk: AudioChunk, volume: usize) -> (out: AudioChunk)
    ensures
        gains::<A>(chunk, volume, out),
{
    if volume == 100 {
        return chunk;
    }
    let factor: u32 = A::volume_multiplier(volume);
    let mut out: AudioChunk = chunk;
    let len: usize = out.audio_data.len();
    let mut i: usize = 0;
    while i < len
        invariant
            i <= len,
            len == chunk.audio_data@.len(),
            out.audio_data@.len() == len,
            out.sequence_number == chunk.sequence_number,
            out.format == chunk.format,
            forall|k: int| i <= k < len ==> out.audio_data@[k] == chunk.audio_data@[k],
            forall|k: int|
                0 <= k < i ==> call_ensures(
                    A::product,
                    (chunk.audio_data@[k], factor),
                    #[trigger] out.audio_data@[k],
                ),
        decreases len - i,
    {
        let scaled: u32 = A::product(out.audio_data[i], factor);
        out.audio_data[i] = scaled;
        i += 1;
    }
    proof {
        assert(call_ensures(A::volume_multiplier, (volume,), factor));
    }
    out
}

/// Scales chunks by a shared volume.
pub struct Gain<A> {
    pub control: Arc<GainControl>,
    pub arithmetic: PhantomData<A>,
}

impl<A: Arithmetic> Gain<A> {
    pub fn new(control: Arc<GainControl>) -> (gain: Self)
        ensures
            gain.control == control,
    {
        Gain { control, arithmetic: PhantomData }
    }

    pub fn shared(volume: usize, max_volume: usize) -> (pair: (Self, Arc<GainControl>))
        ensures
            pair.0.control == pair.1,
            pair.1.max_volume() == max_volume,
            pair.1.made_at(GainControl::bounded(volume, max_volume)),
    {
        let control: Arc<GainControl> = Arc::new(GainControl::new(volume, max_volume));
        (Gain::new(share(&control)), control)
    }
}

impl<A: Arithmetic> ChunkTransform for Gain<A> {
    type OutputT = AudioChunk;

    open spec fn accepts(&self, chunk: AudioChunk) -> bool {
        true
    }

    open spec fn transforms(pre: Self, chunk: AudioChunk, post: Self, out: AudioChunk) -> bool {
        &&& post == pre
        &&& exists|seen: usize| #[trigger]
            pre.control.seen_at(seen) && gains::<A>(
                chunk,
                GainControl::bounded(seen, pre.control.max_volume()),
                out,
            )
    }

    fn transform(&mut self, chunk: AudioChunk) -> (out: AudioChunk) {
        let volume: usize = self.control.get();
        gain_chunk::<A>(chunk, volume)
    }
}

/// Bounds every sample to -1 ..= 1.
pub struct Clip {
    pub clip_hits: usize,
}

/// Whether clamping a sample counts as a hit: it was out of bounds, or not a number.
pub open spec fn spec_is_hit(sample: u32) -> bool {
    float::is_nan(sample) || float::clamp_unit(sample) != sample
}

#[verifier::when_used_as_spec(spec_is_hit)]
pub fn is_hit(sample: u32) -> (hit: bool)
    ensures
        hit == spec_is_hit(sample),
{
    float::is_nan(sample) || float::clamp_unit(sample) != sample
}

/// How many samples count as hits.
pub open spec fn hits(samples: Seq<u32>) -> nat
    decreases samples.len(),
{
    if samples.len() == 0 {
        0
    } else {
        hits(samples.drop_last()) + if is_hit(samples.last()) {
            1nat
        } else {
            0
        }
    }
}

/// There are no more hits than samples.
pub proof fn hits_are_counted_once(samples: Seq<u32>)
    ensures
        hits(samples) <= samples.len(),
    decreases samples.len(),
{
    if samples.len() > 0 {
        hits_are_counted_once(samples.drop_last());
    }
}

pub open spec fn clipped(samples: Seq<u32>) -> Seq<u32> {
    Seq::new(samples.len(), |i: int| float::clamp_unit(samples[i]))
}

impl Clip {
    pub fn new() -> (clip: Self)
        ensures
            clip.clip_hits == 0,
    {
        Clip { clip_hits: 0 }
    }
}

impl Default for Clip {
    fn default() -> (clip: Self)
        ensures
            clip.clip_hits == 0,
    {
        Clip::new()
    }
}

impl ChunkTransform for Clip {
    type OutputT = AudioChunk;

    open spec fn accepts(&self, chunk: AudioChunk) -> bool {
        self.clip_hits + chunk.audio_data@.len() <= usize::MAX
    }

    open spec fn transforms(pre: Self, chunk: AudioChunk, post: Self, out: AudioChunk) -> bool {
        &&& post.clip_hits == pre.clip_hits + hits(chunk.audio_data@)
        &&& out.sequence_number == chunk.sequence_number
        &&& out.format == chunk.format
        &&& out.audio_data@ == clipped(chunk.audio_data@)
    }

    fn transform(&mut self, chunk: AudioChunk) -> (out: AudioChunk) {
        let ghost data = chunk.audio_data@;
        let mut out: AudioChunk = chunk;
        let len: usize = out.audio_data.len();
        let mut i: usize = 0;
        proof {
            assert(data.take(0) =~= Seq::<u32>::empty());
        }
        while i < len
            invariant
                i <= len,
                len == data.len(),
                data == chunk.audio_data@,
                old(self).clip_hits + len <= usize::MAX,
                self.clip_hits == old(self).clip_hits + hits(data.take(i as int)),
                hits(data.take(i as int)) <= i,
                out.audio_data@.len() == len,
                out.sequence_number == chunk.sequence_number,
                out.format == chunk.format,
                forall|k: int| i <= k < len ==> out.audio_data@[k] == data[k],
                forall|k: int|
                    0 <= k < i ==> #[trigger] out.audio_data@[k] == float::clamp_unit(data[k]),
            decreases len - i,
        {
            let sample: u32 = out.audio_data[i];
            proof {
                assert(data.take(i + 1).drop_last() =~= data.take(i as int));
                assert(data.take(i + 1).last() == sample);
            }
            if is_hit(sample) {
                self.clip_hits += 1;
            }
            out.audio_data[i] = float::clamp_unit(sample);
            i += 1;
        }
        proof {
            assert(data.take(len as int) =~= data);
            assert(out.audio_data@ =~= clipped(data));
        }
        out
    }
}

/// A clipped chunk holds numbers in -1 ..= 1 wherever the chunk held numbers, and a second pass
/// changes nothing and hits nothing but what is not a number.
pub proof fn clipping_bounds(samples: Seq<u32>, i: int)
    requires
        0 <= i < samples.len(),
    ensures
        !float::is_nan(samples[i]) ==> float::at_most(float::MINUS_ONE, clipped(samples)[i])
            && float::at_most(clipped(samples)[i], float::ONE),
        clipped(clipped(samples)) =~= clipped(samples),
        !float::is_nan(samples[i]) ==> !is_hit(clipped(samples)[i]),
{
    assert forall|k: int| 0 <= k < samples.len() implies float::clamp_unit(clipped(samples)[k])
        == clipped(samples)[k] by {
        float::clamp_unit_bounds(samples[k]);
    }
    float::clamp_unit_bounds(samples[i]);
}

/// The loudness of the last chunk that was metered, as several threads can see it.
pub struct MetricsState {
    loudness_bits: AtomicU64,
}

impl MetricsState {
    /// What holds the loudness.
    pub closed spec fn held_in(&self) -> AtomicU64 {
        self.loudness_bits
    }

    /// The state was made at `bits`.
    pub closed spec fn made_at(&self, bits: u64) -> bool {
        call_ensures(AtomicU64::new, (bits,), self.loudness_bits)
    }

    /// The state was moved to `bits`.
    pub closed spec fn moved_to(&self, bits: u64) -> bool {
        call_ensures(AtomicU64::store, (&self.loudness_bits, bits, Ordering::Relaxed), ())
    }

    /// A look at the state has found it at `bits`.
    pub closed spec fn seen_at(&self, bits: u64) -> bool {
        call_ensures(AtomicU64::load, (&self.loudness_bits, Ordering::Relaxed), bits)
    }

    /// The bits of the loudness that was last seen.
    pub fn loudness(&self) -> (bits: u64)
        ensures
            self.seen_at(bits),
    {
        self.loudness_bits.load(Ordering::Relaxed)
    }
}

impl Default for MetricsState {
    fn default() -> (state: Self)
        ensures
            state.made_at(0),
    {
        MetricsState { loudness_bits: AtomicU64::new(0) }
    }
}

/// Meters the chunks that pass.
pub struct MetricsReader<A> {
    pub state: Arc<MetricsState>,
    pub arithmetic: PhantomData<A>,
}

impl<A: Arithmetic> MetricsReader<A> {
    pub fn new(state: Arc<MetricsState>) -> (reader: Self)
        ensures
            reader.state == state,
    {
        MetricsReader { state, arithmetic: PhantomData }
    }

    pub fn shared() -> (pair: (Self, Arc<MetricsState>))
        ensures
            pair.0.state == pair.1,
            pair.1.made_at(0),
    {
        let state: Arc<MetricsState> = Arc::new(MetricsState::default());
        (MetricsReader::new(share(&state)), state)
    }
}

impl<A: Arithmetic> ChunkTransform for MetricsReader<A> {
    type OutputT = AudioChunk;

    open spec fn accepts(&self, chunk: AudioChunk) -> bool {
        true
    }

    open spec fn transforms(pre: Self, chunk: AudioChunk, post: Self, out: AudioChunk) -> bool {
        &&& post == pre
        &&& out == chunk
        &&& exists|samples: &[u32], bits: u64|
            samples@ == chunk.audio_data@ && #[trigger] call_ensures(
                A::loudness,
                (samples,),
                bits,
            ) && pre.state.moved_to(bits)
    }

    fn transform(&mut self, chunk: AudioChunk) -> (out: AudioChunk) {
        let samples: &[u32] = chunk.audio_data.as_slice();
        let loudness: u64 = A::loudness(samples);
        self.state.loudness_bits.store(loudness, Ordering::Relaxed);
        proof {
            assert(call_ensures(A::loudness, (samples,), loudness));
            assert(self.state.moved_to(loudness));
        }
        chunk
    }
}

/// The loudness of a chunk is stored, as it was measured, where it is looked up; without a chunk
/// it is zero.
pub proof fn loudness_is_stored_and_told_as_it_is<A: Arithmetic>(
    meter: &mut MetricsReader<A>,
    chunk: AudioChunk,
    out: AudioChunk,
    made: MetricsState,
    state: MetricsState,
    seen: u64,
)
    requires
        call_ensures(MetricsReader::<A>::transform, (meter, chunk), out),
        call_ensures(MetricsState::default, (), made),
        call_ensures(MetricsState::loudness, (&state,), seen),
    ensures
        exists|samples: &[u32], bits: u64|
            samples@ == chunk.audio_data@ && #[trigger] call_ensures(A::loudness, (samples,), bits)
                && call_ensures(
                AtomicU64::store,
                (&old(meter).state.held_in(), bits, Ordering::Relaxed),
                (),
            ),
        call_ensures(AtomicU64::new, (0u64,), made.held_in()),
        call_ensures(AtomicU64::load, (&state.held_in(), Ordering::Relaxed), seen),
{
    let (samples, bits) = choose|samples: &[u32], bits: u64|
        samples@ == chunk.audio_data@ && #[trigger] call_ensures(A::loudness, (samples,), bits)
            && old(meter).state.moved_to(bits);
    assert(call_ensures(A::loudness, (samples,), bits));
}

/// Puts chunks back in order and counts what the network did to them.
pub struct JitterStage {
    pub buffer: JitterBuffer<AudioChunk>,
    pub gap_detected: usize,
    pub late_dropped: usize,
    pub overflow_dropped: usize,
}

impl JitterStage {
    /// The buffer is well formed and its newest number is not the last one there is.
    pub open spec fn wf(&self) -> bool {
        self.buffer.wf() && self.buffer@.prev < u128::MAX
    }

    /// Whether a chunk with this number comes too late.
    pub open spec fn is_late(&self, sequence: int) -> bool {
        sequence < self.buffer@.head
    }

    /// Whether a chunk with this number leaves a gap behind the newest one. An empty buffer waits
    /// for the number at its cursor.
    pub open spec fn leaves_gap(&self, sequence: int) -> bool {
        if self.is_late(sequence) {
            false
        } else if self.buffer@.items.dom().len() == 0 {
            sequence != self.buffer@.head
        } else {
            sequence > self.buffer@.prev + 1
        }
    }

    pub fn new(capacity_chunks: usize) -> (stage: Self)
        requires
            capacity_chunks > 0,
        ensures
            stage.wf(),
            stage.buffer@ == Window::<AudioChunk>::fresh(capacity_chunks as int),
            stage.gap_detected == 0,
            stage.late_dropped == 0,
            stage.overflow_dropped == 0,
    {
        JitterStage {
            buffer: JitterBuffer::new(capacity_chunks),
            gap_detected: 0,
            late_dropped: 0,
            overflow_dropped: 0,
        }
    }

    pub fn push(&mut self, chunk: AudioChunk)
        requires
            old(self).wf(),
            chunk.sequence_number < u128::MAX,
            old(self).gap_detected < usize::MAX,
            old(self).late_dropped < usize::MAX,
            old(self).overflow_dropped + old(self).buffer@.items.dom().len() <= usize::MAX,
        ensures
            final(self).wf(),
            final(self).buffer@ == old(self).buffer@.set(chunk.sequence_number as int, chunk),
            final(self).late_dropped == old(self).late_dropped + if old(self).is_late(
                chunk.sequence_number as int,
            ) {
                1int
            } else {
                0
            },
            final(self).gap_detected == old(self).gap_detected + if old(self).leaves_gap(
                chunk.sequence_number as int,
            ) {
                1int
            } else {
                0
            },
            final(self).overflow_dropped == old(self).overflow_dropped + old(self).buffer@.evicted(
                chunk.sequence_number as int,
            ).len(),
    {
        let sequence: u128 = chunk.sequence_number;
        let head: u128 = self.buffer.head();
        let prev: u128 = self.buffer.prev();
        let empty: bool = self.buffer.is_empty();
        if sequence < head {
            self.late_dropped += 1;
        } else if empty {
            if sequence != head {
                self.gap_detected += 1;
            }
        } else if sequence > prev && sequence != prev + 1 {
            self.gap_detected += 1;
        }
        proof {
            self.buffer.window_is_wf();
            window::evicted_is_held(self.buffer@, sequence as int);
        }
        self.overflow_dropped += self.buffer.set(sequence, chunk);
    }

    /// Forgets every chunk; the counts stay.
    pub fn reset(&mut self)
        requires
            old(self).wf(),
        ensures
            final(self).wf(),
            final(self).buffer@ == Window::<AudioChunk>::fresh(old(self).buffer@.capacity),
            final(self).gap_detected == old(self).gap_detected,
            final(self).late_dropped == old(self).late_dropped,
            final(self).overflow_dropped == old(self).overflow_dropped,
    {
        self.buffer.reset();
    }

    pub fn buffered_chunks(&self) -> (n: usize)
        requires
            self.wf(),
        ensures
            n == self.buffer@.items.dom().len(),
    {
        self.buffer.len()
    }

    pub fn pull(&mut self) -> (chunk: Option<AudioChunk>)
        requires
            old(self).wf(),
        ensures
            final(self).wf(),
            chunk == old(self).buffer@.current(),
            final(self).buffer@ == old(self).buffer@.advance(),
            final(self).gap_detected == old(self).gap_detected,
            final(self).late_dropped == old(self).late_dropped,
            final(self).overflow_dropped == old(self).overflow_dropped,
    {
        self.buffer.next_item()
    }
}

/// Carries chunks over to a number of channels.
pub struct ChannelMap<A> {
    pub dst_channels: u16,
    pub cap_channels: bool,
    pub arithmetic: PhantomData<A>,
}

impl<A: Arithmetic> ChannelMap<A> {
    /// To exactly `dst_channels` channels.
    pub fn new(dst_channels: u16) -> (map: Self)
        ensures
            map.dst_channels == dst_channels,
            !map.cap_channels,
    {
        ChannelMap { dst_channels, cap_channels: false, arithmetic: PhantomData }
    }

    /// To no more than `max_channels` channels.
    pub fn capped(max_channels: u16) -> (map: Self)
        ensures
            map.dst_channels == max_channels,
            map.cap_channels,
    {
        ChannelMap { dst_channels: max_channels, cap_channels: true, arithmetic: PhantomData }
    }

    /// How many channels a chunk of `channel_count` channels is carried over to.
    pub open spec fn target(&self, channel_count: u16) -> u16 {
        if self.cap_channels && channel_count < self.dst_channels {
            channel_count
        } else {
            self.dst_channels
        }
    }
}

impl<A: Arithmetic> ChunkTransform for ChannelMap<A> {
    type OutputT = AudioChunk;

    open spec fn accepts(&self, chunk: AudioChunk) -> bool {
        let channels = chunk.format.channel_count;
        channels > 0 ==> (chunk.audio_data@.len() as int / channels as int) * self.target(channels)
            <= usize::MAX
    }

    open spec fn transforms(pre: Self, chunk: AudioChunk, post: Self, out: AudioChunk) -> bool {
        let channels = chunk.format.channel_count;
        let target = pre.target(channels);
        &&& post == pre
        &&& out.sequence_number == chunk.sequence_number
        &&& out.format == (AudioFormat {
            channel_count: if channels == 0 || target == 0 {
                channels
            } else {
                target
            },
            sample_rate: chunk.format.sample_rate,
        })
        &&& sample_ops::converts::<A>(
            chunk.audio_data@,
            channels as int,
            target as int,
            out.audio_data@,
        )
    }

    fn transform(&mut self, chunk: AudioChunk) -> (out: AudioChunk) {
        let dst: u16 = if self.cap_channels && chunk.format.channel_count < self.dst_channels {
            chunk.format.channel_count
        } else {
            self.dst_channels
        };
        convert_to_mixer_channels::<A>(chunk, dst)
    }
}

/// A capped map never adds channels.
pub proof fn capped_never_upmixes<A: Arithmetic>(
    map: ChannelMap<A>,
    chunk: AudioChunk,
    after: ChannelMap<A>,
    out: AudioChunk,
)
    requires
        map.cap_channels,
        ChannelMap::<A>::transforms(map, chunk, after, out),
    ensures
        out.format.channel_count <= chunk.format.channel_count,
        chunk.format.channel_count <= map.dst_channels ==> out.audio_data@ == chunk.audio_data@
            && out.format == chunk.format,
{
}

} // verus!
