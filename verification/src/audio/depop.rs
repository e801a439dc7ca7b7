//! Bridging of jumps in a signal.
use crate::audio::chunk::AudioChunk;
use crate::audio::float::{self, Arithmetic};
use crate::audio::transform::ChunkTransform;
use std::marker::PhantomData;
use vstd::prelude::*;

verus! {

/// The bits of 0.25: a step has to be larger to count as a pop.
pub const POP_THRESHOLD: u32 = 0x3e80_0000;

/// The bits of 6.0: so many times the running slope a pop has to exceed.
pub const POP_SLOPE_RATIO: u32 = 0x40c0_0000;

/// The bits of 1/64: the weight of a step in the running slope.
pub const SLOPE_ALPHA: u32 = 0x3c80_0000;

/// How long a jump is bridged, in milliseconds.
pub const RAMP_MS: u64 = 5;

/// What is known of one channel.
#[derive(Debug, Clone, Copy)]
pub struct DepopChannel {
    pub last: u32,
    pub offset_start: u32,
    pub remaining: usize,
    pub slope: u32,
}

/// `offset` is what is added to the next sample: the start of the ramp, scaled by what remains
/// of it.
pub open spec fn ramp_offset<A: Arithmetic>(
    channel: DepopChannel,
    ramp: usize,
    offset: u32,
) -> bool {
    if channel.remaining == 0 {
        offset == float::ZERO
    } else {
        exists|left: u32, scaled: u32, whole: u32|
            call_ensures(A::count, (channel.remaining,), left) && #[trigger] call_ensures(
                A::product,
                (channel.offset_start, left),
                scaled,
            ) && call_ensures(A::count, (ramp,), whole) && #[trigger] call_ensures(
                A::quotient,
                (scaled, whole),
                offset,
            )
    }
}

/// Whether a step of `delta` is a pop, against the running slope.
pub open spec fn is_pop<A: Arithmetic>(slope: u32, delta: u32, pop: bool) -> bool {
    exists|limit: u32| #[trigger]
        call_ensures(A::product, (POP_SLOPE_RATIO, slope), limit) && pop == (float::less(
            POP_THRESHOLD,
            float::magnitude(delta),
        ) && float::less(limit, float::magnitude(delta)))
}

/// The running slope moves from `slope` to `next` by a share of the last step.
pub open spec fn slope_follows<A: Arithmetic>(slope: u32, delta: u32, next: u32) -> bool {
    exists|rise: u32, part: u32| #[trigger]
        call_ensures(A::difference, (float::magnitude(delta), slope), rise)
            && #[trigger] call_ensures(A::product, (rise, SLOPE_ALPHA), part) && call_ensures(
            A::sum,
            (slope, part),
            next,
        )
}

/// The ramp that `channel` is on once a step of `delta` has been looked at: a pop starts a new
/// one, from where the output stood.
pub open spec fn ramp_after<A: Arithmetic>(
    channel: DepopChannel,
    ramp: usize,
    delta: u32,
    pop: bool,
    bridged: DepopChannel,
) -> bool {
    if pop {
        &&& exists|offset: u32| #[trigger]
            ramp_offset::<A>(channel, ramp, offset) && call_ensures(
                A::difference,
                (offset, delta),
                bridged.offset_start,
            )
        &&& bridged.remaining == ramp
    } else {
        &&& bridged.offset_start == channel.offset_start
        &&& bridged.remaining == channel.remaining
    }
}

/// One sample of one channel: `out` is what comes out, `after` what is known then, and `pop`
/// whether a new ramp was started. What is not finite passes and leaves no trace.
pub open spec fn depops<A: Arithmetic>(
    channel: DepopChannel,
    sample: u32,
    ramp: usize,
    after: DepopChannel,
    out: u32,
    pop: bool,
) -> bool {
    if !float::is_finite(sample) {
        after == channel && out == sample && !pop
    } else {
        exists|delta: u32, bridged: DepopChannel, offset: u32| #[trigger]
            call_ensures(A::difference, (sample, channel.last), delta) && is_pop::<A>(
                channel.slope,
                delta,
                pop,
            ) && #[trigger] ramp_after::<A>(channel, ramp, delta, pop, bridged)
                && slope_follows::<A>(channel.slope, delta, after.slope)
                && #[trigger] ramp_offset::<A>(bridged, ramp, offset) && call_ensures(
                A::sum,
                (sample, offset),
                out,
            ) && after.last == sample && after.offset_start == bridged.offset_start
                && after.remaining == if bridged.remaining > 0 {
                bridged.remaining - 1
            } else {
                0
            }
    }
}

impl DepopChannel {
    pub open spec fn spec_fresh() -> Self {
        DepopChannel {
            last: float::ZERO,
            offset_start: float::ZERO,
            remaining: 0,
            slope: float::ZERO,
        }
    }

    fn fresh() -> (channel: Self)
        ensures
            channel == Self::spec_fresh(),
    {
        DepopChannel {
            last: float::ZERO,
            offset_start: float::ZERO,
            remaining: 0,
            slope: float::ZERO,
        }
    }

    /// What is added to the next sample.
    pub fn offset<A: Arithmetic>(&self, ramp: usize) -> (offset: u32)
        ensures
            ramp_offset::<A>(*self, ramp, offset),
    {
        if self.remaining == 0 {
            return float::ZERO;
        }
        let left: u32 = A::count(self.remaining);
        let scaled: u32 = A::product(self.offset_start, left);
        let whole: u32 = A::count(ramp);
        let offset: u32 = A::quotient(scaled, whole);
        proof {
            assert(call_ensures(A::product, (self.offset_start, left), scaled));
            assert(call_ensures(A::quotient, (scaled, whole), offset));
        }
        offset
    }

    /// Takes the next sample, and tells what comes out and whether it was a pop.
    pub fn next<A: Arithmetic>(&mut self, sample: u32, ramp: usize) -> (result: (u32, bool))
        ensures
            depops::<A>(*old(self), sample, ramp, *final(self), result.0, result.1),
    {
        if !float::is_finite(sample) {
            return (sample, false);
        }
        let delta: u32 = A::difference(sample, self.last);
        let step: u32 = float::magnitude(delta);
        let limit: u32 = A::product(POP_SLOPE_RATIO, self.slope);
        let pop: bool = float::less(POP_THRESHOLD, step) && float::less(limit, step);
        proof {
            assert(call_ensures(A::product, (POP_SLOPE_RATIO, self.slope), limit));
            assert(is_pop::<A>(old(self).slope, delta, pop));
        }
        self.last = sample;
        if pop {
            let offset: u32 = self.offset::<A>(ramp);
            proof {
                assert(ramp_offset::<A>(*old(self), ramp, offset));
            }
            self.offset_start = A::difference(offset, delta);
            self.remaining = ramp;
        }
        let ghost bridged = *self;
        proof {
            assert(ramp_after::<A>(*old(self), ramp, delta, pop, bridged));
        }
        let rise: u32 = A::difference(step, self.slope);
        let part: u32 = A::product(rise, SLOPE_ALPHA);
        let slope: u32 = A::sum(self.slope, part);
        proof {
            assert(call_ensures(A::difference, (float::magnitude(delta), self.slope), rise));
            assert(call_ensures(A::product, (rise, SLOPE_ALPHA), part));
            assert(slope_follows::<A>(old(self).slope, delta, slope));
        }
        let offset: u32 = self.offset::<A>(ramp);
        let out: u32 = A::sum(sample, offset);
        self.slope = slope;
        self.remaining = self.remaining.saturating_sub(1);
        proof {
            assert(call_ensures(A::difference, (sample, old(self).last), delta));
            assert(ramp_offset::<A>(bridged, ramp, offset));
        }
        (out, pop)
    }
}

/// Bridges jumps: where the signal steps further than it has been moving, the output goes on
/// from where it was and returns to the signal along a ramp.
pub struct Depop<A> {
    pub ramp: usize,
    pub channels: Vec<DepopChannel>,
    pub pops: usize,
    pub arithmetic: PhantomData<A>,
}

/// A run over interleaved samples: each goes to the channel whose turn it is, `out` comes out,
/// and `pops` new ramps are started.
pub open spec fn depop_run<A: Arithmetic>(
    before: Seq<DepopChannel>,
    samples: Seq<u32>,
    ramp: usize,
    after: Seq<DepopChannel>,
    out: Seq<u32>,
    pops: nat,
) -> bool
    decreases samples.len(),
{
    if samples.len() == 0 {
        after == before && out == Seq::<u32>::empty() && pops == 0
    } else {
        let turn = (samples.len() - 1) % (before.len() as int);
        exists|between: Seq<DepopChannel>, pop: bool|
            depop_run::<A>(
                before,
                samples.drop_last(),
                ramp,
                between,
                out.drop_last(),
                if pop {
                    (pops - 1) as nat
                } else {
                    pops
                },
            ) && out.len() == samples.len() && #[trigger] depops::<A>(
                between[turn],
                samples.last(),
                ramp,
                after[turn],
                out.last(),
                pop,
            ) && after == between.update(turn, after[turn]) && (pop ==> pops > 0)
    }
}

impl<A: Arithmetic> Depop<A> {
    pub fn new(ramp_frames: usize) -> (depop: Self)
        requires
            ramp_frames > 0,
        ensures
            depop.ramp == ramp_frames,
            depop.channels@ == Seq::<DepopChannel>::empty(),
            depop.pops == 0,
    {
        Depop { ramp: ramp_frames, channels: Vec::new(), pops: 0, arithmetic: PhantomData }
    }

    /// The length of a ramp at a sample rate: at least one frame.
    pub fn ramp_frames(sample_rate: u32) -> (frames: usize)
        ensures
            frames == if sample_rate * RAMP_MS / 1000 > 0 {
                sample_rate * RAMP_MS / 1000
            } else {
                1
            },
    {
        let frames: u64 = sample_rate as u64 * RAMP_MS / 1000;
        if frames > 0 {
            frames as usize
        } else {
            1
        }
    }

    /// The channels that a chunk of `count` channels starts from.
    pub open spec fn start(&self, count: int) -> Seq<DepopChannel> {
        if self.channels@.len() == count {
            self.channels@
        } else {
            Seq::new(count as nat, |c: int| DepopChannel::spec_fresh())
        }
    }
}

impl<A: Arithmetic> ChunkTransform for Depop<A> {
    type OutputT = AudioChunk;

    open spec fn accepts(&self, chunk: AudioChunk) -> bool {
        self.pops + chunk.audio_data@.len() <= usize::MAX
    }

    open spec fn transforms(pre: Self, chunk: AudioChunk, post: Self, out: AudioChunk) -> bool {
        if chunk.format.channel_count == 0 {
            post == pre && out == chunk
        } else {
            &&& post.ramp == pre.ramp
            &&& out.sequence_number == chunk.sequence_number
            &&& out.format == chunk.format
            &&& depop_run::<A>(
                pre.start(chunk.format.channel_count as int),
                chunk.audio_data@,
                pre.ramp,
                post.channels@,
                out.audio_data@,
                (post.pops - pre.pops) as nat,
            )
            &&& post.pops >= pre.pops
        }
    }

    fn transform(&mut self, chunk: AudioChunk) -> (out: AudioChunk) {
        let count: usize = chunk.format.channel_count as usize;
        if count == 0 {
            return chunk;
        }
        if self.channels.len() != count {
            self.channels = vec![DepopChannel::fresh(); count];
            proof {
                assert(self.channels@ =~= old(self).start(count as int));
            }
        }
        let ghost start = self.channels@;
        let ghost data = chunk.audio_data@;
        let mut audio_data: Vec<u32> = Vec::new();
        let mut turn: usize = 0;
        let mut i: usize = 0;
        let len: usize = chunk.audio_data.len();
        proof {
            assert(data.take(0) =~= Seq::<u32>::empty());
            assert(depop_run::<A>(start, data.take(0), self.ramp, start, audio_data@, 0));
            vstd::arithmetic::div_mod::lemma_small_mod(0, count as nat);
        }
        while i < len
            invariant
                i <= len,
                len == data.len(),
                data == chunk.audio_data@,
                0 < count,
                turn < count,
                turn == i as int % count as int,
                start.len() == count,
                self.channels@.len() == count,
                self.ramp == old(self).ramp,
                old(self).pops + len <= usize::MAX,
                old(self).pops <= self.pops <= old(self).pops + i,
                audio_data@.len() == i,
                depop_run::<A>(
                    start,
                    data.take(i as int),
                    self.ramp,
                    self.channels@,
                    audio_data@,
                    (self.pops - old(self).pops) as nat,
                ),
            decreases len - i,
        {
            let ghost between = self.channels@;
            let ghost done = audio_data@;
            let sample: u32 = chunk.audio_data[i];
            let mut channel: DepopChannel = self.channels[turn];
            let (out, pop): (u32, bool) = channel.next::<A>(sample, self.ramp);
            self.channels[turn] = channel;
            audio_data.push(out);
            if pop {
                self.pops += 1;
            }
            proof {
                let upto = data.take(i + 1);
                assert(upto.drop_last() =~= data.take(i as int));
                assert(audio_data@.drop_last() =~= done);
                assert(depops::<A>(
                    between[turn as int],
                    upto.last(),
                    self.ramp,
                    self.channels@[turn as int],
                    audio_data@.last(),
                    pop,
                ));
                assert(self.channels@ =~= between.update(
                    turn as int,
                    self.channels@[turn as int],
                ));
                crate::audio::numbers::mod_step(i as int, count as int);
            }
            turn += 1;
            if turn == count {
                turn = 0;
            }
            i += 1;
        }
        proof {
            assert(data.take(len as int) =~= data);
        }
        AudioChunk::new(chunk.sequence_number, chunk.format, audio_data)
    }
}

} // verus!
