//! Detection: what counts as sound, what is done about jumps, and what is skipped.
use crate::audio::chunk::AudioChunk;
use crate::audio::depop::{self, Depop, DepopChannel};
use crate::audio::detect::{
    self, Detector, Hysteresis, PassthroughGate, PeakDetector, RmsDetector, SilenceGate,
};
use crate::audio::float::{self, Arithmetic};
use crate::audio::transform::ChunkTransform;
use vstd::prelude::*;

verus! {

/// A peak is any sample that is not below the threshold, wherever it stands; nothing else is one.
pub proof fn any_peak_is_enough(
    detector: &mut PeakDetector,
    samples: &[u32],
    active: bool,
    threshold: u32,
    made: PeakDetector,
)
    requires
        call_ensures(<PeakDetector as Detector>::detect, (detector, samples), active),
        call_ensures(PeakDetector::new, (threshold,), made),
    ensures
        made.threshold == threshold,
        final(detector).threshold == old(detector).threshold,
        forall|i: int|
            0 <= i < samples@.len() && !float::less(
                #[trigger] float::magnitude(samples@[i]),
                old(detector).threshold,
            ) ==> active,
        active ==> exists|i: int|
            0 <= i < samples@.len() && !float::less(
                #[trigger] float::magnitude(samples@[i]),
                old(detector).threshold,
            ),
{
}

/// `sums` are the sums of the squares of the first samples, one by one.
pub open spec fn squares_add_up<A: Arithmetic>(samples: Seq<u32>, sums: Seq<u32>) -> bool {
    &&& sums.len() == samples.len() + 1
    &&& sums[0] == 0
    &&& forall|i: int|
        0 <= i < samples.len() ==> adds_square::<A>(#[trigger] sums[i], samples[i], sums[i + 1])
}

/// `after` is `before` with the square of a sample added.
pub open spec fn adds_square<A: Arithmetic>(before: u32, sample: u32, after: u32) -> bool {
    exists|square: u32|
        call_ensures(A::product, (sample, sample), square) && #[trigger] call_ensures(
            A::sum,
            (before, square),
            after,
        )
}

/// `rms` is the root of the mean of squares that add up to `total`.
pub open spec fn root_of_mean<A: Arithmetic>(total: u32, n: usize, rms: u32) -> bool {
    exists|count: u32, mean: u32|
        call_ensures(A::count, (n,), count) && #[trigger] call_ensures(
            A::quotient,
            (total, count),
            mean,
        ) && call_ensures(A::square_root, (mean,), rms)
}

proof fn sum_adds_up<A: Arithmetic>(samples: Seq<u32>, total: u32) -> (sums: Seq<u32>)
    requires
        detect::squares_sum::<A>(samples, total),
    ensures
        squares_add_up::<A>(samples, sums),
        sums[samples.len() as int] == total,
    decreases samples.len(),
{
    if samples.len() == 0 {
        seq![total]
    } else {
        let (before, square) = choose|before: u32, square: u32|
            detect::squares_sum::<A>(samples.drop_last(), before) && call_ensures(
                A::product,
                (samples.last(), samples.last()),
                square,
            ) && #[trigger] call_ensures(A::sum, (before, square), total);
        let earlier = sum_adds_up::<A>(samples.drop_last(), before);
        let sums = earlier.push(total);
        assert(adds_square::<A>(before, samples.last(), total));
        assert forall|i: int| 0 <= i < samples.len() implies adds_square::<A>(
            #[trigger] sums[i],
            samples[i],
            sums[i + 1],
        ) by {
            if i < samples.len() - 1 {
                assert(adds_square::<A>(earlier[i], samples.drop_last()[i], earlier[i + 1]));
            }
        }
        sums
    }
}

/// The energy of a chunk takes every one of its samples, once: the root of the mean of their
/// squares is held against the threshold, and what is no number is taken for sound. Nothing at
/// all is silence.
pub proof fn energy_takes_every_sample<A: Arithmetic>(
    detector: &mut RmsDetector<A>,
    samples: &[u32],
    active: bool,
    threshold: u32,
    made: RmsDetector<A>,
)
    requires
        call_ensures(<RmsDetector<A> as Detector>::detect, (detector, samples), active),
        call_ensures(RmsDetector::<A>::new, (threshold,), made),
    ensures
        made.threshold == threshold,
        final(detector).threshold == old(detector).threshold,
        samples@.len() == 0 ==> !active,
        samples@.len() > 0 ==> exists|sums: Seq<u32>, rms: u32| #[trigger]
            squares_add_up::<A>(samples@, sums) && #[trigger] root_of_mean::<A>(
                sums[samples@.len() as int],
                samples@.len() as usize,
                rms,
            ) && (active <==> float::is_nan(rms) || float::at_most(old(detector).threshold, rms)),
{
    if samples@.len() > 0 {
        let rms = choose|rms: u32| #[trigger]
            detect::root_mean_square::<A>(samples@, rms) && active == (float::is_nan(rms)
                || float::at_most(old(detector).threshold, rms));
        let (total, count, mean) = choose|total: u32, count: u32, mean: u32| #[trigger]
            detect::squares_sum::<A>(samples@, total) && call_ensures(
                A::count,
                (samples@.len() as usize,),
                count,
            ) && #[trigger] call_ensures(A::quotient, (total, count), mean) && call_ensures(
                A::square_root,
                (mean,),
                rms,
            );
        let sums = sum_adds_up::<A>(samples@, total);
        assert(squares_add_up::<A>(samples@, sums));
        assert(root_of_mean::<A>(sums[samples@.len() as int], samples@.len() as usize, rms));
    }
}

/// Sound is active at once and restores the whole hangover; silence is active just while some of
/// the hangover is left, and takes one chunk of it.
pub proof fn hangover_counts_down<D: Detector>(
    detector: &mut Hysteresis<D>,
    samples: &[u32],
    active: bool,
    inner: D,
    chunks: usize,
    made: Hysteresis<D>,
)
    requires
        call_ensures(<Hysteresis<D> as Detector>::detect, (detector, samples), active),
        call_ensures(Hysteresis::<D>::new, (inner, chunks), made),
    ensures
        made.inner == inner && made.chunks == chunks && made.left == 0,
        final(detector).chunks == old(detector).chunks,
        exists|heard: bool| #[trigger]
            D::detects(old(detector).inner, samples@, final(detector).inner, heard) && (heard
                ==> active && final(detector).left == old(detector).chunks) && (!heard
                && old(detector).left > 0 ==> active && final(detector).left
                == old(detector).left - 1) && (!heard && old(detector).left == 0 ==> !active
                && final(detector).left == 0),
{
}

/// What is active goes through the inner stage; what is not passes a gate as it is, and the inner
/// stage is not touched.
pub proof fn gate_passes_silence_as_it_is<T, D>(
    gate: &mut PassthroughGate<T, D>,
    chunk: AudioChunk,
    out: AudioChunk,
    inner: T,
    detector: D,
    made: PassthroughGate<T, D>,
) where T: ChunkTransform<OutputT = AudioChunk>, D: Detector
    requires
        call_ensures(
            <PassthroughGate<T, D> as ChunkTransform>::transform,
            (gate, chunk),
            out,
        ),
        call_ensures(PassthroughGate::<T, D>::new, (inner, detector), made),
    ensures
        made.inner == inner && made.detector == detector,
        exists|active: bool| #[trigger]
            D::detects(
                old(gate).detector,
                chunk.audio_data@,
                final(gate).detector,
                active,
            ) && (active ==> T::transforms(old(gate).inner, chunk, final(gate).inner, out)) && (
            !active ==> out == chunk && final(gate).inner == old(gate).inner),
{
}

/// What is active goes through the inner stage; what is not is dropped, and the inner stage is not
/// touched.
pub proof fn gate_drops_silence<E, O, D>(
    gate: &mut SilenceGate<E, O, D>,
    chunk: AudioChunk,
    out: Option<O>,
    inner: E,
    detector: D,
    made: SilenceGate<E, O, D>,
) where E: ChunkTransform<OutputT = Option<O>>, D: Detector
    requires
        call_ensures(
            <SilenceGate<E, O, D> as ChunkTransform>::transform,
            (gate, chunk),
            out,
        ),
        call_ensures(SilenceGate::<E, O, D>::new, (inner, detector), made),
    ensures
        made.inner == inner && made.detector == detector,
        exists|active: bool| #[trigger]
            D::detects(
                old(gate).detector,
                chunk.audio_data@,
                final(gate).detector,
                active,
            ) && (active ==> E::transforms(old(gate).inner, chunk, final(gate).inner, out)) && (
            !active ==> out is None && final(gate).inner == old(gate).inner),
{
}

/// `offset` is what is left of a ramp: its start, times what remains over its length, and zero
/// where nothing remains.
pub open spec fn left_of_ramp<A: Arithmetic>(
    start: u32,
    remaining: usize,
    ramp: usize,
    offset: u32,
) -> bool {
    &&& remaining == 0 ==> offset == 0
    &&& remaining > 0 ==> exists|left: u32, scaled: u32, whole: u32|
        call_ensures(A::count, (remaining,), left) && #[trigger] call_ensures(
            A::product,
            (start, left),
            scaled,
        ) && call_ensures(A::count, (ramp,), whole) && #[trigger] call_ensures(
            A::quotient,
            (scaled, whole),
            offset,
        )
}

/// What is left of a channel's ramp is told.
pub proof fn ramp_tells_what_is_left<A: Arithmetic>(
    channel: DepopChannel,
    ramp: usize,
    offset: u32,
)
    requires
        call_ensures(DepopChannel::offset::<A>, (&channel, ramp), offset),
    ensures
        left_of_ramp::<A>(channel.offset_start, channel.remaining, ramp, offset),
{
}

/// What is done about one sample of a channel. One that is not finite passes and leaves no trace.
/// Otherwise a step of more than a quarter, and of more than six times the running slope, is a
/// pop: the output goes on from where it stood, so that a ramp of the full length starts at what
/// was left of the last one less the step. What is left of the ramp is added to the sample, and
/// one frame of it is over then.
pub open spec fn bridges<A: Arithmetic>(
    before: DepopChannel,
    sample: u32,
    ramp: usize,
    after: DepopChannel,
    out: u32,
    pop: bool,
) -> bool {
    &&& !float::is_finite(sample) ==> after == before && out == sample && !pop
    &&& float::is_finite(sample) ==> {
        &&& after.last == sample
        &&& exists|step: u32, limit: u32, rise: u32, part: u32, now: u32|
            #![trigger call_ensures(A::difference, (sample, before.last), step), call_ensures(
                A::product,
                (0x40c0_0000u32, before.slope),
                limit,
            ), call_ensures(
                A::difference,
                (float::magnitude(step), before.slope),
                rise,
            ), call_ensures(A::product, (rise, 0x3c80_0000u32), part), call_ensures(
                A::sum,
                (sample, now),
                out,
            )]
            {
                &&& call_ensures(A::difference, (sample, before.last), step)
                &&& call_ensures(A::product, (0x40c0_0000u32, before.slope), limit)
                &&& pop <==> float::less(0x3e80_0000, float::magnitude(step)) && float::less(
                    limit,
                    float::magnitude(step),
                )
                &&& call_ensures(A::difference, (float::magnitude(step), before.slope), rise)
                &&& call_ensures(A::product, (rise, 0x3c80_0000u32), part)
                &&& call_ensures(A::sum, (before.slope, part), after.slope)
                &&& pop ==> exists|stood: u32| #[trigger]
                    left_of_ramp::<A>(before.offset_start, before.remaining, ramp, stood)
                        && call_ensures(A::difference, (stood, step), after.offset_start)
                &&& !pop ==> after.offset_start == before.offset_start
                &&& left_of_ramp::<A>(
                    after.offset_start,
                    if pop {
                        ramp
                    } else {
                        before.remaining
                    },
                    ramp,
                    now,
                )
                &&& call_ensures(A::sum, (sample, now), out)
            }
        &&& pop && ramp > 0 ==> after.remaining == ramp - 1
        &&& !pop && before.remaining > 0 ==> after.remaining == before.remaining - 1
        &&& !pop && before.remaining == 0 ==> after.remaining == 0
    }
}

proof fn depopping_bridges<A: Arithmetic>(
    before: DepopChannel,
    sample: u32,
    ramp: usize,
    after: DepopChannel,
    out: u32,
    pop: bool,
)
    requires
        depop::depops::<A>(before, sample, ramp, after, out, pop),
    ensures
        bridges::<A>(before, sample, ramp, after, out, pop),
{
    if float::is_finite(sample) {
        let (step, bridged, now) = choose|delta: u32, bridged: DepopChannel, offset: u32| #[trigger]
            call_ensures(A::difference, (sample, before.last), delta) && depop::is_pop::<A>(
                before.slope,
                delta,
                pop,
            ) && #[trigger] depop::ramp_after::<A>(before, ramp, delta, pop, bridged)
                && depop::slope_follows::<A>(before.slope, delta, after.slope)
                && #[trigger] depop::ramp_offset::<A>(bridged, ramp, offset) && call_ensures(
                A::sum,
                (sample, offset),
                out,
            ) && after.last == sample && after.offset_start == bridged.offset_start
                && after.remaining == if bridged.remaining > 0 {
                bridged.remaining - 1
            } else {
                0
            };
        let limit = choose|limit: u32| #[trigger]
            call_ensures(A::product, (depop::POP_SLOPE_RATIO, before.slope), limit) && pop == (
            float::less(depop::POP_THRESHOLD, float::magnitude(step)) && float::less(
                limit,
                float::magnitude(step),
            ));
        let (rise, part) = choose|rise: u32, part: u32| #[trigger]
            call_ensures(A::difference, (float::magnitude(step), before.slope), rise)
                && #[trigger] call_ensures(A::product, (rise, depop::SLOPE_ALPHA), part)
                && call_ensures(A::sum, (before.slope, part), after.slope);
        if pop {
            let stood = choose|offset: u32| #[trigger]
                depop::ramp_offset::<A>(before, ramp, offset) && call_ensures(
                    A::difference,
                    (offset, step),
                    bridged.offset_start,
                );
            assert(left_of_ramp::<A>(before.offset_start, before.remaining, ramp, stood));
        }
        assert(call_ensures(A::difference, (sample, before.last), step));
        assert(call_ensures(A::product, (0x40c0_0000u32, before.slope), limit));
        assert(call_ensures(A::difference, (float::magnitude(step), before.slope), rise));
        assert(call_ensures(A::product, (rise, 0x3c80_0000u32), part));
        assert(call_ensures(A::sum, (sample, now), out));
    }
}

/// A sample of a channel is bridged.
pub proof fn jump_is_bridged<A: Arithmetic>(
    channel: &mut DepopChannel,
    sample: u32,
    ramp: usize,
    result: (u32, bool),
)
    requires
        call_ensures(DepopChannel::next::<A>, (channel, sample, ramp), result),
    ensures
        bridges::<A>(*old(channel), sample, ramp, *final(channel), result.0, result.1),
{
    depopping_bridges::<A>(*old(channel), sample, ramp, *final(channel), result.0, result.1);
}

/// How many of the first flags are set.
pub open spec fn set_among(flags: Seq<bool>) -> nat
    decreases flags.len(),
{
    if flags.len() == 0 {
        0
    } else {
        set_among(flags.drop_last()) + if flags.last() {
            1nat
        } else {
            0
        }
    }
}

/// `states` is what is known of all channels as samples come, one by one: each sample is its
/// channel's own affair, and no other channel's.
pub open spec fn bridges_in_turn<A: Arithmetic>(
    states: Seq<Seq<DepopChannel>>,
    samples: Seq<u32>,
    channels: int,
    ramp: usize,
    out: Seq<u32>,
    pops: Seq<bool>,
) -> bool {
    &&& states.len() == samples.len() + 1
    &&& out.len() == samples.len()
    &&& pops.len() == samples.len()
    &&& forall|i: int|
        0 <= i < samples.len() ==> bridges_one::<A>(
            #[trigger] states[i],
            i % channels,
            samples[i],
            ramp,
            states[i + 1],
            out[i],
            pops[i],
        )
}

/// A sample is bridged on one channel; the others stay as they are.
pub open spec fn bridges_one<A: Arithmetic>(
    before: Seq<DepopChannel>,
    channel: int,
    sample: u32,
    ramp: usize,
    after: Seq<DepopChannel>,
    out: u32,
    pop: bool,
) -> bool {
    &&& after.len() == before.len()
    &&& bridges::<A>(before[channel], sample, ramp, after[channel], out, pop)
    &&& forall|c: int| 0 <= c < before.len() && c != channel ==> #[trigger] after[c] == before[c]
}

proof fn run_bridges_in_turn<A: Arithmetic>(
    before: Seq<DepopChannel>,
    samples: Seq<u32>,
    ramp: usize,
    after: Seq<DepopChannel>,
    out: Seq<u32>,
    pops: nat,
) -> (run: (Seq<Seq<DepopChannel>>, Seq<bool>))
    requires
        before.len() > 0,
        depop::depop_run::<A>(before, samples, ramp, after, out, pops),
    ensures
        after.len() == before.len(),
        bridges_in_turn::<A>(run.0, samples, before.len() as int, ramp, out, run.1),
        run.0[0] == before,
        run.0[samples.len() as int] == after,
        set_among(run.1) == pops,
    decreases samples.len(),
{
    if samples.len() == 0 {
        (seq![before], Seq::empty())
    } else {
        let n = samples.len() - 1;
        let turn = n % (before.len() as int);
        let (between, pop) = choose|between: Seq<DepopChannel>, pop: bool|
            depop::depop_run::<A>(
                before,
                samples.drop_last(),
                ramp,
                between,
                out.drop_last(),
                if pop {
                    (pops - 1) as nat
                } else {
                    pops
                },
            ) && out.len() == samples.len() && #[trigger] depop::depops::<A>(
                between[turn],
                samples.last(),
                ramp,
                after[turn],
                out.last(),
                pop,
            ) && after == between.update(turn, after[turn]) && (pop ==> pops > 0);
        let earlier = run_bridges_in_turn::<A>(
            before,
            samples.drop_last(),
            ramp,
            between,
            out.drop_last(),
            if pop {
                (pops - 1) as nat
            } else {
                pops
            },
        );
        depopping_bridges::<A>(
            between[turn],
            samples.last(),
            ramp,
            after[turn],
            out.last(),
            pop,
        );
        let (states, flags) = (earlier.0.push(after), earlier.1.push(pop));
        assert(flags.drop_last() =~= earlier.1);
        assert(bridges_one::<A>(
            between,
            turn,
            samples.last(),
            ramp,
            after,
            out.last(),
            pop,
        ));
        assert forall|i: int| 0 <= i < samples.len() implies bridges_one::<A>(
            #[trigger] states[i],
            i % (before.len() as int),
            samples[i],
            ramp,
            states[i + 1],
            out[i],
            flags[i],
        ) by {
            if i < n {
                assert(bridges_one::<A>(
                    earlier.0[i],
                    i % (before.len() as int),
                    samples.drop_last()[i],
                    ramp,
                    earlier.0[i + 1],
                    out.drop_last()[i],
                    earlier.1[i],
                ));
            }
        }
        (states, flags)
    }
}

/// A chunk is bridged channel by channel, from where the last one ended where it has as many
/// channels, and from silence where not. Pops are counted.
pub proof fn channels_are_bridged_apart<A: Arithmetic>(
    depop: &mut Depop<A>,
    chunk: AudioChunk,
    out: AudioChunk,
)
    requires
        call_ensures(<Depop<A> as ChunkTransform>::transform, (depop, chunk), out),
    ensures
        out.sequence_number == chunk.sequence_number,
        out.format == chunk.format,
        final(depop).ramp == old(depop).ramp,
        chunk.format.channel_count == 0 ==> out == chunk && *final(depop) == *old(depop),
        chunk.format.channel_count > 0 ==> exists|states: Seq<Seq<DepopChannel>>, pops: Seq<bool>|
            #[trigger]
            bridges_in_turn::<A>(
                states,
                chunk.audio_data@,
                chunk.format.channel_count as int,
                old(depop).ramp,
                out.audio_data@,
                pops,
            ) && states[chunk.audio_data@.len() as int] == final(depop).channels@
                && final(depop).pops == old(depop).pops + set_among(pops) && states[0].len()
                == chunk.format.channel_count && (old(depop).channels@.len()
                == chunk.format.channel_count ==> states[0] == old(depop).channels@) && (
            old(depop).channels@.len() != chunk.format.channel_count ==> forall|c: int|
                0 <= c < states[0].len() ==> is_quiet(#[trigger] states[0][c])),
{
    if chunk.format.channel_count > 0 {
        let (states, pops) = run_bridges_in_turn::<A>(
            old(depop).start(chunk.format.channel_count as int),
            chunk.audio_data@,
            old(depop).ramp,
            final(depop).channels@,
            out.audio_data@,
            (final(depop).pops - old(depop).pops) as nat,
        );
        assert(bridges_in_turn::<A>(
            states,
            chunk.audio_data@,
            chunk.format.channel_count as int,
            old(depop).ramp,
            out.audio_data@,
            pops,
        ));
    }
}

/// A channel that stands at zero, on no ramp.
pub open spec fn is_quiet(channel: DepopChannel) -> bool {
    channel.last == 0 && channel.offset_start == 0 && channel.remaining == 0 && channel.slope == 0
}

/// A ramp takes five milliseconds, rounded down to whole frames, and at least one frame. A new
/// stage has bridged nothing.
pub proof fn ramp_takes_five_milliseconds<A: Arithmetic>(
    sample_rate: u32,
    frames: usize,
    ramp: usize,
    made: Depop<A>,
)
    requires
        call_ensures(Depop::<A>::ramp_frames, (sample_rate,), frames),
        call_ensures(Depop::<A>::new, (ramp,), made),
    ensures
        frames >= 1,
        frames > 1 ==> 1000 * frames <= 5 * sample_rate,
        5 * sample_rate < 1000 * (frames + 1),
        made.ramp == ramp && made.channels@.len() == 0 && made.pops == 0,
{
}

} // verus!
