//! Hiding of missing samples: what is played for them, and when it ends in silence.
use crate::audio::conceal::{self, Conceal, PLC_FADE_SAMPLES};
use crate::audio::float::{self, Arithmetic};
use vstd::prelude::*;

verus! {

/// `out` is `start`, times one less the share of the fade that has gone by.
pub open spec fn scaled_at<A: Arithmetic>(start: u32, pos: int, out: u32) -> bool {
    exists|gone: u32, whole: u32, share: u32, rest: u32|
        call_ensures(A::count, (pos as usize,), gone) && call_ensures(A::count, (960usize,), whole)
            && #[trigger] call_ensures(A::quotient, (gone, whole), share)
            && #[trigger] call_ensures(A::difference, (float::ONE, share), rest) && call_ensures(
            A::product,
            (start, rest),
            out,
        )
}

/// While no fade runs, a sample that has come is played as it is and remembered; nothing is
/// counted.
pub proof fn sample_is_played_as_it_is<A: Arithmetic>(
    conceal: &mut Conceal<A>,
    value: u32,
    out: u32,
)
    requires
        call_ensures(Conceal::<A>::next, (conceal, Some(value)), out),
        old(conceal).fade_pos == 0,
    ensures
        out == value,
        final(conceal).last_sample == value,
        final(conceal).fade_pos == 0,
        final(conceal).underrun == old(conceal).underrun,
        final(conceal).plc_hold == old(conceal).plc_hold,
{
}

/// While no fade runs, a missing sample repeats the last one that was played, is counted, and
/// starts a fade from it.
pub proof fn missing_sample_repeats_the_last<A: Arithmetic>(conceal: &mut Conceal<A>, out: u32)
    requires
        old(conceal).has_room(1),
        call_ensures(Conceal::<A>::next, (conceal, None), out),
        old(conceal).fade_pos == 0,
    ensures
        out == old(conceal).last_sample,
        final(conceal).fade_start == old(conceal).last_sample,
        final(conceal).fade_pos == 1,
        final(conceal).underrun == old(conceal).underrun + 1,
        final(conceal).plc_hold == old(conceal).plc_hold + 1,
{
}

/// A fade takes no notice of what comes: two calls on the same state, with any samples, count the
/// same and leave the same state. What comes out is where the fade began, scaled.
pub proof fn fade_takes_no_notice<A: Arithmetic>(
    one: &mut Conceal<A>,
    other: &mut Conceal<A>,
    sample: Option<u32>,
    another: Option<u32>,
    out: u32,
    another_out: u32,
)
    requires
        old(one).wf(),
        old(one).has_room(1),
        *old(one) == *old(other),
        old(one).fade_pos > 0,
        call_ensures(Conceal::<A>::next, (one, sample), out),
        call_ensures(Conceal::<A>::next, (other, another), another_out),
    ensures
        *final(one) == *final(other),
        final(one).underrun == old(one).underrun,
        final(one).plc_hold == old(one).plc_hold + 1,
        scaled_at::<A>(old(one).fade_start, old(one).fade_pos as int, out),
        scaled_at::<A>(old(one).fade_start, old(one).fade_pos as int, another_out),
        // The fade moves on by one, and ends in silence.
        old(one).fade_pos + 1 < PLC_FADE_SAMPLES ==> final(one).fade_pos == old(one).fade_pos + 1
            && final(one).fade_start == old(one).fade_start && final(one).last_sample == old(
            one,
        ).last_sample,
        old(one).fade_pos + 1 >= PLC_FADE_SAMPLES ==> final(one).fade_pos == 0
            && final(one).last_sample == float::ZERO,
{
}

/// What a concealment is in, `j` samples into a run of missing ones: the first fade begins where
/// the signal stood, every later one at zero.
pub open spec fn fading_from<A>(last: u32, j: int, state: Conceal<A>) -> bool {
    let start = if j <= PLC_FADE_SAMPLES {
        last
    } else {
        float::ZERO
    };
    &&& state.fade_pos == j % PLC_FADE_SAMPLES as int
    &&& state.fade_pos > 0 ==> state.fade_start == start
    &&& state.fade_pos == 0 && j > 0 ==> state.last_sample == float::ZERO
    &&& j == 0 ==> state.last_sample == last
}

/// What is played while nothing comes: first the last sample that was played, and then that one
/// faded, until the fade has run its whole length. From then on every fade begins at zero: what is
/// played begins again at zero, and between that is zero scaled.
pub proof fn missing_run_ends_in_silence<A: Arithmetic>(
    before: Conceal<A>,
    samples: Seq<Option<u32>>,
    after: Conceal<A>,
    outs: Seq<u32>,
)
    requires
        before.fade_pos == 0,
        before.has_room(samples.len() as int),
        forall|i: int| 0 <= i < samples.len() ==> #[trigger] samples[i] is None,
        conceal::concealed(before, samples, after, outs),
    ensures
        outs.len() == samples.len(),
        samples.len() > 0 ==> outs[0] == before.last_sample,
        forall|j: int|
            0 < j < samples.len() && j < PLC_FADE_SAMPLES ==> scaled_at::<A>(
                before.last_sample,
                j,
                #[trigger] outs[j],
            ),
        forall|j: int|
            PLC_FADE_SAMPLES <= j < samples.len() && j % PLC_FADE_SAMPLES as int == 0
                ==> #[trigger] outs[j] == float::ZERO,
        forall|j: int|
            PLC_FADE_SAMPLES <= j < samples.len() && j % PLC_FADE_SAMPLES as int != 0
                ==> scaled_at::<A>(float::ZERO, j % PLC_FADE_SAMPLES as int, #[trigger] outs[j]),
        fading_from(before.last_sample, samples.len() as int, after),
        after.plc_hold == before.plc_hold + samples.len(),
    decreases samples.len(),
{
    if samples.len() > 0 {
        let mid = choose|mid: Conceal<A>|
            conceal::concealed(before, samples.drop_last(), mid, outs.drop_last())
                && #[trigger] mid.plays(samples.last(), after, outs.last());
        let j = samples.len() - 1;
        missing_run_ends_in_silence(before, samples.drop_last(), mid, outs.drop_last());
        let earlier = outs.drop_last();
        assert(samples[j] is None);
        vstd::arithmetic::div_mod::lemma_fundamental_div_mod(j, PLC_FADE_SAMPLES as int);
        assert(outs.last() == outs[j]);
        assert forall|i: int| 0 < i < samples.len() && i < PLC_FADE_SAMPLES implies scaled_at::<A>(
            before.last_sample,
            i,
            #[trigger] outs[i],
        ) by {
            if i < j {
                assert(earlier[i] == outs[i]);
            }
        }
        assert forall|i: int|
            PLC_FADE_SAMPLES <= i < samples.len() && i % PLC_FADE_SAMPLES as int
                == 0 implies #[trigger] outs[i] == float::ZERO by {
            if i < j {
                assert(earlier[i] == outs[i]);
            }
        }
        assert forall|i: int|
            PLC_FADE_SAMPLES <= i < samples.len() && i % PLC_FADE_SAMPLES as int
                != 0 implies scaled_at::<A>(
            float::ZERO,
            i % PLC_FADE_SAMPLES as int,
            #[trigger] outs[i],
        ) by {
            if i < j {
                assert(earlier[i] == outs[i]);
            }
        }
        if j > 0 {
            assert(earlier[0] == outs[0]);
        }
    }
}

/// With products by zero that are zero, nothing is heard any more once the first fade is over, for
/// as long as nothing comes.
pub proof fn nothing_is_heard_after_the_fade<A: Arithmetic>(
    before: Conceal<A>,
    samples: Seq<Option<u32>>,
    after: Conceal<A>,
    outs: Seq<u32>,
)
    requires
        before.fade_pos == 0,
        before.has_room(samples.len() as int),
        forall|i: int| 0 <= i < samples.len() ==> #[trigger] samples[i] is None,
        conceal::concealed(before, samples, after, outs),
        forall|rest: u32, out: u32| #[trigger]
            call_ensures(A::product, (float::ZERO, rest), out) ==> out == float::ZERO,
    ensures
        forall|j: int|
            PLC_FADE_SAMPLES <= j < samples.len() ==> #[trigger] outs[j] == float::ZERO,
{
    missing_run_ends_in_silence(before, samples, after, outs);
}

/// What is done about one sample. While no fade runs, one that has come is played as it is, and
/// for a missing one the last is repeated and a fade begins; a fade goes on whatever comes, and
/// leaves silence behind.
pub open spec fn conceals_one<A: Arithmetic>(
    before: Conceal<A>,
    sample: Option<u32>,
    after: Conceal<A>,
    out: u32,
) -> bool {
    let missing = sample is None;
    if before.fade_pos > 0 {
        &&& scaled_at::<A>(before.fade_start, before.fade_pos as int, out)
        &&& after.fade_pos == if before.fade_pos + 1 < 960 {
            before.fade_pos + 1
        } else {
            0
        }
        &&& after.fade_start == before.fade_start
        &&& after.last_sample == if before.fade_pos + 1 < 960 {
            before.last_sample
        } else {
            0
        }
        &&& after.underrun == before.underrun
        &&& before.has_room(1) ==> after.plc_hold == before.plc_hold + 1
    } else {
        &&& out == if missing {
            before.last_sample
        } else {
            sample->0
        }
        &&& after.last_sample == out && after.fade_start == out
        &&& after.fade_pos == if missing {
            1int
        } else {
            0
        }
        &&& before.has_room(1) ==> after.underrun == before.underrun + after.fade_pos
            && after.plc_hold == before.plc_hold + after.fade_pos
    }
}

/// `states` is how a concealment goes on over a run of samples, one by one.
pub open spec fn conceals<A: Arithmetic>(
    states: Seq<Conceal<A>>,
    samples: Seq<Option<u32>>,
    outs: Seq<u32>,
) -> bool {
    &&& states.len() == samples.len() + 1
    &&& outs.len() == samples.len()
    &&& forall|x: int|
        0 <= x < samples.len() ==> conceals_one(
            #[trigger] states[x],
            samples[x],
            states[x + 1],
            outs[x],
        )
}

/// A call does about its sample what is to be done about one.
pub proof fn call_conceals_one<A: Arithmetic>(
    conceal: &mut Conceal<A>,
    sample: Option<u32>,
    out: u32,
)
    requires
        call_ensures(Conceal::<A>::next, (conceal, sample), out),
    ensures
        conceals_one(*old(conceal), sample, *final(conceal), out),
{
}

/// A run goes through every one of its samples, in order.
pub proof fn run_conceals_each<A: Arithmetic>(
    before: Conceal<A>,
    samples: Seq<Option<u32>>,
    after: Conceal<A>,
    outs: Seq<u32>,
) -> (states: Seq<Conceal<A>>)
    requires
        conceal::concealed(before, samples, after, outs),
    ensures
        conceals(states, samples, outs),
        states[0] == before,
        states[samples.len() as int] == after,
    decreases samples.len(),
{
    if samples.len() == 0 {
        seq![before]
    } else {
        let mid = choose|mid: Conceal<A>|
            conceal::concealed(before, samples.drop_last(), mid, outs.drop_last())
                && #[trigger] mid.plays(samples.last(), after, outs.last());
        let earlier = run_conceals_each(before, samples.drop_last(), mid, outs.drop_last());
        let states = earlier.push(after);
        assert forall|x: int| 0 <= x < samples.len() implies conceals_one(
            #[trigger] states[x],
            samples[x],
            states[x + 1],
            outs[x],
        ) by {
            if x < samples.len() - 1 {
                assert(conceals_one(
                    earlier[x],
                    samples.drop_last()[x],
                    earlier[x + 1],
                    outs.drop_last()[x],
                ));
            }
        }
        states
    }
}

/// A new concealment has nothing to repeat but silence, and has counted nothing.
pub proof fn concealment_starts_silent<A: Arithmetic>(made: Conceal<A>, default: Conceal<A>)
    requires
        call_ensures(Conceal::<A>::new, (), made),
        call_ensures(<Conceal<A> as Default>::default, (), default),
    ensures
        made.last_sample == float::ZERO && made.fade_pos == 0,
        made.underrun == 0 && made.plc_hold == 0,
        default.last_sample == float::ZERO && default.fade_pos == 0,
        default.underrun == 0 && default.plc_hold == 0,
{
}

} // verus!
