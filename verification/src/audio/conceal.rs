//! Hiding of missing samples.
use crate::audio::float::{self, Arithmetic};
use std::marker::PhantomData;
use vstd::prelude::*;

verus! {

/// How many samples a fade takes.
pub const PLC_FADE_SAMPLES: usize = 960;

/// Holds the last sample where one is missing, and fades it out.
pub struct Conceal<A> {
    pub last_sample: u32,
    pub fade_start: u32,
    pub fade_pos: usize,
    pub underrun: usize,
    pub plc_hold: usize,
    pub arithmetic: PhantomData<A>,
}

/// `out` is `start` at position `pos` of a fade: `start * (1 - pos / PLC_FADE_SAMPLES)`.
pub open spec fn fades<A: Arithmetic>(start: u32, pos: usize, out: u32) -> bool {
    exists|at: u32, whole: u32, position: u32, rest: u32|
        call_ensures(A::count, (pos,), at) && call_ensures(A::count, (PLC_FADE_SAMPLES,), whole)
            && #[trigger] call_ensures(A::quotient, (at, whole), position)
            && #[trigger] call_ensures(A::difference, (float::ONE, position), rest)
            && call_ensures(A::product, (start, rest), out)
}

impl<A: Arithmetic> Conceal<A> {
    /// A fade that runs is not over yet.
    pub open spec fn wf(&self) -> bool {
        self.fade_pos < PLC_FADE_SAMPLES
    }

    /// Whether `n` more samples can be counted.
    pub open spec fn has_room(&self, n: int) -> bool {
        self.underrun + n <= usize::MAX && self.plc_hold + n <= usize::MAX
    }

    pub fn new() -> (conceal: Self)
        ensures
            conceal.wf(),
            conceal.last_sample == float::ZERO,
            conceal.fade_start == float::ZERO,
            conceal.fade_pos == 0,
            conceal.underrun == 0,
            conceal.plc_hold == 0,
    {
        Conceal {
            last_sample: float::ZERO,
            fade_start: float::ZERO,
            fade_pos: 0,
            underrun: 0,
            plc_hold: 0,
            arithmetic: PhantomData,
        }
    }

    /// `out` is what `self` may play for `sample`. A fade that has begun runs to its end, whatever
    /// comes; a missing sample begins one.
    pub open spec fn plays(self, sample: Option<u32>, after: Self, out: u32) -> bool {
        if self.fade_pos != 0 {
            &&& fades::<A>(self.fade_start, self.fade_pos, out)
            &&& after == (if self.fade_pos + 1 < PLC_FADE_SAMPLES {
                Conceal {
                    fade_pos: (self.fade_pos + 1) as usize,
                    plc_hold: (self.plc_hold + 1) as usize,
                    ..self
                }
            } else {
                Conceal {
                    fade_pos: 0,
                    last_sample: float::ZERO,
                    plc_hold: (self.plc_hold + 1) as usize,
                    ..self
                }
            })
        } else {
            match sample {
                Some(value) => out == value && after == (Conceal {
                    last_sample: value,
                    fade_start: value,
                    ..self
                }),
                None => out == self.last_sample && after == (Conceal {
                    fade_start: self.last_sample,
                    fade_pos: 1,
                    underrun: (self.underrun + 1) as usize,
                    plc_hold: (self.plc_hold + 1) as usize,
                    ..self
                }),
            }
        }
    }

    /// Takes the next sample, and gives the one to play.
    pub fn next(&mut self, sample: Option<u32>) -> (out: u32)
        requires
            old(self).wf(),
            old(self).has_room(1),
        ensures
            final(self).wf(),
            old(self).plays(sample, *final(self), out),
    {
        if self.fade_pos != 0 {
            self.plc_hold += 1;
            let at: u32 = A::count(self.fade_pos);
            let whole: u32 = A::count(PLC_FADE_SAMPLES);
            let position: u32 = A::quotient(at, whole);
            let rest: u32 = A::difference(float::ONE, position);
            let output: u32 = A::product(self.fade_start, rest);
            proof {
                assert(call_ensures(A::quotient, (at, whole), position));
                assert(call_ensures(A::difference, (float::ONE, position), rest));
                assert(fades::<A>(old(self).fade_start, old(self).fade_pos, output));
            }
            self.fade_pos += 1;
            if self.fade_pos >= PLC_FADE_SAMPLES {
                self.fade_pos = 0;
                self.last_sample = float::ZERO;
            }
            return output;
        }
        match sample {
            Some(value) => {
                self.last_sample = value;
                self.fade_start = value;
                value
            },
            None => {
                self.underrun += 1;
                self.plc_hold += 1;
                self.fade_start = self.last_sample;
                self.fade_pos = 1;
                self.fade_start
            },
        }
    }
}

impl<A: Arithmetic> Default for Conceal<A> {
    fn default() -> (conceal: Self)
        ensures
            conceal.wf(),
            conceal.last_sample == float::ZERO,
            conceal.fade_start == float::ZERO,
            conceal.fade_pos == 0,
            conceal.underrun == 0,
            conceal.plc_hold == 0,
    {
        Conceal::new()
    }
}

/// `outs` is what a run of samples may be played as.
pub open spec fn concealed<A: Arithmetic>(
    before: Conceal<A>,
    samples: Seq<Option<u32>>,
    after: Conceal<A>,
    outs: Seq<u32>,
) -> bool
    decreases samples.len(),
{
    &&& outs.len() == samples.len()
    &&& if samples.len() == 0 {
        after == before
    } else {
        exists|mid: Conceal<A>|
            concealed(before, samples.drop_last(), mid, outs.drop_last()) && #[trigger] mid.plays(
                samples.last(),
                after,
                outs.last(),
            )
    }
}

/// A run counts at most one underrun and one held sample for each of its samples.
pub proof fn run_counts<A: Arithmetic>(
    before: Conceal<A>,
    samples: Seq<Option<u32>>,
    after: Conceal<A>,
    outs: Seq<u32>,
)
    requires
        before.wf(),
        before.has_room(samples.len() as int),
        concealed(before, samples, after, outs),
    ensures
        after.wf(),
        before.underrun <= after.underrun <= before.underrun + samples.len(),
        before.plc_hold <= after.plc_hold <= before.plc_hold + samples.len(),
        after.underrun - before.underrun <= after.plc_hold - before.plc_hold,
    decreases samples.len(),
{
    if samples.len() > 0 {
        let mid = choose|mid: Conceal<A>|
            concealed(before, samples.drop_last(), mid, outs.drop_last()) && #[trigger] mid.plays(
                samples.last(),
                after,
                outs.last(),
            );
        run_counts(before, samples.drop_last(), mid, outs.drop_last());
    }
}

/// Where nothing is missing and no fade runs, every sample is played as it is.
pub proof fn whole_run_is_untouched<A: Arithmetic>(
    before: Conceal<A>,
    samples: Seq<Option<u32>>,
    after: Conceal<A>,
    outs: Seq<u32>,
)
    requires
        before.fade_pos == 0,
        forall|i: int| 0 <= i < samples.len() ==> #[trigger] samples[i] is Some,
        concealed(before, samples, after, outs),
    ensures
        after.fade_pos == 0,
        after.underrun == before.underrun,
        after.plc_hold == before.plc_hold,
        forall|i: int| 0 <= i < samples.len() ==> #[trigger] outs[i] == samples[i]->0,
    decreases samples.len(),
{
    if samples.len() > 0 {
        let mid = choose|mid: Conceal<A>|
            concealed(before, samples.drop_last(), mid, outs.drop_last()) && #[trigger] mid.plays(
                samples.last(),
                after,
                outs.last(),
            );
        whole_run_is_untouched(before, samples.drop_last(), mid, outs.drop_last());
        assert forall|i: int| 0 <= i < samples.len() implies #[trigger] outs[i]
            == samples[i]->0 by {
            if i < samples.len() - 1 {
                assert(outs.drop_last()[i] == samples.drop_last()[i]->0);
            }
        }
    }
}

/// A fade, once begun, runs its whole length whatever comes: a run that starts at position `pos`
/// counts no underrun before the fade is over, and leaves it just as many samples further.
pub proof fn fade_runs_to_its_end<A: Arithmetic>(
    before: Conceal<A>,
    samples: Seq<Option<u32>>,
    after: Conceal<A>,
    outs: Seq<u32>,
)
    requires
        before.wf(),
        before.fade_pos > 0,
        before.fade_pos + samples.len() <= PLC_FADE_SAMPLES,
        before.has_room(samples.len() as int),
        concealed(before, samples, after, outs),
    ensures
        after.underrun == before.underrun,
        after.plc_hold == before.plc_hold + samples.len(),
        after.fade_pos == if before.fade_pos + samples.len() < PLC_FADE_SAMPLES {
            before.fade_pos + samples.len()
        } else {
            0
        },
    decreases samples.len(),
{
    if samples.len() > 0 {
        let mid = choose|mid: Conceal<A>|
            concealed(before, samples.drop_last(), mid, outs.drop_last()) && #[trigger] mid.plays(
                samples.last(),
                after,
                outs.last(),
            );
        fade_runs_to_its_end(before, samples.drop_last(), mid, outs.drop_last());
    }
}

} // verus!
