//! Runs of arrivals and of calls for the next item on a playout buffer, and what holds of them.
use crate::audio::window::{self, Window};
use vstd::prelude::*;

verus! {

/// One thing that happens to a playout buffer.
pub enum Step<T> {
    /// `data` arrives under `index`.
    Arrive { index: u128, data: T },
    /// The next item is asked for.
    Play,
}

/// The window after one step.
pub open spec fn stepped<T>(w: Window<T>, step: Step<T>) -> Window<T> {
    match step {
        Step::Arrive { index, data } => w.set(index as int, data),
        Step::Play => w.advance(),
    }
}

/// The window after a run of steps.
pub open spec fn run<T>(w: Window<T>, steps: Seq<Step<T>>) -> Window<T>
    decreases steps.len(),
{
    if steps.len() == 0 {
        w
    } else {
        stepped(run(w, steps.drop_last()), steps.last())
    }
}

/// What became of the items that arrived.
pub struct Tally {
    pub arrived: nat,
    pub late: nat,
    pub replaced: nat,
    pub evicted: nat,
    pub played: nat,
}

/// The tally with one more step, taken by the window `w`.
pub open spec fn counted<T>(tally: Tally, w: Window<T>, step: Step<T>) -> Tally {
    match step {
        Step::Arrive { index, .. } => if index < w.head {
            Tally { arrived: tally.arrived + 1, late: tally.late + 1, ..tally }
        } else {
            Tally {
                arrived: tally.arrived + 1,
                replaced: tally.replaced + if w.items.dom().contains(index as int) {
                    1nat
                } else {
                    0
                },
                evicted: tally.evicted + w.evicted(index as int).len(),
                ..tally
            }
        },
        Step::Play => Tally {
            played: tally.played + if w.current() is Some {
                1nat
            } else {
                0
            },
            ..tally
        },
    }
}

/// The tally of a run of steps.
pub open spec fn tally<T>(w: Window<T>, steps: Seq<Step<T>>) -> Tally
    decreases steps.len(),
{
    if steps.len() == 0 {
        Tally { arrived: 0, late: 0, replaced: 0, evicted: 0, played: 0 }
    } else {
        counted(tally(w, steps.drop_last()), run(w, steps.drop_last()), steps.last())
    }
}

/// The items that a run of steps hands out, each with its sequence number.
pub open spec fn played<T>(w: Window<T>, steps: Seq<Step<T>>) -> Seq<(int, T)>
    decreases steps.len(),
{
    if steps.len() == 0 {
        Seq::empty()
    } else {
        let before = run(w, steps.drop_last());
        match (steps.last(), before.current()) {
            (Step::Play, Some(item)) => played(w, steps.drop_last()).push((before.head, item)),
            _ => played(w, steps.drop_last()),
        }
    }
}

/// Whether `data` arrives under `index` in a run of steps.
pub open spec fn arrives<T>(steps: Seq<Step<T>>, index: int, data: T) -> bool {
    exists|i: int|
        0 <= i < steps.len() && (#[trigger] steps[i] matches Step::Arrive { index: at, data: item }
            && at == index && item == data)
}

/// Whether anything arrives under `index` in a run of steps.
pub open spec fn reached<T>(steps: Seq<Step<T>>, index: int) -> bool {
    exists|i: int|
        0 <= i < steps.len() && (#[trigger] steps[i] matches Step::Arrive { index: at, .. } && at
            == index)
}

/// A run of steps keeps the window well formed, and its capacity.
pub proof fn run_keeps_wf<T>(w: Window<T>, steps: Seq<Step<T>>)
    requires
        w.wf(),
    ensures
        run(w, steps).wf(),
        run(w, steps).capacity == w.capacity,
    decreases steps.len(),
{
    if steps.len() > 0 {
        let before = run(w, steps.drop_last());
        run_keeps_wf(w, steps.drop_last());
        match steps.last() {
            Step::Arrive { index, data } => {
                window::set_keeps_wf(before, index as int, data);
            },
            Step::Play => {
                window::advance_keeps_wf(before);
            },
        }
    }
}

/// The newest number is the greatest one that has arrived since the buffer was new or reset, late
/// arrivals included, and 0 before the first arrival.
pub proof fn newest_is_the_greatest_arrival<T>(capacity: int, steps: Seq<Step<T>>)
    requires
        capacity > 0,
    ensures
        forall|index: int| #[trigger]
            reached(steps, index) ==> index <= run(Window::<T>::fresh(capacity), steps).prev,
        reached(steps, run(Window::<T>::fresh(capacity), steps).prev) || run(
            Window::<T>::fresh(capacity),
            steps,
        ).prev == 0,
    decreases steps.len(),
{
    let fresh = Window::<T>::fresh(capacity);
    run_keeps_wf(fresh, steps);
    if steps.len() > 0 {
        let earlier = steps.drop_last();
        let before = run(fresh, earlier);
        let after = run(fresh, steps);
        run_keeps_wf(fresh, earlier);
        newest_is_the_greatest_arrival(capacity, earlier);
        assert(before.prev <= after.prev);
        assert forall|index: int| #[trigger] reached(steps, index) implies index <= after.prev by {
            let i = choose|i: int|
                0 <= i < steps.len() && (#[trigger] steps[i] matches Step::Arrive { index: at, .. }
                    && at == index);
            if i < earlier.len() {
                assert(earlier[i] == steps[i]);
                assert(reached(earlier, index));
            }
        }
        if after.prev == before.prev && reached(earlier, before.prev) {
            let i = choose|i: int|
                0 <= i < earlier.len() && (#[trigger] earlier[i] matches Step::Arrive {
                    index: at,
                    ..
                } && at == before.prev);
            assert(steps[i] == earlier[i]);
            assert(reached(steps, after.prev));
        } else if after.prev != before.prev {
            assert(steps[steps.len() - 1] matches Step::Arrive { index: at, .. } && at
                == after.prev);
            assert(reached(steps, after.prev));
        }
    }
}

/// No item is lost or made up: every arrival was late, or replaced one that waited, or has been
/// evicted, or has been played, or is still held. What was held at the start is accounted for in
/// the same way.
pub proof fn every_arrival_is_accounted_for<T>(w: Window<T>, steps: Seq<Step<T>>)
    requires
        w.wf(),
    ensures
        ({
            let t = tally(w, steps);
            w.items.dom().len() + t.arrived == t.late + t.replaced + t.evicted + t.played + run(
                w,
                steps,
            ).items.dom().len()
        }),
    decreases steps.len(),
{
    if steps.len() > 0 {
        let before = run(w, steps.drop_last());
        run_keeps_wf(w, steps.drop_last());
        every_arrival_is_accounted_for(w, steps.drop_last());
        match steps.last() {
            Step::Arrive { index, data } => {
                if index >= before.head {
                    let evicted = before.evicted(index as int);
                    let kept = before.items.remove_keys(evicted);
                    window::evicted_is_held(before, index as int);
                    assert(kept.dom() =~= before.items.dom().difference(evicted));
                    vstd::set_lib::lemma_set_disjoint_lens(kept.dom(), evicted);
                    assert(kept.dom().union(evicted) =~= before.items.dom());
                    assert(kept.dom().contains(index as int) == before.items.dom().contains(
                        index as int,
                    ));
                    assert(before.set(index as int, data).items.dom() =~= kept.dom().insert(
                        index as int,
                    ));
                }
            },
            Step::Play => {
                if before.current() is None && !before.starved() {
                    assert(before.items.remove(before.head) =~= before.items);
                }
            },
        }
    }
}

/// Items come out in strictly increasing order of their numbers, and all of them lie before the
/// cursor.
pub proof fn playout_is_strictly_increasing<T>(w: Window<T>, steps: Seq<Step<T>>)
    requires
        w.wf(),
    ensures
        forall|i: int, j: int|
            0 <= i < j < played(w, steps).len() ==> (#[trigger] played(w, steps)[i]).0 < (
            #[trigger] played(w, steps)[j]).0,
        forall|i: int|
            0 <= i < played(w, steps).len() ==> w.head <= (#[trigger] played(w, steps)[i]).0 < run(
                w,
                steps,
            ).head,
        w.head <= run(w, steps).head,
    decreases steps.len(),
{
    if steps.len() > 0 {
        run_keeps_wf(w, steps.drop_last());
        playout_is_strictly_increasing(w, steps.drop_last());
        let earlier = played(w, steps.drop_last());
        assert forall|i: int| 0 <= i < played(w, steps).len() implies #[trigger] played(w, steps)[i]
            == if i < earlier.len() {
            earlier[i]
        } else {
            (run(w, steps.drop_last()).head, run(w, steps.drop_last()).current()->0)
        } by {}
    }
}

/// What a new buffer hands out under a number has arrived under that number.
pub proof fn played_items_have_arrived<T>(capacity: int, steps: Seq<Step<T>>)
    requires
        capacity > 0,
    ensures
        forall|i: int|
            0 <= i < played(Window::<T>::fresh(capacity), steps).len() ==> arrives(
                steps,
                (#[trigger] played(Window::<T>::fresh(capacity), steps)[i]).0,
                played(Window::<T>::fresh(capacity), steps)[i].1,
            ),
{
    held_items_have_arrived(capacity, steps);
}

/// What a new buffer holds or has handed out under a number has arrived under that number.
proof fn held_items_have_arrived<T>(capacity: int, steps: Seq<Step<T>>)
    requires
        capacity > 0,
    ensures
        forall|k: int| #[trigger]
            run(Window::<T>::fresh(capacity), steps).items.dom().contains(k) ==> arrives(
                steps,
                k,
                run(Window::<T>::fresh(capacity), steps).items[k],
            ),
        forall|i: int|
            0 <= i < played(Window::<T>::fresh(capacity), steps).len() ==> arrives(
                steps,
                (#[trigger] played(Window::<T>::fresh(capacity), steps)[i]).0,
                played(Window::<T>::fresh(capacity), steps)[i].1,
            ),
    decreases steps.len(),
{
    if steps.len() > 0 {
        let fresh = Window::<T>::fresh(capacity);
        let earlier = steps.drop_last();
        let before = run(fresh, earlier);
        let after = run(fresh, steps);
        held_items_have_arrived(capacity, earlier);
        assert forall|k: int, data: T| #[trigger] arrives(earlier, k, data) implies arrives(
            steps,
            k,
            data,
        ) by {
            let i = choose|i: int|
                0 <= i < earlier.len() && (#[trigger] earlier[i] matches Step::Arrive {
                    index: at,
                    data: item,
                } && at == k && item == data);
            assert(steps[i] == earlier[i]);
        }
        assert forall|k: int| #[trigger] after.items.dom().contains(k) implies arrives(
            steps,
            k,
            after.items[k],
        ) by {
            match steps.last() {
                Step::Arrive { index, data } => {
                    if k == index && index >= before.head {
                        assert(steps[steps.len() - 1] == steps.last());
                    } else {
                        assert(before.items.dom().contains(k));
                        assert(arrives(earlier, k, before.items[k]));
                    }
                },
                Step::Play => {
                    assert(before.items.dom().contains(k));
                    assert(arrives(earlier, k, before.items[k]));
                },
            }
        }
        if steps.last() is Play && before.current() is Some {
            assert(before.items.dom().contains(before.head));
            assert(arrives(earlier, before.head, before.items[before.head]));
        }
        let out = played(fresh, earlier);
        assert forall|i: int| 0 <= i < played(fresh, steps).len() implies arrives(
            steps,
            (#[trigger] played(fresh, steps)[i]).0,
            played(fresh, steps)[i].1,
        ) by {
            if i < out.len() {
                assert(played(fresh, steps)[i] == out[i]);
                assert(arrives(earlier, out[i].0, out[i].1));
            }
        }
    }
}

} // verus!
