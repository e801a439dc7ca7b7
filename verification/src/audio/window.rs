//! The mathematical model of a reordering playout buffer: a window of sequence numbers that
//! slides forward, with the items that have arrived for it.
use vstd::prelude::*;
use vstd::set_lib::*;

verus! {

/// What a playout buffer holds. `head` is the next sequence number to play, `prev` the greatest
/// one that has arrived, `items` what has arrived and not been played.
#[verifier::ext_equal]
pub struct Window<T> {
    pub capacity: int,
    pub head: int,
    pub prev: int,
    pub seen_any: bool,
    pub items: Map<int, T>,
}

impl<T> Window<T> {
    /// A window that nothing has reached yet.
    pub open spec fn fresh(capacity: int) -> Self {
        Window { capacity, head: 0, prev: 0, seen_any: false, items: Map::empty() }
    }

    /// What every operation keeps: items lie in `head .. head + capacity` and none is newer than
    /// `prev`, which lies before the end of the window too; the cursor is at most one past `prev`.
    /// Before the first arrival nothing is held and `prev` is 0.
    pub open spec fn wf(self) -> bool {
        &&& self.capacity > 0
        &&& 0 <= self.head <= self.prev + 1
        &&& 0 <= self.prev < self.head + self.capacity
        &&& self.items.dom().finite()
        &&& forall|k: int| #[trigger]
            self.items.dom().contains(k) ==> self.head <= k < self.head + self.capacity && k
                <= self.prev
        &&& !self.seen_any ==> self.items =~= Map::empty() && self.prev == 0
    }

    /// Where the window starts once `index` has been accepted: the first arrival anchors it, and
    /// an arrival beyond its end slides it forward just far enough.
    pub open spec fn head_after(self, index: int) -> int {
        let anchored = if self.seen_any {
            self.head
        } else {
            index
        };
        if index - anchored >= self.capacity {
            index - self.capacity + 1
        } else {
            anchored
        }
    }

    /// The sequence numbers whose items are discarded unplayed when `index` arrives.
    pub open spec fn evicted(self, index: int) -> Set<int> {
        if index < self.head {
            Set::empty()
        } else {
            self.items.dom().filter(|k: int| k < self.head_after(index))
        }
    }

    /// The window after `data` arrives under `index`. What lies before the cursor is too late.
    pub open spec fn set(self, index: int, data: T) -> Self {
        if index < self.head {
            self
        } else {
            Window {
                capacity: self.capacity,
                head: self.head_after(index),
                prev: if self.seen_any && index <= self.prev {
                    self.prev
                } else {
                    index
                },
                seen_any: true,
                items: self.items.remove_keys(self.evicted(index)).insert(index, data),
            }
        }
    }

    /// Whether playback has caught up with everything that has arrived.
    pub open spec fn starved(self) -> bool {
        self.head > self.prev
    }

    /// What the next call plays: the item under the cursor, if it has arrived.
    pub open spec fn current(self) -> Option<T> {
        if !self.starved() && self.items.dom().contains(self.head) {
            Some(self.items[self.head])
        } else {
            None
        }
    }

    /// The window after one call for the next item: the cursor moves by exactly one, and not at
    /// all while starved.
    pub open spec fn advance(self) -> Self {
        if self.starved() {
            self
        } else {
            Window { head: self.head + 1, items: self.items.remove(self.head), ..self }
        }
    }

    /// The window after `n` calls for the next item.
    pub open spec fn advance_by(self, n: nat) -> Self
        decreases n,
    {
        if n == 0 {
            self
        } else {
            self.advance_by((n - 1) as nat).advance()
        }
    }
}

/// An arrival keeps the window well formed.
pub proof fn set_keeps_wf<T>(w: Window<T>, index: int, data: T)
    requires
        w.wf(),
        0 <= index,
    ensures
        w.set(index, data).wf(),
{
    if index >= w.head {
        let kept = w.items.remove_keys(w.evicted(index));
        assert(kept.dom() =~= w.items.dom().difference(w.evicted(index)));
        assert(w.set(index, data).items.dom() =~= kept.dom().insert(index));
        assert forall|k: int| #[trigger]
            w.set(index, data).items.dom().contains(k) implies w.head_after(index) <= k
            < w.head_after(index) + w.capacity && k <= w.set(index, data).prev by {
            if k != index {
                assert(w.items.dom().contains(k));
            }
        }
    }
}

/// A call for the next item keeps the window well formed.
pub proof fn advance_keeps_wf<T>(w: Window<T>)
    requires
        w.wf(),
    ensures
        w.advance().wf(),
{
    if !w.starved() {
        assert forall|k: int| #[trigger] w.advance().items.dom().contains(k) implies w.head + 1
            <= k < w.head + 1 + w.capacity && k <= w.prev by {
            assert(w.items.dom().contains(k));
        }
        if !w.seen_any {
            assert(w.advance().items =~= Map::empty());
        }
    }
}

/// A window never holds more items than its capacity.
pub proof fn occupancy_is_bounded<T>(w: Window<T>)
    requires
        w.wf(),
    ensures
        w.items.dom().len() <= w.capacity,
{
    let span = set_int_range(w.head, w.head + w.capacity);
    lemma_int_range(w.head, w.head + w.capacity);
    assert(w.items.dom().subset_of(span));
    lemma_len_subset(w.items.dom(), span);
}

/// Starved means that nothing is left to play.
pub proof fn starved_is_empty<T>(w: Window<T>)
    requires
        w.wf(),
        w.starved(),
    ensures
        w.items =~= Map::empty(),
{
    assert forall|k: int| !w.items.dom().contains(k) by {}
    assert(w.items.dom() =~= Set::empty());
}

/// While no new item arrives, `n` calls move the cursor by `n`, up to one past the newest
/// arrival, and drop exactly the items that the cursor passed.
pub proof fn advance_by_moves_cursor<T>(w: Window<T>, n: nat)
    requires
        w.wf(),
        w.head + n <= w.prev + 1,
    ensures
        w.advance_by(n).wf(),
        w.advance_by(n).head == w.head + n,
        w.advance_by(n).prev == w.prev,
        w.advance_by(n).capacity == w.capacity,
        w.advance_by(n).seen_any == w.seen_any,
        forall|k: int|
            k >= w.head + n ==> (#[trigger] w.advance_by(n).items.dom().contains(k)
                <==> w.items.dom().contains(k)),
        forall|k: int|
            k >= w.head + n && w.items.dom().contains(k) ==> #[trigger] w.advance_by(n).items[k]
                == w.items[k],
    decreases n,
{
    if n > 0 {
        advance_by_moves_cursor(w, (n - 1) as nat);
        advance_keeps_wf(w.advance_by((n - 1) as nat));
    }
}

/// What arrived is played: an item accepted under `index` comes out of exactly the call that
/// reaches `index`, however many other items arrived before it.
pub proof fn accepted_item_is_played<T>(w: Window<T>, index: int, data: T)
    requires
        w.wf(),
        w.head <= index,
        0 <= index,
    ensures
        ({
            let after = w.set(index, data);
            after.advance_by((index - after.head) as nat).current() == Some(data)
        }),
{
    set_keeps_wf(w, index, data);
    let after = w.set(index, data);
    advance_by_moves_cursor(after, (index - after.head) as nat);
    assert(after.items.dom().contains(index));
    assert(after.items[index] == data);
}

/// Items come out in the order of their sequence numbers: what a call plays is the item that
/// arrived under the cursor, and the cursor never moves back.
pub proof fn playout_is_ordered<T>(w: Window<T>)
    requires
        w.wf(),
    ensures
        w.current() matches Some(item) ==> w.items.dom().contains(w.head) && w.items[w.head]
            == item,
        w.head <= w.advance().head <= w.head + 1,
        !w.starved() ==> w.advance().head == w.head + 1,
        w.starved() ==> w.advance() == w,
{
}

/// Redelivery replaces: the second arrival under one number stands, and nothing grows.
pub proof fn redelivery_replaces<T>(w: Window<T>, index: int, first: T, second: T)
    requires
        w.wf(),
        0 <= index,
    ensures
        w.set(index, first).set(index, second) =~= w.set(index, second),
        w.set(index, first).evicted(index) =~= Set::empty(),
{
    if index >= w.head {
        set_keeps_wf(w, index, first);
        let once = w.set(index, first);
        assert(once.evicted(index) =~= Set::empty());
        assert(once.items.remove_keys(once.evicted(index)) =~= once.items);
    }
}

/// What the cursor has passed is ignored: a late arrival changes nothing and evicts nothing.
pub proof fn late_arrival_is_ignored<T>(w: Window<T>, index: int, data: T)
    requires
        w.wf(),
        index < w.head,
    ensures
        w.set(index, data) == w,
        w.evicted(index) =~= Set::empty(),
{
}

/// The first arrival anchors the cursor, so a stream that starts late has no gap to walk.
pub proof fn first_arrival_anchors<T>(w: Window<T>, index: int, data: T)
    requires
        w.wf(),
        !w.seen_any,
        w.head <= index,
    ensures
        w.set(index, data).head == index,
        w.set(index, data).prev == index,
        w.set(index, data).current() == Some(data),
{
}

/// An arrival that fits the window evicts nothing; one beyond its end makes itself the newest
/// item that the window can hold.
pub proof fn arrival_beyond_end_slides<T>(w: Window<T>, index: int, data: T)
    requires
        w.wf(),
        w.seen_any,
        w.head <= index,
    ensures
        index < w.head + w.capacity ==> w.set(index, data).head == w.head && w.evicted(index)
            =~= Set::empty(),
        index >= w.head + w.capacity ==> w.set(index, data).head + w.capacity == index + 1,
{
}

/// What an arrival evicts is part of what the window holds.
pub proof fn evicted_is_held<T>(w: Window<T>, index: int)
    requires
        w.wf(),
    ensures
        w.evicted(index).subset_of(w.items.dom()),
        w.evicted(index).finite(),
        w.evicted(index).len() <= w.items.dom().len(),
{
    lemma_len_subset(w.evicted(index), w.items.dom());
}

} // verus!
