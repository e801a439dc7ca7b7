//! A buffer that puts chunks back in sequence order before they are played.
use crate::audio::jitter_slots as slots;
use crate::audio::window::{self, Window};
use vstd::prelude::*;

verus! {

/// Reorders items by sequence number for playback. Room for `max_size` consecutive numbers.
pub struct JitterBuffer<T> {
    head: u128,
    current_size: usize,
    max_size: usize,
    buffer: Vec<Option<(u128, T)>>,
    prev: u128,
    seen_any: bool,
}

impl<T> View for JitterBuffer<T> {
    type V = Window<T>;

    closed spec fn view(&self) -> Window<T> {
        Window {
            capacity: self.max_size as int,
            head: self.head as int,
            prev: self.prev as int,
            seen_any: self.seen_any,
            items: slots::slot_items(self.buffer@),
        }
    }
}

impl<T> JitterBuffer<T> {
    /// The slots agree with the window and `current_size` counts its items.
    pub closed spec fn wf(&self) -> bool {
        &&& self@.wf()
        &&& self.buffer@.len() == self.max_size
        &&& slots::aligned(self.buffer@)
        &&& self.current_size == self@.items.dom().len()
    }

    /// The window of a well formed buffer is well formed.
    pub proof fn window_is_wf(&self)
        requires
            self.wf(),
        ensures
            self@.wf(),
    {
    }

    pub fn new(max_size: usize) -> (buffer: JitterBuffer<T>)
        requires
            max_size > 0,
        ensures
            buffer.wf(),
            buffer@ == Window::<T>::fresh(max_size as int),
    {
        let buffer: Vec<Option<(u128, T)>> = slots::empty_slots(max_size);
        JitterBuffer { head: 0, current_size: 0, prev: 0, max_size, buffer, seen_any: false }
    }

    pub fn len(&self) -> (len: usize)
        requires
            self.wf(),
        ensures
            len == self@.items.dom().len(),
            len <= self@.capacity,
    {
        proof {
            window::occupancy_is_bounded(self@);
        }
        self.current_size
    }

    pub fn is_empty(&self) -> (empty: bool)
        requires
            self.wf(),
        ensures
            empty == (self@.items =~= Map::empty()),
            empty == (self@.items.dom().len() == 0),
    {
        proof {
            if self@.items.dom().len() == 0 {
                assert(self@.items.dom() =~= Set::empty());
                assert(self@.items =~= Map::empty());
            }
        }
        self.len() == 0
    }

    /// Forgets everything, as for a stream whose numbers start again.
    pub fn reset(&mut self)
        requires
            old(self).wf(),
        ensures
            final(self).wf(),
            final(self)@ == Window::<T>::fresh(old(self)@.capacity),
    {
        self.buffer = slots::empty_slots(self.max_size);
        self.head = 0;
        self.prev = 0;
        self.current_size = 0;
        self.seen_any = false;
    }

    /// Next sequence number expected for playback (read cursor).
    pub fn head(&self) -> (head: u128)
        ensures
            head == self@.head,
    {
        self.head
    }

    /// Max sequence number seen via `set` (write cursor).
    pub fn prev(&self) -> (prev: u128)
        ensures
            prev == self@.prev,
    {
        self.prev
    }

    /// Stores `data` under `index` and returns how many items it pushed out unplayed.
    pub fn set(&mut self, index: u128, data: T) -> (dropped: usize)
        requires
            old(self).wf(),
        ensures
            final(self).wf(),
            final(self)@ == old(self)@.set(index as int, data),
            dropped == old(self)@.evicted(index as int).len(),
    {
        if index < self.head {
            return 0;
        }
        let ghost before = self@;
        proof {
            window::set_keeps_wf(before, index as int, data);
        }
        if self.seen_any {
            if index > self.prev {
                self.prev = index;
            }
        } else {
            self.prev = index;
            self.seen_any = true;
            // The first chunk ever defines the read cursor, so a stream that starts at a nonzero
            // number does not force a walk over the gap from 0.
            self.head = index;
        }
        let mut dropped: usize = 0;
        if index - self.head >= self.max_size as u128 {
            self.head = index - self.max_size as u128 + 1;
            let (stale, left) = slots::evict_stale(&mut self.buffer, self.head, self.current_size);
            dropped = stale;
            self.current_size = left;
        }
        let ghost kept = before.items.remove_keys(before.evicted(index as int));
        proof {
            let stale = before.items.dom().filter(|k: int| k < self.head);
            assert(before.evicted(index as int) =~= stale);
            if dropped == 0 && before.seen_any && index < before.head + before.capacity {
                assert(stale =~= Set::empty());
            }
            if !before.seen_any {
                assert(stale =~= Set::empty());
            }
            assert(slots::slot_items(self.buffer@) =~= kept);
            assert(kept.dom() =~= before.items.dom().difference(before.evicted(index as int)));
        }
        let real_index: usize = (index % self.max_size as u128) as usize;
        let ghost ring = self.buffer@;
        proof {
            if ring[real_index as int] is Some {
                slots::slot_is_unique(ring, self.head as int, index as int);
                slots::emptied_slot(ring, real_index as int);
                slots::filled_slot(ring.update(real_index as int, None), index, data);
                assert(ring.update(real_index as int, None).update(
                    real_index as int,
                    Some((index, data)),
                ) =~= ring.update(real_index as int, Some((index, data))));
                assert(kept.remove(index as int).insert(index as int, data) =~= kept.insert(
                    index as int,
                    data,
                ));
                assert(kept.insert(index as int, data).dom() =~= kept.dom());
            } else {
                slots::filled_slot(ring, index, data);
            }
            window::occupancy_is_bounded(before.set(index as int, data));
        }
        // Redelivery of a number that is waiting replaces it and leaves the size as it is.
        if self.buffer[real_index].is_none() {
            self.current_size = self.current_size + 1;
        }
        self.buffer[real_index] = Some((index, data));
        dropped
    }

    /// Plays one sequence number. A number that has not arrived yields `None` and is passed,
    /// even when later ones wait; once everything that arrived is played, the cursor stays.
    pub fn next_item(&mut self) -> (item: Option<T>)
        requires
            old(self).wf(),
            !old(self)@.starved() ==> old(self)@.head < u128::MAX,
        ensures
            final(self).wf(),
            item == old(self)@.current(),
            final(self)@ == old(self)@.advance(),
    {
        if self.head > self.prev {
            return None;
        }
        let ghost before = self@;
        proof {
            window::advance_keeps_wf(before);
        }
        let head_index: usize = (self.head % self.max_size as u128) as usize;
        let ghost ring = self.buffer@;
        let taken = self.buffer[head_index].take();
        proof {
            if ring[head_index as int] is Some {
                slots::slot_is_unique(ring, before.head, before.head);
                slots::emptied_slot(ring, head_index as int);
            } else {
                assert(!slots::holds(ring, before.head));
                assert(ring.update(head_index as int, None) =~= ring);
                assert(before.items.remove(before.head) =~= before.items);
            }
        }
        self.head = self.head + 1;
        match taken {
            Some((_, data)) => {
                self.current_size = self.current_size - 1;
                Some(data)
            },
            None => None,
        }
    }
}

} // verus!
