//! A playout buffer for real-time streams that does not report what it discards.
use crate::audio::jitter::JitterBuffer;
use crate::audio::window::Window;
use vstd::prelude::*;

verus! {

/// Reorders items by sequence number for playback. Room for `max_size` consecutive numbers.
pub struct RealTimeBuffer<T> {
    inner: JitterBuffer<T>,
}

impl<T> View for RealTimeBuffer<T> {
    type V = Window<T>;

    closed spec fn view(&self) -> Window<T> {
        self.inner@
    }
}

impl<T> RealTimeBuffer<T> {
    pub closed spec fn wf(&self) -> bool {
        self.inner.wf()
    }

    /// The window of a well formed buffer is well formed.
    pub proof fn window_is_wf(&self)
        requires
            self.wf(),
        ensures
            self@.wf(),
    {
        self.inner.window_is_wf();
    }

    pub fn new(max_size: usize) -> (buffer: RealTimeBuffer<T>)
        requires
            max_size > 0,
        ensures
            buffer.wf(),
            buffer@ == Window::<T>::fresh(max_size as int),
    {
        RealTimeBuffer { inner: JitterBuffer::new(max_size) }
    }

    pub fn len(&self) -> (len: usize)
        requires
            self.wf(),
        ensures
            len == self@.items.dom().len(),
            len <= self@.capacity,
    {
        self.inner.len()
    }

    pub fn is_empty(&self) -> (empty: bool)
        requires
            self.wf(),
        ensures
            empty == (self@.items =~= Map::empty()),
    {
        self.inner.is_empty()
    }

    /// Next sequence number expected for playback (read cursor).
    pub fn head(&self) -> (head: u128)
        ensures
            head == self@.head,
    {
        self.inner.head()
    }

    /// Max sequence number seen via `set` (write cursor).
    pub fn prev(&self) -> (prev: u128)
        ensures
            prev == self@.prev,
    {
        self.inner.prev()
    }

    /// Resets for a fresh stream (e.g. a reconnect with restarted sequence numbers).
    pub fn clear(&mut self)
        requires
            old(self).wf(),
        ensures
            final(self).wf(),
            final(self)@ == Window::<T>::fresh(old(self)@.capacity),
    {
        self.inner.reset();
    }

    /// Stores `data` under `index`; what the cursor has passed is ignored.
    pub fn set(&mut self, index: u128, data: T)
        requires
            old(self).wf(),
        ensures
            final(self).wf(),
            final(self)@ == old(self)@.set(index as int, data),
    {
        let _dropped: usize = self.inner.set(index, data);
    }

    /// Plays one sequence number. A number that has not arrived yields `None` and is passed,
    /// even when later ones wait; once everything that arrived is played, the cursor stays.
    pub fn next_item(&mut self) -> (item: Option<T>)
        requires
            old(self).wf(),
            !old(self)@.starved() ==> old(self)@.head < u128::MAX,
        ensures
            final(self).wf(),
            item == old(self)@.current(),
            final(self)@ == old(self)@.advance(),
    {
        self.inner.next_item()
    }
}

} // verus!
