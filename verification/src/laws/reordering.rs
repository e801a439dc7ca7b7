//! Reordering: what a playout buffer keeps, plays and discards.
use crate::audio::chunk::AudioChunk;
use crate::audio::jitter::JitterBuffer;
use crate::audio::slot;
use crate::audio::transform;
use crate::audio::window::Window;
use crate::realtime_buffer::RealTimeBuffer;
use vstd::prelude::*;

verus! {

/// What an arrival does to a window. What the cursor has passed changes nothing. Anything else is
/// held under its number then; the first one ever sets the cursor, and one beyond the end moves
/// the window just so far that it is the last that fits. What lies in the window stays, and what
/// lies before it is gone: `dropped` is how many that are.
pub open spec fn takes_in<T>(
    before: Window<T>,
    index: int,
    data: T,
    after: Window<T>,
    dropped: int,
) -> bool {
    &&& after.capacity == before.capacity
    &&& if index < before.head {
        after == before && dropped == 0
    } else {
        &&& after.seen_any
        &&& after.items.dom().contains(index) && after.items[index] == data
        &&& !before.seen_any ==> after.head == index && after.prev == index
        &&& before.seen_any && index < before.head + before.capacity ==> after.head == before.head
        &&& before.seen_any && index >= before.head + before.capacity ==> after.head
            + before.capacity == index + 1
        &&& before.seen_any ==> after.prev >= index && after.prev >= before.prev && (after.prev
            == index || after.prev == before.prev)
        &&& forall|k: int|
            k != index ==> (#[trigger] after.items.dom().contains(k)
                <==> before.items.dom().contains(k) && k >= after.head)
        &&& forall|k: int|
            k != index && #[trigger] after.items.dom().contains(k) ==> after.items[k]
                == before.items[k]
        &&& before.items.dom().len() + (if before.items.dom().contains(index) {
            0int
        } else {
            1
        }) == after.items.dom().len() + dropped
    }
}

/// What a call for the next item does to a window: it plays what stands under the cursor, if that
/// has come, and moves the cursor by one; once all that has come is played, the cursor stays.
pub open spec fn plays_next<T>(before: Window<T>, item: Option<T>, after: Window<T>) -> bool {
    &&& after.capacity == before.capacity
    &&& after.prev == before.prev
    &&& after.seen_any == before.seen_any
    &&& if before.head > before.prev {
        item is None && after == before
    } else {
        &&& after.head == before.head + 1
        &&& item is Some == before.items.dom().contains(before.head)
        &&& item matches Some(data) ==> data == before.items[before.head]
        &&& forall|k: int|
            #[trigger] after.items.dom().contains(k) <==> before.items.dom().contains(k) && k
                != before.head
        &&& forall|k: int|
            #[trigger] after.items.dom().contains(k) ==> after.items[k] == before.items[k]
    }
}

/// A window that nothing has reached yet.
pub open spec fn is_fresh<T>(window: Window<T>, capacity: int) -> bool {
    &&& window.capacity == capacity
    &&& window.head == 0 && window.prev == 0
    &&& !window.seen_any
    &&& forall|k: int| !(#[trigger] window.items.dom().contains(k))
}

proof fn arrival_is_taken_in<T>(w: Window<T>, index: int, data: T)
    requires
        w.wf(),
        0 <= index,
    ensures
        takes_in(w, index, data, w.set(index, data), w.evicted(index).len() as int),
{
    if index >= w.head {
        let evicted = w.evicted(index);
        let kept = w.items.remove_keys(evicted);
        crate::audio::window::evicted_is_held(w, index);
        assert(kept.dom() =~= w.items.dom().difference(evicted));
        vstd::set_lib::lemma_set_disjoint_lens(kept.dom(), evicted);
        assert(kept.dom().union(evicted) =~= w.items.dom());
        assert(kept.dom().contains(index) == w.items.dom().contains(index));
        assert(w.set(index, data).items.dom() =~= kept.dom().insert(index));
    }
}

proof fn next_is_played<T>(w: Window<T>)
    requires
        w.wf(),
    ensures
        plays_next(w, w.current(), w.advance()),
{
}

/// A buffer takes in what arrives, and tells how many items that pushed out.
pub proof fn buffer_takes_in<T>(
    buffer: &mut JitterBuffer<T>,
    index: u128,
    data: T,
    dropped: usize,
)
    requires
        old(buffer).wf(),
        call_ensures(JitterBuffer::<T>::set, (buffer, index, data), dropped),
    ensures
        takes_in(old(buffer)@, index as int, data, final(buffer)@, dropped as int),
{
    old(buffer).window_is_wf();
    arrival_is_taken_in(old(buffer)@, index as int, data);
}

/// A buffer plays what is next.
pub proof fn buffer_plays_next<T>(buffer: &mut JitterBuffer<T>, item: Option<T>)
    requires
        old(buffer).wf(),
        call_ensures(JitterBuffer::<T>::next_item, (buffer,), item),
    ensures
        plays_next(old(buffer)@, item, final(buffer)@),
{
    old(buffer).window_is_wf();
    next_is_played(old(buffer)@);
}

/// A new buffer has seen nothing, and so has one that was reset; its room stays.
pub proof fn buffer_starts_afresh<T>(
    max_size: usize,
    made: JitterBuffer<T>,
    buffer: &mut JitterBuffer<T>,
)
    requires
        call_ensures(JitterBuffer::<T>::new, (max_size,), made),
        call_ensures(JitterBuffer::<T>::reset, (buffer,), ()),
    ensures
        is_fresh(made@, max_size as int),
        is_fresh(final(buffer)@, old(buffer)@.capacity),
{
}

/// A buffer tells how many items it holds, where its cursor stands, and what is newest.
pub proof fn buffer_tells_what_it_holds<T>(
    buffer: JitterBuffer<T>,
    len: usize,
    empty: bool,
    head: u128,
    prev: u128,
)
    requires
        buffer.wf(),
        call_ensures(JitterBuffer::<T>::len, (&buffer,), len),
        call_ensures(JitterBuffer::<T>::is_empty, (&buffer,), empty),
        call_ensures(JitterBuffer::<T>::head, (&buffer,), head),
        call_ensures(JitterBuffer::<T>::prev, (&buffer,), prev),
    ensures
        len == buffer@.items.dom().len(),
        empty == (len == 0),
        head == buffer@.head,
        prev == buffer@.prev,
{
}

/// A real-time buffer takes in what arrives.
pub proof fn real_time_buffer_takes_in<T>(
    buffer: &mut RealTimeBuffer<T>,
    index: u128,
    data: T,
)
    requires
        old(buffer).wf(),
        call_ensures(RealTimeBuffer::<T>::set, (buffer, index, data), ()),
    ensures
        takes_in(
            old(buffer)@,
            index as int,
            data,
            final(buffer)@,
            old(buffer)@.evicted(index as int).len() as int,
        ),
{
    old(buffer).window_is_wf();
    arrival_is_taken_in(old(buffer)@, index as int, data);
}

/// A real-time buffer plays what is next.
pub proof fn real_time_buffer_plays_next<T>(buffer: &mut RealTimeBuffer<T>, item: Option<T>)
    requires
        old(buffer).wf(),
        call_ensures(RealTimeBuffer::<T>::next_item, (buffer,), item),
    ensures
        plays_next(old(buffer)@, item, final(buffer)@),
{
    old(buffer).window_is_wf();
    next_is_played(old(buffer)@);
}

/// A new real-time buffer has seen nothing, and so has one that was cleared; its room stays.
pub proof fn real_time_buffer_starts_afresh<T>(
    max_size: usize,
    made: RealTimeBuffer<T>,
    buffer: &mut RealTimeBuffer<T>,
)
    requires
        call_ensures(RealTimeBuffer::<T>::new, (max_size,), made),
        call_ensures(RealTimeBuffer::<T>::clear, (buffer,), ()),
    ensures
        is_fresh(made@, max_size as int),
        is_fresh(final(buffer)@, old(buffer)@.capacity),
{
}

/// A real-time buffer tells how many items it holds, where its cursor stands, and what is newest.
pub proof fn real_time_buffer_tells_what_it_holds<T>(
    buffer: RealTimeBuffer<T>,
    len: usize,
    empty: bool,
    head: u128,
    prev: u128,
)
    requires
        buffer.wf(),
        call_ensures(RealTimeBuffer::<T>::len, (&buffer,), len),
        call_ensures(RealTimeBuffer::<T>::is_empty, (&buffer,), empty),
        call_ensures(RealTimeBuffer::<T>::head, (&buffer,), head),
        call_ensures(RealTimeBuffer::<T>::prev, (&buffer,), prev),
    ensures
        len == buffer@.items.dom().len(),
        empty == (forall|k: int| !(#[trigger] buffer@.items.dom().contains(k))),
        head == buffer@.head,
        prev == buffer@.prev,
{
    if forall|k: int| !(#[trigger] buffer@.items.dom().contains(k)) {
        assert(buffer@.items.dom() =~= Set::empty());
        assert(buffer@.items =~= Map::empty());
    }
}

/// A peer's stage takes in a chunk under its number. It counts it as late where the cursor has
/// passed it, and as leaving a gap where it is further than one behind the newest; the first one
/// ever is expected to be 0.
pub proof fn peer_stage_takes_in(stage: &mut slot::JitterStage, chunk: AudioChunk)
    requires
        old(stage).wf(),
        call_ensures(slot::JitterStage::push, (stage, chunk), ()),
    ensures
        exists|dropped: int| #[trigger]
            takes_in(
                old(stage).buffer@,
                chunk.sequence_number as int,
                chunk,
                final(stage).buffer@,
                dropped,
            ),
        ({
            let (number, window) = (chunk.sequence_number as int, old(stage).buffer@);
            let late = number < window.head;
            let virgin = window.items.dom().len() == 0 && window.head == 0 && window.prev == 0;
            &&& final(stage).late_dropped - old(stage).late_dropped == if late {
                1int
            } else {
                0
            }
            &&& late ==> final(stage).gap_detected == old(stage).gap_detected
            &&& !late && virgin ==> final(stage).gap_detected - old(stage).gap_detected == if number
                == 0 {
                0int
            } else {
                1
            }
            &&& !late && !virgin ==> final(stage).gap_detected - old(stage).gap_detected == if
            number <= window.prev + 1 {
                0int
            } else {
                1
            }
        }),
{
    old(stage).buffer.window_is_wf();
    arrival_is_taken_in(old(stage).buffer@, chunk.sequence_number as int, chunk);
}

/// A peer's stage plays what is next, and counts nothing for it.
pub proof fn peer_stage_plays_next(stage: &mut slot::JitterStage, chunk: Option<AudioChunk>)
    requires
        old(stage).wf(),
        call_ensures(slot::JitterStage::pull, (stage,), chunk),
    ensures
        plays_next(old(stage).buffer@, chunk, final(stage).buffer@),
        final(stage).gap_detected == old(stage).gap_detected,
        final(stage).late_dropped == old(stage).late_dropped,
{
    old(stage).buffer.window_is_wf();
    next_is_played(old(stage).buffer@);
}

/// A stage of a chain takes in a chunk under its number. It counts what came late, what was pushed
/// out, and what left a gap: behind the newest, or before the cursor where nothing waits.
pub proof fn stage_takes_in(stage: &mut transform::JitterStage, chunk: AudioChunk)
    requires
        old(stage).wf(),
        call_ensures(transform::JitterStage::push, (stage, chunk), ()),
    ensures
        takes_in(
            old(stage).buffer@,
            chunk.sequence_number as int,
            chunk,
            final(stage).buffer@,
            final(stage).overflow_dropped - old(stage).overflow_dropped,
        ),
        ({
            let (number, window) = (chunk.sequence_number as int, old(stage).buffer@);
            let late = number < window.head;
            let expected = if window.items.dom().len() == 0 {
                number == window.head
            } else {
                number <= window.prev + 1
            };
            &&& final(stage).late_dropped - old(stage).late_dropped == if late {
                1int
            } else {
                0
            }
            &&& final(stage).gap_detected - old(stage).gap_detected == if late || expected {
                0int
            } else {
                1
            }
        }),
{
    old(stage).buffer.window_is_wf();
    arrival_is_taken_in(old(stage).buffer@, chunk.sequence_number as int, chunk);
}

/// A stage of a chain plays what is next; a reset forgets what waits and keeps the counts.
pub proof fn stage_plays_next_and_resets(
    stage: &mut transform::JitterStage,
    chunk: Option<AudioChunk>,
    reset: &mut transform::JitterStage,
    waiting: transform::JitterStage,
    n: usize,
)
    requires
        old(stage).wf(),
        call_ensures(transform::JitterStage::pull, (stage,), chunk),
        call_ensures(transform::JitterStage::reset, (reset,), ()),
        call_ensures(transform::JitterStage::buffered_chunks, (&waiting,), n),
    ensures
        plays_next(old(stage).buffer@, chunk, final(stage).buffer@),
        final(stage).gap_detected == old(stage).gap_detected,
        final(stage).late_dropped == old(stage).late_dropped,
        final(stage).overflow_dropped == old(stage).overflow_dropped,
        is_fresh(final(reset).buffer@, old(reset).buffer@.capacity),
        final(reset).gap_detected == old(reset).gap_detected,
        final(reset).late_dropped == old(reset).late_dropped,
        final(reset).overflow_dropped == old(reset).overflow_dropped,
        n == waiting.buffer@.items.dom().len(),
{
    old(stage).buffer.window_is_wf();
    next_is_played(old(stage).buffer@);
}

/// New stages have seen nothing and counted nothing.
pub proof fn stages_start_afresh(
    capacity: usize,
    peer: slot::JitterStage,
    stage: transform::JitterStage,
)
    requires
        call_ensures(slot::JitterStage::new, (capacity,), peer),
        call_ensures(transform::JitterStage::new, (capacity,), stage),
    ensures
        is_fresh(peer.buffer@, capacity as int),
        peer.gap_detected == 0 && peer.late_dropped == 0,
        is_fresh(stage.buffer@, capacity as int),
        stage.gap_detected == 0 && stage.late_dropped == 0 && stage.overflow_dropped == 0,
{
}

} // verus!
