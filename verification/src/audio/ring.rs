//! The ring between the pipeline and a device.
//!
//! One thread holds the producer, another the consumer. Each learns of the other's progress only
//! when it looks, so what a look brings is not known beforehand; between two looks the room can
//! only have grown.
use rtrb::{Consumer, Producer, RingBuffer};
use vstd::prelude::*;

verus! {

/// The writing end of a ring.
#[verifier::external_type_specification]
#[verifier::external_body]
#[verifier::reject_recursive_types(T)]
pub struct ExProducer<T>(rtrb::Producer<T>);

/// The reading end of a ring.
#[verifier::external_type_specification]
#[verifier::external_body]
#[verifier::reject_recursive_types(T)]
pub struct ExConsumer<T>(rtrb::Consumer<T>);

/// Everything that has been written, in order.
pub uninterp spec fn ring_written(producer: Producer<u32>) -> Seq<u32>;

/// How many samples are known to fit: what the last look brought, less what was written since.
pub uninterp spec fn ring_room(producer: Producer<u32>) -> nat;

/// How many samples the ring holds.
pub uninterp spec fn ring_capacity(producer: Producer<u32>) -> nat;

/// Everything that has been read, in order.
pub uninterp spec fn ring_consumed(consumer: Consumer<u32>) -> Seq<u32>;

/// How many samples are known to wait: what the last look brought, less what was read since.
pub uninterp spec fn ring_waiting(consumer: Consumer<u32>) -> nat;

/// Trusted: `RingBuffer::new` makes an empty ring for `capacity` items. It panics where the items
/// would take more than `isize::MAX` bytes.
#[verifier::external_body]
pub(crate) fn new_ring(capacity: usize) -> (ring: (Producer<u32>, Consumer<u32>))
    requires
        capacity * 4 <= isize::MAX,
    ensures
        ring_written(ring.0) == Seq::<u32>::empty(),
        ring_room(ring.0) == capacity,
        ring_capacity(ring.0) == capacity,
        ring_consumed(ring.1) == Seq::<u32>::empty(),
        ring_waiting(ring.1) == 0,
{
    RingBuffer::new(capacity)
}

/// Trusted: `Producer::slots` looks how far the reader is, and returns the free slots. The reader
/// only ever frees slots, so there are at least as many as were known.
#[verifier::external_body]
pub(crate) fn ring_slots(producer: &mut Producer<u32>) -> (slots: usize)
    ensures
        ring_written(*final(producer)) == ring_written(*old(producer)),
        ring_capacity(*final(producer)) == ring_capacity(*old(producer)),
        ring_room(*final(producer)) == slots,
        ring_room(*old(producer)) <= slots <= ring_capacity(*old(producer)),
{
    producer.slots()
}

/// Trusted: `Producer::write_chunk_uninit` reserves `n` slots, looking at the reader's progress
/// only where the known room is not enough, and fails where fewer are free.
/// `WriteChunkUninit::fill_from_iter` moves items into them until one of both runs out, and
/// publishes those that were moved.
#[verifier::external_body]
pub(crate) fn ring_write(producer: &mut Producer<u32>, n: usize, samples: Vec<u32>) -> (written: Option<
    usize,
>)
    ensures
        ring_capacity(*final(producer)) == ring_capacity(*old(producer)),
        n <= ring_room(*old(producer)) ==> written is Some,
        match written {
            Some(k) => {
                &&& k == if samples@.len() < n {
                    samples@.len()
                } else {
                    n as nat
                }
                &&& ring_written(*final(producer)) == ring_written(*old(producer))
                    + samples@.take(k as int)
                &&& ring_room(*old(producer)) <= ring_room(*final(producer)) + k
                &&& n <= ring_room(*final(producer)) + k <= ring_capacity(*old(producer))
                &&& n <= ring_room(*old(producer)) ==> ring_room(*final(producer)) + k
                    == ring_room(*old(producer))
            },
            None => {
                &&& ring_written(*final(producer)) == ring_written(*old(producer))
                &&& ring_room(*old(producer)) <= ring_room(*final(producer)) < n
            },
        },
{
    match producer.write_chunk_uninit(n) {
        Ok(chunk) => Some(chunk.fill_from_iter(samples)),
        Err(_) => None,
    }
}

/// Trusted: `Consumer::slots` looks how far the writer is, and returns the items that wait. The
/// writer only ever adds items, so there are at least as many as were known.
#[verifier::external_body]
pub(crate) fn ring_available(consumer: &mut Consumer<u32>) -> (waiting: usize)
    ensures
        ring_consumed(*final(consumer)) == ring_consumed(*old(consumer)),
        ring_waiting(*final(consumer)) == waiting,
        ring_waiting(*old(consumer)) <= waiting,
{
    consumer.slots()
}

/// Trusted: `Consumer::read_chunk` takes `n` items, looking at the writer's progress only where
/// the known ones are not enough, and fails where fewer wait. Iterating over the chunk moves the
/// items out and frees their slots.
#[verifier::external_body]
pub(crate) fn ring_read(consumer: &mut Consumer<u32>, n: usize) -> (samples: Option<Vec<u32>>)
    ensures
        n <= ring_waiting(*old(consumer)) ==> samples is Some,
        match samples {
            Some(samples) => {
                &&& samples@.len() == n
                &&& ring_consumed(*final(consumer)) == ring_consumed(*old(consumer)) + samples@
                &&& ring_waiting(*old(consumer)) <= ring_waiting(*final(consumer)) + n
                &&& n <= ring_waiting(*old(consumer)) ==> ring_waiting(*final(consumer)) + n
                    == ring_waiting(*old(consumer))
            },
            None => {
                &&& ring_consumed(*final(consumer)) == ring_consumed(*old(consumer))
                &&& ring_waiting(*old(consumer)) <= ring_waiting(*final(consumer)) < n
            },
        },
{
    match consumer.read_chunk(n) {
        Ok(chunk) => Some(chunk.into_iter().collect()),
        Err(_) => None,
    }
}

/// Trusted: `Consumer::pop` takes one item, looking at the writer's progress only where none is
/// known to wait.
#[verifier::external_body]
pub(crate) fn ring_pop(consumer: &mut Consumer<u32>) -> (sample: Option<u32>)
    ensures
        ring_waiting(*old(consumer)) > 0 ==> sample is Some,
        match sample {
            Some(sample) => {
                &&& ring_consumed(*final(consumer)) == ring_consumed(*old(consumer)).push(sample)
                &&& ring_waiting(*old(consumer)) <= ring_waiting(*final(consumer)) + 1
                &&& ring_waiting(*old(consumer)) > 0 ==> ring_waiting(*final(consumer)) + 1
                    == ring_waiting(*old(consumer))
            },
            None => {
                &&& ring_consumed(*final(consumer)) == ring_consumed(*old(consumer))
                &&& ring_waiting(*final(consumer)) == 0
            },
        },
{
    consumer.pop().ok()
}

/// Trusted: `Consumer::is_abandoned` tells whether the producer was dropped. That is up to
/// another thread, so nothing is promised.
#[verifier::external_body]
fn ring_abandoned(consumer: &Consumer<u32>) -> bool {
    consumer.is_abandoned()
}

/// A look has found that the producer was dropped, or that it was not.
pub closed spec fn seen_abandoned(consumer: Consumer<u32>, abandoned: bool) -> bool {
    call_ensures(ring_abandoned, (&consumer,), abandoned)
}

/// Looks whether the producer was dropped.
pub(crate) fn look_abandoned(consumer: &Consumer<u32>) -> (abandoned: bool)
    ensures
        seen_abandoned(*consumer, abandoned),
{
    ring_abandoned(consumer)
}

} // verus!
