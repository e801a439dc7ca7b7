//! Feeding an output device through a ring.
use crate::audio::config::{self, AudioPipelineConfig};
use crate::audio::converter::{self, FormatConverter};
use crate::audio::device::UNKNOWN_DEVICE_NAME;
use crate::audio::float::{self, Arithmetic};
use crate::audio::ring::{
    self, new_ring, ring_available, ring_read, ring_slots, ring_write,
};
use crate::audio::sample::{self, pull_block, Resampler, ResamplerSpec, SyncSampleSource};
use crate::audio::stats::OutputStats;
use crate::audio::switch::Selection;
use crate::audio::time::{self, duration_from_nanos};
use crate::audio::AudioFormat;
use rtrb::{Consumer, Producer};
use std::time::Duration;
use vstd::prelude::*;

verus! {

/// How many blocks a ring holds.
pub const RING_CAPACITY_BLOCKS: usize = 8;

/// How many blocks a ring is kept filled with.
pub const TARGET_RING_BLOCKS: usize = 2;

/// How often a new sink is topped up before it is used regardless.
pub const MAX_PREFILL_TICKS: usize = 1024;

/// The shortest time between two looks at a ring, in nanoseconds.
pub const MIN_FILL_SLEEP_NANOS: u64 = 2_000_000;

/// The longest time between two looks at a ring, in nanoseconds.
pub const MAX_FILL_SLEEP_NANOS: u64 = 30_000_000;

/// `a - b`, and 0 where that is negative.
pub open spec fn beyond(a: int, b: int) -> int {
    if a > b {
        a - b
    } else {
        0
    }
}

/// How long the samples above the target last, within the bounds. A device without blocks,
/// channels or a rate is looked at as rarely as possible.
pub open spec fn sleep_nanos(
    capacity_samples: usize,
    free_samples: usize,
    block_samples: usize,
    channels: usize,
    sample_rate: u32,
) -> int {
    let excess = beyond(
        beyond(capacity_samples as int, free_samples as int),
        block_samples * TARGET_RING_BLOCKS,
    );
    if block_samples == 0 || channels == 0 || sample_rate == 0 {
        MAX_FILL_SLEEP_NANOS as int
    } else {
        let nanos = excess * (config::NANOS_PER_SECOND as int) / (channels * sample_rate as int);
        if nanos < MIN_FILL_SLEEP_NANOS {
            MIN_FILL_SLEEP_NANOS as int
        } else if nanos > MAX_FILL_SLEEP_NANOS {
            MAX_FILL_SLEEP_NANOS as int
        } else {
            nanos
        }
    }
}

/// How long to wait before a ring is looked at again, in nanoseconds.
pub fn demand_sleep_nanos(
    capacity_samples: usize,
    free_samples: usize,
    block_samples: usize,
    channels: usize,
    sample_rate: u32,
) -> (nanos: u64)
    ensures
        nanos == sleep_nanos(
            capacity_samples,
            free_samples,
            block_samples,
            channels,
            sample_rate,
        ),
        MIN_FILL_SLEEP_NANOS <= nanos <= MAX_FILL_SLEEP_NANOS,
{
    if block_samples == 0 || channels == 0 || sample_rate == 0 {
        return MAX_FILL_SLEEP_NANOS;
    }
    proof {
        assert(block_samples * TARGET_RING_BLOCKS <= 2 * u64::MAX) by (nonlinear_arith)
            requires
                block_samples <= u64::MAX,
                TARGET_RING_BLOCKS == 2,
        ;
    }
    let occupied: u128 = capacity_samples.saturating_sub(free_samples) as u128;
    let target: u128 = block_samples as u128 * TARGET_RING_BLOCKS as u128;
    let excess: u128 = if occupied > target {
        occupied - target
    } else {
        0
    };
    proof {
        assert(0 < channels * sample_rate <= u64::MAX * u32::MAX) by (nonlinear_arith)
            requires
                0 < channels <= u64::MAX,
                0 < sample_rate <= u32::MAX,
        ;
        if excess == 0 {
            vstd::arithmetic::div_mod::lemma_div_basics(channels * sample_rate as int);
        }
    }
    if excess == 0 {
        return MIN_FILL_SLEEP_NANOS;
    }
    proof {
        assert(excess * (config::NANOS_PER_SECOND as u128) <= u128::MAX) by (nonlinear_arith)
            requires
                excess <= u64::MAX,
                config::NANOS_PER_SECOND == 1_000_000_000,
        ;
    }
    let samples_per_sec: u128 = channels as u128 * sample_rate as u128;
    let nanos: u128 = excess * config::NANOS_PER_SECOND as u128 / samples_per_sec;
    if nanos < MIN_FILL_SLEEP_NANOS as u128 {
        MIN_FILL_SLEEP_NANOS
    } else if nanos > MAX_FILL_SLEEP_NANOS as u128 {
        MAX_FILL_SLEEP_NANOS
    } else {
        nanos as u64
    }
}

/// How long to wait before a ring is looked at again.
pub fn demand_sleep(
    capacity_samples: usize,
    free_samples: usize,
    block_samples: usize,
    channels: usize,
    sample_rate: u32,
) -> (sleep: Duration)
    ensures
        sleep == time::duration_of(
            sleep_nanos(
                capacity_samples,
                free_samples,
                block_samples,
                channels,
                sample_rate,
            ) as u64,
        ),
{
    duration_from_nanos(
        demand_sleep_nanos(capacity_samples, free_samples, block_samples, channels, sample_rate),
    )
}

/// The fuller a ring is, the longer it is left alone.
pub proof fn fuller_ring_waits_longer(
    capacity_samples: usize,
    free_samples: usize,
    freer_samples: usize,
    block_samples: usize,
    channels: usize,
    sample_rate: u32,
)
    requires
        free_samples <= freer_samples,
    ensures
        sleep_nanos(capacity_samples, freer_samples, block_samples, channels, sample_rate)
            <= sleep_nanos(capacity_samples, free_samples, block_samples, channels, sample_rate),
{
    let target = block_samples * TARGET_RING_BLOCKS;
    let more = beyond(beyond(capacity_samples as int, free_samples as int), target);
    let less = beyond(beyond(capacity_samples as int, freer_samples as int), target);
    if block_samples != 0 && channels != 0 && sample_rate != 0 {
        assert(0 < channels * sample_rate) by (nonlinear_arith)
            requires
                0 < channels,
                0 < sample_rate,
        ;
        vstd::arithmetic::div_mod::lemma_div_is_ordered(
            less * (config::NANOS_PER_SECOND as int),
            more * (config::NANOS_PER_SECOND as int),
            channels * sample_rate as int,
        );
    }
}

/// What is known of the output in use.
#[derive(Clone, Debug, PartialEq, Eq)]
pub struct OutputInfo {
    pub name: String,
    pub format: AudioFormat,
    pub selection: Selection,
}

/// Why an output in this format cannot be fed, if it cannot.
pub open spec fn sink_fault(device_format: AudioFormat, frames: usize) -> Option<Seq<char>> {
    if device_format.channel_count == 0 {
        Some("output channel_count must be > 0"@)
    } else if device_format.sample_rate == 0 {
        Some("device sample_rate must be > 0"@)
    } else if frames == 0 {
        Some("device block must be > 0"@)
    } else {
        None
    }
}

/// A block, and a ring for blocks, that memory can hold.
pub open spec fn block_fits(channels: u16, frames: usize) -> bool {
    channels * frames * RING_CAPACITY_BLOCKS * 4 <= isize::MAX
}

/// The samples of a block of `frames` frames, for a device that can be fed.
pub fn device_block(device_format: &AudioFormat, frames: usize) -> (block: Result<
    usize,
    &'static str,
>)
    requires
        block_fits(device_format.channel_count, frames),
    ensures
        match sink_fault(*device_format, frames) {
            Some(fault) => block matches Err(message) && message@ == fault,
            None => block == Ok::<usize, &'static str>(
                (device_format.channel_count * frames) as usize,
            ) && block->Ok_0 > 0,
        },
{
    if device_format.channel_count == 0 {
        return Err("output channel_count must be > 0");
    }
    if device_format.sample_rate == 0 {
        return Err("device sample_rate must be > 0");
    }
    proof {
        assert(device_format.channel_count > 0 && frames > 0 ==> device_format.channel_count
            * frames > 0) by (nonlinear_arith);
        assert(0 <= device_format.channel_count * frames) by (nonlinear_arith);
        assert(frames == 0 ==> device_format.channel_count * frames == 0) by (nonlinear_arith);
    }
    let block: usize = device_format.channel_count as usize * frames;
    if block == 0 {
        return Err("device block must be > 0");
    }
    Ok(block)
}

/// An output: the ring to its device, and what converts the mix for it.
pub struct Sink<R, A> {
    pub producer: Producer<u32>,
    pub converter: FormatConverter<R, A>,
    pub device_format: AudioFormat,
    pub device_block: usize,
    pub name: String,
}

impl<R: Resampler, A: Arithmetic> Sink<R, A> {
    /// The ring holds a number of blocks, and blocks are what the converter makes.
    pub open spec fn wf(&self) -> bool {
        &&& self.device_block * RING_CAPACITY_BLOCKS <= usize::MAX
        &&& ring::ring_capacity(self.producer) == self.device_block * RING_CAPACITY_BLOCKS
        &&& self.converter.block_samples == self.device_block
    }

    /// Everything but the ring and the converter is as in `other`.
    pub open spec fn keeps(&self, other: Self) -> bool {
        &&& self.device_format == other.device_format
        &&& self.device_block == other.device_block
        &&& self.name == other.name
        &&& ring::ring_capacity(self.producer) == ring::ring_capacity(other.producer)
    }

    /// What has been written to the ring.
    pub open spec fn written(&self) -> Seq<u32> {
        ring::ring_written(self.producer)
    }

    /// How many samples wait in the ring, with this much room in it.
    pub open spec fn occupied(&self, room: int) -> int {
        beyond(self.device_block * RING_CAPACITY_BLOCKS, room)
    }

    /// Whether a ring with this much room is below its target and has room for a block.
    pub open spec fn needs(&self, room: int) -> bool {
        &&& self.occupied(room) < self.device_block * TARGET_RING_BLOCKS
        &&& room >= self.device_block
    }

    pub fn new(
        producer: Producer<u32>,
        converter: FormatConverter<R, A>,
        device_format: AudioFormat,
        device_block: usize,
        name: String,
    ) -> (sink: Self)
        ensures
            sink.producer == producer,
            sink.converter == converter,
            sink.device_format == device_format,
            sink.device_block == device_block,
            sink.name == name,
    {
        Sink { producer, converter, device_format, device_block, name }
    }

    pub fn capacity_samples(&self) -> (samples: usize)
        requires
            self.wf(),
        ensures
            samples == self.device_block * RING_CAPACITY_BLOCKS,
    {
        self.device_block * RING_CAPACITY_BLOCKS
    }

    pub fn target_samples(&self) -> (samples: usize)
        requires
            self.wf(),
        ensures
            samples == self.device_block * TARGET_RING_BLOCKS,
    {
        self.device_block * TARGET_RING_BLOCKS
    }

    /// How many samples wait in the ring, as of now.
    pub fn buffered_samples(&mut self) -> (samples: usize)
        requires
            old(self).wf(),
        ensures
            final(self).wf(),
            final(self).keeps(*old(self)),
            final(self).converter == old(self).converter,
            final(self).written() == old(self).written(),
            ring::ring_room(old(self).producer) <= ring::ring_room(final(self).producer)
                <= ring::ring_capacity(final(self).producer),
            samples == final(self).occupied(ring::ring_room(final(self).producer) as int),
    {
        let free: usize = ring_slots(&mut self.producer);
        self.capacity_samples().saturating_sub(free)
    }

    /// Whether the ring, as of now, is below its target and has room for a block.
    fn looks_needy(&mut self) -> (needy: bool)
        requires
            old(self).wf(),
        ensures
            final(self).wf(),
            final(self).keeps(*old(self)),
            final(self).converter == old(self).converter,
            final(self).written() == old(self).written(),
            ring::ring_room(old(self).producer) <= ring::ring_room(final(self).producer)
                <= ring::ring_capacity(final(self).producer),
            needy == final(self).needs(ring::ring_room(final(self).producer) as int),
    {
        if self.buffered_samples() >= self.target_samples() {
            return false;
        }
        let free: usize = ring_slots(&mut self.producer);
        free >= self.device_block
    }
}

/// `fed` is the converter of a sink that needs samples, once a block of the mix has gone in, and
/// `dropped` what was lost over it; a sink that does not, or that still has a block pending,
/// leaves the mix alone.
pub open spec fn topped_up<R: Resampler, A: Arithmetic, S: SyncSampleSource>(
    sink: Sink<R, A>,
    room: int,
    mixer: S,
    logical_block: int,
    fed: FormatConverter<R, A>,
    left: S,
    dropped: int,
) -> bool {
    if sink.needs(room) && sink.converter.pending@.len() < sink.device_block {
        exists|samples: Seq<Option<u32>>| #[trigger]
            sample::drawn(mixer, samples, left) && samples.len() == logical_block && feeds(
                sink.converter,
                sample::audible(samples),
                fed,
                dropped,
            )
    } else {
        fed == sink.converter && left == mixer && dropped == 0
    }
}

/// `after` is a converter once `samples` have gone in, and `dropped` what was lost over it.
pub open spec fn feeds<R: Resampler, A: Arithmetic>(
    before: FormatConverter<R, A>,
    samples: Seq<u32>,
    after: FormatConverter<R, A>,
    dropped: int,
) -> bool {
    &&& after.from == before.from
    &&& after.to == before.to
    &&& after.block_samples == before.block_samples
    &&& after.capacity_samples == before.capacity_samples
    &&& exists|gained: Seq<u32>| #[trigger]
        before.converts(samples, after.resampler, gained) && ({
            let all = before.pending@ + gained;
            let lost = converter::excess(all, before.capacity_samples as int) + if before.from
                == before.to {
                0
            } else {
                converter::ragged(samples, before.from.channel_count as int)
            };
            &&& after.pending@ == converter::newest(all, before.capacity_samples as int)
            &&& lost <= usize::MAX ==> dropped == lost
            &&& lost > usize::MAX ==> dropped == usize::MAX
        })
}

/// `b` is the sink `a` after a look at its ring.
pub open spec fn looked<R: Resampler, A: Arithmetic>(a: Sink<R, A>, b: Sink<R, A>) -> bool {
    &&& b.keeps(a)
    &&& b.converter == a.converter
    &&& b.written() == a.written()
    &&& ring::ring_room(a.producer) <= ring::ring_room(b.producer)
}

/// `after` is a sink that a block was moved in, from the converter to the ring. `seen` is the sink
/// at the look before that, which found that the ring needs one.
pub open spec fn block_moves<R: Resampler, A: Arithmetic>(
    seen: Sink<R, A>,
    after: Sink<R, A>,
) -> bool {
    let size = seen.device_block as int;
    &&& seen.needs(ring::ring_room(seen.producer) as int)
    &&& 0 < size <= seen.converter.pending@.len()
    &&& after.keeps(seen)
    &&& after.written() == seen.written() + seen.converter.pending@.take(size)
    &&& ring::ring_room(after.producer) + size == ring::ring_room(seen.producer)
    &&& after.converter.pending@ == seen.converter.pending@.skip(size)
    &&& same_but_pending(after.converter, seen.converter)
}

/// Two converters differ in what is pending only.
pub open spec fn same_but_pending<R: Resampler, A: Arithmetic>(
    a: FormatConverter<R, A>,
    b: FormatConverter<R, A>,
) -> bool {
    &&& a.from == b.from
    &&& a.to == b.to
    &&& a.block_samples == b.block_samples
    &&& a.capacity_samples == b.capacity_samples
    &&& a.resampler == b.resampler
}

/// `last` is a sink that `n` blocks were moved in, one after the other, each after a look that
/// found that the ring needs one.
pub open spec fn moves<R: Resampler, A: Arithmetic>(
    start: Sink<R, A>,
    n: nat,
    last: Sink<R, A>,
) -> bool
    decreases n,
{
    if n == 0 {
        last == start
    } else {
        exists|mid: Sink<R, A>, seen: Sink<R, A>|
            moves(start, (n - 1) as nat, mid) && #[trigger] looked(mid, seen)
                && #[trigger] block_moves(seen, last)
    }
}

/// Blocks go to the ring in order and nothing is lost on the way: after `n` of them, just so many
/// samples have gone from the front of what was pending to the end of what is written.
pub proof fn blocks_move_in_order<R: Resampler, A: Arithmetic>(
    start: Sink<R, A>,
    n: nat,
    last: Sink<R, A>,
)
    requires
        moves(start, n, last),
    ensures
        last.keeps(start),
        same_but_pending(last.converter, start.converter),
        0 <= n * start.device_block <= start.converter.pending@.len(),
        last.written() == start.written() + start.converter.pending@.take(n * start.device_block),
        last.converter.pending@ == start.converter.pending@.skip(n * start.device_block),
    decreases n,
{
    let all = start.converter.pending@;
    let size = start.device_block as int;
    if n == 0 {
        assert(start.written() + all.take(0) =~= start.written());
        assert(all.skip(0) =~= all);
    } else {
        let (mid, seen) = choose|mid: Sink<R, A>, seen: Sink<R, A>|
            moves(start, (n - 1) as nat, mid) && #[trigger] looked(mid, seen)
                && #[trigger] block_moves(seen, last);
        blocks_move_in_order(start, (n - 1) as nat, mid);
        let (from, to) = ((n - 1) * size, n * size);
        assert(to == from + size) by (nonlinear_arith)
            requires
                from == (n - 1) * size,
                to == n * size,
        ;
        assert(all.skip(from).take(size) =~= all.subrange(from, to));
        assert(start.written() + all.take(from) + all.subrange(from, to) =~= start.written()
            + all.take(to));
        assert(all.skip(from).skip(size) =~= all.skip(to));
    }
}

/// `start` is a sink once it has been looked at and fed: `room` is what the look found, and `fed`
/// the converter then.
pub open spec fn stocked<R: Resampler, A: Arithmetic>(
    sink: Sink<R, A>,
    room: int,
    fed: FormatConverter<R, A>,
    start: Sink<R, A>,
) -> bool {
    &&& start.keeps(sink)
    &&& start.written() == sink.written()
    &&& start.converter == fed
    &&& ring::ring_room(start.producer) == room
}

/// Moving blocks ends after as many as the ring's target has, or at a look that finds that the
/// ring needs no more, or where no block is pending.
pub open spec fn moved_enough<R: Resampler, A: Arithmetic>(
    last: Sink<R, A>,
    n: nat,
    post: Sink<R, A>,
) -> bool {
    if n == TARGET_RING_BLOCKS {
        post == last
    } else {
        &&& n < TARGET_RING_BLOCKS
        &&& looked(last, post)
        &&& post.converter.pending@.len() < post.device_block || post.device_block == 0
            || !post.needs(ring::ring_room(post.producer) as int)
    }
}

/// What was lost has been counted.
pub open spec fn loss_is_counted(stats: OutputStats, dropped: int) -> bool {
    &&& 0 <= dropped <= usize::MAX
    &&& dropped > 0 ==> stats.overruns_counted(dropped as usize)
}

impl<R: Resampler, A: Arithmetic> Sink<R, A> {
    /// `post` is the sink once it has been topped up: while the ring needs a block and one is
    /// pending it is moved there, and before that a block of the mix is converted where none was.
    /// `room` is the room that the first look found.
    pub open spec fn ticks<S: SyncSampleSource>(
        self,
        room: int,
        mixer: S,
        logical_block: int,
        post: Self,
        left: S,
        dropped: int,
    ) -> bool {
        &&& post.keeps(self)
        &&& ring::ring_room(self.producer) <= room <= ring::ring_capacity(self.producer)
        &&& exists|fed: FormatConverter<R, A>, start: Self, n: nat, last: Self| #[trigger]
            topped_up(self, room, mixer, logical_block, fed, left, dropped) && stocked(
                self,
                room,
                fed,
                start,
            ) && #[trigger] moves(start, n, last) && moved_enough(last, n, post)
    }

    /// Tops the ring up from the mix, and tells how many samples were lost over it.
    pub fn tick_counting<S: SyncSampleSource>(&mut self, mixer: &mut S, logical_block: usize) -> (
        dropped: usize)
        requires
            old(self).wf(),
            sample::lasts(*old(mixer), logical_block as nat),
            forall|samples: Seq<u32>|
                samples.len() == logical_block ==> #[trigger] old(self).converter.fits(samples),
        ensures
            final(self).wf(),
            final(self).converter.from == old(self).converter.from,
            final(self).converter.to == old(self).converter.to,
            exists|room: int| #[trigger]
                old(self).ticks(
                    room,
                    *old(mixer),
                    logical_block as int,
                    *final(self),
                    *final(mixer),
                    dropped as int,
                ),
    {
        let mut dropped: usize = 0;
        let needy: bool = self.looks_needy();
        let ghost room = ring::ring_room(self.producer) as int;
        if needy && self.converter.pending_samples() < self.device_block {
            let logical: Vec<u32> = pull_block(mixer, logical_block);
            let ghost given = logical@;
            let ghost before = self.converter;
            proof {
                assert(old(self).converter.fits(given));
            }
            dropped = self.converter.feed(logical);
            proof {
                assert(feeds(before, given, self.converter, dropped as int));
            }
        }
        let ghost fed = self.converter;
        proof {
            assert(topped_up(
                *old(self),
                room,
                *old(mixer),
                logical_block as int,
                fed,
                *mixer,
                dropped as int,
            ));
        }
        let ghost start = *self;
        let ghost mut last = *self;
        let mut n: usize = 0;
        let mut done: bool = false;
        while n < TARGET_RING_BLOCKS && !done
            invariant
                n <= TARGET_RING_BLOCKS,
                self.wf(),
                self.converter.from == fed.from,
                self.converter.to == fed.to,
                moves(start, n as nat, last),
                !done ==> *self == last,
                done ==> moved_enough(last, n as nat, *self),
            decreases (TARGET_RING_BLOCKS - n) + (if done {
                0int
            } else {
                1
            }),
        {
            let needy: bool = self.looks_needy();
            let ghost seen = *self;
            proof {
                assert(looked(last, seen));
            }
            if !needy {
                done = true;
            } else {
                match self.converter.take_block() {
                    None => {
                        done = true;
                    },
                    Some(block) => {
                        let ghost taken = block@;
                        // The last look has found room for the block.
                        let _ = ring_write(&mut self.producer, self.device_block, block);
                        proof {
                            assert(taken.take(seen.device_block as int) =~= taken);
                            assert(block_moves(seen, *self));
                            last = *self;
                        }
                        n += 1;
                    },
                }
            }
        }
        proof {
            blocks_move_in_order(start, n as nat, last);
            assert(moves(start, n as nat, last));
            assert(old(self).ticks(
                room,
                *old(mixer),
                logical_block as int,
                *self,
                *mixer,
                dropped as int,
            ));
        }
        dropped
    }

    /// Tops the ring up from the mix, and counts what was lost over it.
    pub fn tick<S: SyncSampleSource>(
        &mut self,
        mixer: &mut S,
        logical_block: usize,
        stats: &OutputStats,
    )
        requires
            old(self).wf(),
            sample::lasts(*old(mixer), logical_block as nat),
            forall|samples: Seq<u32>|
                samples.len() == logical_block ==> #[trigger] old(self).converter.fits(samples),
        ensures
            final(self).wf(),
            final(self).converter.from == old(self).converter.from,
            final(self).converter.to == old(self).converter.to,
            exists|room: int, dropped: int| #[trigger]
                old(self).ticks(
                    room,
                    *old(mixer),
                    logical_block as int,
                    *final(self),
                    *final(mixer),
                    dropped,
                ) && loss_is_counted(*stats, dropped),
    {
        let dropped: usize = self.tick_counting(mixer, logical_block);
        if dropped > 0 {
            stats.note_overrun(dropped);
        }
        proof {
            let room = choose|room: int| #[trigger]
                old(self).ticks(
                    room,
                    *old(mixer),
                    logical_block as int,
                    *self,
                    *mixer,
                    dropped as int,
                );
            assert(old(self).ticks(
                room,
                *old(mixer),
                logical_block as int,
                *self,
                *mixer,
                dropped as int,
            ));
            assert(loss_is_counted(*stats, dropped as int));
        }
    }
}

/// `post` is the sink after so many rounds of topping up, with a look at its ring behind each,
/// that found less than a block in it before. What each round lost has been counted.
pub open spec fn prefilled<R: Resampler, A: Arithmetic, S: SyncSampleSource>(
    sink: Sink<R, A>,
    mixer: S,
    logical_block: int,
    rounds: nat,
    post: Sink<R, A>,
    left: S,
    stats: OutputStats,
) -> bool
    decreases rounds,
{
    if rounds == 0 {
        looked(sink, post) && left == mixer
    } else {
        exists|mid: Sink<R, A>, mid_mixer: S, ticked: Sink<R, A>, room: int, dropped: int|
            prefilled(sink, mixer, logical_block, (rounds - 1) as nat, mid, mid_mixer, stats)
                && mid.occupied(ring::ring_room(mid.producer) as int) < mid.device_block
                && #[trigger] mid.ticks(room, mid_mixer, logical_block, ticked, left, dropped)
                && looked(ticked, post) && loss_is_counted(stats, dropped)
    }
}

impl<R: Resampler, A: Arithmetic> Sink<R, A> {
    /// Tops the ring of a new sink up until a block waits in it. `false` where that took as many
    /// rounds as are allowed, or did not happen at all.
    pub fn prefill<S: SyncSampleSource>(
        &mut self,
        mixer: &mut S,
        logical_block: usize,
        stats: &OutputStats,
    ) -> (converged: bool)
        requires
            old(self).wf(),
            sample::lasts(*old(mixer), (MAX_PREFILL_TICKS * logical_block) as nat),
            forall|converter: FormatConverter<R, A>, samples: Seq<u32>|
                converter.from == old(self).converter.from && converter.to == old(
                    self,
                ).converter.to && samples.len() == logical_block
                    ==> #[trigger] converter.fits(samples),
        ensures
            final(self).wf(),
            final(self).keeps(*old(self)),
            final(self).converter.from == old(self).converter.from,
            final(self).converter.to == old(self).converter.to,
            old(self).written().is_prefix_of(final(self).written()),
            converged ==> final(self).occupied(ring::ring_room(final(self).producer) as int)
                >= final(self).device_block,
            exists|rounds: nat| #[trigger]
                prefilled(
                    *old(self),
                    *old(mixer),
                    logical_block as int,
                    rounds,
                    *final(self),
                    *final(mixer),
                    *stats,
                ) && rounds <= MAX_PREFILL_TICKS && converged == (rounds < MAX_PREFILL_TICKS),
    {
        let mut ticks: usize = 0;
        let ghost mut samples: Seq<Option<u32>> = Seq::empty();
        let ghost whole: nat = (MAX_PREFILL_TICKS * logical_block) as nat;
        let mut buffered: usize = self.buffered_samples();
        proof {
            assert(0 <= MAX_PREFILL_TICKS * logical_block) by (nonlinear_arith);
        }
        while buffered < self.device_block && ticks < MAX_PREFILL_TICKS
            invariant
                ticks <= MAX_PREFILL_TICKS,
                whole == MAX_PREFILL_TICKS * logical_block,
                self.wf(),
                self.keeps(*old(self)),
                self.converter.from == old(self).converter.from,
                self.converter.to == old(self).converter.to,
                old(self).written().is_prefix_of(self.written()),
                buffered == self.occupied(ring::ring_room(self.producer) as int),
                samples.len() <= ticks * logical_block,
                sample::drawn(*old(mixer), samples, *mixer),
                sample::lasts(*old(mixer), whole),
                prefilled(
                    *old(self),
                    *old(mixer),
                    logical_block as int,
                    ticks as nat,
                    *self,
                    *mixer,
                    *stats,
                ),
                forall|converter: FormatConverter<R, A>, given: Seq<u32>|
                    converter.from == old(self).converter.from && converter.to == old(
                        self,
                    ).converter.to && given.len() == logical_block
                        ==> #[trigger] converter.fits(given),
            decreases MAX_PREFILL_TICKS - ticks,
        {
            let ghost before = *self;
            let ghost mixed = *mixer;
            let ghost earlier = samples;
            proof {
                assert(ticks * logical_block + logical_block <= whole) by (nonlinear_arith)
                    requires
                        ticks + 1 <= MAX_PREFILL_TICKS,
                        whole == MAX_PREFILL_TICKS * logical_block,
                        logical_block >= 0,
                ;
                sample::lasts_on(*old(mixer), samples, *mixer, whole);
                sample::lasts_for_fewer(
                    *mixer,
                    (whole - samples.len()) as nat,
                    logical_block as nat,
                );
                assert forall|given: Seq<u32>|
                    given.len() == logical_block implies #[trigger] self.converter.fits(given) by {}
            }
            self.tick(mixer, logical_block, stats);
            proof {
                let (room, dropped) = choose|room: int, dropped: int| #[trigger]
                    before.ticks(
                        room,
                        mixed,
                        logical_block as int,
                        *self,
                        *mixer,
                        dropped,
                    ) && loss_is_counted(*stats, dropped);
                let (fed, start, n, last) = choose|
                    fed: FormatConverter<R, A>,
                    start: Self,
                    n: nat,
                    last: Self,
                | #[trigger]
                    topped_up(
                        before,
                        room,
                        mixed,
                        logical_block as int,
                        fed,
                        *mixer,
                        dropped,
                    ) && stocked(before, room, fed, start) && #[trigger] moves(start, n, last)
                        && moved_enough(last, n, *self);
                blocks_move_in_order(start, n, last);
                if before.needs(room) && before.converter.pending@.len() < before.device_block {
                    let more = choose|more: Seq<Option<u32>>| #[trigger]
                        sample::drawn(mixed, more, *mixer) && more.len() == logical_block
                            && feeds(before.converter, sample::audible(more), fed, dropped);
                    sample::drawn_twice(*old(mixer), earlier, mixed, more, *mixer);
                    samples = earlier + more;
                }
                assert((ticks + 1) * logical_block == ticks * logical_block + logical_block)
                    by (nonlinear_arith);
            }
            let ghost ticked = *self;
            buffered = self.buffered_samples();
            proof {
                let (room, dropped) = choose|room: int, dropped: int| #[trigger]
                    before.ticks(
                        room,
                        mixed,
                        logical_block as int,
                        ticked,
                        *mixer,
                        dropped,
                    ) && loss_is_counted(*stats, dropped);
                assert(before.ticks(room, mixed, logical_block as int, ticked, *mixer, dropped));
                assert(looked(ticked, *self));
            }
            ticks += 1;
        }
        ticks < MAX_PREFILL_TICKS
    }
}

impl<R: Resampler + From<ResamplerSpec>, A: Arithmetic> Sink<R, A> {
    /// `sink` is a new sink for a device: an empty ring, and a converter from the mix.
    pub open spec fn opens(
        sink: Self,
        from: AudioFormat,
        device_format: AudioFormat,
        frames: usize,
        name: Seq<char>,
    ) -> bool {
        let block = device_format.channel_count * frames;
        &&& sink.wf()
        &&& sink.written() == Seq::<u32>::empty()
        &&& ring::ring_room(sink.producer) == block * RING_CAPACITY_BLOCKS
        &&& sink.device_format == device_format
        &&& sink.device_block == block
        &&& sink.name@ == name
        &&& sink.converter.from == from
        &&& sink.converter.to == device_format
        &&& sink.converter.capacity_samples == block * RING_CAPACITY_BLOCKS
        &&& sink.converter.pending@ == Seq::<u32>::empty()
        &&& call_ensures(
            <R as From<ResamplerSpec>>::from,
            (FormatConverter::<R, A>::resampler_spec(from, device_format, block as usize),),
            sink.converter.resampler,
        )
    }

    /// A sink for a device, and the end of its ring that the device reads.
    fn open(from: AudioFormat, device_format: AudioFormat, block: usize, name: String) -> (pair: (
        Self,
        Consumer<u32>,
    ))
        requires
            block * RING_CAPACITY_BLOCKS * 4 <= isize::MAX,
        ensures
            pair.0.wf(),
            pair.0.written() == Seq::<u32>::empty(),
            ring::ring_room(pair.0.producer) == block * RING_CAPACITY_BLOCKS,
            pair.0.device_format == device_format,
            pair.0.device_block == block,
            pair.0.name@ == name@,
            pair.0.converter.from == from,
            pair.0.converter.to == device_format,
            pair.0.converter.capacity_samples == block * RING_CAPACITY_BLOCKS,
            pair.0.converter.pending@ == Seq::<u32>::empty(),
            call_ensures(
                <R as From<ResamplerSpec>>::from,
                (FormatConverter::<R, A>::resampler_spec(from, device_format, block),),
                pair.0.converter.resampler,
            ),
            ring::ring_consumed(pair.1) == Seq::<u32>::empty(),
            ring::ring_waiting(pair.1) == 0,
    {
        let capacity_samples: usize = block * RING_CAPACITY_BLOCKS;
        let (producer, consumer) = new_ring(capacity_samples);
        let converter: FormatConverter<R, A> = FormatConverter::new(
            from,
            device_format,
            block,
            capacity_samples,
        );
        (Sink::new(producer, converter, device_format, block, name), consumer)
    }

    /// A sink for a device, and the end of its ring that the device reads; an error where the
    /// device cannot be fed.
    pub fn for_device(
        logical_format: &AudioFormat,
        device_format: AudioFormat,
        audio_config: AudioPipelineConfig,
        name: String,
    ) -> (pair: Result<(Self, Consumer<u32>), &'static str>)
        requires
            block_fits(device_format.channel_count, audio_config.spec_frames()),
        ensures
            match sink_fault(device_format, audio_config.spec_frames()) {
                Some(fault) => pair matches Err(message) && message@ == fault,
                None => pair matches Ok(pair) && Self::opens(
                    pair.0,
                    *logical_format,
                    device_format,
                    audio_config.spec_frames(),
                    name@,
                ) && ring::ring_consumed(pair.1) == Seq::<u32>::empty() && ring::ring_waiting(
                    pair.1,
                ) == 0,
            },
    {
        match device_block(&device_format, audio_config.frames()) {
            Err(message) => Err(message),
            Ok(block) => Ok(Self::open(*logical_format, device_format, block, name)),
        }
    }

    /// A sink that nothing reads, in the format of the mix.
    pub fn dummy(audio_config: AudioPipelineConfig) -> (sink: Self)
        requires
            block_fits(audio_config.spec_channels(), audio_config.spec_frames()),
        ensures
            ({
                let format = AudioFormat {
                    channel_count: audio_config.spec_channels(),
                    sample_rate: audio_config.spec_sample_rate(),
                };
                Self::opens(
                    sink,
                    format,
                    format,
                    audio_config.spec_frames(),
                    UNKNOWN_DEVICE_NAME@,
                )
            }),
    {
        let format: AudioFormat = audio_config.audio_format();
        proof {
            assert(0 <= format.channel_count * audio_config.spec_frames()) by (nonlinear_arith);
        }
        let block: usize = format.channel_count as usize * audio_config.frames();
        let (sink, _) = Self::open(format, format, block, UNKNOWN_DEVICE_NAME.to_owned());
        sink
    }
}

/// `len` samples for a device: those at hand, then silence.
pub open spec fn rendered(samples: Seq<u32>, len: nat) -> Seq<u32> {
    Seq::new(
        len,
        |i: int|
            if i < samples.len() {
                samples[i]
            } else {
                float::ZERO
            },
    )
}

/// Fills a device's buffer of `len` samples: those at hand first, then silence.
pub fn render_samples(len: usize, samples: &Vec<u32>) -> (out: Vec<u32>)
    ensures
        out@ == rendered(samples@, len as nat),
{
    let mut out: Vec<u32> = Vec::new();
    while out.len() < len
        invariant
            out@.len() <= len,
            forall|i: int|
                0 <= i < out@.len() ==> #[trigger] out@[i] == rendered(samples@, len as nat)[i],
        decreases len - out@.len(),
    {
        let i: usize = out.len();
        out.push(
            if i < samples.len() {
                samples[i]
            } else {
                float::ZERO
            },
        );
    }
    proof {
        assert(out@ =~= rendered(samples@, len as nat));
    }
    out
}

/// What a device's callback for `len` samples is given: what waits in the ring, then silence.
/// `missing` is how many samples had to be silence.
pub fn drain_ring(consumer: &mut Consumer<u32>, len: usize) -> (result: (Vec<u32>, usize))
    ensures
        exists|taken: Seq<u32>| #[trigger]
            rendered(taken, len as nat) == result.0@ && taken.len() + result.1 == len
                && ring::ring_consumed(*final(consumer)) == ring::ring_consumed(*old(consumer))
                + taken,
        ring::ring_waiting(*old(consumer)) >= len ==> result.1 == 0,
        ring::ring_waiting(*old(consumer)) < len ==> result.1 <= len - ring::ring_waiting(
            *old(consumer),
        ),
        ring::ring_waiting(*old(consumer)) + result.1 <= ring::ring_waiting(*final(consumer))
            + len,
        result.1 > 0 ==> ring::ring_waiting(*final(consumer)) == 0,
{
    let waiting: usize = ring_available(consumer);
    let available: usize = if waiting < len {
        waiting
    } else {
        len
    };
    let samples: Vec<u32> = match ring_read(consumer, available) {
        Some(samples) => samples,
        None => Vec::new(),
    };
    let out: Vec<u32> = render_samples(len, &samples);
    proof {
        assert(rendered(samples@, len as nat) == out@);
    }
    (out, len - available)
}

/// What is known of an output once it is in use.
pub fn sink_info<R: Resampler, A: Arithmetic>(sink: &Sink<R, A>, selection: Selection) -> (info:
    OutputInfo)
    ensures
        info.name == sink.name,
        info.format == sink.device_format,
        info.selection == selection,
{
    OutputInfo { name: sink.name.clone(), format: sink.device_format, selection }
}

/// The output that was opened, or one that nothing reads where none could be.
pub fn sink_or_dummy<R: Resampler + From<ResamplerSpec>, A: Arithmetic>(
    opened: Option<Sink<R, A>>,
    audio_config: AudioPipelineConfig,
) -> (sink: Sink<R, A>)
    requires
        block_fits(audio_config.spec_channels(), audio_config.spec_frames()),
    ensures
        match opened {
            Some(opened) => sink == opened,
            None => {
                let format = AudioFormat {
                    channel_count: audio_config.spec_channels(),
                    sample_rate: audio_config.spec_sample_rate(),
                };
                Sink::opens(
                    sink,
                    format,
                    format,
                    audio_config.spec_frames(),
                    UNKNOWN_DEVICE_NAME@,
                )
            },
        },
{
    match opened {
        Some(sink) => sink,
        None => Sink::dummy(audio_config),
    }
}

} // verus!
