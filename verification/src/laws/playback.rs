//! Playback: how the mix reaches a device.
use crate::audio::config::AudioPipelineConfig;
use crate::audio::converter::{self, FormatConverter};
use crate::audio::device::UNKNOWN_DEVICE_NAME;
use crate::audio::float::Arithmetic;
use crate::audio::output::{
    self, demand_sleep, demand_sleep_nanos, device_block, drain_ring, render_samples, sink_info,
    sink_or_dummy, OutputInfo, Sink,
};
use crate::audio::ring;
use crate::audio::sample::{self, pull_block, push_all, Resampler, ResamplerSpec, SyncSampleSource};
use crate::audio::sample_ops;
use crate::audio::stats::OutputStats;
use crate::audio::switch::Selection;
use crate::audio::time;
use crate::audio::AudioFormat;
use crate::laws::conversion::{
    self, carried_over, holds_the_newest, left_over, made_between,
};
use rtrb::Consumer;
use std::time::Duration;
use vstd::arithmetic::div_mod::{lemma_fundamental_div_mod, lemma_mod_bound};
use vstd::prelude::*;

verus! {

/// A ring is looked at again when what it holds above two blocks has been played, to the
/// nanosecond, but not sooner than after 2 ms nor later than after 30 ms. Where that cannot be
/// told it is as late as possible.
pub open spec fn sleeps_until(
    capacity: int,
    free: int,
    block: int,
    channels: int,
    rate: int,
    nanos: int,
) -> bool {
    &&& 2_000_000 <= nanos <= 30_000_000
    &&& block == 0 || channels == 0 || rate == 0 ==> nanos == 30_000_000
    &&& block > 0 && channels > 0 && rate > 0 ==> {
        let excess = (capacity - free) - 2 * block;
        &&& nanos > 2_000_000 ==> nanos * (channels * rate) <= excess * 1_000_000_000
        &&& nanos < 30_000_000 ==> excess * 1_000_000_000 < (nanos + 1) * (channels * rate)
    }
}

/// The time to wait is the time until two blocks are left.
pub(crate) proof fn sleeping_sleeps_until(
    capacity: usize,
    free: usize,
    block: usize,
    channels: usize,
    rate: u32,
    nanos: u64,
)
    requires
        nanos == output::sleep_nanos(capacity, free, block, channels, rate),
    ensures
        sleeps_until(
            capacity as int,
            free as int,
            block as int,
            channels as int,
            rate as int,
            nanos as int,
        ),
{
    if block > 0 && channels > 0 && rate > 0 {
        let speed = channels * rate as int;
        assert(speed > 0) by (nonlinear_arith)
            requires
                channels > 0,
                rate > 0,
                speed == channels * rate as int,
        ;
        let excess = (capacity - free) - 2 * block;
        let above = if excess > 0 {
            excess
        } else {
            0
        };
        let n = above * 1_000_000_000;
        lemma_fundamental_div_mod(n, speed);
        lemma_mod_bound(n, speed);
        assert((n / speed) * speed <= n < (n / speed + 1) * speed) by (nonlinear_arith)
            requires
                n == speed * (n / speed) + n % speed,
                0 <= n % speed < speed,
        ;
        assert(nanos <= n / speed ==> nanos * speed <= (n / speed) * speed) by (nonlinear_arith)
            requires
                speed > 0,
        ;
        assert(nanos >= n / speed ==> (n / speed + 1) * speed <= (nanos + 1) * speed)
            by (nonlinear_arith)
            requires
                speed > 0,
        ;
        assert(excess * 1_000_000_000 <= n);
        if excess <= 0 {
            vstd::arithmetic::div_mod::lemma_div_basics(speed);
        }
    }
}

/// A ring is left alone until two blocks are left in it.
pub proof fn sleep_lasts_until_two_blocks_are_left(
    capacity: usize,
    free: usize,
    block: usize,
    channels: usize,
    rate: u32,
    nanos: u64,
)
    requires
        call_ensures(demand_sleep_nanos, (capacity, free, block, channels, rate), nanos),
    ensures
        sleeps_until(
            capacity as int,
            free as int,
            block as int,
            channels as int,
            rate as int,
            nanos as int,
        ),
{
    sleeping_sleeps_until(capacity, free, block, channels, rate, nanos);
}

/// A time to wait is the span of that many nanoseconds.
pub proof fn sleep_is_a_span(
    capacity: usize,
    free: usize,
    block: usize,
    channels: usize,
    rate: u32,
    nanos: u64,
    sleep: Duration,
)
    requires
        call_ensures(demand_sleep_nanos, (capacity, free, block, channels, rate), nanos),
        call_ensures(demand_sleep, (capacity, free, block, channels, rate), sleep),
    ensures
        sleep == time::duration_of_parts(0, nanos as u32),
{
}

/// The more a ring holds, the later it is looked at again.
pub proof fn fuller_ring_is_left_alone_longer(
    capacity: usize,
    free: usize,
    freer: usize,
    block: usize,
    channels: usize,
    rate: u32,
    nanos: u64,
    sooner: u64,
)
    requires
        free <= freer,
        call_ensures(demand_sleep_nanos, (capacity, free, block, channels, rate), nanos),
        call_ensures(demand_sleep_nanos, (capacity, freer, block, channels, rate), sooner),
    ensures
        sooner <= nanos,
{
    output::fuller_ring_waits_longer(capacity, free, freer, block, channels, rate);
}

/// A device is fed where it has channels, a rate and frames, in blocks of all its channels; if
/// not, what is missing is said, the channels first and the frames last.
pub proof fn block_holds_all_channels(
    format: AudioFormat,
    frames: usize,
    block: Result<usize, &'static str>,
)
    requires
        call_ensures(device_block, (&format, frames), block),
        output::block_fits(format.channel_count, frames),
    ensures
        block is Ok <==> format.channel_count > 0 && format.sample_rate > 0 && frames > 0,
        block matches Ok(block) ==> block == frames * format.channel_count && block > 0,
        format.channel_count == 0 ==> block->Err_0@ == "output channel_count must be > 0"@,
        format.channel_count > 0 && format.sample_rate == 0 ==> block->Err_0@
            == "device sample_rate must be > 0"@,
        format.channel_count > 0 && format.sample_rate > 0 && frames == 0 ==> block->Err_0@
            == "device block must be > 0"@,
{
    let (n, c) = (frames as int, format.channel_count as int);
    assert(0 <= c * n && c * n == n * c) by (nonlinear_arith)
        requires
            0 <= c,
            0 <= n,
    ;
    assert(c * n * output::RING_CAPACITY_BLOCKS * 4 >= c * n) by (nonlinear_arith)
        requires
            0 <= c * n,
            output::RING_CAPACITY_BLOCKS == 8,
    ;
}

/// What a source brings is what is played, in order, and silence where it brings nothing.
pub open spec fn played(brought: Seq<Option<u32>>, block: Seq<u32>) -> bool {
    &&& block.len() == brought.len()
    &&& forall|i: int|
        0 <= i < block.len() ==> (brought[i] is None ==> #[trigger] block[i] == 0) && (
        brought[i] is Some ==> block[i] == brought[i]->0)
}

/// A block is what the next calls of a source bring.
pub proof fn block_is_what_the_source_brings<S: SyncSampleSource>(
    source: &mut S,
    n: usize,
    block: Vec<u32>,
)
    requires
        call_ensures(pull_block::<S>, (source, n), block),
    ensures
        block@.len() == n,
        exists|brought: Seq<Option<u32>>| #[trigger]
            sample::drawn(*old(source), brought, *final(source)) && played(brought, block@),
{
    let brought = choose|brought: Seq<Option<u32>>| #[trigger]
        sample::drawn(*old(source), brought, *final(source)) && brought.len() == n && block@
            == sample::audible(brought);
    assert(played(brought, block@));
}

/// All that is pushed goes in, in order; nothing comes out over it.
pub proof fn all_is_pushed_in_order<R: Resampler>(resampler: &mut R, samples: Vec<u32>)
    requires
        call_ensures(push_all::<R>, (resampler, &samples), ()),
    ensures
        final(resampler).flow().pushed == old(resampler).flow().pushed + samples@,
        old(resampler).flow().waiting.is_prefix_of(final(resampler).flow().waiting),
        final(resampler).flow().popped == old(resampler).flow().popped,
{
}

/// `after` is a converter that `samples` have gone into: held as they are where the formats are
/// the same, else carried over to the channels that go out and resampled.
pub open spec fn is_fed<R: Resampler, A: Arithmetic>(
    before: FormatConverter<R, A>,
    samples: Seq<u32>,
    after: FormatConverter<R, A>,
    dropped: int,
) -> bool {
    &&& before.from == before.to ==> after.resampler == before.resampler && holds_the_newest(
        before,
        samples,
        0,
        after,
        dropped,
    )
    &&& before.from != before.to ==> {
        &&& after.resampler.flow().waiting.len() == 0
        &&& exists|mapped: Seq<u32>| #[trigger]
            carried_over::<A>(
                samples,
                before.from.channel_count as int,
                before.to.channel_count as int,
                mapped,
            ) && after.resampler.flow().pushed == before.resampler.flow().pushed + mapped
        &&& exists|came: Seq<u32>|
            after.resampler.flow().popped == before.resampler.flow().popped + came
                && #[trigger] holds_the_newest(
                before,
                came,
                left_over(samples, before.from.channel_count as int),
                after,
                dropped,
            )
    }
}

proof fn feeding_feeds<R: Resampler, A: Arithmetic>(
    before: FormatConverter<R, A>,
    samples: Seq<u32>,
    after: FormatConverter<R, A>,
    dropped: int,
)
    requires
        output::feeds(before, samples, after, dropped),
    ensures
        is_fed(before, samples, after, dropped),
{
    let (src, dst) = (before.from.channel_count as int, before.to.channel_count as int);
    let gained = choose|gained: Seq<u32>| #[trigger]
        before.converts(samples, after.resampler, gained) && ({
            let all = before.pending@ + gained;
            let lost = converter::excess(all, before.capacity_samples as int) + if before.from
                == before.to {
                0
            } else {
                converter::ragged(samples, src)
            };
            &&& after.pending@ == converter::newest(all, before.capacity_samples as int)
            &&& lost <= usize::MAX ==> dropped == lost
            &&& lost > usize::MAX ==> dropped == usize::MAX
        });
    if before.from != before.to {
        let (mapped, full) = choose|mapped: Seq<u32>, full: R| #[trigger]
            sample_ops::converts::<A>(samples, src, dst, mapped) && #[trigger] sample::takes_all(
                before.resampler,
                mapped,
                full,
            ) && gained == full.flow().waiting && after.resampler.flow() == (sample::Flow {
                waiting: Seq::empty(),
                popped: before.resampler.flow().popped + gained,
                ..full.flow()
            });
        conversion::conversion_carries_over::<A>(samples, src, dst, mapped);
        assert(carried_over::<A>(samples, src, dst, mapped));
        assert(holds_the_newest(before, gained, left_over(samples, src), after, dropped));
    }
}

/// Whether a ring with this much room holds less than two blocks and has room for one more.
pub open spec fn is_low<R, A>(sink: Sink<R, A>, room: int) -> bool {
    sink.device_block * 6 < room && sink.device_block <= room
}

/// What the mix has to give to an output: a block of it is converted where the ring is low and
/// less than a block is pending, and the mix is left alone where not.
pub open spec fn draws_on<R: Resampler, A: Arithmetic, S: SyncSampleSource>(
    sink: Sink<R, A>,
    room: int,
    mixer: S,
    logical_block: int,
    fed: FormatConverter<R, A>,
    left: S,
    dropped: int,
) -> bool {
    if is_low(sink, room) && sink.converter.pending@.len() < sink.device_block {
        exists|brought: Seq<Option<u32>>, block: Seq<u32>| #[trigger]
            sample::drawn(mixer, brought, left) && #[trigger] played(brought, block)
                && brought.len() == logical_block && is_fed(sink.converter, block, fed, dropped)
    } else {
        fed == sink.converter && left == mixer && dropped == 0
    }
}

/// What one round does to an output. `room` is the room that the first look found, `fed` the
/// converter once it has been fed, and `n` how many whole blocks then moved from its front to the
/// ring's end, in order: at most two, and fewer only where the ring is no longer low or no block
/// is left.
pub open spec fn tops_up<R: Resampler, A: Arithmetic, S: SyncSampleSource>(
    sink: Sink<R, A>,
    room: int,
    mixer: S,
    logical_block: int,
    fed: FormatConverter<R, A>,
    n: nat,
    post: Sink<R, A>,
    left: S,
    dropped: int,
) -> bool {
    &&& ring::ring_room(sink.producer) <= room <= ring::ring_capacity(sink.producer)
    &&& draws_on(sink, room, mixer, logical_block, fed, left, dropped)
    &&& n <= 2
    &&& n * sink.device_block <= fed.pending@.len()
    &&& ring::ring_written(post.producer) == ring::ring_written(sink.producer) + fed.pending@.take(
        n * sink.device_block,
    )
    &&& post.converter.pending@ == fed.pending@.skip(n * sink.device_block)
    &&& post.converter.resampler == fed.resampler
    &&& n < 2 && sink.device_block > 0 ==> post.converter.pending@.len() < sink.device_block
        || !is_low(sink, ring::ring_room(post.producer) as int)
    &&& post.device_format == sink.device_format
    &&& post.device_block == sink.device_block
    &&& post.name == sink.name
}

/// What a round does tops the output up.
pub(crate) proof fn round_tops_up<R: Resampler, A: Arithmetic, S: SyncSampleSource>(
    sink: Sink<R, A>,
    room: int,
    mixer: S,
    logical_block: int,
    post: Sink<R, A>,
    left: S,
    dropped: int,
) -> (result: (FormatConverter<R, A>, nat))
    requires
        sink.wf(),
        sink.ticks(room, mixer, logical_block, post, left, dropped),
    ensures
        tops_up(sink, room, mixer, logical_block, result.0, result.1, post, left, dropped),
{
    let (fed, start, n, last) = choose|
        fed: FormatConverter<R, A>,
        start: Sink<R, A>,
        n: nat,
        last: Sink<R, A>,
    | #[trigger]
        output::topped_up(sink, room, mixer, logical_block, fed, left, dropped)
            && output::stocked(sink, room, fed, start) && #[trigger] output::moves(start, n, last)
            && output::moved_enough(last, n, post);
    output::blocks_move_in_order(start, n, last);
    assert(sink.needs(room) <==> is_low(sink, room));
    assert(sink.device_block > 0 ==> (post.needs(ring::ring_room(post.producer) as int)
        <==> is_low(sink, ring::ring_room(post.producer) as int)));
    if sink.needs(room) && sink.converter.pending@.len() < sink.device_block {
        let brought = choose|brought: Seq<Option<u32>>| #[trigger]
            sample::drawn(mixer, brought, left) && brought.len() == logical_block
                && output::feeds(sink.converter, sample::audible(brought), fed, dropped);
        let block = sample::audible(brought);
        feeding_feeds(sink.converter, block, fed, dropped);
        assert(sample::drawn(mixer, brought, left));
        assert(played(brought, block));
    }
    (fed, n)
}

/// A round tops the ring up with the mix.
pub proof fn round_passes_the_mix_on<R: Resampler, A: Arithmetic, S: SyncSampleSource>(
    sink: &mut Sink<R, A>,
    mixer: &mut S,
    logical_block: usize,
    dropped: usize,
)
    requires
        old(sink).wf(),
        call_ensures(
            Sink::<R, A>::tick_counting::<S>,
            (sink, mixer, logical_block),
            dropped,
        ),
    ensures
        exists|room: int, fed: FormatConverter<R, A>, n: nat| #[trigger]
            tops_up(
                *old(sink),
                room,
                *old(mixer),
                logical_block as int,
                fed,
                n,
                *final(sink),
                *final(mixer),
                dropped as int,
            ),
{
    let room = choose|room: int| #[trigger]
        old(sink).ticks(
            room,
            *old(mixer),
            logical_block as int,
            *final(sink),
            *final(mixer),
            dropped as int,
        );
    let _ = round_tops_up(
        *old(sink),
        room,
        *old(mixer),
        logical_block as int,
        *final(sink),
        *final(mixer),
        dropped as int,
    );
}

/// A round that keeps count does the same, and counts what it lost.
pub proof fn round_counts_what_it_lost<R: Resampler, A: Arithmetic, S: SyncSampleSource>(
    sink: &mut Sink<R, A>,
    mixer: &mut S,
    logical_block: usize,
    stats: OutputStats,
)
    requires
        old(sink).wf(),
        call_ensures(Sink::<R, A>::tick::<S>, (sink, mixer, logical_block, &stats), ()),
    ensures
        exists|room: int, fed: FormatConverter<R, A>, n: nat, dropped: int| #[trigger]
            tops_up(
                *old(sink),
                room,
                *old(mixer),
                logical_block as int,
                fed,
                n,
                *final(sink),
                *final(mixer),
                dropped,
            ) && (dropped > 0 ==> stats.overruns_counted(dropped as usize)) && 0 <= dropped
                <= usize::MAX,
{
    let (room, dropped) = choose|room: int, dropped: int| #[trigger]
        old(sink).ticks(
            room,
            *old(mixer),
            logical_block as int,
            *final(sink),
            *final(mixer),
            dropped,
        ) && output::loss_is_counted(stats, dropped);
    let _ = round_tops_up(
        *old(sink),
        room,
        *old(mixer),
        logical_block as int,
        *final(sink),
        *final(mixer),
        dropped,
    );
}

/// `b` is `a`, though there may be more room now.
pub open spec fn as_it_was<R: Resampler, A: Arithmetic>(a: Sink<R, A>, b: Sink<R, A>) -> bool {
    &&& b.converter == a.converter
    &&& ring::ring_written(b.producer) == ring::ring_written(a.producer)
    &&& ring::ring_capacity(b.producer) == ring::ring_capacity(a.producer)
    &&& ring::ring_room(a.producer) <= ring::ring_room(b.producer)
    &&& b.device_format == a.device_format
    &&& b.device_block == a.device_block
    &&& b.name == a.name
}

/// So many rounds, each begun with less than a block in the ring, as a look found.
pub open spec fn filled_up<R: Resampler, A: Arithmetic, S: SyncSampleSource>(
    sink: Sink<R, A>,
    mixer: S,
    logical_block: int,
    rounds: nat,
    post: Sink<R, A>,
    left: S,
) -> bool
    decreases rounds,
{
    if rounds == 0 {
        as_it_was(sink, post) && left == mixer
    } else {
        exists|
            mid: Sink<R, A>,
            between: S,
            ticked: Sink<R, A>,
            room: int,
            fed: FormatConverter<R, A>,
            n: nat,
            dropped: int,
        |
            filled_up(sink, mixer, logical_block, (rounds - 1) as nat, mid, between)
                && mid.device_block * 7 < ring::ring_room(mid.producer) && #[trigger] tops_up(
                mid,
                room,
                between,
                logical_block,
                fed,
                n,
                ticked,
                left,
                dropped,
            ) && as_it_was(ticked, post)
    }
}

/// What filling a new output does fills it up, round by round.
pub(crate) proof fn prefilling_fills_up<R: Resampler, A: Arithmetic, S: SyncSampleSource>(
    sink: Sink<R, A>,
    mixer: S,
    logical_block: int,
    rounds: nat,
    post: Sink<R, A>,
    left: S,
    stats: OutputStats,
)
    requires
        sink.wf(),
        output::prefilled(sink, mixer, logical_block, rounds, post, left, stats),
    ensures
        post.keeps(sink),
        post.wf(),
        filled_up(sink, mixer, logical_block, rounds, post, left),
    decreases rounds,
{
    if rounds > 0 {
        let (mid, between, ticked, room, dropped) = choose|
            mid: Sink<R, A>,
            between: S,
            ticked: Sink<R, A>,
            room: int,
            dropped: int,
        |
            output::prefilled(
                sink,
                mixer,
                logical_block,
                (rounds - 1) as nat,
                mid,
                between,
                stats,
            ) && mid.occupied(ring::ring_room(mid.producer) as int) < mid.device_block
                && #[trigger] mid.ticks(room, between, logical_block, ticked, left, dropped)
                && output::looked(ticked, post) && output::loss_is_counted(stats, dropped);
        prefilling_fills_up(sink, mixer, logical_block, (rounds - 1) as nat, mid, between, stats);
        let (fed, n) = round_tops_up(mid, room, between, logical_block, ticked, left, dropped);
        tick_keeps_blocks(mid, room, between, logical_block, ticked, left, dropped);
        assert(tops_up(mid, room, between, logical_block, fed, n, ticked, left, dropped));
        assert(as_it_was(ticked, post));
    }
}

/// A round leaves the size of the converter's blocks alone.
proof fn tick_keeps_blocks<R: Resampler, A: Arithmetic, S: SyncSampleSource>(
    sink: Sink<R, A>,
    room: int,
    mixer: S,
    logical_block: int,
    post: Sink<R, A>,
    left: S,
    dropped: int,
)
    requires
        sink.ticks(room, mixer, logical_block, post, left, dropped),
    ensures
        post.converter.block_samples == sink.converter.block_samples,
{
    let (fed, start, n, last) = choose|
        fed: FormatConverter<R, A>,
        start: Sink<R, A>,
        n: nat,
        last: Sink<R, A>,
    | #[trigger]
        output::topped_up(sink, room, mixer, logical_block, fed, left, dropped)
            && output::stocked(sink, room, fed, start) && #[trigger] output::moves(start, n, last)
            && output::moved_enough(last, n, post);
    output::blocks_move_in_order(start, n, last);
}

/// A new output is topped up, round by round, until a block waits in its ring, and no longer. It
/// is so unless 1024 rounds have not been enough.
pub proof fn new_output_is_filled_until_a_block_waits<
    R: Resampler,
    A: Arithmetic,
    S: SyncSampleSource,
>(
    sink: &mut Sink<R, A>,
    mixer: &mut S,
    logical_block: usize,
    stats: OutputStats,
    converged: bool,
)
    requires
        old(sink).wf(),
        call_ensures(
            Sink::<R, A>::prefill::<S>,
            (sink, mixer, logical_block, &stats),
            converged,
        ),
    ensures
        converged && final(sink).device_block > 0 ==> final(sink).device_block * 7
            >= ring::ring_room(final(sink).producer),
        exists|rounds: nat| #[trigger]
            filled_up(
                *old(sink),
                *old(mixer),
                logical_block as int,
                rounds,
                *final(sink),
                *final(mixer),
            ) && rounds <= 1024 && (converged <==> rounds < 1024),
{
    let rounds = choose|rounds: nat| #[trigger]
        output::prefilled(
            *old(sink),
            *old(mixer),
            logical_block as int,
            rounds,
            *final(sink),
            *final(mixer),
            stats,
        ) && rounds <= output::MAX_PREFILL_TICKS && converged == (rounds
            < output::MAX_PREFILL_TICKS);
    prefilling_fills_up(
        *old(sink),
        *old(mixer),
        logical_block as int,
        rounds,
        *final(sink),
        *final(mixer),
        stats,
    );
}

/// What is asked of an output: a ring holds eight blocks and is kept at two, and what waits in it
/// is what its room does not take up.
pub proof fn output_counts_its_samples<R: Resampler, A: Arithmetic>(
    sink: Sink<R, A>,
    capacity: usize,
    target: usize,
    looked: &mut Sink<R, A>,
    buffered: usize,
)
    requires
        call_ensures(Sink::<R, A>::capacity_samples, (&sink,), capacity),
        call_ensures(Sink::<R, A>::target_samples, (&sink,), target),
        old(looked).wf(),
        call_ensures(Sink::<R, A>::buffered_samples, (looked,), buffered),
    ensures
        capacity == 8 * sink.device_block,
        target == 2 * sink.device_block,
        as_it_was(*old(looked), *final(looked)),
        buffered + ring::ring_room(final(looked).producer) == ring::ring_capacity(
            final(looked).producer,
        ),
{
}

/// `sink` is a new output for a device, from the mix's format to the device's, with nothing in it.
pub open spec fn is_new_for<R: Resampler + From<ResamplerSpec>, A: Arithmetic>(
    sink: Sink<R, A>,
    from: AudioFormat,
    to: AudioFormat,
    frames: int,
    name: Seq<char>,
) -> bool {
    let block = frames * to.channel_count;
    &&& sink.device_format == to
    &&& sink.device_block == block
    &&& sink.name@ == name
    &&& sink.converter.from == from && sink.converter.to == to
    &&& sink.converter.block_samples == block
    &&& sink.converter.capacity_samples == 8 * block
    &&& sink.converter.pending@.len() == 0
    &&& ring::ring_written(sink.producer).len() == 0
    &&& ring::ring_room(sink.producer) == 8 * block
    &&& ring::ring_capacity(sink.producer) == 8 * block
    &&& exists|spec: ResamplerSpec| #[trigger]
        made_between(
            sink.converter.resampler,
            from.sample_rate,
            to.sample_rate,
            to.channel_count as int,
            spec,
        ) && (to.channel_count > 0 ==> spec.block_frames == frames)
}

proof fn opening_is_new<R: Resampler + From<ResamplerSpec>, A: Arithmetic>(
    sink: Sink<R, A>,
    from: AudioFormat,
    to: AudioFormat,
    frames: usize,
    name: Seq<char>,
)
    requires
        Sink::<R, A>::opens(sink, from, to, frames, name),
        output::block_fits(to.channel_count, frames),
    ensures
        is_new_for(sink, from, to, frames as int, name),
{
    let (n, c) = (frames as int, to.channel_count as int);
    assert(0 <= c * n && c * n == n * c) by (nonlinear_arith)
        requires
            0 <= c,
            0 <= n,
    ;
    assert(c * n * output::RING_CAPACITY_BLOCKS * 4 == c * n * 32) by (nonlinear_arith)
        requires
            output::RING_CAPACITY_BLOCKS == 8,
    ;
    let spec = FormatConverter::<R, A>::resampler_spec(from, to, (c * n) as usize);
    if c > 0 {
        vstd::arithmetic::div_mod::lemma_div_multiples_vanish(n, c);
    }
    assert(made_between(
        sink.converter.resampler,
        from.sample_rate,
        to.sample_rate,
        to.channel_count as int,
        spec,
    ));
}

/// An output for a device converts from the mix to it; where the device cannot be fed there is
/// none. The end of the ring that the device reads has been read nothing from.
pub proof fn device_gets_its_own_output<R: Resampler + From<ResamplerSpec>, A: Arithmetic>(
    logical_format: AudioFormat,
    device_format: AudioFormat,
    audio_config: AudioPipelineConfig,
    name: String,
    pair: Result<(Sink<R, A>, Consumer<u32>), &'static str>,
)
    requires
        output::block_fits(device_format.channel_count, audio_config.spec_frames()),
        call_ensures(
            Sink::<R, A>::for_device,
            (&logical_format, device_format, audio_config, name),
            pair,
        ),
    ensures
        pair is Ok <==> device_format.channel_count > 0 && device_format.sample_rate > 0
            && audio_config.spec_frames() > 0,
        pair matches Ok(pair) ==> is_new_for(
            pair.0,
            logical_format,
            device_format,
            audio_config.spec_frames() as int,
            name@,
        ) && ring::ring_consumed(pair.1).len() == 0 && ring::ring_waiting(pair.1) == 0,
        device_format.channel_count == 0 ==> pair->Err_0@ == "output channel_count must be > 0"@,
        device_format.channel_count > 0 && device_format.sample_rate == 0 ==> pair->Err_0@
            == "device sample_rate must be > 0"@,
        device_format.channel_count > 0 && device_format.sample_rate > 0
            && audio_config.spec_frames() == 0 ==> pair->Err_0@ == "device block must be > 0"@,
{
    if pair is Ok {
        opening_is_new(
            pair->Ok_0.0,
            logical_format,
            device_format,
            audio_config.spec_frames(),
            name@,
        );
    }
}

/// Where no output was opened, one in the mix's own format stands in; one that was is used.
pub proof fn output_never_lacks<R: Resampler + From<ResamplerSpec>, A: Arithmetic>(
    audio_config: AudioPipelineConfig,
    dummy: Sink<R, A>,
    opened: Option<Sink<R, A>>,
    sink: Sink<R, A>,
)
    requires
        output::block_fits(audio_config.spec_channels(), audio_config.spec_frames()),
        call_ensures(Sink::<R, A>::dummy, (audio_config,), dummy),
        call_ensures(sink_or_dummy::<R, A>, (opened, audio_config), sink),
    ensures
        ({
            let format = AudioFormat {
                channel_count: audio_config.spec_channels(),
                sample_rate: audio_config.spec_sample_rate(),
            };
            let frames = audio_config.spec_frames() as int;
            &&& is_new_for(dummy, format, format, frames, UNKNOWN_DEVICE_NAME@)
            &&& opened matches Some(opened) ==> sink == opened
            &&& opened is None ==> is_new_for(sink, format, format, frames, UNKNOWN_DEVICE_NAME@)
        }),
{
    let format = AudioFormat {
        channel_count: audio_config.spec_channels(),
        sample_rate: audio_config.spec_sample_rate(),
    };
    opening_is_new(dummy, format, format, audio_config.spec_frames(), UNKNOWN_DEVICE_NAME@);
    if opened is None {
        opening_is_new(sink, format, format, audio_config.spec_frames(), UNKNOWN_DEVICE_NAME@);
    }
}

/// A device's buffer is filled with the samples at hand, in order, and silence behind them.
pub proof fn buffer_ends_in_silence(len: usize, samples: Vec<u32>, out: Vec<u32>)
    requires
        call_ensures(render_samples, (len, &samples), out),
    ensures
        out@.len() == len,
        forall|i: int|
            0 <= i < len ==> (i < samples@.len() ==> #[trigger] out@[i] == samples@[i]) && (i
                >= samples@.len() ==> out@[i] == 0),
{
}

/// A device gets what it has read from the ring, in order, and then silence: so much as is missing.
/// Nothing is missing where enough is known to wait, and nothing waits where something is missing.
pub proof fn device_gets_what_waits(
    consumer: &mut Consumer<u32>,
    len: usize,
    result: (Vec<u32>, usize),
)
    requires
        call_ensures(drain_ring, (consumer, len), result),
    ensures
        result.0@.len() == len,
        result.1 <= len,
        ring::ring_consumed(*final(consumer)) == ring::ring_consumed(*old(consumer))
            + result.0@.take(len - result.1),
        forall|i: int| len - result.1 <= i < len ==> #[trigger] result.0@[i] == 0,
        ring::ring_waiting(*old(consumer)) >= len ==> result.1 == 0,
        result.1 > 0 ==> ring::ring_waiting(*final(consumer)) == 0,
        ring::ring_waiting(*old(consumer)) < len ==> result.1 + ring::ring_waiting(*old(consumer))
            <= len,
{
    let taken = choose|taken: Seq<u32>| #[trigger]
        output::rendered(taken, len as nat) == result.0@ && taken.len() + result.1 == len
            && ring::ring_consumed(*final(consumer)) == ring::ring_consumed(*old(consumer)) + taken;
    assert(result.0@.take(len - result.1) =~= taken);
}

/// What is told of an output is its name and format, and how it was chosen.
pub proof fn output_is_told_as_it_is<R: Resampler, A: Arithmetic>(
    sink: Sink<R, A>,
    selection: Selection,
    info: OutputInfo,
)
    requires
        call_ensures(sink_info::<R, A>, (&sink, selection), info),
    ensures
        info.name@ == sink.name@,
        info.format == sink.device_format,
        info.selection == selection,
{
}

} // verus!
