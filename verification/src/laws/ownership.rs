//! The owner of the mixer: what becomes of requests, and of the output.
use crate::audio::codec::AudioDecoder;
use crate::audio::config::AudioPipelineConfig;
use crate::audio::converter::FormatConverter;
use crate::audio::float::Arithmetic;
use crate::audio::mixer::{Mixer, MixerMetrics};
use crate::audio::output::{self, Sink};
use crate::audio::owner::{
    self, apply_op, apply_ops, owner_step, MixerOp, OpReply, OutputOwner, OwnerEvent, OwnerStep,
    Replies,
};
use crate::audio::ring;
use crate::audio::sample::Resampler;
use crate::audio::stats::OutputStats;
use crate::audio::transform::{ChunkTransform, MaybeChunk};
use crate::audio::AudioFormat;
use crate::laws::mixing::{
    counting_tallies, joins, leaves, pushing_reaches, reaches, subscribing_joins, tallied,
    unsubscribing_leaves,
};
use crate::laws::playback::{
    as_it_was, filled_up, prefilling_fills_up, round_tops_up, sleeping_sleeps_until, sleeps_until,
    tops_up,
};
use std::collections::VecDeque;
use vstd::prelude::*;

verus! {

/// The owner ends exactly where there will be no more requests; an output that is to take over
/// does, and anything else is followed by a round. Whether another may still take over changes
/// only where that is closed, and for good.
pub proof fn owner_ends_with_its_requests<S>(
    open: &mut bool,
    event: OwnerEvent<S>,
    step: OwnerStep<S>,
)
    requires
        call_ensures(owner_step::<S>, (open, event), step),
    ensures
        step is Stop <==> event == OwnerEvent::<S>::Ops(0),
        step is Adopt <==> event is Switch,
        event matches OwnerEvent::Switch(output) ==> step == OwnerStep::Adopt(output),
        *final(open) ==> *old(open),
        event is SwitchClosed ==> !*final(open),
        !(event is SwitchClosed) ==> *final(open) == *old(open),
{
}

/// What a request brings about: a frame reaches its peer, a peer joins under the number that is
/// replied, a peer leaves, or what was counted is told and nothing changes.
pub open spec fn meets<D, T, R, M, FD, A, K, Q>(
    before: Mixer<D, T, R, M, FD, A>,
    op: MixerOp<T, R, FD, K, Q>,
    after: Mixer<D, T, R, M, FD, A>,
    reply: OpReply<K, Q>,
) -> bool where
    D: AudioDecoder,
    T: ChunkTransform,
    T::OutputT: MaybeChunk,
    R: Resampler,
    M: ChunkTransform,
    M::OutputT: MaybeChunk,
    FD: FnMut(&AudioFormat) -> Option<D>,
    A: Arithmetic,
 {
    match op {
        MixerOp::Push { slot, chunk } => reply is Nothing && reaches(before, slot, chunk, after),
        MixerOp::Subscribe { transform, rebuild, resampler, reply: to } => {
            &&& reply matches OpReply::Slot(whom, id)
            &&& whom == to
            &&& joins(before, transform, rebuild, resampler, id, after)
        },
        MixerOp::Unsubscribe(slot) => reply is Nothing && leaves(before, slot, after),
        MixerOp::Snapshot(to) => {
            &&& after == before
            &&& reply matches OpReply::Snapshot(whom, metrics, peers)
            &&& whom == to
            &&& tallied(before, metrics)
            &&& peers == before.slots@.len()
        },
    }
}

proof fn applying_meets<D, T, R, M, FD, A, K, Q>(
    before: Mixer<D, T, R, M, FD, A>,
    op: MixerOp<T, R, FD, K, Q>,
    after: Mixer<D, T, R, M, FD, A>,
    reply: OpReply<K, Q>,
) where
    D: AudioDecoder,
    T: ChunkTransform,
    T::OutputT: MaybeChunk,
    R: Resampler,
    M: ChunkTransform,
    M::OutputT: MaybeChunk,
    FD: FnMut(&AudioFormat) -> Option<D>,
    A: Arithmetic,

    requires
        before.wf(),
        owner::op_applies(before, op, after, reply),
    ensures
        meets(before, op, after, reply),
{
    match op {
        MixerOp::Push { slot, chunk } => {
            pushing_reaches(before, slot, chunk, after);
        },
        MixerOp::Subscribe { transform, rebuild, resampler, reply: _ } => {
            subscribing_joins(before, transform, rebuild, resampler, before.next_id, after);
        },
        MixerOp::Unsubscribe(slot) => {
            unsubscribing_leaves(before, slot, after);
        },
        MixerOp::Snapshot(_) => {
            counting_tallies(before, reply->Snapshot_1);
        },
    }
}

/// A request is met.
pub proof fn request_is_met<D, T, R, M, FD, A, K, Q>(
    mixer: &mut Mixer<D, T, R, M, FD, A>,
    op: MixerOp<T, R, FD, K, Q>,
    reply: OpReply<K, Q>,
) where
    D: AudioDecoder,
    T: ChunkTransform,
    T::OutputT: MaybeChunk,
    R: Resampler,
    M: ChunkTransform,
    M::OutputT: MaybeChunk,
    FD: FnMut(&AudioFormat) -> Option<D>,
    A: Arithmetic,

    requires
        old(mixer).wf(),
        call_ensures(apply_op::<D, T, R, M, FD, A, K, Q>, (mixer, op), reply),
    ensures
        meets(*old(mixer), op, *final(mixer), reply),
{
    applying_meets(*old(mixer), op, *final(mixer), reply);
}

/// The numbers among replies, in their order.
pub open spec fn slots_among<K, Q>(replies: Seq<OpReply<K, Q>>) -> Seq<(K, u32)>
    decreases replies.len(),
{
    if replies.len() == 0 {
        Seq::empty()
    } else {
        match replies.last() {
            OpReply::Slot(to, id) => slots_among(replies.drop_last()).push((to, id)),
            _ => slots_among(replies.drop_last()),
        }
    }
}

/// The counts among replies, in their order.
pub open spec fn snapshots_among<K, Q>(replies: Seq<OpReply<K, Q>>) -> Seq<
    (Q, (MixerMetrics, usize)),
>
    decreases replies.len(),
{
    if replies.len() == 0 {
        Seq::empty()
    } else {
        match replies.last() {
            OpReply::Snapshot(to, metrics, peers) => snapshots_among(replies.drop_last()).push(
                (to, (metrics, peers)),
            ),
            _ => snapshots_among(replies.drop_last()),
        }
    }
}

/// `mixers` is how a mixer goes through requests, one by one, and `replies` what each is replied.
pub open spec fn meets_all<D, T, R, M, FD, A, K, Q>(
    mixers: Seq<Mixer<D, T, R, M, FD, A>>,
    ops: Seq<MixerOp<T, R, FD, K, Q>>,
    replies: Seq<OpReply<K, Q>>,
) -> bool where
    D: AudioDecoder,
    T: ChunkTransform,
    T::OutputT: MaybeChunk,
    R: Resampler,
    M: ChunkTransform,
    M::OutputT: MaybeChunk,
    FD: FnMut(&AudioFormat) -> Option<D>,
    A: Arithmetic,
 {
    &&& mixers.len() == ops.len() + 1
    &&& replies.len() == ops.len()
    &&& forall|i: int|
        0 <= i < ops.len() ==> meets(#[trigger] mixers[i], ops[i], mixers[i + 1], replies[i])
}

proof fn applying_meets_all<D, T, R, M, FD, A, K, Q>(
    before: Mixer<D, T, R, M, FD, A>,
    ops: Seq<MixerOp<T, R, FD, K, Q>>,
    after: Mixer<D, T, R, M, FD, A>,
    slots: Seq<(K, u32)>,
    snapshots: Seq<(Q, (MixerMetrics, usize))>,
) -> (chain: (Seq<Mixer<D, T, R, M, FD, A>>, Seq<OpReply<K, Q>>)) where
    D: AudioDecoder,
    T: ChunkTransform,
    T::OutputT: MaybeChunk,
    R: Resampler,
    M: ChunkTransform,
    M::OutputT: MaybeChunk,
    FD: FnMut(&AudioFormat) -> Option<D>,
    A: Arithmetic,

    requires
        before.wf(),
        owner::ops_applied(before, ops, after, slots, snapshots),
    ensures
        after.wf(),
        meets_all(chain.0, ops, chain.1),
        chain.0[0] == before,
        chain.0[ops.len() as int] == after,
        slots_among(chain.1) == slots,
        snapshots_among(chain.1) == snapshots,
    decreases ops.len(),
{
    if ops.len() == 0 {
        let none: Seq<OpReply<K, Q>> = Seq::empty();
        assert(slots_among(none) =~= slots);
        assert(snapshots_among(none) =~= snapshots);
        (seq![before], none)
    } else {
        let (mid, reply, slots_before, snapshots_before) = choose|
            mid: Mixer<D, T, R, M, FD, A>,
            reply: OpReply<K, Q>,
            slots_before: Seq<(K, u32)>,
            snapshots_before: Seq<(Q, (MixerMetrics, usize))>,
        |
            owner::ops_applied(before, ops.drop_last(), mid, slots_before, snapshots_before)
                && #[trigger] owner::op_applies(mid, ops.last(), after, reply) && (
            slots, snapshots) == #[trigger] owner::replied(slots_before, snapshots_before, reply);
        let earlier = applying_meets_all(
            before,
            ops.drop_last(),
            mid,
            slots_before,
            snapshots_before,
        );
        applying_meets(mid, ops.last(), after, reply);
        let (mixers, replies) = (earlier.0.push(after), earlier.1.push(reply));
        assert(replies.drop_last() =~= earlier.1);
        assert forall|i: int| 0 <= i < ops.len() implies meets(
            #[trigger] mixers[i],
            ops[i],
            mixers[i + 1],
            replies[i],
        ) by {
            if i < ops.len() - 1 {
                assert(meets(
                    earlier.0[i],
                    ops.drop_last()[i],
                    earlier.0[i + 1],
                    earlier.1[i],
                ));
            }
        }
        (mixers, replies)
    }
}

/// Requests are met one after the other, in the order in which they came, and each is replied to.
pub proof fn requests_are_met_in_order<D, T, R, M, FD, A, K, Q>(
    mixer: &mut Mixer<D, T, R, M, FD, A>,
    ops: VecDeque<MixerOp<T, R, FD, K, Q>>,
    replies: Replies<K, Q>,
) where
    D: AudioDecoder,
    T: ChunkTransform,
    T::OutputT: MaybeChunk,
    R: Resampler,
    M: ChunkTransform,
    M::OutputT: MaybeChunk,
    FD: FnMut(&AudioFormat) -> Option<D>,
    A: Arithmetic,

    requires
        old(mixer).wf(),
        call_ensures(apply_ops::<D, T, R, M, FD, A, K, Q>, (mixer, ops), replies),
    ensures
        exists|mixers: Seq<Mixer<D, T, R, M, FD, A>>, given: Seq<OpReply<K, Q>>| #[trigger]
            meets_all(mixers, ops@, given) && mixers[0] == *old(mixer)
                && mixers[ops@.len() as int] == *final(mixer) && replies.slots@ == slots_among(
                given,
            ) && replies.snapshots@ == snapshots_among(given),
{
    let (mixers, given) = applying_meets_all(
        *old(mixer),
        ops@,
        *final(mixer),
        replies.slots@,
        replies.snapshots@,
    );
    assert(meets_all(mixers, ops@, given));
}

/// A round meets the requests, in order, then tops the output up from the mix that they leave, and
/// sleeps by what the ring holds then.
pub proof fn round_meets_requests_then_plays<D, T, R, M, FD, A, C, K, Q>(
    owner: &mut OutputOwner<D, T, R, M, FD, A, C>,
    ops: VecDeque<MixerOp<T, R, FD, K, Q>>,
    stats: OutputStats,
    replies: Replies<K, Q>,
) where
    D: AudioDecoder,
    T: ChunkTransform,
    T::OutputT: MaybeChunk,
    R: Resampler,
    M: ChunkTransform,
    M::OutputT: MaybeChunk,
    FD: FnMut(&AudioFormat) -> Option<D>,
    A: Arithmetic,
    C: Resampler,

    requires
        old(owner).wf(),
        call_ensures(
            OutputOwner::<D, T, R, M, FD, A, C>::round::<K, Q>,
            (owner, ops, &stats),
            replies,
        ),
    ensures
        final(owner).logical_block == old(owner).logical_block,
        exists|
            mixers: Seq<Mixer<D, T, R, M, FD, A>>,
            given: Seq<OpReply<K, Q>>,
            room: int,
            fed: FormatConverter<C, A>,
            n: nat,
            ticked: Sink<C, A>,
            dropped: int,
        |
            #![trigger meets_all(mixers, ops@, given), tops_up(
                old(owner).sink,
                room,
                mixers[ops@.len() as int],
                old(owner).logical_block as int,
                fed,
                n,
                ticked,
                final(owner).mixer,
                dropped,
            )]
            meets_all(mixers, ops@, given) && mixers[0] == old(owner).mixer && replies.slots@
                == slots_among(given) && replies.snapshots@ == snapshots_among(given) && tops_up(
                old(owner).sink,
                room,
                mixers[ops@.len() as int],
                old(owner).logical_block as int,
                fed,
                n,
                ticked,
                final(owner).mixer,
                dropped,
            ) && as_it_was(ticked, final(owner).sink) && (dropped > 0 ==> stats.overruns_counted(
                dropped as usize,
            )),
        ring::ring_room(final(owner).sink.producer) <= usize::MAX ==> sleeps_until(
            8 * final(owner).sink.device_block,
            ring::ring_room(final(owner).sink.producer) as int,
            final(owner).sink.device_block as int,
            final(owner).sink.device_format.channel_count as int,
            final(owner).sink.device_format.sample_rate as int,
            final(owner).sleep_nanos as int,
        ),
{
    let (mixer, ticked, room, dropped) = choose|
        mixer: Mixer<D, T, R, M, FD, A>,
        ticked: Sink<C, A>,
        room: int,
        dropped: int,
    |
        owner::ops_applied(
            old(owner).mixer,
            ops@,
            mixer,
            replies.slots@,
            replies.snapshots@,
        ) && #[trigger] old(owner).sink.ticks(
            room,
            mixer,
            old(owner).logical_block as int,
            ticked,
            final(owner).mixer,
            dropped,
        ) && output::looked(ticked, final(owner).sink) && output::loss_is_counted(stats, dropped);
    let (mixers, given) = applying_meets_all(
        old(owner).mixer,
        ops@,
        mixer,
        replies.slots@,
        replies.snapshots@,
    );
    let (fed, n) = round_tops_up(
        old(owner).sink,
        room,
        mixer,
        old(owner).logical_block as int,
        ticked,
        final(owner).mixer,
        dropped,
    );
    assert(meets_all(mixers, ops@, given));
    assert(tops_up(
        old(owner).sink,
        room,
        mixers[ops@.len() as int],
        old(owner).logical_block as int,
        fed,
        n,
        ticked,
        final(owner).mixer,
        dropped,
    ));
    if ring::ring_room(final(owner).sink.producer) <= usize::MAX {
        sleeping_sleeps_until(
            (final(owner).sink.device_block * output::RING_CAPACITY_BLOCKS) as usize,
            ring::ring_room(final(owner).sink.producer) as usize,
            final(owner).sink.device_block,
            final(owner).sink.device_format.channel_count as usize,
            final(owner).sink.device_format.sample_rate,
            final(owner).sleep_nanos,
        );
    }
}

/// An output that takes over is filled from the mix first, and the one that was in use is handed
/// back.
pub proof fn output_is_filled_before_it_takes_over<D, T, R, M, FD, A, C>(
    owner: &mut OutputOwner<D, T, R, M, FD, A, C>,
    sink: Sink<C, A>,
    stats: OutputStats,
    result: (Sink<C, A>, bool),
) where
    D: AudioDecoder,
    T: ChunkTransform,
    T::OutputT: MaybeChunk,
    R: Resampler,
    M: ChunkTransform,
    M::OutputT: MaybeChunk,
    FD: FnMut(&AudioFormat) -> Option<D>,
    A: Arithmetic,
    C: Resampler,

    requires
        sink.wf(),
        call_ensures(
            OutputOwner::<D, T, R, M, FD, A, C>::adopt,
            (owner, sink, &stats),
            result,
        ),
    ensures
        result.0 == old(owner).sink,
        final(owner).logical_block == old(owner).logical_block,
        final(owner).sleep_nanos == old(owner).sleep_nanos,
        result.1 && sink.device_block > 0 ==> sink.device_block * 7 >= ring::ring_room(
            final(owner).sink.producer,
        ),
        exists|rounds: nat| #[trigger]
            filled_up(
                sink,
                old(owner).mixer,
                old(owner).logical_block as int,
                rounds,
                final(owner).sink,
                final(owner).mixer,
            ) && rounds <= 1024 && (result.1 <==> rounds < 1024),
{
    let rounds = choose|rounds: nat| #[trigger]
        output::prefilled(
            sink,
            old(owner).mixer,
            old(owner).logical_block as int,
            rounds,
            final(owner).sink,
            final(owner).mixer,
            stats,
        ) && rounds <= output::MAX_PREFILL_TICKS && result.1 == (rounds
            < output::MAX_PREFILL_TICKS);
    prefilling_fills_up(
        sink,
        old(owner).mixer,
        old(owner).logical_block as int,
        rounds,
        final(owner).sink,
        final(owner).mixer,
        stats,
    );
}

/// An owner starts with the output it is given and a mixer without peers, in the pipeline's format
/// and blocks.
pub proof fn owner_starts_with_nobody<D, T, R, M, FD, A, C>(
    audio_config: AudioPipelineConfig,
    bus: M,
    initial: Sink<C, A>,
    owner: OutputOwner<D, T, R, M, FD, A, C>,
    mixer: Mixer<D, T, R, M, FD, A>,
    logical_block: usize,
    made: OutputOwner<D, T, R, M, FD, A, C>,
) where
    D: AudioDecoder,
    T: ChunkTransform,
    T::OutputT: MaybeChunk,
    R: Resampler,
    M: ChunkTransform,
    M::OutputT: MaybeChunk,
    FD: FnMut(&AudioFormat) -> Option<D>,
    A: Arithmetic,
    C: Resampler,

    requires
        call_ensures(
            OutputOwner::<D, T, R, M, FD, A, C>::start,
            (audio_config, bus, initial),
            owner,
        ),
        call_ensures(
            OutputOwner::<D, T, R, M, FD, A, C>::new,
            (mixer, initial, logical_block),
            made,
        ),
    ensures
        owner.sink == initial && made.sink == initial,
        owner.mixer.slots@.len() == 0 && owner.mixer.pending@.len() == 0,
        owner.mixer.bus == bus,
        owner.mixer.out_format.channel_count == audio_config.spec_channels(),
        owner.mixer.out_format.sample_rate == audio_config.spec_sample_rate(),
        owner.mixer.out_frames == audio_config.spec_frames(),
        owner.mixer.jitter_chunks == audio_config.spec_jitter_chunks(),
        owner.logical_block == audio_config.spec_channels() * audio_config.spec_frames(),
        owner.sleep_nanos == 0 && made.sleep_nanos == 0,
        made.mixer == mixer && made.logical_block == logical_block,
{
}

} // verus!
