//! The one owner of the mixer and the output that it feeds.
use crate::audio::codec::{AudioDecoder, EncodedChunk};
use crate::audio::config::AudioPipelineConfig;
use crate::audio::converter::FormatConverter;
use crate::audio::float::Arithmetic;
use crate::audio::mixer::{self, Mixer, MixerInput, MixerMetrics};
use crate::audio::output::{self, demand_sleep_nanos, Sink};
use crate::audio::ring::{self, ring_slots};
use crate::audio::sample::{self, Resampler, SyncSampleSource};
use crate::audio::stats::OutputStats;
use crate::audio::transform::{ChunkTransform, MaybeChunk};
use crate::audio::AudioFormat;
use std::collections::VecDeque;
use vstd::prelude::*;

verus! {

/// How many requests are taken at once.
pub const MIXER_OPS_BOUND: usize = 64;

/// A number that no peer is ever given before all others are used up.
pub const NO_SLOT: u32 = u32::MAX;

/// What the owner of the mixer can be asked for. `K` and `Q` say where replies go.
pub enum MixerOp<T, R, FD, K, Q> {
    Push { slot: u32, chunk: EncodedChunk },
    Subscribe { transform: T, rebuild: FD, resampler: R, reply: K },
    Unsubscribe(u32),
    Snapshot(Q),
}

/// What the owner replies to one request.
pub enum OpReply<K, Q> {
    Nothing,
    Slot(K, u32),
    Snapshot(Q, MixerMetrics, usize),
}

/// What comes up while the owner waits.
pub enum OwnerEvent<S> {
    /// So many requests. None at all means that there will be no more.
    Ops(usize),
    /// Another output is to take over.
    Switch(S),
    /// No other output will ever take over.
    SwitchClosed,
    /// It is time to look at the output.
    Slept,
}

/// What the owner does about it.
pub enum OwnerStep<S> {
    /// End for good.
    Stop,
    /// Let an output take over, then go on with a round.
    Adopt(S),
    /// Go on with a round.
    GoOn,
}

/// Decides what the owner does about what has come up. `switch_open` tells whether another output
/// may still take over.
pub fn owner_step<S>(switch_open: &mut bool, event: OwnerEvent<S>) -> (step: OwnerStep<S>)
    ensures
        *final(switch_open) == (*old(switch_open) && event !is SwitchClosed),
        step == match event {
            OwnerEvent::Ops(count) => if count == 0 {
                OwnerStep::Stop
            } else {
                OwnerStep::GoOn
            },
            OwnerEvent::Switch(output) => OwnerStep::Adopt(output),
            OwnerEvent::SwitchClosed | OwnerEvent::Slept => OwnerStep::GoOn,
        },
{
    match event {
        OwnerEvent::Ops(count) => if count == 0 {
            OwnerStep::Stop
        } else {
            OwnerStep::GoOn
        },
        OwnerEvent::Switch(output) => OwnerStep::Adopt(output),
        OwnerEvent::SwitchClosed => {
            *switch_open = false;
            OwnerStep::GoOn
        },
        OwnerEvent::Slept => OwnerStep::GoOn,
    }
}

/// Whether a request can be met.
pub open spec fn op_ready<D, T, R, M, FD, A, K, Q>(
    mixer: Mixer<D, T, R, M, FD, A>,
    op: MixerOp<T, R, FD, K, Q>,
) -> bool where
    D: AudioDecoder,
    T: ChunkTransform,
    T::OutputT: MaybeChunk,
    R: Resampler,
    M: ChunkTransform,
    M::OutputT: MaybeChunk,
    FD: FnMut(&AudioFormat) -> Option<D>,
    A: Arithmetic,
 {
    match op {
        MixerOp::Push { slot, chunk } => forall|i: int|
            0 <= i < mixer.slots@.len() && (#[trigger] mixer.slots@[i]).0 == slot
                ==> mixer.slots@[i].1.admits(chunk),
        MixerOp::Snapshot(_) => mixer.countable(),
        _ => true,
    }
}

/// `post` and `reply` are what a request may bring about.
pub open spec fn op_applies<D, T, R, M, FD, A, K, Q>(
    pre: Mixer<D, T, R, M, FD, A>,
    op: MixerOp<T, R, FD, K, Q>,
    post: Mixer<D, T, R, M, FD, A>,
    reply: OpReply<K, Q>,
) -> bool where
    D: AudioDecoder,
    T: ChunkTransform,
    T::OutputT: MaybeChunk,
    R: Resampler,
    M: ChunkTransform,
    M::OutputT: MaybeChunk,
    FD: FnMut(&AudioFormat) -> Option<D>,
    A: Arithmetic,
 {
    &&& post.wf()
    &&& match op {
        MixerOp::Push { slot, chunk } => pre.pushes(slot, chunk, post) && reply
            == OpReply::<K, Q>::Nothing,
        MixerOp::Subscribe { transform, rebuild, resampler, reply: to } => {
            &&& reply == OpReply::<K, Q>::Slot(to, pre.next_id)
            &&& pre.subscribes(transform, rebuild, resampler, pre.next_id, post)
        },
        MixerOp::Unsubscribe(slot) => pre.unsubscribes(slot, post) && reply
            == OpReply::<K, Q>::Nothing,
        MixerOp::Snapshot(to) => {
            &&& post == pre
            &&& reply matches OpReply::Snapshot(whom, metrics, peers)
            &&& whom == to
            &&& pre.counted(metrics)
            &&& peers == pre.slots@.len()
        },
    }
}

/// Whether requests can be met one after the other, whatever each brings about.
pub open spec fn ops_ready<D, T, R, M, FD, A, K, Q>(
    mixer: Mixer<D, T, R, M, FD, A>,
    ops: Seq<MixerOp<T, R, FD, K, Q>>,
) -> bool where
    D: AudioDecoder,
    T: ChunkTransform,
    T::OutputT: MaybeChunk,
    R: Resampler,
    M: ChunkTransform,
    M::OutputT: MaybeChunk,
    FD: FnMut(&AudioFormat) -> Option<D>,
    A: Arithmetic,

    decreases ops.len(),
{
    ops.len() > 0 ==> op_ready(mixer, ops[0]) && forall|
        post: Mixer<D, T, R, M, FD, A>,
        reply: OpReply<K, Q>,
    | #[trigger]
        op_applies(mixer, ops[0], post, reply) ==> ops_ready(post, ops.skip(1))
}

/// What is replied to a run of requests: the numbers of new peers, and the counts.
pub struct Replies<K, Q> {
    pub slots: Vec<(K, u32)>,
    pub snapshots: Vec<(Q, (MixerMetrics, usize))>,
}

/// The replies once one more has come.
pub open spec fn replied<K, Q>(
    slots: Seq<(K, u32)>,
    snapshots: Seq<(Q, (MixerMetrics, usize))>,
    reply: OpReply<K, Q>,
) -> (Seq<(K, u32)>, Seq<(Q, (MixerMetrics, usize))>) {
    match reply {
        OpReply::Nothing => (slots, snapshots),
        OpReply::Slot(to, id) => (slots.push((to, id)), snapshots),
        OpReply::Snapshot(to, metrics, peers) => (slots, snapshots.push((to, (metrics, peers)))),
    }
}

/// `post` and the replies are what a run of requests may bring about.
pub open spec fn ops_applied<D, T, R, M, FD, A, K, Q>(
    pre: Mixer<D, T, R, M, FD, A>,
    ops: Seq<MixerOp<T, R, FD, K, Q>>,
    post: Mixer<D, T, R, M, FD, A>,
    slots: Seq<(K, u32)>,
    snapshots: Seq<(Q, (MixerMetrics, usize))>,
) -> bool where
    D: AudioDecoder,
    T: ChunkTransform,
    T::OutputT: MaybeChunk,
    R: Resampler,
    M: ChunkTransform,
    M::OutputT: MaybeChunk,
    FD: FnMut(&AudioFormat) -> Option<D>,
    A: Arithmetic,

    decreases ops.len(),
{
    if ops.len() == 0 {
        post == pre && slots.len() == 0 && snapshots.len() == 0
    } else {
        exists|
            mid: Mixer<D, T, R, M, FD, A>,
            reply: OpReply<K, Q>,
            slots_before: Seq<(K, u32)>,
            snapshots_before: Seq<(Q, (MixerMetrics, usize))>,
        |
            ops_applied(pre, ops.drop_last(), mid, slots_before, snapshots_before)
                && #[trigger] op_applies(mid, ops.last(), post, reply) && (slots, snapshots)
                == #[trigger] replied(slots_before, snapshots_before, reply)
    }
}

/// Meets one request.
pub fn apply_op<D, T, R, M, FD, A, K, Q>(
    mixer: &mut Mixer<D, T, R, M, FD, A>,
    op: MixerOp<T, R, FD, K, Q>,
) -> (reply: OpReply<K, Q>) where
    D: AudioDecoder,
    T: ChunkTransform,
    T::OutputT: MaybeChunk,
    R: Resampler,
    M: ChunkTransform,
    M::OutputT: MaybeChunk,
    FD: FnMut(&AudioFormat) -> Option<D>,
    A: Arithmetic,

    requires
        old(mixer).wf(),
        op_ready(*old(mixer), op),
    ensures
        op_applies(*old(mixer), op, *final(mixer), reply),
{
    match op {
        MixerOp::Push { slot, chunk } => {
            mixer.push_to_slot(slot, chunk);
            OpReply::Nothing
        },
        MixerOp::Subscribe { transform, rebuild, resampler, reply } => {
            let slot: u32 = mixer.subscribe(transform, rebuild, resampler);
            OpReply::Slot(reply, slot)
        },
        MixerOp::Unsubscribe(slot) => {
            mixer.unsubscribe(slot);
            OpReply::Nothing
        },
        MixerOp::Snapshot(reply) => {
            let metrics: MixerMetrics = mixer.metrics_snapshot();
            OpReply::Snapshot(reply, metrics, mixer.peer_count())
        },
    }
}

/// Meets a run of requests, in order.
pub fn apply_ops<D, T, R, M, FD, A, K, Q>(
    mixer: &mut Mixer<D, T, R, M, FD, A>,
    ops: VecDeque<MixerOp<T, R, FD, K, Q>>,
) -> (replies: Replies<K, Q>) where
    D: AudioDecoder,
    T: ChunkTransform,
    T::OutputT: MaybeChunk,
    R: Resampler,
    M: ChunkTransform,
    M::OutputT: MaybeChunk,
    FD: FnMut(&AudioFormat) -> Option<D>,
    A: Arithmetic,

    requires
        old(mixer).wf(),
        ops_ready(*old(mixer), ops@),
    ensures
        final(mixer).wf(),
        ops_applied(
            *old(mixer),
            ops@,
            *final(mixer),
            replies.slots@,
            replies.snapshots@,
        ),
{
    let ghost all = ops@;
    let mut ops: VecDeque<MixerOp<T, R, FD, K, Q>> = ops;
    let mut replies: Replies<K, Q> = Replies { slots: Vec::new(), snapshots: Vec::new() };
    let ghost mut done: int = 0;
    proof {
        assert(all.skip(0) =~= all);
        assert(all.take(0).len() == 0);
    }
    while ops.len() > 0
        invariant
            0 <= done <= all.len(),
            ops@ =~= all.skip(done),
            mixer.wf(),
            ops_ready(*mixer, ops@),
            ops_applied(
                *old(mixer),
                all.take(done),
                *mixer,
                replies.slots@,
                replies.snapshots@,
            ),
        decreases ops@.len(),
    {
        let ghost mid = *mixer;
        let ghost waiting = ops@;
        let ghost slots_before = replies.slots@;
        let ghost snapshots_before = replies.snapshots@;
        if let Some(op) = ops.pop_front() {
            let ghost asked = op;
            let reply: OpReply<K, Q> = apply_op(mixer, op);
            let ghost given = reply;
            proof {
                assert(op_applies(mid, waiting[0], *mixer, given));
                assert(ops@ =~= waiting.skip(1));
                let upto = all.take(done + 1);
                assert(upto.drop_last() =~= all.take(done));
                assert(upto.last() == asked);
                assert(op_applies(mid, upto.last(), *mixer, given));
            }
            match reply {
                OpReply::Nothing => {},
                OpReply::Slot(to, id) => {
                    replies.slots.push((to, id));
                },
                OpReply::Snapshot(to, metrics, peers) => {
                    replies.snapshots.push((to, (metrics, peers)));
                },
            }
            proof {
                assert((replies.slots@, replies.snapshots@) == replied(
                    slots_before,
                    snapshots_before,
                    given,
                ));
                done = done + 1;
            }
        }
    }
    proof {
        assert(all.take(done) =~= all);
    }
    replies
}

/// The mixer, the output that it feeds, and when to look at them again.
#[verifier::reject_recursive_types(D)]
#[verifier::reject_recursive_types(FD)]
pub struct OutputOwner<D, T, R, M, FD, A, C> where
    D: AudioDecoder,
    T: ChunkTransform,
    R: Resampler,
    M: ChunkTransform,
    FD: FnMut(&AudioFormat) -> Option<D>,
    A: Arithmetic,
    C: Resampler,
 {
    pub mixer: Mixer<D, T, R, M, FD, A>,
    pub sink: Sink<C, A>,
    pub logical_block: usize,
    pub sleep_nanos: u64,
}

/// A mixer stays well formed when an output is topped up from it.
proof fn tick_keeps_mixer_wf<D, T, R, M, FD, A, C>(
    sink: Sink<C, A>,
    room: int,
    mixer: Mixer<D, T, R, M, FD, A>,
    logical_block: int,
    post: Sink<C, A>,
    left: Mixer<D, T, R, M, FD, A>,
    dropped: int,
) where
    D: AudioDecoder,
    T: ChunkTransform,
    T::OutputT: MaybeChunk,
    R: Resampler,
    M: ChunkTransform,
    M::OutputT: MaybeChunk,
    FD: FnMut(&AudioFormat) -> Option<D>,
    A: Arithmetic,
    C: Resampler,

    requires
        mixer.wf(),
        sink.ticks(room, mixer, logical_block, post, left, dropped),
    ensures
        left.wf(),
{
    let (fed, start, n, last) = choose|
        fed: FormatConverter<C, A>,
        start: Sink<C, A>,
        n: nat,
        last: Sink<C, A>,
    | #[trigger]
        output::topped_up(sink, room, mixer, logical_block, fed, left, dropped)
            && output::stocked(sink, room, fed, start) && #[trigger] output::moves(start, n, last)
            && output::moved_enough(last, n, post);
    if sink.needs(room) && sink.converter.pending@.len() < sink.device_block {
        let samples = choose|samples: Seq<Option<u32>>| #[trigger]
            sample::drawn(mixer, samples, left) && samples.len() == logical_block
                && output::feeds(sink.converter, sample::audible(samples), fed, dropped);
        if samples.len() > 0 {
            let mid = choose|mid: Mixer<D, T, R, M, FD, A>|
                sample::drawn(mixer, samples.drop_last(), mid) && #[trigger] Mixer::yields(
                    mid,
                    samples.last(),
                    left,
                );
            assert(Mixer::yields(mid, samples.last(), left));
        }
    }
}

/// A mixer stays well formed when a new output is filled from it.
proof fn prefill_keeps_mixer_wf<D, T, R, M, FD, A, C>(
    sink: Sink<C, A>,
    mixer: Mixer<D, T, R, M, FD, A>,
    logical_block: int,
    rounds: nat,
    post: Sink<C, A>,
    left: Mixer<D, T, R, M, FD, A>,
    stats: OutputStats,
) where
    D: AudioDecoder,
    T: ChunkTransform,
    T::OutputT: MaybeChunk,
    R: Resampler,
    M: ChunkTransform,
    M::OutputT: MaybeChunk,
    FD: FnMut(&AudioFormat) -> Option<D>,
    A: Arithmetic,
    C: Resampler,

    requires
        mixer.wf(),
        output::prefilled(sink, mixer, logical_block, rounds, post, left, stats),
    ensures
        left.wf(),
    decreases rounds,
{
    if rounds > 0 {
        let (mid, mid_mixer, ticked, room, dropped) = choose|
            mid: Sink<C, A>,
            mid_mixer: Mixer<D, T, R, M, FD, A>,
            ticked: Sink<C, A>,
            room: int,
            dropped: int,
        |
            output::prefilled(
                sink,
                mixer,
                logical_block,
                (rounds - 1) as nat,
                mid,
                mid_mixer,
                stats,
            ) && mid.occupied(ring::ring_room(mid.producer) as int) < mid.device_block
                && #[trigger] mid.ticks(room, mid_mixer, logical_block, ticked, left, dropped)
                && output::looked(ticked, post) && output::loss_is_counted(stats, dropped);
        prefill_keeps_mixer_wf(
            sink,
            mixer,
            logical_block,
            (rounds - 1) as nat,
            mid,
            mid_mixer,
            stats,
        );
        tick_keeps_mixer_wf(mid, room, mid_mixer, logical_block, ticked, left, dropped);
    }
}

impl<D, T, R, M, FD, A, C> OutputOwner<D, T, R, M, FD, A, C> where
    D: AudioDecoder,
    T: ChunkTransform,
    T::OutputT: MaybeChunk,
    R: Resampler,
    M: ChunkTransform,
    M::OutputT: MaybeChunk,
    FD: FnMut(&AudioFormat) -> Option<D>,
    A: Arithmetic,
    C: Resampler,
 {
    pub open spec fn wf(&self) -> bool {
        self.mixer.wf() && self.sink.wf()
    }

    /// Whether a block of the mix fits any converter between the formats of a sink.
    pub open spec fn block_fits(&self, sink: Sink<C, A>) -> bool {
        forall|
            converter: FormatConverter<C, A>,
            samples: Seq<u32>,
        |
            converter.from == sink.converter.from && converter.to == sink.converter.to
                && samples.len() == self.logical_block ==> #[trigger] converter.fits(samples)
    }

    pub fn new(mixer: Mixer<D, T, R, M, FD, A>, sink: Sink<C, A>, logical_block: usize) -> (owner:
        Self)
        ensures
            owner.mixer == mixer,
            owner.sink == sink,
            owner.logical_block == logical_block,
            owner.sleep_nanos == 0,
    {
        OutputOwner { mixer, sink, logical_block, sleep_nanos: 0 }
    }

    /// The owner of a new mixer in the pipeline's format, with `bus` behind it, and of the output
    /// that is used first.
    pub fn start(audio_config: AudioPipelineConfig, bus: M, initial: Sink<C, A>) -> (owner: Self)
        requires
            audio_config.wf(),
            audio_config.spec_channels() * audio_config.spec_frames() <= usize::MAX,
            initial.wf(),
        ensures
            owner.wf(),
            owner.sink == initial,
            owner.logical_block == audio_config.spec_channels() * audio_config.spec_frames(),
            owner.logical_block > 0,
            owner.sleep_nanos == 0,
            owner.mixer.slots@.len() == 0,
            owner.mixer.bus == bus,
            owner.mixer.pending@ == Seq::<u32>::empty(),
            owner.mixer.out_format == (AudioFormat {
                channel_count: audio_config.spec_channels(),
                sample_rate: audio_config.spec_sample_rate(),
            }),
            owner.mixer.out_frames == audio_config.spec_frames(),
            owner.mixer.jitter_chunks == audio_config.spec_jitter_chunks(),
            owner.mixer.fills == 0,
    {
        proof {
            assert(audio_config.spec_frames() * audio_config.spec_channels()
                == audio_config.spec_channels() * audio_config.spec_frames()) by (nonlinear_arith);
        }
        let mixer: Mixer<D, T, R, M, FD, A> = Mixer::new(
            audio_config.audio_format(),
            audio_config.jitter_chunks(),
            audio_config.frames(),
            bus,
        );
        OutputOwner::new(mixer, initial, audio_config.block_samples())
    }

    /// Meets requests, tops the output up, and sets when to look again. The caller sends the
    /// replies.
    pub fn round<K, Q>(
        &mut self,
        ops: VecDeque<MixerOp<T, R, FD, K, Q>>,
        stats: &OutputStats,
    ) -> (replies: Replies<K, Q>)
        requires
            old(self).wf(),
            ops_ready(old(self).mixer, ops@),
            old(self).block_fits(old(self).sink),
            forall|
                mixer: Mixer<D, T, R, M, FD, A>,
                slots: Seq<(K, u32)>,
                snapshots: Seq<(Q, (MixerMetrics, usize))>,
            | #[trigger]
                ops_applied(old(self).mixer, ops@, mixer, slots, snapshots) ==> sample::lasts(
                    mixer,
                    old(self).logical_block as nat,
                ),
        ensures
            final(self).wf(),
            final(self).logical_block == old(self).logical_block,
            final(self).block_fits(final(self).sink),
            exists|
                mixer: Mixer<D, T, R, M, FD, A>,
                ticked: Sink<C, A>,
                room: int,
                dropped: int,
            |
                ops_applied(
                    old(self).mixer,
                    ops@,
                    mixer,
                    replies.slots@,
                    replies.snapshots@,
                ) && #[trigger] old(self).sink.ticks(
                    room,
                    mixer,
                    old(self).logical_block as int,
                    ticked,
                    final(self).mixer,
                    dropped,
                ) && output::looked(ticked, final(self).sink) && output::loss_is_counted(
                    *stats,
                    dropped,
                ),
            final(self).sleep_nanos == output::sleep_nanos(
                (final(self).sink.device_block * output::RING_CAPACITY_BLOCKS) as usize,
                ring::ring_room(final(self).sink.producer) as usize,
                final(self).sink.device_block,
                final(self).sink.device_format.channel_count as usize,
                final(self).sink.device_format.sample_rate,
            ),
    {
        let replies: Replies<K, Q> = apply_ops(&mut self.mixer, ops);
        let ghost mixer = self.mixer;
        proof {
            assert(ops_applied(
                old(self).mixer,
                ops@,
                mixer,
                replies.slots@,
                replies.snapshots@,
            ));
            assert forall|samples: Seq<u32>|
                samples.len() == self.logical_block implies #[trigger] self.sink.converter.fits(
                samples,
            ) by {}
        }
        self.sink.tick(&mut self.mixer, self.logical_block, stats);
        let ghost ticked = self.sink;
        let free: usize = ring_slots(&mut self.sink.producer);
        self.sleep_nanos = demand_sleep_nanos(
            self.sink.capacity_samples(),
            free,
            self.sink.device_block,
            self.sink.device_format.channel_count as usize,
            self.sink.device_format.sample_rate,
        );
        proof {
            let (room, dropped) = choose|room: int, dropped: int| #[trigger]
                old(self).sink.ticks(
                    room,
                    mixer,
                    old(self).logical_block as int,
                    ticked,
                    self.mixer,
                    dropped,
                ) && output::loss_is_counted(*stats, dropped);
            assert(old(self).sink.ticks(
                room,
                mixer,
                old(self).logical_block as int,
                ticked,
                self.mixer,
                dropped,
            ));
            tick_keeps_mixer_wf(
                old(self).sink,
                room,
                mixer,
                old(self).logical_block as int,
                ticked,
                self.mixer,
                dropped,
            );
            assert(output::looked(ticked, self.sink));
        }
        replies
    }

    /// Lets another output take over, filled before it is heard. The one that was in use is handed
    /// back, and with it whether the new one was filled before the rounds allowed for it ran out.
    pub fn adopt(&mut self, sink: Sink<C, A>, stats: &OutputStats) -> (result: (Sink<C, A>, bool))
        requires
            old(self).wf(),
            sink.wf(),
            old(self).block_fits(sink),
            sample::lasts(
                old(self).mixer,
                (output::MAX_PREFILL_TICKS * old(self).logical_block) as nat,
            ),
        ensures
            final(self).wf(),
            final(self).block_fits(final(self).sink),
            result.0 == old(self).sink,
            final(self).logical_block == old(self).logical_block,
            final(self).sleep_nanos == old(self).sleep_nanos,
            result.1 ==> final(self).sink.occupied(
                ring::ring_room(final(self).sink.producer) as int,
            ) >= sink.device_block,
            exists|rounds: nat| #[trigger]
                output::prefilled(
                    sink,
                    old(self).mixer,
                    old(self).logical_block as int,
                    rounds,
                    final(self).sink,
                    final(self).mixer,
                    *stats,
                ) && rounds <= output::MAX_PREFILL_TICKS && result.1 == (rounds
                    < output::MAX_PREFILL_TICKS),
    {
        let mut adopted: Sink<C, A> = sink;
        let converged: bool = adopted.prefill(&mut self.mixer, self.logical_block, stats);
        let ghost filled = adopted;
        let mut evicted: Sink<C, A> = adopted;
        std::mem::swap(&mut evicted, &mut self.sink);
        proof {
            let rounds = choose|rounds: nat| #[trigger]
                output::prefilled(
                    sink,
                    old(self).mixer,
                    old(self).logical_block as int,
                    rounds,
                    filled,
                    self.mixer,
                    *stats,
                ) && rounds <= output::MAX_PREFILL_TICKS && converged == (rounds
                    < output::MAX_PREFILL_TICKS);
            assert(self.sink == filled);
            assert(output::prefilled(
                sink,
                old(self).mixer,
                old(self).logical_block as int,
                rounds,
                self.sink,
                self.mixer,
                *stats,
            ));
            prefill_keeps_mixer_wf(
                sink,
                old(self).mixer,
                old(self).logical_block as int,
                rounds,
                self.sink,
                self.mixer,
                *stats,
            );
        }
        (evicted, converged)
    }
}

} // verus!
