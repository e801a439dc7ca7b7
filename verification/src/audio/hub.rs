//! From a source of chunks to frames for all peers.
use crate::audio::chunk::AudioChunk;
use crate::audio::codec::{AudioEncoder, ChunkEncoder, EncodedChunk};
use crate::audio::config::AudioPipelineConfig;
use crate::audio::denoiser::{Denoise, DenoiseControl, Denoiser};
use crate::audio::detect::{Hysteresis, PassthroughGate, RmsDetector, SilenceGate};
use crate::audio::float::{self, Arithmetic};
use crate::audio::params::{MAX_VOLUME, SAMPLE_RATE};
use crate::audio::sample::ResamplerSpec;
use crate::audio::transform::{
    share, ChannelMap, ChunkTransform, Gain, GainControl, Link, MetricsReader, MetricsState, Mute,
    MuteControl,
};
use crate::audio::AudioFormat;
use crate::user_input_event::DenoiseSelection;
use std::sync::Arc;
use vstd::prelude::*;

verus! {

/// The bits of 0.0075: what stays below is quiet.
pub const QUIET_RMS_THRESHOLD: u32 = 0x3bf5_c28f;

/// How many quiet chunks are still processed after the last one that was not.
pub const QUIET_HANGOVER_CHUNKS: usize = 30;

/// Lets chunks go at a steady pace. Times are in nanoseconds on one clock.
pub struct Pacer {
    pub period: u64,
    pub next_deadline: Option<u64>,
}

impl Pacer {
    pub fn new(period: u64) -> (pacer: Self)
        ensures
            pacer.period == period,
            pacer.next_deadline is None,
    {
        Pacer { period, next_deadline: None }
    }

    /// When a chunk that is there at `now` may go: at once, or at the deadline.
    pub open spec fn release(&self, now: u64) -> u64 {
        match self.next_deadline {
            Some(deadline) if now < deadline => deadline,
            _ => now,
        }
    }

    /// When to go on, if not at once. The next chunk may go one period later.
    pub fn pace(&mut self, now: u64) -> (sleep_until: Option<u64>)
        requires
            old(self).release(now) + old(self).period <= u64::MAX,
        ensures
            sleep_until == (if old(self).release(now) > now {
                Some(old(self).release(now))
            } else {
                None
            }),
            final(self).period == old(self).period,
            final(self).next_deadline == Some((old(self).release(now) + old(self).period) as u64),
    {
        match self.next_deadline {
            Some(deadline) if now < deadline => {
                self.next_deadline = Some(deadline + self.period);
                Some(deadline)
            },
            _ => {
                self.next_deadline = Some(now + self.period);
                None
            },
        }
    }
}

/// Two chunks never go less than a period apart, and one that is there in time goes exactly one
/// period after the last.
pub proof fn releases_are_spaced(pacer: Pacer, now: u64, after: Pacer, then: u64)
    requires
        pacer.release(now) + pacer.period <= u64::MAX,
        after.period == pacer.period,
        after.next_deadline == Some((pacer.release(now) + pacer.period) as u64),
    ensures
        after.release(then) >= pacer.release(now) + pacer.period,
        then <= pacer.release(now) + pacer.period ==> after.release(then) == pacer.release(now)
            + pacer.period,
{
}

/// What a chunk from the input goes through: it can be silenced, keeps no more channels than the
/// pipeline has, and is encoded.
pub type InputChain<E, F, A> = Link<Link<Mute, ChannelMap<A>>, ChunkEncoder<E, F>>;

/// The chain of the input, and the switch that silences it.
pub fn input_chain<E: AudioEncoder, F: FnMut(&AudioFormat) -> Option<E>, A: Arithmetic>(
    audio_config: AudioPipelineConfig,
    rebuild: F,
) -> (pair: (InputChain<E, F, A>, Arc<MuteControl>))
    ensures
        pair.0.first.first.control == pair.1,
        pair.1.made_at(false),
        pair.0.first.second.dst_channels == audio_config.spec_channels(),
        pair.0.first.second.cap_channels,
        pair.0.second.encoder_cache.codec is None,
        pair.0.second.encoder_cache.format is None,
        pair.0.second.encoder_cache.rebuild == rebuild,
        pair.0.second.frames == audio_config.spec_frames(),
{
    let (mute, mute_control) = Mute::shared(false);
    let map: ChannelMap<A> = ChannelMap::capped(audio_config.channels());
    let encoder: ChunkEncoder<E, F> = ChunkEncoder::new(rebuild, audio_config.frames());
    (mute.chain(map).chain(encoder), mute_control)
}

/// The chain of an input whose quiet chunks are not sent.
pub type QuietInputChain<E, F, A> = Link<
    Link<Mute, ChannelMap<A>>,
    SilenceGate<ChunkEncoder<E, F>, EncodedChunk, Hysteresis<RmsDetector<A>>>,
>;

/// As `input_chain`, but a quiet chunk is dropped once the hangover is over.
pub fn quiet_input_chain<E: AudioEncoder, F: FnMut(&AudioFormat) -> Option<E>, A: Arithmetic>(
    audio_config: AudioPipelineConfig,
    rebuild: F,
) -> (pair: (QuietInputChain<E, F, A>, Arc<MuteControl>))
    ensures
        pair.0.first.first.control == pair.1,
        pair.1.made_at(false),
        pair.0.first.second.dst_channels == audio_config.spec_channels(),
        pair.0.first.second.cap_channels,
        pair.0.second.inner.encoder_cache.codec is None,
        pair.0.second.inner.encoder_cache.format is None,
        pair.0.second.inner.encoder_cache.rebuild == rebuild,
        pair.0.second.inner.frames == audio_config.spec_frames(),
        pair.0.second.detector.inner.threshold == QUIET_RMS_THRESHOLD,
        pair.0.second.detector.chunks == QUIET_HANGOVER_CHUNKS,
        pair.0.second.detector.left == 0,
{
    let (mute, mute_control) = Mute::shared(false);
    let map: ChannelMap<A> = ChannelMap::capped(audio_config.channels());
    let encoder: ChunkEncoder<E, F> = ChunkEncoder::new(rebuild, audio_config.frames());
    let detector: Hysteresis<RmsDetector<A>> = Hysteresis::new(
        RmsDetector::new(QUIET_RMS_THRESHOLD),
        QUIET_HANGOVER_CHUNKS,
    );
    (mute.chain(map).chain(SilenceGate::new(encoder, detector)), mute_control)
}

/// What a peer's audio is controlled by.
pub struct PeerControls {
    pub gain: Arc<GainControl>,
    pub denoise: Arc<DenoiseControl>,
    pub loudness: Arc<MetricsState>,
}

impl PeerControls {
    pub fn new(volume: usize, denoise: DenoiseSelection) -> (controls: Self)
        ensures
            controls.gain.max_volume() == MAX_VOLUME,
            controls.gain.made_at(GainControl::bounded(volume, MAX_VOLUME)),
            controls.denoise.made_at(denoise),
            controls.loudness.made_at(0),
    {
        PeerControls {
            gain: Arc::new(GainControl::new(volume, MAX_VOLUME)),
            denoise: Arc::new(DenoiseControl::new(denoise)),
            loudness: Arc::new(MetricsState::default()),
        }
    }
}

/// What a peer's chunk goes through: it is denoised, scaled and metered.
pub type PeerChain<D, A> = Link<Denoise<D>, Link<Gain<A>, MetricsReader<A>>>;

/// The chain that a peer's controls steer.
pub fn chain_from_controls<D: Denoiser, A: Arithmetic>(controls: &PeerControls) -> (chain:
    PeerChain<D, A>)
    ensures
        chain.first.control == controls.denoise,
        chain.first.inner.wf(),
        chain.first.inner.denoisers() == Seq::<D>::empty(),
        chain.second.first.control == controls.gain,
        chain.second.second.state == controls.loudness,
{
    let denoise: Denoise<D> = Denoise::new(share(&controls.denoise));
    let gain: Gain<A> = Gain::new(share(&controls.gain));
    let meter: MetricsReader<A> = MetricsReader::new(share(&controls.loudness));
    denoise.chain(gain.chain(meter))
}

/// The chain of a peer whose quiet chunks are not denoised.
pub type GatedPeerChain<D, A> = Link<
    PassthroughGate<Denoise<D>, Hysteresis<RmsDetector<A>>>,
    Link<Gain<A>, MetricsReader<A>>,
>;

/// As `chain_from_controls`, but a quiet chunk passes undenoised once the hangover is over.
pub fn gated_chain_from_controls<D: Denoiser, A: Arithmetic>(controls: &PeerControls) -> (chain:
    GatedPeerChain<D, A>)
    ensures
        chain.first.inner.control == controls.denoise,
        chain.first.inner.inner.wf(),
        chain.first.inner.inner.denoisers() == Seq::<D>::empty(),
        chain.first.detector.inner.threshold == QUIET_RMS_THRESHOLD,
        chain.first.detector.chunks == QUIET_HANGOVER_CHUNKS,
        chain.first.detector.left == 0,
        chain.second.first.control == controls.gain,
        chain.second.second.state == controls.loudness,
{
    let denoise: Denoise<D> = Denoise::new(share(&controls.denoise));
    let detector: Hysteresis<RmsDetector<A>> = Hysteresis::new(
        RmsDetector::new(QUIET_RMS_THRESHOLD),
        QUIET_HANGOVER_CHUNKS,
    );
    let gain: Gain<A> = Gain::new(share(&controls.gain));
    let meter: MetricsReader<A> = MetricsReader::new(share(&controls.loudness));
    PassthroughGate::new(denoise, detector).chain(gain.chain(meter))
}

/// A muted chunk keeps its number and length: what is sent is silence, not nothing.
pub proof fn muted_chunks_are_silence(
    mute: Mute,
    chunk: AudioChunk,
    after: Mute,
    out: AudioChunk,
)
    requires
        Mute::transforms(mute, chunk, after, out),
    ensures
        after == mute,
        out.sequence_number == chunk.sequence_number,
        out.format == chunk.format,
        out.audio_data@.len() == chunk.audio_data@.len(),
        out.audio_data@ == chunk.audio_data@ || forall|i: int|
            0 <= i < out.audio_data@.len() ==> #[trigger] out.audio_data@[i] == float::ZERO,
{
}

/// The resampler between the pipeline's rate and that of an output.
pub fn output_resampler<R: From<ResamplerSpec>>(out: AudioFormat, block_frames: usize) -> (
    resampler: R)
    ensures
        call_ensures(
            <R as From<ResamplerSpec>>::from,
            ((ResamplerSpec {
                source_rate: SAMPLE_RATE,
                source_channels: out.channel_count as usize,
                target_rate: out.sample_rate,
                block_frames,
            }),),
            resampler,
        ),
{
    R::from(
        ResamplerSpec {
            source_rate: SAMPLE_RATE,
            source_channels: out.channel_count as usize,
            target_rate: out.sample_rate,
            block_frames,
        },
    )
}

} // verus!
