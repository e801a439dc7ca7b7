//! Settings: what the pipeline runs with, and how its parts are put together.
use crate::audio::chunk::{AudioChunk, SampleChunker};
use crate::audio::codec::AudioEncoder;
use crate::audio::config::AudioPipelineConfig;
use crate::audio::denoiser::{Denoise, DenoiseControl, Denoiser};
use crate::audio::device::{unknown_device, AudioDevice};
use crate::audio::float::Arithmetic;
use crate::audio::hub::{
    chain_from_controls, gated_chain_from_controls, input_chain, quiet_input_chain, GatedPeerChain,
    InputChain, Pacer, PeerChain, PeerControls, QuietInputChain,
};
use crate::audio::mixer::MixerMetrics;
use crate::audio::report::{format_audio_interval, format_metrics_line, moved};
use crate::audio::sample::{into_chunks, SampleSource, Sampled};
use crate::audio::stream_config::{
    self, callback_buffer_size, find_stereo_input, find_stereo_output, get_input_config,
    get_output_config, output_format, sample_format_rank, BufferSize, SampleFormat, StreamConfig,
    SupportedBufferSize, SupportedStreamConfigRange,
};
use crate::audio::time::{self, mesh_timeout};
use crate::audio::transform::{
    ChunkTransform, Gain, GainControl, MaybeChunk, MetricsReader, MetricsState, Mute, MuteControl,
};
use crate::audio::AudioFormat;
use crate::text;
use crate::user_input_event::DenoiseSelection;
use std::sync::Arc;
use std::time::Duration;
use vstd::arithmetic::div_mod::{lemma_fundamental_div_mod, lemma_mod_bound};
use vstd::prelude::*;

verus! {

/// A period is the time of so many frames, in whole nanoseconds.
pub open spec fn lasts_nanos(frames: int, rate: int, nanos: int) -> bool {
    nanos * rate <= frames * 1_000_000_000 < (nanos + 1) * rate
}

/// A configuration holds exactly what it was made of.
pub open spec fn holds(
    config: AudioPipelineConfig,
    rate: u32,
    channels: u16,
    frames: usize,
    chunks: usize,
) -> bool {
    &&& config.spec_sample_rate() == rate
    &&& config.spec_channels() == channels
    &&& config.spec_frames() == frames
    &&& config.spec_jitter_chunks() == chunks
}

proof fn period_lasts(frames: int, rate: int, nanos: int)
    requires
        frames >= 0,
        rate > 0,
        nanos == frames * 1_000_000_000 / rate,
    ensures
        lasts_nanos(frames, rate, nanos),
        nanos >= 0,
        nanos == 0 <==> frames * 1_000_000_000 < rate,
{
    let total = frames * 1_000_000_000;
    lemma_fundamental_div_mod(total, rate);
    lemma_mod_bound(total, rate);
    assert(nanos * rate <= total < (nanos + 1) * rate && nanos >= 0 && (nanos == 0 <==> total
        < rate)) by (nonlinear_arith)
        requires
            total == rate * nanos + total % rate,
            0 <= total % rate < rate,
            total >= 0,
            rate > 0,
    ;
}

/// What a configuration is refused for.
pub open spec fn refused_for(
    rate: u32,
    channels: u16,
    frames: usize,
    chunks: usize,
    message: Seq<char>,
) -> bool {
    if rate == 0 {
        message == "sample_rate must be > 0"@
    } else if channels == 0 {
        message == "channels must be > 0"@
    } else if frames == 0 {
        message == "frames must be > 0"@
    } else if chunks == 0 {
        message == "jitter_chunks must be > 0"@
    } else if frames * 1_000_000_000 < rate {
        message == "frames/sample_rate yields zero period"@
    } else {
        message == "period overflows"@ && exists|nanos: int| #[trigger]
            lasts_nanos(frames as int, rate as int, nanos) && nanos > u64::MAX
    }
}

/// A configuration is made of any rate, channels, frames and chunks that are not zero, where a
/// chunk lasts at least a nanosecond and not too many of them; it keeps them as they were given.
pub proof fn configuration_is_kept_as_given(
    rate: u32,
    channels: u16,
    frames: usize,
    chunks: usize,
    config: Result<AudioPipelineConfig, &'static str>,
)
    requires
        call_ensures(AudioPipelineConfig::try_new, (rate, channels, frames, chunks), config),
    ensures
        config matches Ok(config) ==> holds(config, rate, channels, frames, chunks) && rate > 0
            && channels > 0 && frames > 0 && chunks > 0 && frames * 1_000_000_000 >= rate,
        config matches Err(message) ==> refused_for(rate, channels, frames, chunks, message@),
{
    if rate > 0 {
        let nanos = frames * 1_000_000_000 / (rate as int);
        period_lasts(frames as int, rate as int, nanos);
    }
}

/// Another number of waiting chunks leaves the rest alone, and is refused only where it is zero.
pub proof fn only_the_depth_changes(
    before: AudioPipelineConfig,
    chunks: usize,
    config: Result<AudioPipelineConfig, &'static str>,
)
    requires
        before.wf(),
        call_ensures(AudioPipelineConfig::with_jitter_chunks, (before, chunks), config),
    ensures
        config is Ok <==> chunks > 0,
        config matches Ok(config) ==> holds(
            config,
            before.spec_sample_rate(),
            before.spec_channels(),
            before.spec_frames(),
            chunks,
        ),
        config matches Err(message) ==> message@ == "jitter_chunks must be > 0"@,
{
}

/// A configuration tells what it holds.
pub proof fn configuration_tells_what_it_holds(
    config: AudioPipelineConfig,
    rate: u32,
    channels: u16,
    frames: usize,
    chunks: usize,
    format: AudioFormat,
    nanos: u64,
    period: Duration,
    samples: usize,
    default: AudioPipelineConfig,
)
    requires
        config.wf(),
        call_ensures(AudioPipelineConfig::sample_rate, (&config,), rate),
        call_ensures(AudioPipelineConfig::channels, (&config,), channels),
        call_ensures(AudioPipelineConfig::frames, (&config,), frames),
        call_ensures(AudioPipelineConfig::jitter_chunks, (&config,), chunks),
        call_ensures(AudioPipelineConfig::audio_format, (&config,), format),
        call_ensures(AudioPipelineConfig::chunk_period_nanos, (&config,), nanos),
        call_ensures(AudioPipelineConfig::chunk_period, (&config,), period),
        call_ensures(AudioPipelineConfig::block_samples, (&config,), samples),
        call_ensures(<AudioPipelineConfig as Default>::default, (), default),
    ensures
        holds(config, rate, channels, frames, chunks),
        format.channel_count == channels && format.sample_rate == rate,
        lasts_nanos(frames as int, rate as int, nanos as int),
        period == time::duration_of_parts(
            (nanos / 1_000_000_000) as u64,
            (nanos % 1_000_000_000) as u32,
        ),
        samples == frames * channels,
        holds(default, 48000, 2, 480, 10),
{
    period_lasts(frames as int, rate as int, nanos as int);
    let (f, c) = (frames as int, channels as int);
    assert(f * c == c * f) by (nonlinear_arith);
}

/// A mesh may take, for each round, a tenth of a second and half a second more for each edge, and
/// five seconds besides. Both are counted in 32 bits.
pub proof fn mesh_takes_longer_with_each_edge(ticks: usize, edges: usize, timeout: Duration)
    requires
        call_ensures(mesh_timeout, (ticks, edges), timeout),
    ensures
        exists|seconds: u64, millis: u32|
            millis < 1000 && seconds * 1000 + millis == (ticks as u32) * ((edges as u32) * 500 + 100)
                + 5000 && timeout == #[trigger] time::duration_of_parts(
                seconds,
                (millis * 1_000_000) as u32,
            ),
{
    let total = time::mesh_millis(ticks, edges);
    let (t, e) = ((ticks as u32) as int, (edges as u32) as int);
    assert((500 * e + 100) * t == t * (e * 500 + 100)) by (nonlinear_arith);
    assert(0 <= (500 * e + 100) * t <= 2_147_483_647_600 * 0xffff_ffff) by (nonlinear_arith)
        requires
            0 <= t <= 0xffff_ffff,
            0 <= e <= 0xffff_ffff,
    ;
    let (seconds, millis) = ((total / 1000) as u64, (total % 1000) as u32);
    assert(timeout == time::duration_of_parts(seconds, (millis * 1_000_000) as u32));
}

/// A chunk that is there too early waits for its deadline, and any other goes at once. The next
/// one may go a period after this one has.
pub proof fn chunks_go_at_a_steady_pace(
    period: u64,
    made: Pacer,
    pacer: &mut Pacer,
    now: u64,
    wait: Option<u64>,
)
    requires
        call_ensures(Pacer::new, (period,), made),
        call_ensures(Pacer::pace, (pacer, now), wait),
        old(pacer).release(now) + old(pacer).period <= u64::MAX,
    ensures
        made.period == period && made.next_deadline is None,
        final(pacer).period == old(pacer).period,
        wait is Some <==> old(pacer).next_deadline is Some && now < old(pacer).next_deadline->0,
        wait matches Some(until) ==> old(pacer).next_deadline == Some(until)
            && final(pacer).next_deadline == Some((until + old(pacer).period) as u64),
        wait is None ==> final(pacer).next_deadline == Some((now + old(pacer).period) as u64),
{
}

/// Two chunks are never let go less than a period apart.
pub proof fn chunks_are_a_period_apart(
    pacer: &mut Pacer,
    now: u64,
    wait: Option<u64>,
    then: &mut Pacer,
    later: u64,
    next_wait: Option<u64>,
)
    requires
        old(pacer).release(now) + old(pacer).period <= u64::MAX,
        call_ensures(Pacer::pace, (pacer, now), wait),
        *old(then) == *final(pacer),
        call_ensures(Pacer::pace, (then, later), next_wait),
    ensures
        ({
            let gone = if wait is Some {
                wait->0
            } else {
                now
            };
            let next = if next_wait is Some {
                next_wait->0
            } else {
                later
            };
            &&& gone >= now && next >= later
            &&& next >= gone + old(pacer).period
            &&& later <= gone + old(pacer).period ==> next == gone + old(pacer).period
        }),
{
}

/// What goes to peers can be muted by the switch that comes with it, has no more channels than the
/// pipeline, and is encoded in its chunks.
pub proof fn input_can_be_muted<
    E: AudioEncoder,
    F: FnMut(&AudioFormat) -> Option<E>,
    A: Arithmetic,
>(
    config: AudioPipelineConfig,
    rebuild: F,
    plain: (InputChain<E, F, A>, Arc<MuteControl>),
    quiet: (QuietInputChain<E, F, A>, Arc<MuteControl>),
)
    requires
        call_ensures(input_chain::<E, F, A>, (config, rebuild), plain),
        call_ensures(quiet_input_chain::<E, F, A>, (config, rebuild), quiet),
    ensures
        plain.0.first.first.control == plain.1 && quiet.0.first.first.control == quiet.1,
        plain.1.made_at(false) && quiet.1.made_at(false),
        plain.0.first.second.dst_channels == config.spec_channels(),
        quiet.0.first.second.dst_channels == config.spec_channels(),
        plain.0.first.second.cap_channels && quiet.0.first.second.cap_channels,
        plain.0.second.encoder_cache.rebuild == rebuild,
        plain.0.second.encoder_cache.format is None && plain.0.second.encoder_cache.codec is None,
        quiet.0.second.inner.encoder_cache.rebuild == rebuild,
        quiet.0.second.inner.encoder_cache.format is None
            && quiet.0.second.inner.encoder_cache.codec is None,
        plain.0.second.frames == config.spec_frames(),
        quiet.0.second.inner.frames == config.spec_frames(),
        quiet.0.second.detector.inner.threshold == 0x3bf5_c28f,
        quiet.0.second.detector.chunks == 30 && quiet.0.second.detector.left == 0,
{
}

/// A peer is heard through its own controls: its denoiser, its volume and its meter, which start
/// as they were asked to.
pub proof fn peer_is_heard_through_its_controls<D: Denoiser, A: Arithmetic>(
    volume: usize,
    denoise: DenoiseSelection,
    made: PeerControls,
    controls: PeerControls,
    chain: PeerChain<D, A>,
    gated: GatedPeerChain<D, A>,
)
    requires
        call_ensures(PeerControls::new, (volume, denoise), made),
        call_ensures(chain_from_controls::<D, A>, (&controls,), chain),
        call_ensures(gated_chain_from_controls::<D, A>, (&controls,), gated),
    ensures
        made.gain.max_volume() == 500,
        volume <= 500 ==> made.gain.made_at(volume),
        volume > 500 ==> made.gain.made_at(500),
        made.denoise.made_at(denoise),
        made.loudness.made_at(0),
        chain.first.control == controls.denoise && gated.first.inner.control == controls.denoise,
        chain.second.first.control == controls.gain && gated.second.first.control
            == controls.gain,
        chain.second.second.state == controls.loudness && gated.second.second.state
            == controls.loudness,
        chain.first.inner.denoisers().len() == 0 && gated.first.inner.inner.denoisers().len() == 0,
        gated.first.detector.inner.threshold == 0x3bf5_c28f,
        gated.first.detector.chunks == 30 && gated.first.detector.left == 0,
{
}

/// What is made together with its control is steered by it, from where it was asked to start.
pub proof fn stages_are_steered_by_their_controls<D: Denoiser, A: Arithmetic>(
    muted: bool,
    mute: (Mute, Arc<MuteControl>),
    volume: usize,
    max_volume: usize,
    gain: (Gain<A>, Arc<GainControl>),
    meter: (MetricsReader<A>, Arc<MetricsState>),
    selection: DenoiseSelection,
    denoise: (Denoise<D>, Arc<DenoiseControl>),
)
    requires
        call_ensures(Mute::shared, (muted,), mute),
        call_ensures(Gain::<A>::shared, (volume, max_volume), gain),
        call_ensures(MetricsReader::<A>::shared, (), meter),
        call_ensures(Denoise::<D>::shared, (selection,), denoise),
    ensures
        mute.0.control == mute.1 && mute.1.made_at(muted),
        gain.0.control == gain.1 && gain.1.max_volume() == max_volume,
        volume <= max_volume ==> gain.1.made_at(volume),
        volume > max_volume ==> gain.1.made_at(max_volume),
        meter.0.state == meter.1 && meter.1.made_at(0),
        denoise.0.control == denoise.1 && denoise.1.made_at(selection),
        denoise.0.inner.denoisers().len() == 0,
{
}

/// A stage that does nothing hands its chunk on, and what a stage hands on is the chunk that it
/// has, if it has one.
pub proof fn stages_hand_on_what_they_have(
    unit: &mut (),
    chunk: AudioChunk,
    out: AudioChunk,
    always: Option<AudioChunk>,
    some: Option<AudioChunk>,
    maybe: Option<AudioChunk>,
)
    requires
        call_ensures(<() as ChunkTransform>::transform, (unit, chunk), out),
        call_ensures(<AudioChunk as MaybeChunk>::into_chunk, (chunk,), always),
        call_ensures(<Option<AudioChunk> as MaybeChunk>::into_chunk, (some,), maybe),
    ensures
        out == chunk,
        always == Some(chunk),
        maybe == some,
{
}

/// Samples that have all arrived are cut into whole chunks from the start, in order and numbered
/// from 0; only what fills no chunk is left out.
pub proof fn samples_are_cut_from_the_start<Q: SampleSource<Samples = Vec<u32>>>(
    source: Q,
    frames: usize,
    chunks: Vec<AudioChunk>,
)
    requires
        call_ensures(into_chunks::<Q>, (source, frames), chunks),
    ensures
        ({
            let len = frames * source.spec_format().channel_count;
            &&& len == 0 ==> chunks@.len() == 0
            &&& len > 0 ==> chunks@.len() * len <= source.samples()@.len() < (chunks@.len() + 1)
                * len
            &&& forall|i: int|
                0 <= i < chunks@.len() ==> is_cut_at(
                    source.samples()@,
                    i * len,
                    len,
                    i,
                    source.spec_format(),
                    #[trigger] chunks@[i],
                )
        }),
{
    let len = frames * source.spec_format().channel_count;
    let samples = source.samples()@;
    let (f, c) = (frames as int, source.spec_format().channel_count as int);
    assert(0 <= f * c) by (nonlinear_arith)
        requires
            0 <= f,
            0 <= c,
    ;
    let values = crate::audio::chunk::chunk_values(chunks@);
    assert(values.len() == chunks@.len());
    if len > 0 {
        let (n, q) = (samples.len() as int, samples.len() as int / len);
        lemma_fundamental_div_mod(n, len);
        lemma_mod_bound(n, len);
        assert(q >= 0 && q * len <= n < (q + 1) * len) by (nonlinear_arith)
            requires
                n == len * q + n % len,
                0 <= n % len < len,
                n >= 0,
                len > 0,
        ;
        assert forall|i: int| 0 <= i < chunks@.len() implies is_cut_at(
            samples,
            i * len,
            len,
            i,
            source.spec_format(),
            #[trigger] chunks@[i],
        ) by {
            assert(values[i] == crate::audio::chunk::chunk_value(chunks@[i]));
            assert(values[i] == (i, source.spec_format(), samples.subrange(
                i * len,
                i * len + len,
            )));
            assert(0 <= i * len && i * len + len <= q * len) by (nonlinear_arith)
                requires
                    0 <= i,
                    i + 1 <= q,
                    len > 0,
            ;
        }
    }
}

/// A chunk holds `len` samples from `at` on, under its number.
pub open spec fn is_cut_at(
    samples: Seq<u32>,
    at: int,
    len: int,
    number: int,
    format: AudioFormat,
    chunk: AudioChunk,
) -> bool {
    &&& chunk.sequence_number == number
    &&& chunk.format == format
    &&& chunk.audio_data@.len() == len
    &&& forall|j: int| 0 <= j < len ==> #[trigger] chunk.audio_data@[j] == samples[at + j]
}

/// Samples keep the format that they are declared to be in.
pub proof fn samples_keep_their_format<S>(
    format: AudioFormat,
    samples: S,
    made: Sampled<S>,
    told: &AudioFormat,
    taken: S,
    chunker: SampleChunker,
    len: usize,
)
    requires
        call_ensures(Sampled::<S>::new, (format, samples), made),
        call_ensures(<Sampled<S> as SampleSource>::format, (&made,), told),
        call_ensures(<Sampled<S> as SampleSource>::into_samples, (made,), taken),
        call_ensures(SampleChunker::chunk_len, (&chunker,), len),
    ensures
        *told == format && taken == samples,
        len == chunker.spec_chunk_len(),
{
}

/// A device is asked for 480 frames at a time, or for the nearest number that it can do; where
/// that is not known, it may choose.
pub proof fn buffer_is_as_near_as_can_be(supported: SupportedBufferSize, size: BufferSize)
    requires
        call_ensures(callback_buffer_size, (&supported,), size),
        stream_config::sizes_in_order(supported),
    ensures
        is_nearest(supported, size),
{
}

/// A buffer size is one that a device can do, and none that it can do is nearer to 480.
pub open spec fn is_nearest(supported: SupportedBufferSize, size: BufferSize) -> bool {
    match supported {
        SupportedBufferSize::Unknown => size == BufferSize::Default,
        SupportedBufferSize::Range { min, max } => {
            &&& size matches BufferSize::Fixed(frames)
            &&& min <= frames <= max
            &&& forall|other: u32|
                min <= other <= max ==> off_by(frames as int) <= #[trigger] off_by(other as int)
        },
    }
}

/// How far a number of frames is from 480.
pub open spec fn off_by(frames: int) -> int {
    if frames < 480 {
        480 - frames
    } else {
        frames - 480
    }
}

/// How well a format keeps a sample: in floating point before whole numbers, wider before
/// narrower, signed before unsigned.
pub open spec fn keeps_better(a: SampleFormat, b: SampleFormat) -> bool {
    place(a) > place(b)
}

/// The place of a usable format, from the worst up; 0 for one that cannot be used.
pub open spec fn place(format: SampleFormat) -> int {
    match format {
        SampleFormat::F32 => 8,
        SampleFormat::F64 => 7,
        SampleFormat::I32 => 6,
        SampleFormat::U32 => 5,
        SampleFormat::I16 => 4,
        SampleFormat::U16 => 3,
        SampleFormat::I8 => 2,
        SampleFormat::U8 => 1,
        _ => 0,
    }
}

/// Formats are ranked by how well they keep a sample; what cannot be used has no rank.
pub proof fn formats_are_ranked(
    a: SampleFormat,
    b: SampleFormat,
    rank: Option<u8>,
    other: Option<u8>,
)
    requires
        call_ensures(sample_format_rank, (a,), rank),
        call_ensures(sample_format_rank, (b,), other),
    ensures
        rank is Some <==> place(a) > 0,
        rank is Some && other is Some ==> (rank->0 > other->0 <==> keeps_better(a, b)),
        a is F32 ==> rank == Some(100u8),
{
}

/// How good a range is: only one with two channels is any good.
pub open spec fn worth(range: SupportedStreamConfigRange) -> int {
    if range.channels == 2 {
        place(range.sample_format)
    } else {
        0
    }
}

/// The range that is taken: the first of the best stereo ones, and the last of all where none is
/// any good.
pub open spec fn is_taken(
    ranges: Seq<SupportedStreamConfigRange>,
    taken: SupportedStreamConfigRange,
    i: int,
) -> bool {
    &&& 0 <= i < ranges.len()
    &&& ranges[i] == taken
    &&& worth(taken) > 0 ==> (forall|k: int|
        0 <= k < ranges.len() ==> worth(#[trigger] ranges[k]) <= worth(taken)) && (forall|k: int|
        0 <= k < i ==> worth(#[trigger] ranges[k]) < worth(taken))
    &&& worth(taken) == 0 ==> i == ranges.len() - 1 && forall|k: int|
        0 <= k < ranges.len() ==> worth(#[trigger] ranges[k]) == 0
}

proof fn choosing_takes(ranges: Seq<SupportedStreamConfigRange>) -> (i: int)
    requires
        ranges.len() > 0,
    ensures
        stream_config::chosen(ranges) is Some,
        is_taken(ranges, stream_config::chosen(ranges)->0, i),
{
    let n = ranges.len() as int;
    stream_config::best_index_is_best(ranges, n);
    assert forall|k: int| 0 <= k < n implies (worth(#[trigger] ranges[k]) > 0
        <==> stream_config::range_rank(ranges[k]) is Some) by {}
    match stream_config::best_index(ranges, n) {
        Some(i) => {
            assert(worth(ranges[i]) > 0);
            assert forall|k: int| 0 <= k < n implies worth(#[trigger] ranges[k]) <= worth(
                ranges[i],
            ) by {
                if worth(ranges[k]) > 0 {
                    assert(stream_config::range_rank(ranges[k]) is Some);
                }
            }
            assert forall|k: int| 0 <= k < i implies worth(#[trigger] ranges[k]) < worth(
                ranges[i],
            ) by {
                if worth(ranges[k]) > 0 {
                    assert(stream_config::range_rank(ranges[k]) is Some);
                }
            }
            i
        },
        None => {
            assert(worth(ranges[n - 1]) == 0);
            n - 1
        },
    }
}

/// The best range is taken, for inputs as for outputs, and none only where there is none.
pub proof fn best_range_is_taken(
    ranges: Vec<SupportedStreamConfigRange>,
    input: Option<SupportedStreamConfigRange>,
    output: Option<SupportedStreamConfigRange>,
)
    requires
        call_ensures(find_stereo_input, (ranges,), input),
        call_ensures(find_stereo_output, (ranges,), output),
    ensures
        input == output,
        input is None <==> ranges@.len() == 0,
        input matches Some(taken) ==> exists|i: int| #[trigger] is_taken(ranges@, taken, i),
{
    if ranges@.len() > 0 {
        let i = choosing_takes(ranges@);
        assert(is_taken(ranges@, input->0, i));
    } else {
        assert(stream_config::best_index(ranges@, 0) is None);
    }
}

/// A stream is opened in the format and channels of the range that is taken, at 48000 samples a
/// second or the most that it can do below that, and with the nearest buffer size.
pub open spec fn is_opened(
    taken: SupportedStreamConfigRange,
    opened: (SampleFormat, StreamConfig),
) -> bool {
    &&& opened.0 == taken.sample_format
    &&& opened.1.channels == taken.channels
    &&& opened.1.sample_rate <= 48000 && opened.1.sample_rate <= taken.max_sample_rate
    &&& opened.1.sample_rate == 48000 || opened.1.sample_rate == taken.max_sample_rate
    &&& stream_config::sizes_in_order(taken.buffer_size) ==> is_nearest(
        taken.buffer_size,
        opened.1.buffer_size,
    )
}

/// Streams are opened with the best range.
pub proof fn stream_is_opened_with_the_best(
    ranges: Vec<SupportedStreamConfigRange>,
    input: Result<(SampleFormat, StreamConfig), &'static str>,
    output: Result<(SampleFormat, StreamConfig), &'static str>,
)
    requires
        call_ensures(get_input_config, (ranges,), input),
        call_ensures(get_output_config, (ranges,), output),
    ensures
        input is Ok <==> ranges@.len() > 0,
        output is Ok <==> ranges@.len() > 0,
        input is Ok ==> input->Ok_0 == output->Ok_0,
        input matches Ok(opened) ==> exists|taken: SupportedStreamConfigRange, i: int| #[trigger]
            is_taken(ranges@, taken, i) && is_opened(taken, opened),
        input matches Err(message) ==> message@ == "No supported input config"@,
        output matches Err(message) ==> message@ == "No supported output config"@,
{
    if ranges@.len() > 0 {
        let i = choosing_takes(ranges@);
        let taken = stream_config::chosen(ranges@)->0;
        assert(is_taken(ranges@, taken, i));
        assert(is_opened(taken, input->Ok_0));
    } else {
        assert(stream_config::best_index(ranges@, 0) is None);
    }
}

/// What is mixed for an output is in the format of its stream, and in stereo at 48000 samples a
/// second without one.
pub proof fn mix_is_in_the_streams_format(config: Option<StreamConfig>, format: AudioFormat)
    requires
        call_ensures(output_format, (config,), format),
    ensures
        config matches Some(config) ==> format.channel_count == config.channels
            && format.sample_rate == config.sample_rate,
        config is None ==> format.channel_count == 2 && format.sample_rate == 48000,
{
}

/// A device is called by its own name, or said to be unknown without one.
pub proof fn device_is_called_by_its_name<D: AudioDevice>(
    device: D,
    own: Option<String>,
    name: String,
    kind: &str,
    id: &str,
    wanted: &str,
    message: String,
)
    requires
        call_ensures(D::try_name, (&device,), own),
        call_ensures(D::name, (&device,), name),
        call_ensures(unknown_device, (kind, id, wanted), message),
    ensures
        own matches Some(own) ==> name@ == own@,
        own is None ==> name@ == "unknown device"@,
        message@ == "Unknown "@ + kind@ + " device id: "@ + id@ + ", name: "@ + wanted@,
{
}

/// How far a count has grown.
pub open spec fn grown(before: usize, now: usize) -> int {
    if now > before {
        now - before
    } else {
        0
    }
}

/// A count has grown by what it is more than it was, and by nothing where it is less.
pub proof fn count_grows(before: usize, now: usize, by: u64)
    requires
        call_ensures(moved, (before, now), by),
    ensures
        by == grown(before, now),
{
}

/// The first `n` labels, each with its number behind it.
pub open spec fn worded(items: Seq<(Seq<char>, int)>, n: nat) -> Seq<char>
    decreases n,
{
    if n == 0 {
        Seq::empty()
    } else {
        worded(items, (n - 1) as nat) + (items[n - 1].0 + text::decimal(items[n - 1].1 as nat))
    }
}

/// A line of the log gives what each count has grown by, under its own label, and the rest as it
/// is.
pub proof fn log_gives_every_count_under_its_label(
    prev: MixerMetrics,
    now: MixerMetrics,
    nanos: u64,
    peers: usize,
    line: String,
    dropped: usize,
    underruns: usize,
    overruns: usize,
    long: String,
)
    requires
        call_ensures(format_metrics_line, (&prev, &now, nanos, peers), line),
        call_ensures(
            format_audio_interval,
            (&prev, &now, nanos, peers, dropped, underruns, overruns),
            long,
        ),
    ensures
        line@ == worded(
            seq![
                ("audio gaps="@, grown(prev.gap_detected, now.gap_detected)),
                (" late="@, grown(prev.late_dropped, now.late_dropped)),
                (" underruns="@, grown(prev.underrun, now.underrun)),
                (" plc="@, grown(prev.plc_hold, now.plc_hold)),
                (" clips="@, grown(prev.clip_hits, now.clip_hits)),
                (" fills="@, grown(prev.fills, now.fills)),
                (" fill_avg_ns="@, nanos as int),
                (" peers="@, peers as int),
            ],
            8,
        ),
        long@ == worded(
            seq![
                ("audio gaps="@, grown(prev.gap_detected, now.gap_detected)),
                (" late="@, grown(prev.late_dropped, now.late_dropped)),
                (" overflow="@, grown(prev.overflow_dropped, now.overflow_dropped)),
                (" underruns="@, grown(prev.underrun, now.underrun)),
                (" plc="@, grown(prev.plc_hold, now.plc_hold)),
                (" clips="@, grown(prev.clip_hits, now.clip_hits)),
                (" fills="@, grown(prev.fills, now.fills)),
                (" stale="@, grown(prev.stale_dropped, now.stale_dropped)),
                (" fill_avg_ns="@, nanos as int),
                (" peers="@, peers as int),
                (" dropped="@, dropped as int),
                (" ring_underruns="@, underruns as int),
                (" ring_overruns="@, overruns as int),
            ],
            13,
        ),
{
    reveal_with_fuel(worded, 14);
    let first = "audio gaps="@ + text::decimal(
        grown(prev.gap_detected, now.gap_detected) as nat,
    );
    assert(Seq::<char>::empty() + first =~= first);
}

} // verus!
