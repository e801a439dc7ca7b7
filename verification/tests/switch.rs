use insanity::audio::chunk::{AudioChunk, SourcePoll};
use insanity::audio::config::AudioPipelineConfig;
use insanity::audio::float::Arithmetic;
use insanity::audio::hub::{
    chain_from_controls, gated_chain_from_controls, input_chain, quiet_input_chain, Pacer,
    PeerControls,
};
use insanity::audio::codec::{AudioDecoder, EncodedChunk};
use insanity::audio::denoiser::Denoiser;
use insanity::audio::input::{build_silence, input_ring, poll_sample, publish_samples, settle};
use insanity::audio::mixer::{Mixer, MixerInput};
use insanity::audio::output::{
    device_block, drain_ring, render_samples, sink_info, sink_or_dummy, Sink, MAX_PREFILL_TICKS,
};
use insanity::audio::owner::{owner_step, MixerOp, OutputOwner, OwnerEvent, OwnerStep};
use insanity::audio::passthrough::{PassthroughDecoder, PassthroughEncoder};
use insanity::audio::sample::{Flow, Resampler, ResamplerSpec, SyncSampleSource};
use insanity::audio::stats::{average, FillStats, InputStats, OutputStats};
use insanity::audio::switch::{
    ChunkSource, Polled, Selection, SilenceChunkSource, SwapRequest, SwitchingChunkSource,
};
use insanity::audio::transform::ChunkTransform;
use insanity::audio::AudioFormat;
use insanity::user_input_event::DenoiseSelection;
use std::collections::VecDeque;
use std::sync::atomic::{AtomicBool, Ordering};
use std::sync::Arc;

struct Machine;

fn f(bits: u32) -> f32 {
    f32::from_bits(bits)
}

impl Arithmetic for Machine {
    fn sum(a: u32, b: u32) -> u32 {
        (f(a) + f(b)).to_bits()
    }

    fn difference(a: u32, b: u32) -> u32 {
        (f(a) - f(b)).to_bits()
    }

    fn product(a: u32, b: u32) -> u32 {
        (f(a) * f(b)).to_bits()
    }

    fn quotient(a: u32, b: u32) -> u32 {
        (f(a) / f(b)).to_bits()
    }

    fn square_root(a: u32) -> u32 {
        f(a).sqrt().to_bits()
    }

    fn count(n: usize) -> u32 {
        (n as f32).to_bits()
    }

    fn volume_multiplier(volume: usize) -> u32 {
        let a: f32 = 0.2;
        (a * ((1.0 + 1.0 / a).powf(volume as f32 / 100.0) - 1.0)).to_bits()
    }

    fn loudness(samples: &[u32]) -> u64 {
        samples.len() as u64
    }
}

fn bits(samples: &[f32]) -> Vec<u32> {
    samples.iter().map(|s| s.to_bits()).collect()
}

fn floats(samples: &[u32]) -> Vec<f32> {
    samples.iter().map(|s| f(*s)).collect()
}

struct Constant {
    format: AudioFormat,
    value: f32,
    remaining: usize,
}

impl Constant {
    fn new(channels: u16, value: f32, remaining: usize) -> Self {
        Constant {
            format: AudioFormat::new(channels, 48000),
            value,
            remaining,
        }
    }
}

impl ChunkSource for Constant {
    fn poll_chunk(&mut self) -> Polled {
        if self.remaining == 0 {
            return Polled::Ended;
        }
        self.remaining -= 1;
        Polled::Chunk(AudioChunk::new(0, self.format, bits(&[self.value; 4])))
    }
}

type Swaps = VecDeque<SwapRequest<Constant, &'static str>>;

fn swap(payload: Constant, on_adopt: &'static str) -> SwapRequest<Constant, &'static str> {
    SwapRequest { payload, on_adopt }
}

fn polled(source: &mut SwitchingChunkSource<Constant>, swaps: &mut Swaps) -> Option<AudioChunk> {
    match source.poll_next(swaps).0 {
        Polled::Chunk(chunk) => Some(chunk),
        _ => None,
    }
}

fn swap_takes_effect_before_next_chunk() {
    let mut swaps = Swaps::new();
    let mut source = SwitchingChunkSource::new(Constant::new(2, 1.0, 10));
    let first = polled(&mut source, &mut swaps).unwrap();
    assert_eq!(floats(&first.audio_data), vec![1.0; 4]);
    assert_eq!(first.format.channel_count, 2);
    swaps.push_back(swap(Constant::new(1, 2.0, 10), ""));
    let second = polled(&mut source, &mut swaps).unwrap();
    assert_eq!(floats(&second.audio_data), vec![2.0; 4]);
    assert_eq!(second.format.channel_count, 1);
}

fn exhausted_source_parks() {
    let mut swaps = Swaps::new();
    let mut source = SwitchingChunkSource::new(Constant::new(2, 1.0, 1));
    assert!(polled(&mut source, &mut swaps).is_some());
    assert!(polled(&mut source, &mut swaps).is_none());
    assert!(source.source.is_none());
    assert!(polled(&mut source, &mut swaps).is_none());
    swaps.push_back(swap(Constant::new(2, 3.0, 1), ""));
    let chunk = polled(&mut source, &mut swaps).unwrap();
    assert_eq!(floats(&chunk.audio_data), vec![3.0; 4]);
}

#[test]
fn switch_swap_takes_effect_before_next_chunk_and_carries_format() {
    swap_takes_effect_before_next_chunk();
}

#[test]
fn switching_chunk_source_swap_takes_effect_before_next_chunk_and_carries_format() {
    swap_takes_effect_before_next_chunk();
}

#[test]
fn switch_exhausted_source_parks_until_swapped() {
    exhausted_source_parks();
}

#[test]
fn switching_chunk_source_exhausted_source_parks_until_swapped() {
    exhausted_source_parks();
}

#[test]
fn sequence_stays_monotonic_across_swap() {
    let mut swaps = Swaps::new();
    let mut source = SwitchingChunkSource::new(Constant::new(2, 1.0, 10));
    let first = polled(&mut source, &mut swaps).unwrap();
    let second = polled(&mut source, &mut swaps).unwrap();
    assert!(second.sequence_number > first.sequence_number);
    swaps.push_back(swap(Constant::new(1, 2.0, 10), ""));
    let third = polled(&mut source, &mut swaps).unwrap();
    assert!(third.sequence_number > second.sequence_number);
}

#[test]
fn queued_rapid_swaps_last_wins() {
    let mut swaps = Swaps::new();
    let mut source = SwitchingChunkSource::new(Constant::new(2, 1.0, 10));
    let _ = polled(&mut source, &mut swaps).unwrap();
    swaps.push_back(swap(Constant::new(2, 2.0, 10), ""));
    swaps.push_back(swap(Constant::new(2, 3.0, 10), ""));
    let chunk = polled(&mut source, &mut swaps).unwrap();
    assert_eq!(floats(&chunk.audio_data), vec![3.0; 4]);
}

#[test]
fn adopt_hook_fires_at_adoption_not_at_send() {
    let mut source = SwitchingChunkSource::new(Constant::new(2, 1.0, 10));
    let mut swaps: VecDeque<SwapRequest<Constant, Box<dyn FnOnce()>>> = VecDeque::new();
    let adopted = Arc::new(AtomicBool::new(false));
    let hook_adopted = adopted.clone();
    swaps.push_back(SwapRequest {
        payload: Constant::new(2, 2.0, 10),
        on_adopt: Box::new(move || {
            hook_adopted.store(true, Ordering::SeqCst);
        }),
    });
    assert!(!adopted.load(Ordering::SeqCst));
    let (polled, hooks) = source.poll_next(&mut swaps);
    for hook in hooks {
        hook();
    }
    match polled {
        Polled::Chunk(chunk) => assert_eq!(floats(&chunk.audio_data), vec![2.0; 4]),
        _ => panic!("expected a chunk"),
    }
    assert!(adopted.load(Ordering::SeqCst));
}

#[test]
fn hooks_come_back_once_and_in_order() {
    let mut swaps = Swaps::new();
    let mut source = SwitchingChunkSource::new(Constant::new(2, 1.0, 10));
    swaps.push_back(swap(Constant::new(2, 5.0, 10), "first"));
    swaps.push_back(swap(Constant::new(2, 2.0, 10), "second"));
    let (_, hooks) = source.poll_next(&mut swaps);
    assert_eq!(hooks, vec!["first", "second"]);
    let (_, hooks) = source.poll_next(&mut swaps);
    assert!(hooks.is_empty());
}

#[test]
fn silence_matches_format_and_advances_sequence() {
    let format = AudioFormat::new(2, 48000);
    let mut silence = SilenceChunkSource::new(format, 480);
    let first = silence.next_chunk();
    assert_eq!(floats(&first.audio_data), vec![0.0; 960]);
    assert_eq!(first.format, format);
    let second = silence.next_chunk();
    assert!(second.sequence_number > first.sequence_number);
}

#[test]
fn silence_initial_matches_pipeline_format() {
    let config = AudioPipelineConfig::default();
    let (silence, name) = build_silence(config);
    assert_eq!(name, "No input device");
    let mut source: SwitchingChunkSource<SilenceChunkSource> = SwitchingChunkSource::new(silence);
    let mut swaps: VecDeque<SwapRequest<SilenceChunkSource, ()>> = VecDeque::new();
    match source.poll_next(&mut swaps).0 {
        Polled::Chunk(chunk) => {
            assert_eq!(
                floats(&chunk.audio_data),
                vec![0.0; config.frames() * usize::from(config.channels())]
            );
            assert_eq!(
                chunk.format,
                AudioFormat::new(config.channels(), config.sample_rate())
            );
        }
        _ => panic!("expected a chunk"),
    }
}

#[test]
fn pacer_spaces_chunks() {
    let mut pacer = Pacer::new(10);
    assert_eq!(pacer.pace(100), None);
    assert_eq!(pacer.pace(104), Some(110));
    assert_eq!(pacer.pace(111), Some(120));
    assert_eq!(pacer.pace(150), None);
    assert_eq!(pacer.pace(150), Some(160));
}

struct Through {
    ready: VecDeque<u32>,
}

impl Resampler for Through {
    fn flow(&self) -> Flow {
        unreachable!()
    }

    fn push_sample(&mut self, sample: u32) {
        self.ready.push_back(sample);
    }

    fn pop_sample(&mut self) -> Option<u32> {
        self.ready.pop_front()
    }

    fn buffered(&self) -> usize {
        self.ready.len()
    }
}

impl From<ResamplerSpec> for Through {
    fn from(_: ResamplerSpec) -> Self {
        Through {
            ready: VecDeque::new(),
        }
    }
}

struct Ramp {
    next: u32,
    left: usize,
}

impl SyncSampleSource for Ramp {
    fn next_sync(&mut self) -> Option<u32> {
        if self.left == 0 {
            return None;
        }
        self.left -= 1;
        self.next += 1;
        Some(self.next)
    }
}

fn ramp(left: usize) -> Ramp {
    Ramp { next: 0, left }
}

fn small_config() -> AudioPipelineConfig {
    AudioPipelineConfig::try_new(48000, 1, 4, 10).expect("valid config")
}

#[test]
fn sink_passes_the_mix_on_in_order() {
    let config = small_config();
    let stats = OutputStats::new();
    let (mut sink, mut device): (Sink<Through, Machine>, _) = Sink::for_device(
        &config.audio_format(),
        AudioFormat::new(1, 48000),
        config,
        "speaker".to_owned(),
    )
    .expect("sink");
    assert_eq!(sink.name, "speaker");
    assert_eq!(sink.capacity_samples(), 32);
    assert_eq!(sink.target_samples(), 8);
    let mut mix = ramp(10);
    sink.tick(&mut mix, 4, &stats);
    assert_eq!(sink.buffered_samples(), 4);
    sink.tick(&mut mix, 4, &stats);
    assert_eq!(sink.buffered_samples(), 8);
    sink.tick(&mut mix, 4, &stats);
    assert_eq!(sink.buffered_samples(), 8);
    assert_eq!(drain_ring(&mut device, 6), (vec![1, 2, 3, 4, 5, 6], 0));
    assert_eq!(sink.tick_counting(&mut mix, 4), 0);
    assert_eq!(
        drain_ring(&mut device, 10),
        (vec![7, 8, 9, 10, 0, 0, 0, 0, 0, 0], 4)
    );
    assert_eq!(stats.overruns(), 0);
    stats.note_underruns(4);
    assert_eq!(stats.underruns(), 4);
}

#[test]
fn switches_and_buffers_device_block() {
    let config = AudioPipelineConfig::default();
    let device_format = AudioFormat::new(2, 44100);
    let (mut sink, mut device): (Sink<Through, Machine>, _) = Sink::for_device(
        &config.audio_format(),
        device_format,
        config,
        "synthetic".to_owned(),
    )
    .expect("sink");
    assert_eq!(sink.device_format, device_format);
    assert!(sink.prefill(&mut ramp(10000), 960, &OutputStats::new()));
    assert!(sink.buffered_samples() >= 2 * config.frames());
    let (out, missing) = drain_ring(&mut device, 960);
    assert_eq!(missing, 0);
    assert_eq!(out[959], 960);
}

/// Holds everything back until enough has come in.
struct Late {
    held: VecDeque<u32>,
    ready: VecDeque<u32>,
    enough: usize,
}

impl Resampler for Late {
    fn flow(&self) -> Flow {
        unreachable!()
    }

    fn push_sample(&mut self, sample: u32) {
        self.held.push_back(sample);
        if self.held.len() >= self.enough {
            self.ready.append(&mut self.held);
        }
    }

    fn pop_sample(&mut self) -> Option<u32> {
        self.ready.pop_front()
    }

    fn buffered(&self) -> usize {
        self.ready.len()
    }
}

impl From<ResamplerSpec> for Late {
    fn from(_: ResamplerSpec) -> Self {
        Late {
            held: VecDeque::new(),
            ready: VecDeque::new(),
            enough: usize::MAX,
        }
    }
}

fn late_sink(enough: usize) -> Sink<Late, Machine> {
    let config = small_config();
    let (mut sink, _device): (Sink<Late, Machine>, _) = Sink::for_device(
        &config.audio_format(),
        AudioFormat::new(1, 44100),
        config,
        String::new(),
    )
    .expect("sink");
    sink.converter.resampler.enough = enough;
    sink
}

#[test]
fn prefill_gives_up_on_a_sink_without_blocks() {
    let mut sink = late_sink(usize::MAX);
    assert!(!sink.prefill(&mut ramp(100000), 4, &OutputStats::new()));
    assert_eq!(sink.buffered_samples(), 0);
}

#[test]
fn prefill_must_be_done_before_the_last_round() {
    let mut sink = late_sink(4 * (MAX_PREFILL_TICKS - 1));
    assert!(sink.prefill(&mut ramp(100000), 4, &OutputStats::new()));
    assert!(sink.buffered_samples() >= sink.device_block);
    let mut sink = late_sink(4 * MAX_PREFILL_TICKS);
    assert!(!sink.prefill(&mut ramp(100000), 4, &OutputStats::new()));
    assert!(sink.buffered_samples() >= sink.device_block);
}

#[test]
fn lost_samples_are_counted() {
    let mut sink = late_sink(40);
    let stats = OutputStats::new();
    let mut mix = ramp(100000);
    for _ in 0..10 {
        sink.tick(&mut mix, 4, &stats);
    }
    let kept = sink.converter.pending.len() + sink.buffered_samples();
    assert_eq!(stats.overruns() as usize, 40 - kept);
    assert!(kept < 40);
}

#[test]
fn a_dry_ring_is_over_only_when_it_was_given_up() {
    assert_eq!(settle(Some(7), true), SourcePoll::Sample(7));
    assert_eq!(settle(Some(7), false), SourcePoll::Sample(7));
    assert_eq!(settle(None, true), SourcePoll::Ended);
    assert_eq!(settle(None, false), SourcePoll::Pending);
}

#[test]
fn unusable_outputs_are_refused() {
    assert_eq!(
        device_block(&AudioFormat::new(0, 48000), 4),
        Err("output channel_count must be > 0")
    );
    assert_eq!(
        device_block(&AudioFormat::new(2, 0), 4),
        Err("device sample_rate must be > 0")
    );
    assert_eq!(
        device_block(&AudioFormat::new(2, 48000), 0),
        Err("device block must be > 0")
    );
    assert_eq!(device_block(&AudioFormat::new(2, 48000), 4), Ok(8));
    let refused: Result<(Sink<Through, Machine>, _), _> = Sink::for_device(
        &AudioFormat::new(2, 48000),
        AudioFormat::new(2, 0),
        small_config(),
        String::new(),
    );
    assert_eq!(refused.err(), Some("device sample_rate must be > 0"));
    let mut dummy: Sink<Through, Machine> = Sink::dummy(small_config());
    assert_eq!(dummy.name, "unknown device");
    assert_eq!(dummy.buffered_samples(), 0);
}

#[test]
fn rendering_pads_with_silence() {
    assert_eq!(render_samples(4, &vec![1, 2]), vec![1, 2, 0, 0]);
    assert_eq!(render_samples(1, &vec![1, 2]), vec![1]);
}

#[test]
fn input_ring_drops_what_does_not_fit() {
    assert_eq!(
        input_ring(0, 4).err(),
        Some("Invalid input config with zero block size")
    );
    let (mut producer, mut consumer) = input_ring(1, 1).expect("ring");
    let stats = InputStats::new();
    assert_eq!(publish_samples(&mut producer, &stats, Vec::new()), 0);
    assert_eq!(publish_samples(&mut producer, &stats, vec![1, 2, 3]), 3);
    assert_eq!(
        publish_samples(&mut producer, &stats, (4..14).collect()),
        5
    );
    assert_eq!(stats.overruns(), 5);
    assert_eq!(publish_samples(&mut producer, &stats, vec![99]), 0);
    for expected in 1..9 {
        assert_eq!(poll_sample(&mut consumer), SourcePoll::Sample(expected));
    }
    assert_eq!(poll_sample(&mut consumer), SourcePoll::Pending);
    drop(producer);
    assert_eq!(poll_sample(&mut consumer), SourcePoll::Ended);
}

type Rebuild = fn(&AudioFormat) -> Option<PassthroughDecoder>;

fn rebuild(_: &AudioFormat) -> Option<PassthroughDecoder> {
    Some(PassthroughDecoder)
}

const REBUILD: Rebuild = rebuild;

#[test]
fn owner_serves_requests_and_feeds_the_output() {
    let config = small_config();
    let format = config.audio_format();
    let mixer: Mixer<PassthroughDecoder, (), Through, (), Rebuild, Machine> =
        Mixer::new(format, config.jitter_chunks(), config.frames(), ());
    let sink: Sink<Through, Machine> = Sink::dummy(config);
    let mut owner = OutputOwner::new(mixer, sink, 4);
    let stats = OutputStats::default();
    let (sink, mut device) =
        Sink::for_device(&format, format, config, "real".to_owned()).expect("sink");
    let (evicted, converged) = owner.adopt(sink, &stats);
    assert_eq!(evicted.name, "unknown device");
    assert!(converged);
    assert_eq!(drain_ring(&mut device, 4), (vec![0; 4], 0));
    let data = bits(&[0.1, 0.2, 0.3, 0.4]);
    let mut encoder = PassthroughEncoder::new(format);
    let frame = insanity::audio::codec::AudioEncoder::encode(
        &mut encoder,
        &AudioChunk::new(0, format, data.clone()),
    )
    .expect("frame");
    let mut ops: VecDeque<MixerOp<(), Through, Rebuild, &str, &str>> = VecDeque::new();
    ops.push_back(MixerOp::Subscribe {
        transform: (),
        rebuild: REBUILD,
        resampler: Through::from(ResamplerSpec {
            source_rate: 48000,
            source_channels: 1,
            target_rate: 48000,
            block_frames: 4,
        }),
        reply: "peer",
    });
    ops.push_back(MixerOp::Push {
        slot: 0,
        chunk: frame,
    });
    let replies = owner.round(ops, &stats);
    assert_eq!(replies.slots, vec![("peer", 0)]);
    assert_eq!(drain_ring(&mut device, 4), (data, 0));
    assert_eq!(owner.sleep_nanos, 2_000_000);
    let snapshot: VecDeque<MixerOp<(), Through, Rebuild, (), u8>> =
        VecDeque::from([MixerOp::Snapshot(9)]);
    let replies = owner.round(snapshot, &stats);
    assert_eq!(replies.snapshots.len(), 1);
    assert_eq!(replies.snapshots[0].0, 9);
    assert_eq!((replies.snapshots[0].1).1, 1);
}

#[test]
fn owner_ends_with_its_last_request() {
    let mut open = true;
    assert!(matches!(
        owner_step::<u8>(&mut open, OwnerEvent::Ops(2)),
        OwnerStep::GoOn
    ));
    assert!(matches!(
        owner_step(&mut open, OwnerEvent::Switch(7)),
        OwnerStep::Adopt(7)
    ));
    assert!(matches!(
        owner_step::<u8>(&mut open, OwnerEvent::Slept),
        OwnerStep::GoOn
    ));
    assert!(open);
    assert!(matches!(
        owner_step::<u8>(&mut open, OwnerEvent::SwitchClosed),
        OwnerStep::GoOn
    ));
    assert!(!open);
    assert!(matches!(
        owner_step::<u8>(&mut open, OwnerEvent::Ops(0)),
        OwnerStep::Stop
    ));
}

struct Halving;

impl Denoiser for Halving {
    const FRAME_SIZE: usize = 2;

    fn init() -> Self {
        Halving
    }

    fn process_frame(&mut self, output: &mut [u32], input: &[u32]) {
        for (o, i) in output.iter_mut().zip(input) {
            *o = (f(*i) * 0.5).to_bits();
        }
    }
}

#[test]
fn controls_steer_the_peer_chain() {
    let controls = PeerControls::new(900, DenoiseSelection::Nnnoiseless);
    assert_eq!(controls.gain.get(), 500);
    controls.gain.set(100);
    let format = AudioFormat::new(1, 48000);
    let loud = || AudioChunk::new(1, format, bits(&[0.5, 0.5]));
    let mut chain = chain_from_controls::<Halving, Machine>(&controls);
    assert_eq!(floats(&chain.transform(loud()).audio_data), vec![0.25; 2]);
    assert_eq!(controls.loudness.loudness(), 2);
    controls.denoise.set(DenoiseSelection::Off);
    assert_eq!(floats(&chain.transform(loud()).audio_data), vec![0.5; 2]);
    controls.denoise.set(DenoiseSelection::Nnnoiseless);
    let mut gated = gated_chain_from_controls::<Halving, Machine>(&controls);
    let quiet = AudioChunk::new(1, format, bits(&[0.001, 0.001]));
    assert_eq!(
        floats(&gated.transform(quiet).audio_data),
        vec![0.001, 0.001]
    );
    assert_eq!(floats(&gated.transform(loud()).audio_data), vec![0.25; 2]);
}

#[test]
fn input_chain_mutes_caps_and_encodes() {
    let config = AudioPipelineConfig::try_new(48000, 1, 1, 10).expect("valid config");
    let (mut chain, mute) = input_chain::<PassthroughEncoder, _, Machine>(
        config,
        |format: &AudioFormat| Some(PassthroughEncoder::new(*format)),
    );
    let stereo = AudioFormat::new(2, 48000);
    let chunk = || AudioChunk::new(4, stereo, bits(&[0.25, 0.75]));
    let decode = |frame: Option<EncodedChunk>| {
        PassthroughDecoder
            .decode(&frame.expect("frame"))
            .expect("chunk")
    };
    let out = decode(chain.transform(chunk()));
    assert_eq!(out.sequence_number, 4);
    assert_eq!(out.format.channel_count, 1);
    assert_eq!(floats(&out.audio_data), vec![0.5]);
    mute.set(true);
    let out = decode(chain.transform(chunk()));
    assert_eq!(floats(&out.audio_data), vec![0.0]);
    let (mut quiet, _mute) = quiet_input_chain::<PassthroughEncoder, _, Machine>(
        config,
        |format: &AudioFormat| Some(PassthroughEncoder::new(*format)),
    );
    let silent = AudioChunk::new(1, stereo, bits(&[0.0, 0.0]));
    assert!(quiet.transform(silent).is_none());
    assert!(quiet.transform(chunk()).is_some());
}

#[test]
fn averages_round_down() {
    assert_eq!(average(0, 0), 0);
    assert_eq!(average(10, 3), 3);
    let stats = FillStats::new();
    assert_eq!(stats.avg_nanos(), 0);
    stats.record(10);
    stats.record(21);
    assert_eq!(stats.avg_nanos(), 15);
    stats.record(10);
    assert_eq!(stats.avg_nanos(), 13);
}

#[test]
fn selections_name_devices() {
    assert_ne!(
        Selection::FollowDefault,
        Selection::Explicit("speaker".to_owned())
    );
}

#[test]
fn frames_for_unknown_peers_are_dropped() {
    let mut mixer: Mixer<PassthroughDecoder, (), Through, (), Rebuild, Machine> =
        Mixer::new(AudioFormat::new(1, 48000), 4, 2, ());
    let frame = EncodedChunk {
        sequence_number: 0,
        codec: insanity::audio::codec::AudioCodec::Raw,
        payload: vec![0; 8],
        format: AudioFormat::new(1, 48000),
    };
    mixer.push_to_slot(3, frame.clone());
    assert_eq!(mixer.peer_count(), 0);
    let id = mixer.subscribe((), REBUILD, Through { ready: VecDeque::new() });
    mixer.push_to_slot(id, frame.clone());
    mixer.input_mut(id).expect("slot").push_frame(frame);
    assert_eq!(mixer.input_mut(id).expect("slot").jitter.buffer.len(), 1);
}

#[test]
fn outputs_are_opened_or_stood_in_for() {
    let config = small_config();
    let format = config.audio_format();
    let (real, _device): (Sink<Through, Machine>, _) =
        Sink::for_device(&format, format, config, "real".to_owned()).expect("sink");
    let sink = sink_or_dummy(Some(real), config);
    let info = sink_info(&sink, Selection::Explicit("id".to_owned()));
    assert_eq!(info.name, "real");
    assert_eq!(info.format, format);
    assert_eq!(info.selection, Selection::Explicit("id".to_owned()));
    let sink: Sink<Through, Machine> = sink_or_dummy(None, config);
    let info = sink_info(&sink, Selection::FollowDefault);
    assert_eq!(info.name, "unknown device");
    let owner: OutputOwner<PassthroughDecoder, (), Through, (), Rebuild, Machine, Through> =
        OutputOwner::start(config, (), sink);
    assert_eq!(owner.logical_block, 4);
    assert_eq!(owner.mixer.jitter_chunks, 10);
    assert_eq!(owner.mixer.out_format, format);
}

#[test]
fn a_callback_misses_samples_only_when_nothing_waits() {
    let (mut producer, mut consumer) = input_ring(1, 1).expect("ring");
    let stats = InputStats::new();
    assert_eq!(publish_samples(&mut producer, &stats, vec![1, 2, 3]), 3);
    assert_eq!(drain_ring(&mut consumer, 2), (vec![1, 2], 0));
    assert_eq!(drain_ring(&mut consumer, 2), (vec![3, 0], 1));
    assert_eq!(poll_sample(&mut consumer), SourcePoll::Pending);
}
