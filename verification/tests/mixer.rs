use insanity::audio::chunk::AudioChunk;
use insanity::audio::codec::{AudioCodec, AudioDecoder, EncodedChunk};
use insanity::audio::float::Arithmetic;
use insanity::audio::mixer::{
    ChunkDecoder, Conceal, JitterStage, Mixer, MixerInput, MixerMetrics, DEFAULT_OUT_FRAMES,
    PLC_FADE_SAMPLES,
};
use insanity::audio::owner::{apply_op, apply_ops, MixerOp, OpReply};
use insanity::audio::report::{format_audio_interval, format_metrics_line};
use insanity::audio::sample::{Flow, Resampler, SyncSampleSource};
use insanity::audio::transform::{ChunkTransform, Gain, MaybeChunk};
use insanity::audio::AudioFormat;
use std::collections::VecDeque;
use std::sync::atomic::{AtomicUsize, Ordering};

struct Machine;

fn f(bits: u32) -> f32 {
    f32::from_bits(bits)
}

impl Arithmetic for Machine {
    fn sum(a: u32, b: u32) -> u32 {
        (f(a) + f(b)).to_bits()
    }

    fn difference(a: u32, b: u32) -> u32 {
        (f(a) - f(b)).to_bits()
    }

    fn product(a: u32, b: u32) -> u32 {
        (f(a) * f(b)).to_bits()
    }

    fn quotient(a: u32, b: u32) -> u32 {
        (f(a) / f(b)).to_bits()
    }

    fn square_root(a: u32) -> u32 {
        f(a).sqrt().to_bits()
    }

    fn count(n: usize) -> u32 {
        (n as f32).to_bits()
    }

    fn volume_multiplier(volume: usize) -> u32 {
        let a: f32 = 0.2;
        (a * ((1.0 + 1.0 / a).powf(volume as f32 / 100.0) - 1.0)).to_bits()
    }

    fn loudness(samples: &[u32]) -> u64 {
        samples.len() as u64
    }
}

fn bits(samples: &[f32]) -> Vec<u32> {
    samples.iter().map(|s| s.to_bits()).collect()
}

fn floats(samples: &[u32]) -> Vec<f32> {
    samples.iter().map(|s| f(*s)).collect()
}

struct TagDecoder {
    frames: usize,
}

impl AudioDecoder for TagDecoder {
    fn decode(&mut self, frame: &EncodedChunk) -> Option<AudioChunk> {
        let channels = frame.format.channel_count as usize;
        let value = frame.sequence_number as f32 * 0.1;
        Some(AudioChunk::new(
            frame.sequence_number,
            frame.format,
            bits(&vec![value; self.frames * channels]),
        ))
    }
}

struct ScriptedResampler {
    buffer: VecDeque<u32>,
}

impl Resampler for ScriptedResampler {
    fn flow(&self) -> Flow {
        unreachable!()
    }

    fn push_sample(&mut self, sample: u32) {
        self.buffer.push_back(sample);
    }

    fn pop_sample(&mut self) -> Option<u32> {
        self.buffer.pop_front()
    }

    fn buffered(&self) -> usize {
        self.buffer.len()
    }
}

type Rebuild = fn(&AudioFormat) -> Option<TagDecoder>;
type TestMixer<T, M> = Mixer<TagDecoder, T, ScriptedResampler, M, Rebuild, Machine>;

fn build(_: &AudioFormat) -> Option<TagDecoder> {
    Some(TagDecoder { frames: 480 })
}

const REBUILD: Rebuild = build;

fn script() -> ScriptedResampler {
    ScriptedResampler {
        buffer: VecDeque::new(),
    }
}

fn out_format() -> AudioFormat {
    AudioFormat::new(2, 48000)
}

fn frame(sequence_number: u128) -> EncodedChunk {
    EncodedChunk {
        sequence_number,
        codec: AudioCodec::Raw,
        payload: Vec::new(),
        format: AudioFormat::new(2, 48000),
    }
}

fn push<T, M>(mixer: &mut TestMixer<T, M>, id: u32, frame: EncodedChunk)
where
    T: ChunkTransform,
    T::OutputT: MaybeChunk,
    M: ChunkTransform,
    M::OutputT: MaybeChunk,
{
    mixer
        .input_mut(id)
        .expect("subscribed slot")
        .push_frame(frame);
}

fn push_via_trait(input: &mut impl MixerInput, frame: EncodedChunk) {
    input.push_frame(frame);
}

fn pull<T, M>(mixer: &mut TestMixer<T, M>, count: usize) -> Vec<f32>
where
    T: ChunkTransform,
    T::OutputT: MaybeChunk,
    M: ChunkTransform,
    M::OutputT: MaybeChunk,
{
    let mut out = Vec::with_capacity(count);
    for _ in 0..count {
        out.push(f(mixer.next_sync().expect("mixer never ends")));
    }
    out
}

fn plain() -> TestMixer<(), ()> {
    Mixer::new(out_format(), 10, DEFAULT_OUT_FRAMES, ())
}

#[test]
fn pushes_flow_to_output_in_order() {
    let mut mixer = plain();
    let id = mixer.subscribe((), REBUILD, script());
    push(&mut mixer, id, frame(0));
    let out = pull(&mut mixer, 960);
    assert!(out.iter().all(|sample| *sample == 0.0));
    assert_eq!(mixer.metrics_snapshot().fills, 1);
    push(&mut mixer, id, frame(1));
    let out = pull(&mut mixer, 960);
    assert!(out.iter().all(|sample| (*sample - 0.1).abs() < 1e-6));
    assert_eq!(mixer.metrics_snapshot().fills, 2);
}

#[test]
fn slot_implements_mixer_input() {
    let mut mixer = plain();
    let id = mixer.subscribe((), REBUILD, script());
    push_via_trait(mixer.input_mut(id).expect("subscribed slot"), frame(2));
    assert!(mixer.input_mut(99).is_none());
    let out = pull(&mut mixer, 960);
    assert!(out.iter().all(|sample| (*sample - 0.2).abs() < 1e-6));
}

#[test]
fn buffered_future_chunk_releases_on_next_push() {
    let mut mixer = plain();
    let id = mixer.subscribe((), REBUILD, script());
    push(&mut mixer, id, frame(0));
    push(&mut mixer, id, frame(2));
    let out = pull(&mut mixer, 960);
    assert!(out.iter().all(|sample| *sample == 0.0));
    assert_eq!(mixer.metrics_snapshot().gap_detected, 1);
    push(&mut mixer, id, frame(3));
    let out = pull(&mut mixer, 960);
    assert!(out.iter().all(|sample| *sample == 0.0));
    let out = pull(&mut mixer, 960);
    assert!(out.iter().all(|sample| (*sample - 0.2).abs() < 1e-6));
}

#[test]
fn refill_releases_only_what_the_block_needs() {
    let mut mixer = plain();
    let id = mixer.subscribe((), REBUILD, script());
    push(&mut mixer, id, frame(0));
    push(&mut mixer, id, frame(1));
    let _ = pull(&mut mixer, 100);
    let slot = mixer.input_mut(id).expect("slot");
    assert_eq!(slot.jitter.buffer.len(), 1);
}

#[test]
fn duplicate_seq_counts_late_drop() {
    let mut mixer = plain();
    let id = mixer.subscribe((), REBUILD, script());
    push(&mut mixer, id, frame(0));
    let _ = pull(&mut mixer, 960);
    push(&mut mixer, id, frame(0));
    assert_eq!(mixer.metrics_snapshot().late_dropped, 1);
}

#[test]
fn virgin_nonzero_seq_counts_gap_but_plays() {
    let mut mixer = plain();
    let id = mixer.subscribe((), REBUILD, script());
    push(&mut mixer, id, frame(5));
    assert_eq!(mixer.metrics_snapshot().gap_detected, 1);
    let out = pull(&mut mixer, 960);
    assert!(out.iter().all(|sample| (*sample - 0.5).abs() < 1e-6));
}

#[test]
fn starvation_holds_last_sample_then_fades() {
    let mut mixer = plain();
    let id = mixer.subscribe((), REBUILD, script());
    push(&mut mixer, id, frame(1));
    let _ = pull(&mut mixer, 960);
    let held = pull(&mut mixer, 1);
    assert!((held[0] - 0.1).abs() < 1e-6);
    let faded = pull(&mut mixer, 4);
    assert!(faded[0] < 0.1 && faded[0] > 0.0);
    assert!(faded.windows(2).all(|pair| pair[1] < pair[0]));
    let snapshot = mixer.metrics_snapshot();
    assert_eq!(snapshot.underrun, 1);
    assert_eq!(snapshot.plc_hold, 960);
}

#[test]
fn conceal_run_covers_full_fade_without_pulling() {
    let mut conceal = Conceal::<Machine>::new();
    let half = 0.5f32.to_bits();
    assert_eq!(conceal.next(Some(half)), half);
    assert_eq!(conceal.next(None), half);
    for _ in 1..PLC_FADE_SAMPLES {
        conceal.next(None);
    }
    assert_eq!(conceal.underrun, 1);
    assert_eq!(conceal.plc_hold, PLC_FADE_SAMPLES);
    assert_eq!(conceal.next(Some(0.25f32.to_bits())), 0.25f32.to_bits());
}

#[test]
fn conceal_fades_linearly() {
    let mut conceal = Conceal::<Machine>::default();
    conceal.next(Some(1.0f32.to_bits()));
    conceal.next(None);
    let faded: Vec<f32> = (1..PLC_FADE_SAMPLES)
        .map(|_| f(conceal.next(Some(1.0f32.to_bits()))))
        .collect();
    assert_eq!(faded[479], 0.5);
    assert_eq!(faded[719], 0.25);
    assert_eq!(conceal.fade_pos, 0);
    assert_eq!(conceal.underrun, 1);
}

#[test]
fn two_peers_sum_and_clip() {
    let mut mixer = plain();
    let first = mixer.subscribe((), REBUILD, script());
    let second = mixer.subscribe((), REBUILD, script());
    push(&mut mixer, first, frame(4));
    push(&mut mixer, second, frame(4));
    let out = pull(&mut mixer, 960);
    assert!(out.iter().all(|sample| *sample == 0.8));
    mixer.unsubscribe(first);
    mixer.unsubscribe(second);
    let first = mixer.subscribe((), REBUILD, script());
    let second = mixer.subscribe((), REBUILD, script());
    push(&mut mixer, first, frame(9));
    push(&mut mixer, second, frame(9));
    let out = pull(&mut mixer, 960);
    assert!(out.iter().all(|sample| *sample == 1.0));
    assert_eq!(mixer.metrics_snapshot().clip_hits, 960);
}

#[test]
fn per_peer_transform_selects_processing() {
    let (gain, _) = Gain::<Machine>::shared(0, 500);
    let mut mixer: TestMixer<Gain<Machine>, ()> =
        Mixer::new(out_format(), 10, DEFAULT_OUT_FRAMES, ());
    let id = mixer.subscribe(gain, REBUILD, script());
    push(&mut mixer, id, frame(5));
    let out = pull(&mut mixer, 960);
    assert!(out.iter().all(|sample| *sample == 0.0));
}

#[test]
fn bus_transform_applies_to_mix() {
    let (gain, _) = Gain::<Machine>::shared(0, 500);
    let mut mixer: TestMixer<(), Gain<Machine>> =
        Mixer::new(out_format(), 10, DEFAULT_OUT_FRAMES, gain);
    let id = mixer.subscribe((), REBUILD, script());
    push(&mut mixer, id, frame(5));
    let out = pull(&mut mixer, 960);
    assert!(out.iter().all(|sample| *sample == 0.0));
}

#[test]
fn unsubscribe_stops_peer() {
    let mut mixer = plain();
    let id = mixer.subscribe((), REBUILD, script());
    assert_eq!(mixer.peer_count(), 1);
    mixer.unsubscribe(id);
    assert_eq!(mixer.peer_count(), 0);
    let out = pull(&mut mixer, 4);
    assert!(out.iter().all(|sample| *sample == 0.0));
}

#[test]
fn decoder_rebuilds_once_per_format() {
    let rebuilds = AtomicUsize::new(0);
    let mut decoder = ChunkDecoder::new(|_: &AudioFormat| {
        rebuilds.fetch_add(1, Ordering::Relaxed);
        Some(TagDecoder { frames: 480 })
    });
    let mono = AudioFormat::new(1, 48000);
    let stereo = AudioFormat::new(2, 48000);
    let mono_frame = EncodedChunk {
        sequence_number: 0,
        codec: AudioCodec::Raw,
        payload: Vec::new(),
        format: mono,
    };
    let stereo_frame = EncodedChunk {
        sequence_number: 1,
        codec: AudioCodec::Raw,
        payload: Vec::new(),
        format: stereo,
    };
    assert!(decoder.decode_frame(&mono_frame).is_some());
    assert!(decoder.decode_frame(&mono_frame).is_some());
    assert!(decoder.decode_frame(&stereo_frame).is_some());
    assert_eq!(rebuilds.load(Ordering::Relaxed), 2);
}

#[test]
fn decoder_failure_skips_frame() {
    let mut decoder = ChunkDecoder::new(|_: &AudioFormat| None::<TagDecoder>);
    assert!(decoder.decode_frame(&frame(0)).is_none());
}

#[test]
fn jitter_stage_buffers_future_and_releases() {
    let mut stage = JitterStage::new(10);
    let format = AudioFormat::new(2, 48000);
    let chunk = |sequence_number: u128| {
        AudioChunk::new(
            sequence_number,
            format,
            bits(&vec![sequence_number as f32; 4]),
        )
    };
    stage.push(chunk(0));
    stage.push(chunk(2));
    assert_eq!(stage.pull().map(|c| c.sequence_number), Some(0));
    assert_eq!(stage.pull().map(|c| c.sequence_number), None);
    stage.push(chunk(3));
    let released = stage.pull().expect("buffered chunk releases");
    assert_eq!(released.sequence_number, 2);
    assert_eq!(stage.gap_detected, 1);
    assert_eq!(stage.late_dropped, 0);
}

#[test]
fn input_slot_runs_pipeline_on_push() {
    let mut mixer = plain();
    let id = mixer.subscribe((), REBUILD, script());
    let slot = mixer.input_mut(id).expect("slot");
    slot.push_frame(frame(3));
    let ordered = slot.jitter.pull().expect("ordered chunk");
    assert_eq!(ordered.sequence_number, 3);
    for sample in ordered.audio_data {
        slot.resampler.push_sample(sample);
    }
    assert_eq!(slot.resampler.pop_sample().map(f), Some(0.3));
}

#[test]
fn bus_gain_overshoot_caught_by_terminal_clip() {
    let (gain, _) = Gain::<Machine>::shared(200, 500);
    let mut mixer: TestMixer<(), Gain<Machine>> =
        Mixer::new(out_format(), 10, DEFAULT_OUT_FRAMES, gain);
    let id = mixer.subscribe((), REBUILD, script());
    push(&mut mixer, id, frame(9));
    let out = pull(&mut mixer, 960);
    assert!(out.iter().all(|sample| *sample == 1.0));
    assert_eq!(mixer.metrics_snapshot().clip_hits, 960);
}

struct Dropping;

impl ChunkTransform for Dropping {
    type OutputT = Option<AudioChunk>;

    fn transform(&mut self, chunk: AudioChunk) -> Option<AudioChunk> {
        if chunk.sequence_number % 2 == 0 {
            Some(chunk)
        } else {
            None
        }
    }
}

#[test]
fn dropped_chunks_never_reach_the_mix() {
    let mut mixer: TestMixer<Dropping, ()> =
        Mixer::new(out_format(), 10, DEFAULT_OUT_FRAMES, ());
    let id = mixer.subscribe(Dropping, REBUILD, script());
    push(&mut mixer, id, frame(2));
    push(&mut mixer, id, frame(3));
    let slot = mixer.input_mut(id).expect("slot");
    assert_eq!(slot.jitter.buffer.len(), 1);
    assert_eq!(slot.jitter.buffer.prev(), 2);
}

#[test]
fn requests_are_met_in_order_and_answered() {
    let mut mixer = plain();
    let mut ops: VecDeque<MixerOp<(), ScriptedResampler, Rebuild, &str, &str>> = VecDeque::new();
    ops.push_back(MixerOp::Snapshot("before"));
    ops.push_back(MixerOp::Subscribe {
        transform: (),
        rebuild: REBUILD,
        resampler: script(),
        reply: "first",
    });
    ops.push_back(MixerOp::Push {
        slot: 0,
        chunk: frame(5),
    });
    ops.push_back(MixerOp::Push {
        slot: 7,
        chunk: frame(5),
    });
    ops.push_back(MixerOp::Subscribe {
        transform: (),
        rebuild: REBUILD,
        resampler: script(),
        reply: "second",
    });
    ops.push_back(MixerOp::Unsubscribe(1));
    ops.push_back(MixerOp::Snapshot("after"));
    let replies = apply_ops(&mut mixer, ops);
    assert_eq!(replies.slots, vec![("first", 0), ("second", 1)]);
    let peers: Vec<(&str, usize, usize)> = replies
        .snapshots
        .iter()
        .map(|(to, (metrics, peers))| (*to, metrics.gap_detected, *peers))
        .collect();
    assert_eq!(peers, vec![("before", 0, 0), ("after", 1, 1)]);
    let out = pull(&mut mixer, 2);
    assert_eq!(out, vec![0.5, 0.5]);
    let op: MixerOp<(), ScriptedResampler, Rebuild, (), ()> = MixerOp::Unsubscribe(0);
    assert!(matches!(apply_op(&mut mixer, op), OpReply::Nothing));
    assert_eq!(mixer.peer_count(), 0);
}

#[test]
fn metrics_lines_show_what_moved() {
    let prev = MixerMetrics {
        gap_detected: 1,
        fills: 100,
        clip_hits: 50,
        ..MixerMetrics::default()
    };
    let current = MixerMetrics {
        gap_detected: 3,
        late_dropped: 4,
        overflow_dropped: 9,
        underrun: 5,
        plc_hold: 960,
        clip_hits: 20,
        fills: 1100,
        stale_dropped: 8,
    };
    assert_eq!(
        format_metrics_line(&prev, &current, 12345, 2),
        "audio gaps=2 late=4 underruns=5 plc=960 clips=0 fills=1000 fill_avg_ns=12345 peers=2"
    );
    assert_eq!(
        format_audio_interval(&prev, &current, 7, 2, 10, 11, 12),
        "audio gaps=2 late=4 overflow=9 underruns=5 plc=960 clips=0 fills=1000 stale=8 \
         fill_avg_ns=7 peers=2 dropped=10 ring_underruns=11 ring_overruns=12"
    );
}
