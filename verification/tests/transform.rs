use insanity::audio::chunk::AudioChunk;
use insanity::audio::denoiser::Denoiser;
use insanity::audio::float::Arithmetic;
use insanity::audio::transform::{
    ChannelMap, ChunkTransform, Clip, Denoise, Depop, Detector, Gain, GainControl, Hysteresis,
    JitterStage, Link, MetricsReader, Mute, PassthroughGate, PeakDetector, RmsDetector,
    SilenceGate, POP_THRESHOLD,
};
use insanity::audio::AudioFormat;
use insanity::user_input_event::DenoiseSelection;
use std::collections::VecDeque;

struct Machine;

fn f(bits: u32) -> f32 {
    f32::from_bits(bits)
}

impl Arithmetic for Machine {
    fn sum(a: u32, b: u32) -> u32 {
        (f(a) + f(b)).to_bits()
    }

    fn difference(a: u32, b: u32) -> u32 {
        (f(a) - f(b)).to_bits()
    }

    fn product(a: u32, b: u32) -> u32 {
        (f(a) * f(b)).to_bits()
    }

    fn quotient(a: u32, b: u32) -> u32 {
        (f(a) / f(b)).to_bits()
    }

    fn square_root(a: u32) -> u32 {
        f(a).sqrt().to_bits()
    }

    fn count(n: usize) -> u32 {
        (n as f32).to_bits()
    }

    fn volume_multiplier(volume: usize) -> u32 {
        let a: f32 = 0.2;
        (a * ((1.0 + 1.0 / a).powf(volume as f32 / 100.0) - 1.0)).to_bits()
    }

    fn loudness(samples: &[u32]) -> u64 {
        if samples.is_empty() {
            return 0;
        }
        let squares: f64 = samples.iter().map(|s| f(*s) as f64 * f(*s) as f64).sum();
        let db = 20.0 * (squares / samples.len() as f64).sqrt().log10();
        ((db + 50.0) * (1.0 / 50.0)).clamp(0.0, 1.0).to_bits()
    }
}

fn bits(samples: &[f32]) -> Vec<u32> {
    samples.iter().map(|s| s.to_bits()).collect()
}

fn floats(samples: &[u32]) -> Vec<f32> {
    samples.iter().map(|s| f(*s)).collect()
}

struct DoubleDenoiser;

impl Denoiser for DoubleDenoiser {
    const FRAME_SIZE: usize = 4;

    fn init() -> Self {
        DoubleDenoiser
    }

    fn process_frame(&mut self, output: &mut [u32], input: &[u32]) {
        for (o, i) in output.iter_mut().zip(input.iter()) {
            *o = (f(*i) * 2.0).to_bits();
        }
    }
}

fn chunk(data: Vec<f32>) -> AudioChunk {
    chunk_with(2, data)
}

fn chunk_with(channels: u16, data: Vec<f32>) -> AudioChunk {
    AudioChunk::new(7, AudioFormat::new(channels, 48000), bits(&data))
}

#[test]
fn mute_passes_or_silences() {
    let (mut mute, control) = Mute::shared(false);
    let out = mute.transform(chunk(vec![0.5; 4]));
    assert_eq!(out.sequence_number, 7);
    assert_eq!(floats(&out.audio_data), vec![0.5; 4]);
    control.set(true);
    assert!(control.is_muted());
    let out = mute.transform(chunk(vec![0.5; 4]));
    assert_eq!(out.sequence_number, 7);
    assert_eq!(floats(&out.audio_data), vec![0.0; 4]);
}

#[test]
fn gain_unity_passes_through_zero_silences() {
    let (mut gain, control) = Gain::<Machine>::shared(100, 500);
    let out = gain.transform(chunk(vec![0.5; 4]));
    assert_eq!(floats(&out.audio_data), vec![0.5; 4]);
    control.set(0);
    assert_eq!(control.get(), 0);
    let out = gain.transform(chunk(vec![0.5; 4]));
    assert_eq!(floats(&out.audio_data), vec![0.0; 4]);
}

#[test]
fn gain_clamps_at_max() {
    let control = GainControl::new(999, 500);
    assert_eq!(control.get(), 500);
}

#[test]
fn gain_set_clamps_at_max() {
    let control = GainControl::new(10, 500);
    control.set(501);
    assert_eq!(control.get(), 500);
    control.set(499);
    assert_eq!(control.get(), 499);
}

#[test]
fn clip_passes_in_range_untouched() {
    let mut clip = Clip::new();
    let out = clip.transform(chunk(vec![-1.0, -0.5, 0.0, 0.5, 1.0]));
    assert_eq!(floats(&out.audio_data), vec![-1.0, -0.5, 0.0, 0.5, 1.0]);
    assert_eq!(clip.clip_hits, 0);
}

#[test]
fn clip_clamps_and_counts_hits() {
    let mut clip = Clip::default();
    let out = clip.transform(chunk(vec![-2.0, 0.25, 1.5]));
    assert_eq!(floats(&out.audio_data), vec![-1.0, 0.25, 1.0]);
    assert_eq!(clip.clip_hits, 2);
}

#[test]
fn clip_keeps_nan_and_bounds_infinity() {
    let mut clip = Clip::new();
    let out = clip.transform(chunk(vec![
        f32::NAN,
        f32::INFINITY,
        f32::NEG_INFINITY,
        -0.0,
    ]));
    assert!(f(out.audio_data[0]).is_nan());
    assert_eq!(floats(&out.audio_data[1..]), vec![1.0, -1.0, 0.0]);
    assert_eq!(out.audio_data[3], (-0.0f32).to_bits());
    assert_eq!(clip.clip_hits, 3);
}

#[test]
fn denoise_none_passes_through() {
    let (mut denoise, control) = Denoise::<DoubleDenoiser>::shared(DenoiseSelection::Off);
    let out = denoise.transform(chunk(vec![0.5; 8]));
    assert_eq!(floats(&out.audio_data), vec![0.5; 8]);
    control.set(DenoiseSelection::Nnnoiseless);
    let out = denoise.transform(chunk(vec![0.5; 8]));
    assert_eq!(floats(&out.audio_data), vec![1.0; 8]);
}

#[test]
fn denoise_leaves_the_rest_behind_whole_frames() {
    let (mut denoise, control) = Denoise::<DoubleDenoiser>::shared(DenoiseSelection::Nnnoiseless);
    assert_eq!(control.get(), DenoiseSelection::Nnnoiseless);
    let out = denoise.transform(chunk(vec![0.5; 11]));
    let mut expected = vec![1.0; 8];
    expected.extend([0.5; 3]);
    assert_eq!(floats(&out.audio_data), expected);
    let out = denoise.transform(chunk_with(1, vec![0.25; 5]));
    assert_eq!(floats(&out.audio_data), vec![0.5, 0.5, 0.5, 0.5, 0.25]);
    let out = denoise.transform(chunk_with(0, vec![0.25; 5]));
    assert_eq!(floats(&out.audio_data), vec![0.25; 5]);
}

#[test]
fn meter_records_and_passes_through() {
    let (mut meter, state) = MetricsReader::<Machine>::shared();
    let out = meter.transform(chunk(vec![0.5; 8]));
    assert_eq!(floats(&out.audio_data), vec![0.5; 8]);
    let loudness = f64::from_bits(state.loudness());
    assert!(loudness > 0.0 && loudness <= 1.0);
}

#[test]
fn channel_map_matrix() {
    let mut map = ChannelMap::<Machine>::new(2);
    let out = map.transform(chunk_with(1, vec![0.5; 4]));
    assert_eq!(floats(&out.audio_data), vec![0.5; 8]);
    assert_eq!(out.format.channel_count, 2);
    let mut map = ChannelMap::<Machine>::new(1);
    let out = map.transform(chunk(vec![0.25, 0.75]));
    assert_eq!(floats(&out.audio_data), vec![0.5]);
    assert_eq!(out.format.channel_count, 1);
    let mut map = ChannelMap::<Machine>::new(2);
    let out = map.transform(chunk(vec![0.5; 4]));
    assert_eq!(floats(&out.audio_data), vec![0.5; 4]);
}

#[test]
fn channel_map_repeats_channels_in_turn() {
    let mut map = ChannelMap::<Machine>::new(3);
    let out = map.transform(chunk(vec![1.0, 2.0, 3.0, 4.0, 5.0]));
    assert_eq!(
        floats(&out.audio_data),
        vec![1.0, 2.0, 1.0, 3.0, 4.0, 3.0]
    );
    let mut map = ChannelMap::<Machine>::new(0);
    let out = map.transform(chunk(vec![1.0, 2.0]));
    assert_eq!(floats(&out.audio_data), vec![1.0, 2.0]);
    assert_eq!(out.format.channel_count, 2);
}

#[test]
fn channel_map_capped_never_upmixes() {
    let mut map = ChannelMap::<Machine>::capped(2);
    let out = map.transform(chunk_with(1, vec![0.5; 4]));
    assert_eq!(out.format.channel_count, 1);
    assert_eq!(floats(&out.audio_data), vec![0.5; 4]);
    let out = map.transform(chunk(vec![0.25, 0.75]));
    assert_eq!(out.format.channel_count, 2);
    assert_eq!(floats(&out.audio_data), vec![0.25, 0.75]);
    let out = map.transform(chunk_with(3, vec![0.5; 6]));
    assert_eq!(out.format.channel_count, 2);
    assert_eq!(out.audio_data.len(), 4);
}

#[test]
fn link_chains_in_order() {
    let (mute, mute_control) = Mute::shared(false);
    let (gain, _) = Gain::<Machine>::shared(100, 500);
    let mut chain: Link<Mute, Gain<Machine>> = mute.chain(gain);
    let out = chain.transform(chunk(vec![0.5; 4]));
    assert_eq!(floats(&out.audio_data), vec![0.5; 4]);
    mute_control.set(true);
    let out = chain.transform(chunk(vec![0.5; 4]));
    assert_eq!(floats(&out.audio_data), vec![0.0; 4]);
}

#[test]
fn unit_is_identity_and_nests() {
    let (gain, _) = Gain::<Machine>::shared(0, 500);
    let mut chain = ().chain(gain);
    let out = chain.transform(chunk(vec![0.5; 4]));
    assert_eq!(floats(&out.audio_data), vec![0.0; 4]);
}

#[test]
fn chaining_is_associative_on_a_chunk() {
    let data = vec![0.5, 3.0, -2.0, 0.25];
    let mut left = ()
        .chain(Clip::new())
        .chain(ChannelMap::<Machine>::new(1));
    let mut right = ().chain(Clip::new().chain(ChannelMap::<Machine>::new(1)));
    let out = left.transform(chunk(data.clone()));
    assert_eq!(floats(&out.audio_data), vec![0.75, -0.375]);
    assert_eq!(out, right.transform(chunk(data)));
}

struct Counting {
    calls: usize,
}

impl ChunkTransform for Counting {
    type OutputT = AudioChunk;

    fn transform(&mut self, chunk: AudioChunk) -> AudioChunk {
        self.calls += 1;
        chunk
    }
}

fn peak(threshold: f32) -> PeakDetector {
    PeakDetector::new(threshold.to_bits())
}

fn rms(threshold: f32) -> RmsDetector<Machine> {
    RmsDetector::new(threshold.to_bits())
}

#[test]
fn quiet_passthrough_skips_inner() {
    let mut gate = PassthroughGate::new(Counting { calls: 0 }, peak(0.02));
    let out = gate.transform(chunk(vec![0.005; 8]));
    assert_eq!(out.sequence_number, 7);
    assert_eq!(floats(&out.audio_data), vec![0.005; 8]);
    assert_eq!(gate.inner.calls, 0);
}

#[test]
fn loud_delegates_to_inner() {
    let mut gate = PassthroughGate::new(Counting { calls: 0 }, peak(0.02));
    let out = gate.transform(chunk(vec![0.4; 8]));
    assert_eq!(floats(&out.audio_data), vec![0.4; 8]);
    assert_eq!(gate.inner.calls, 1);
}

#[test]
fn threshold_boundary_runs_inner() {
    let mut gate = PassthroughGate::new(Counting { calls: 0 }, peak(0.02));
    let mut data = vec![0.019; 8];
    data[3] = 0.02;
    let out = gate.transform(chunk(data.clone()));
    assert_eq!(floats(&out.audio_data), data);
    assert_eq!(gate.inner.calls, 1);
}

#[test]
fn below_threshold_passes_through() {
    let mut gate = PassthroughGate::new(Counting { calls: 0 }, peak(0.02));
    let out = gate.transform(chunk(vec![0.019; 8]));
    assert_eq!(floats(&out.audio_data), vec![0.019; 8]);
    assert_eq!(gate.inner.calls, 0);
}

#[test]
fn empty_chunk_passes_through() {
    let mut gate = PassthroughGate::new(Counting { calls: 0 }, peak(0.02));
    let out = gate.transform(chunk(Vec::new()));
    assert!(out.audio_data.is_empty());
    assert_eq!(gate.inner.calls, 0);
}

#[test]
fn nan_runs_inner() {
    let mut gate = PassthroughGate::new(Counting { calls: 0 }, peak(0.02));
    let out = gate.transform(chunk(vec![0.0, f32::NAN, 0.0, 0.0]));
    assert_eq!(gate.inner.calls, 1);
    assert!(f(out.audio_data[1]).is_nan());
}

#[test]
fn gate_nests_in_chain() {
    let mut chain = PassthroughGate::new(Counting { calls: 0 }, peak(0.02))
        .chain(Mute::shared(false).0);
    let out = chain.transform(chunk(vec![0.005; 4]));
    assert_eq!(floats(&out.audio_data), vec![0.005; 4]);
    let out = chain.transform(chunk(vec![0.5; 4]));
    assert_eq!(floats(&out.audio_data), vec![0.5; 4]);
}

#[test]
fn passthrough_hangover_runs_inner_after_speech() {
    let mut gate = PassthroughGate::new(Counting { calls: 0 }, Hysteresis::new(peak(0.02), 2));
    gate.transform(chunk(vec![0.4; 8]));
    for _ in 0..2 {
        gate.transform(chunk(vec![0.0; 8]));
    }
    assert_eq!(gate.inner.calls, 3);
    gate.transform(chunk(vec![0.0; 8]));
    assert_eq!(gate.inner.calls, 3);
}

struct ScriptedDetector {
    script: VecDeque<bool>,
}

impl Detector for ScriptedDetector {
    fn detect(&mut self, _samples: &[u32]) -> bool {
        self.script.pop_front().unwrap_or(false)
    }
}

#[test]
fn hangover_counts_down_silence() {
    let mut hangover = Hysteresis::new(peak(0.02), 2);
    assert!(hangover.detect(&bits(&[0.4; 8])));
    assert!(hangover.detect(&bits(&[0.0; 8])));
    assert!(hangover.detect(&bits(&[0.0; 8])));
    assert!(!hangover.detect(&bits(&[0.0; 8])));
}

#[test]
fn hangover_loud_resets_countdown() {
    let mut hangover = Hysteresis::new(peak(0.02), 2);
    assert!(hangover.detect(&bits(&[0.4; 8])));
    assert!(hangover.detect(&bits(&[0.0; 8])));
    assert!(hangover.detect(&bits(&[0.4; 8])));
    assert!(hangover.detect(&bits(&[0.0; 8])));
    assert!(hangover.detect(&bits(&[0.0; 8])));
    assert!(!hangover.detect(&bits(&[0.0; 8])));
}

#[test]
fn hangover_composes_over_stub_detector() {
    let stub = ScriptedDetector {
        script: VecDeque::from([true, false, false, false]),
    };
    let mut hangover = Hysteresis::new(stub, 2);
    assert!(hangover.detect(&bits(&[0.0; 4])));
    assert!(hangover.detect(&bits(&[0.0; 4])));
    assert!(hangover.detect(&bits(&[0.0; 4])));
    assert!(!hangover.detect(&bits(&[0.0; 4])));
}

#[test]
fn hangover_lasts_exactly_its_chunks() {
    for chunks in 0..6 {
        let mut hangover = Hysteresis::new(peak(0.02), chunks);
        assert!(hangover.detect(&bits(&[0.4; 2])));
        let mut held = 0;
        while hangover.detect(&bits(&[0.0; 2])) {
            held += 1;
        }
        assert_eq!(held, chunks);
    }
}

#[test]
fn rms_gate_detects_energy_not_peaks() {
    let mut gate = rms(0.01);
    assert!(!gate.detect(&bits(&[0.0; 960])));
    assert!(gate.detect(&bits(&[0.4; 960])));
    assert!(!gate.detect(&[]));
}

#[test]
fn rms_gate_sine_boundary() {
    let sine: Vec<f32> = (0..960)
        .map(|i| (440.0 * i as f32 / 48000.0 * std::f32::consts::TAU).sin() * 0.02)
        .collect();
    let mut gate = rms(0.01);
    assert!(gate.detect(&bits(&sine)));
    let mut strict = rms(0.02);
    assert!(!strict.detect(&bits(&sine)));
}

#[test]
fn rms_gate_nan_detects() {
    let mut gate = rms(0.01);
    assert!(gate.detect(&bits(&[0.0, f32::NAN, 0.0, 0.0])));
}

#[test]
fn rms_gate_ignores_single_spike() {
    let mut data = vec![0.0; 960];
    data[100] = 0.5;
    let mut gate = rms(0.05);
    assert!(!gate.detect(&bits(&data)));
    let mut peaks = peak(0.02);
    assert!(peaks.detect(&bits(&data)));
}

struct MaybeEncode {
    calls: usize,
    fail: bool,
}

impl ChunkTransform for MaybeEncode {
    type OutputT = Option<AudioChunk>;

    fn transform(&mut self, chunk: AudioChunk) -> Option<AudioChunk> {
        self.calls += 1;
        if self.fail {
            None
        } else {
            Some(chunk)
        }
    }
}

fn silence_gate() -> SilenceGate<MaybeEncode, AudioChunk, Hysteresis<PeakDetector>> {
    SilenceGate::new(
        MaybeEncode {
            calls: 0,
            fail: false,
        },
        Hysteresis::new(peak(0.02), 2),
    )
}

#[test]
fn silence_gate_sends_loud_chunks() {
    let mut gate = silence_gate();
    let out = gate.transform(chunk(vec![0.4; 8]));
    assert_eq!(out.map(|c| c.sequence_number), Some(7));
    assert_eq!(gate.inner.calls, 1);
}

#[test]
fn silence_gate_skips_after_hangover() {
    let mut gate = silence_gate();
    gate.transform(chunk(vec![0.4; 8]));
    for _ in 0..2 {
        assert!(gate.transform(chunk(vec![0.0; 8])).is_some());
    }
    assert!(gate.transform(chunk(vec![0.0; 8])).is_none());
    assert!(gate.transform(chunk(vec![0.0; 8])).is_none());
    assert_eq!(gate.inner.calls, 3);
}

#[test]
fn silence_gate_skips_leading_silence() {
    let mut gate = silence_gate();
    assert!(gate.transform(chunk(vec![0.0; 8])).is_none());
    assert_eq!(gate.inner.calls, 0);
}

#[test]
fn silence_gate_speech_resets_hangover() {
    let mut gate = silence_gate();
    gate.transform(chunk(vec![0.4; 8]));
    gate.transform(chunk(vec![0.0; 8]));
    gate.transform(chunk(vec![0.4; 8]));
    for _ in 0..2 {
        assert!(gate.transform(chunk(vec![0.0; 8])).is_some());
    }
    assert!(gate.transform(chunk(vec![0.0; 8])).is_none());
}

#[test]
fn silence_gate_nan_encodes() {
    let mut gate = silence_gate();
    let out = gate.transform(chunk(vec![0.0, f32::NAN, 0.0, 0.0]));
    assert!(out.is_some());
    assert_eq!(gate.inner.calls, 1);
}

#[test]
fn silence_gate_propagates_inner_failure() {
    let mut gate = SilenceGate::new(
        MaybeEncode {
            calls: 0,
            fail: true,
        },
        Hysteresis::new(peak(0.02), 2),
    );
    assert!(gate.transform(chunk(vec![0.4; 8])).is_none());
    assert_eq!(gate.inner.calls, 1);
}

#[test]
fn silence_gate_follows_stub_detector() {
    let mut gate = SilenceGate::new(
        MaybeEncode {
            calls: 0,
            fail: false,
        },
        ScriptedDetector {
            script: VecDeque::from([true, false]),
        },
    );
    assert!(gate.transform(chunk(vec![0.0; 8])).is_some());
    assert!(gate.transform(chunk(vec![0.0; 8])).is_none());
    assert_eq!(gate.inner.calls, 1);
}

#[test]
fn silence_gate_reopens_after_close() {
    let mut gate = silence_gate();
    gate.transform(chunk(vec![0.4; 8]));
    for _ in 0..5 {
        gate.transform(chunk(vec![0.0; 8]));
    }
    assert!(gate.transform(chunk(vec![0.0; 8])).is_none());
    let out = gate.transform(chunk(vec![0.4; 8]));
    assert_eq!(out.map(|c| c.sequence_number), Some(7));
    for _ in 0..2 {
        assert!(gate.transform(chunk(vec![0.0; 8])).is_some());
    }
    assert!(gate.transform(chunk(vec![0.0; 8])).is_none());
}

fn assert_close(actual: &[u32], expected: &[f32]) {
    assert_eq!(actual.len(), expected.len());
    for (i, (a, e)) in actual.iter().zip(expected).enumerate() {
        let a = f(*a);
        assert!((a - e).abs() < 1e-6, "sample {i}: {a} vs {e}");
    }
}

fn max_step(samples: &[f32], channels: usize) -> f32 {
    (0..channels)
        .map(|c| {
            samples
                .iter()
                .skip(c)
                .step_by(channels)
                .fold((0.0f32, 0.0f32), |(last, max), s| {
                    (*s, max.max((s - last).abs()))
                })
                .1
        })
        .fold(0.0, f32::max)
}

fn depop(ramp: usize) -> Depop<Machine> {
    Depop::new(ramp)
}

#[test]
fn depop_ramp_frames_from_rate() {
    assert_eq!(Depop::<Machine>::ramp_frames(48000), 240);
    assert_eq!(Depop::<Machine>::ramp_frames(8000), 40);
    assert_eq!(Depop::<Machine>::ramp_frames(1), 1);
}

#[test]
fn depop_passes_continuous_signal_untouched() {
    let sine: Vec<f32> = (0..960)
        .map(|i| (440.0 * (i / 2) as f32 / 48000.0 * std::f32::consts::TAU).sin() * 0.9)
        .collect();
    let mut depop = depop(240);
    let out = depop.transform(chunk(sine.clone()));
    assert_eq!(floats(&out.audio_data), sine);
    assert_eq!(out.sequence_number, 7);
    assert_eq!(depop.pops, 0);
}

#[test]
fn depop_bridges_step_up_from_silence() {
    let mut depop = depop(4);
    let out = depop.transform(chunk_with(1, vec![0.0, 0.0, 0.8, 0.8, 0.8, 0.8, 0.8, 0.8]));
    assert_close(&out.audio_data, &[0.0, 0.0, 0.0, 0.2, 0.4, 0.6, 0.8, 0.8]);
    assert_eq!(depop.pops, 1);
}

#[test]
fn depop_bridges_step_down_across_chunks() {
    let mut depop = depop(4);
    depop.transform(chunk_with(1, vec![0.8; 8]));
    let out = depop.transform(chunk_with(1, vec![0.0; 6]));
    assert_close(&out.audio_data, &[0.8, 0.6, 0.4, 0.2, 0.0, 0.0]);
    assert_eq!(depop.pops, 2);
}

#[test]
fn depop_step_during_ramp_accumulates() {
    let mut depop = depop(4);
    depop.transform(chunk_with(1, vec![0.8; 8]));
    let out = depop.transform(chunk_with(1, vec![0.0, 0.0, 0.8, 0.8, 0.8, 0.8, 0.8]));
    assert_close(&out.audio_data, &[0.8, 0.6, 0.4, 0.5, 0.6, 0.7, 0.8]);
    assert_eq!(depop.pops, 3);
}

#[test]
fn depop_channels_are_independent() {
    let mut depop = depop(2);
    let out = depop.transform(chunk(vec![0.0, 0.0, 0.8, 0.0, 0.8, 0.0, 0.8, 0.0]));
    assert_close(&out.audio_data, &[0.0, 0.0, 0.0, 0.0, 0.4, 0.0, 0.8, 0.0]);
    assert_eq!(depop.pops, 1);
}

#[test]
fn depop_small_steps_pass_untouched() {
    let mut depop = depop(4);
    let data = vec![0.0, 0.2, 0.2, 0.0, 0.0, -0.2, 0.0];
    let out = depop.transform(chunk_with(1, data.clone()));
    assert_eq!(floats(&out.audio_data), data);
    assert_eq!(depop.pops, 0);
}

#[test]
fn depop_ignores_loud_high_frequency_content() {
    let data: Vec<f32> = (0..960)
        .map(|i| {
            let envelope = (i as f32 / 240.0).min(1.0);
            (6000.0 * i as f32 / 48000.0 * std::f32::consts::TAU).sin() * 0.5 * envelope
        })
        .collect();
    assert!(max_step(&data, 1) > f(POP_THRESHOLD));
    let mut depop = depop(240);
    let out = depop.transform(chunk_with(1, data.clone()));
    assert_eq!(floats(&out.audio_data), data);
    assert_eq!(depop.pops, 0);
}

#[test]
fn depop_output_never_jumps_and_converges() {
    let mut data = Vec::new();
    for level in [0.0, 0.9, -0.7, 0.0, 0.5] {
        data.extend(std::iter::repeat_n(level, 480));
    }
    let mut depop = depop(240);
    let out = depop.transform(chunk_with(1, data.clone()));
    assert!(max_step(&floats(&out.audio_data), 1) < 0.01);
    assert_close(&out.audio_data[2160..], &data[2160..]);
    assert_eq!(depop.pops, 4);
}

#[test]
fn depop_non_finite_passes_through_and_recovers() {
    let mut depop = depop(4);
    let out = depop.transform(chunk_with(
        1,
        vec![0.0, f32::NAN, 0.0, 0.8, 0.8, 0.8, 0.8, 0.8],
    ));
    assert!(f(out.audio_data[1]).is_nan());
    assert_close(&out.audio_data[2..], &[0.0, 0.0, 0.2, 0.4, 0.6, 0.8]);
    assert_eq!(depop.pops, 1);
}

#[test]
fn jitter_stage_counts_what_the_network_did() {
    let numbered = |sequence_number| {
        AudioChunk::new(sequence_number, AudioFormat::new(1, 48000), Vec::new())
    };
    let mut stage = JitterStage::new(2);
    stage.push(numbered(0));
    stage.push(numbered(2));
    assert_eq!(stage.gap_detected, 1);
    assert_eq!(stage.overflow_dropped, 1);
    assert_eq!(stage.buffered_chunks(), 1);
    assert_eq!(stage.pull().map(|c| c.sequence_number), None);
    assert_eq!(stage.pull().map(|c| c.sequence_number), Some(2));
    stage.push(numbered(1));
    assert_eq!(stage.late_dropped, 1);
    stage.push(numbered(5));
    assert_eq!(stage.gap_detected, 2);
    stage.reset();
    assert_eq!(stage.buffered_chunks(), 0);
    assert_eq!(stage.late_dropped, 1);
}
