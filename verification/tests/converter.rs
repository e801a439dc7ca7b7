use insanity::audio::chunk::AudioChunk;
use insanity::audio::converter::{FormatConverter, ResampledSource};
use insanity::audio::flatten::ChunkFlattener;
use insanity::audio::float::Arithmetic;
use insanity::audio::sample::{Flow, Resampler, ResamplerSpec, SampleSource, SyncSampleSource};
use insanity::audio::sample_ops::{interleave_channels, split_channels};
use insanity::audio::AudioFormat;
use std::collections::VecDeque;

struct Machine;

fn f(bits: u32) -> f32 {
    f32::from_bits(bits)
}

impl Arithmetic for Machine {
    fn sum(a: u32, b: u32) -> u32 {
        (f(a) + f(b)).to_bits()
    }

    fn difference(a: u32, b: u32) -> u32 {
        (f(a) - f(b)).to_bits()
    }

    fn product(a: u32, b: u32) -> u32 {
        (f(a) * f(b)).to_bits()
    }

    fn quotient(a: u32, b: u32) -> u32 {
        (f(a) / f(b)).to_bits()
    }

    fn square_root(a: u32) -> u32 {
        f(a).sqrt().to_bits()
    }

    fn count(n: usize) -> u32 {
        (n as f32).to_bits()
    }

    fn volume_multiplier(volume: usize) -> u32 {
        let a: f32 = 0.2;
        (a * ((1.0 + 1.0 / a).powf(volume as f32 / 100.0) - 1.0)).to_bits()
    }

    fn loudness(samples: &[u32]) -> u64 {
        samples.len() as u64
    }
}

fn bits(samples: &[f32]) -> Vec<u32> {
    samples.iter().map(|s| s.to_bits()).collect()
}

fn floats(samples: &[u32]) -> Vec<f32> {
    samples.iter().map(|s| f(*s)).collect()
}

struct ModelPump {
    channels: usize,
    div: usize,
    staging: VecDeque<u32>,
    ready: VecDeque<u32>,
}

impl Resampler for ModelPump {
    fn flow(&self) -> Flow {
        unreachable!()
    }

    fn push_sample(&mut self, sample: u32) {
        self.staging.push_back(sample);
        let group = self.channels.max(1) * self.div.max(1);
        while self.staging.len() >= group {
            let first = self.staging.drain(..group).next();
            self.ready.extend(first);
        }
    }

    fn pop_sample(&mut self) -> Option<u32> {
        self.ready.pop_front()
    }

    fn buffered(&self) -> usize {
        self.ready.len()
    }
}

impl From<ResamplerSpec> for ModelPump {
    fn from(spec: ResamplerSpec) -> Self {
        let div = spec.source_rate / spec.target_rate.max(1);
        ModelPump {
            channels: spec.source_channels,
            div: div.max(1) as usize,
            staging: VecDeque::new(),
            ready: VecDeque::new(),
        }
    }
}

struct VecSource {
    format: AudioFormat,
    data: VecDeque<u32>,
}

impl VecSource {
    fn new(channels: u16, rate: u32, data: Vec<f32>) -> Self {
        VecSource {
            format: AudioFormat::new(channels, rate),
            data: bits(&data).into(),
        }
    }
}

impl SampleSource for VecSource {
    type Samples = VecDeque<u32>;

    fn format(&self) -> &AudioFormat {
        &self.format
    }

    fn into_samples(self) -> VecDeque<u32> {
        self.data
    }
}

impl SyncSampleSource for VecSource {
    fn next_sync(&mut self) -> Option<u32> {
        self.data.pop_front()
    }
}

type Converter = FormatConverter<ModelPump, Machine>;

fn block(converter: &mut Converter) -> Option<Vec<f32>> {
    converter.take_block().map(|block| floats(&block))
}

#[test]
fn passthrough_moves_samples() {
    let format = AudioFormat::new(2, 48000);
    let mut converter: Converter = FormatConverter::new(format, format, 4, 16);
    let samples = vec![1.0, 2.0, 3.0, 4.0];
    assert_eq!(converter.feed(bits(&samples)), 0);
    assert_eq!(block(&mut converter), Some(samples));
    assert_eq!(block(&mut converter), None);
}

#[test]
fn channel_convert_changes_content_before_resampler() {
    let from = AudioFormat::new(2, 48000);
    let to = AudioFormat::new(1, 48000);
    let mut converter: Converter = FormatConverter::new(from, to, 2, 16);
    assert_eq!(converter.feed(bits(&[1.0, 3.0, 2.0, 4.0])), 0);
    assert_eq!(block(&mut converter), Some(vec![2.0, 3.0]));
}

#[test]
fn ratio_pump_counts_span_feeds() {
    let from = AudioFormat::new(2, 48000);
    let to = AudioFormat::new(2, 24000);
    let mut converter: Converter = FormatConverter::new(from, to, 4, 64);
    for _ in 0..4 {
        assert_eq!(converter.feed(bits(&[0.5; 8])), 0);
    }
    let mut total = 0;
    while let Some(block) = converter.take_block() {
        total += block.len();
    }
    assert_eq!(total, 8);
}

#[test]
fn capacity_bound_drops_oldest_and_reports() {
    let format = AudioFormat::new(1, 48000);
    let mut converter: Converter = FormatConverter::new(format, format, 2, 4);
    assert_eq!(converter.feed(bits(&[1.0, 2.0, 3.0, 4.0, 5.0, 6.0])), 2);
    assert_eq!(converter.pending_samples(), 4);
    assert_eq!(block(&mut converter), Some(vec![3.0, 4.0]));
    assert_eq!(block(&mut converter), Some(vec![5.0, 6.0]));
}

#[test]
fn zero_block_takes_nothing() {
    let format = AudioFormat::new(1, 48000);
    let mut converter: Converter = FormatConverter::new(format, format, 0, 4);
    assert_eq!(converter.feed(bits(&[1.0, 2.0])), 0);
    assert_eq!(block(&mut converter), None);
}

#[test]
fn ragged_feed_counts_truncation() {
    let from = AudioFormat::new(2, 48000);
    let to = AudioFormat::new(1, 48000);
    let mut converter: Converter = FormatConverter::new(from, to, 1, 16);
    assert_eq!(converter.feed(bits(&[1.0, 3.0, 2.0])), 1);
    assert_eq!(block(&mut converter), Some(vec![2.0]));
}

#[test]
fn factory_derives_pump_channels_and_ratio() {
    let from = AudioFormat::new(2, 48000);
    let to = AudioFormat::new(1, 24000);
    let mut converter: Converter = FormatConverter::new(from, to, 2, 16);
    assert_eq!(converter.feed(bits(&[1.0, 3.0, 2.0, 4.0])), 0);
    assert_eq!(converter.feed(bits(&[1.0, 3.0, 2.0, 4.0])), 0);
    assert_eq!(block(&mut converter), Some(vec![2.0, 2.0]));
}

fn drained(source: &mut ResampledSource<VecSource, ModelPump>) -> Vec<f32> {
    let mut out = Vec::new();
    while let Some(sample) = source.next_sync() {
        out.push(f(sample));
    }
    out
}

fn driven(source: &mut ResampledSource<VecSource, ModelPump>) -> Vec<f32> {
    let mut out = Vec::new();
    loop {
        let next = match source.take_ready() {
            Some(ready) => ready,
            None => loop {
                let input = source.delegate.next_sync();
                let sample = source.drive(input);
                if sample.is_some() || source.drained {
                    break sample;
                }
            },
        };
        match next {
            Some(sample) => out.push(f(sample)),
            None => return out,
        }
    }
}

#[test]
fn resampled_source_emits_processed_output_at_end_of_stream() {
    let delegate = VecSource::new(1, 48000, vec![1.0, 2.0, 3.0, 4.0]);
    let mut source: ResampledSource<VecSource, ModelPump> =
        ResampledSource::new(delegate, 24000, 480);
    assert_eq!(source.format(), &AudioFormat::new(1, 24000));
    assert_eq!(drained(&mut source), vec![1.0, 3.0]);
    assert_eq!(source.next_sync(), None);
}

#[test]
fn resampled_source_derives_channels_from_delegate() {
    let delegate = VecSource::new(2, 44100, vec![1.0, 2.0]);
    let source: ResampledSource<VecSource, ModelPump> =
        ResampledSource::new(delegate, 48000, 480);
    assert_eq!(source.format(), &AudioFormat::new(2, 48000));
}

#[test]
fn resampled_source_sync_matches_async() {
    let data = vec![4.0, 5.0, 6.0, 7.0];
    let mut stepped: ResampledSource<VecSource, ModelPump> =
        ResampledSource::new(VecSource::new(1, 48000, data.clone()), 48000, 480);
    let mut sync_source: ResampledSource<VecSource, ModelPump> =
        ResampledSource::new(VecSource::new(1, 48000, data), 48000, 480);
    assert_eq!(driven(&mut stepped), drained(&mut sync_source));
}

#[test]
fn flattens_chunks_in_order() {
    let mut flattener = ChunkFlattener::new(AudioFormat::new(2, 48000));
    assert!(flattener.is_empty());
    flattener.push_chunk(AudioChunk::new(
        0,
        AudioFormat::new(2, 48000),
        bits(&[0.1, 0.2]),
    ));
    flattener.push_chunk(AudioChunk::new(1, AudioFormat::new(2, 48000), bits(&[0.3])));
    assert_eq!(flattener.len(), 3);
    assert_eq!(flattener.next_sync().map(f), Some(0.1));
    assert_eq!(flattener.next_sync().map(f), Some(0.2));
    assert_eq!(flattener.next_sync().map(f), Some(0.3));
    assert_eq!(flattener.next_sync(), None);
    assert!(flattener.is_empty());
}

#[test]
fn empty_flattener_yields_none() {
    let mut flattener = ChunkFlattener::new(AudioFormat::new(1, 48000));
    assert_eq!(flattener.next_sync(), None);
    assert_eq!(flattener.format(), AudioFormat::new(1, 48000));
}

#[test]
fn separate_empty_count_returns_empty() {
    assert!(split_channels(&[0.1, 0.2], 0).is_empty());
    assert!(interleave_channels::<f32>(&[]).is_empty());
}

#[test]
fn separate_ragged_distributes_round_robin() {
    let out = split_channels(&[0.0, 1.0, 2.0, 3.0, 4.0, 5.0, 6.0], 3);
    assert_eq!(out.len(), 3);
    assert_eq!(out[0], vec![0.0, 3.0, 6.0]);
    assert_eq!(out[1], vec![1.0, 4.0]);
    assert_eq!(out[2], vec![2.0, 5.0]);
}

#[test]
fn separate_aligned_roundtrips_through_interleave() {
    let samples: Vec<f32> = (0..12).map(|v| v as f32).collect();
    let channels = split_channels(&samples, 3);
    assert_eq!(interleave_channels(&channels), samples);
}

#[test]
fn separate_ragged_roundtrips_through_interleave() {
    for len in 0..14u32 {
        let samples: Vec<u32> = (0..len).collect();
        for count in 1..6 {
            let channels = split_channels(&samples, count);
            assert_eq!(interleave_channels(&channels), samples);
        }
    }
}
