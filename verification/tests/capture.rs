use insanity::audio::capture::{next_chunk, Capture, CaptureOutput, ChunkEncoder};
use insanity::audio::chunk::{AudioChunk, ChunkPoll, SampleChunker, SourcePoll};
use insanity::audio::codec::{AudioCodec, AudioDecoder, AudioEncoder, EncodedChunk, FormatCache};
use insanity::audio::codec_opus::{
    decode_plan, decoded_chunk, decoded_len, encoded_frame, u16_to_channels, Channels, DecodePlan,
};
use insanity::audio::float::Arithmetic;
use insanity::audio::passthrough::{PassthroughDecoder, PassthroughEncoder};
use insanity::audio::sample::{into_chunks, SampleSource, Sampled, SyncSampleSource};
use insanity::audio::transform::{ChannelMap, ChunkTransform, MaybeChunk, MuteControl};
use insanity::audio::AudioFormat;
use std::collections::VecDeque;
use std::sync::atomic::{AtomicUsize, Ordering};
use std::sync::Arc;

struct Machine;

fn f(bits: u32) -> f32 {
    f32::from_bits(bits)
}

impl Arithmetic for Machine {
    fn sum(a: u32, b: u32) -> u32 {
        (f(a) + f(b)).to_bits()
    }

    fn difference(a: u32, b: u32) -> u32 {
        (f(a) - f(b)).to_bits()
    }

    fn product(a: u32, b: u32) -> u32 {
        (f(a) * f(b)).to_bits()
    }

    fn quotient(a: u32, b: u32) -> u32 {
        (f(a) / f(b)).to_bits()
    }

    fn square_root(a: u32) -> u32 {
        f(a).sqrt().to_bits()
    }

    fn count(n: usize) -> u32 {
        (n as f32).to_bits()
    }

    fn volume_multiplier(volume: usize) -> u32 {
        let a: f32 = 0.2;
        (a * ((1.0 + 1.0 / a).powf(volume as f32 / 100.0) - 1.0)).to_bits()
    }

    fn loudness(samples: &[u32]) -> u64 {
        samples.len() as u64
    }
}

fn bits(samples: &[f32]) -> Vec<u32> {
    samples.iter().map(|s| s.to_bits()).collect()
}

fn floats(samples: &[u32]) -> Vec<f32> {
    samples.iter().map(|s| f(*s)).collect()
}

struct Scripted(VecDeque<u32>);

impl SyncSampleSource for Scripted {
    fn next_sync(&mut self) -> Option<u32> {
        self.0.pop_front()
    }
}

fn scripted(samples: Vec<f32>) -> Scripted {
    Scripted(VecDeque::from(bits(&samples)))
}

struct TagEncoder;

impl AudioEncoder for TagEncoder {
    fn encode(&mut self, chunk: &AudioChunk) -> Option<EncodedChunk> {
        Some(EncodedChunk {
            sequence_number: chunk.sequence_number,
            codec: AudioCodec::Raw,
            payload: Vec::new(),
            format: chunk.format,
        })
    }
}

fn chunk(seq: u128, format: AudioFormat, data: Vec<f32>) -> AudioChunk {
    AudioChunk::new(seq, format, bits(&data))
}

struct MuteSkips(Arc<MuteControl>);

impl ChunkTransform for MuteSkips {
    type OutputT = Option<AudioChunk>;

    fn transform(&mut self, chunk: AudioChunk) -> Option<AudioChunk> {
        if self.0.is_muted() {
            None
        } else {
            Some(chunk)
        }
    }
}

fn capture<T, F>(format: AudioFormat, transform: T, rebuild: F) -> Capture<T, TagEncoder, F>
where
    T: ChunkTransform,
    T::OutputT: MaybeChunk,
    F: FnMut(&AudioFormat) -> Option<TagEncoder>,
{
    Capture::new(format, 2, transform, rebuild)
}

#[test]
fn encodes_and_advances_sequence() {
    let format = AudioFormat::new(2, 48000);
    let mut source = scripted(vec![0.0; 8]);
    let mut cap = capture(format, (), |_: &AudioFormat| Some(TagEncoder));
    for seq in 0..2 {
        let frame = match cap.next_output(&mut source) {
            CaptureOutput::Encoded(frame) => frame,
            _ => panic!("expected encoded"),
        };
        assert_eq!(frame.sequence_number, seq);
    }
}

#[test]
fn muted_chunks_skip_but_consume_sequence() {
    let format = AudioFormat::new(2, 48000);
    let control = Arc::new(MuteControl::new(false));
    let mut source = scripted(vec![0.0; 8]);
    let mut cap = capture(format, MuteSkips(control.clone()), |_: &AudioFormat| {
        Some(TagEncoder)
    });
    control.set(true);
    assert!(matches!(
        cap.next_output(&mut source),
        CaptureOutput::Skipped
    ));
    control.set(false);
    let frame = match cap.next_output(&mut source) {
        CaptureOutput::Encoded(frame) => frame,
        _ => panic!("expected encoded after unmute"),
    };
    assert_eq!(frame.sequence_number, 1);
}

#[test]
fn capture_creates_encoder_once_and_reuses_it() {
    let format = AudioFormat::new(2, 48000);
    let rebuilds = AtomicUsize::new(0);
    let mut source = scripted(vec![0.0; 8]);
    let mut cap = capture(format, (), |_: &AudioFormat| {
        rebuilds.fetch_add(1, Ordering::Relaxed);
        Some(TagEncoder)
    });
    assert!(matches!(
        cap.next_output(&mut source),
        CaptureOutput::Encoded(_)
    ));
    assert!(matches!(
        cap.next_output(&mut source),
        CaptureOutput::Encoded(_)
    ));
    assert_eq!(rebuilds.load(Ordering::Relaxed), 1);
}

#[test]
fn capture_failed_rebuild_skips_chunk() {
    let format = AudioFormat::new(2, 48000);
    let mut source = scripted(vec![0.0; 4]);
    let mut cap = capture(format, (), |_: &AudioFormat| None::<TagEncoder>);
    assert!(matches!(
        cap.next_output(&mut source),
        CaptureOutput::Skipped
    ));
}

#[test]
fn exhausted_source_ends_stream() {
    let format = AudioFormat::new(2, 48000);
    let mut source = scripted(vec![0.0; 4]);
    let mut cap = capture(format, (), |_: &AudioFormat| Some(TagEncoder));
    assert!(matches!(
        cap.next_output(&mut source),
        CaptureOutput::Encoded(_)
    ));
    assert!(matches!(
        cap.next_output(&mut source),
        CaptureOutput::EndOfStream
    ));
}

#[test]
fn zero_channel_stream_ends_instead_of_spinning() {
    let mut source = scripted(vec![0.0; 4]);
    let mut cap = capture(AudioFormat::new(0, 48000), (), |_: &AudioFormat| {
        Some(TagEncoder)
    });
    assert!(matches!(
        cap.next_output(&mut source),
        CaptureOutput::EndOfStream
    ));
}

fn format_switches() {
    let mono = AudioFormat::new(1, 48000);
    let stereo = AudioFormat::new(2, 48000);
    let rebuilds = AtomicUsize::new(0);
    let mut encoder = ChunkEncoder::new(
        |_: &AudioFormat| {
            rebuilds.fetch_add(1, Ordering::Relaxed);
            Some(TagEncoder)
        },
        480,
    );
    let mut transform = ChannelMap::<Machine>::capped(2);
    let inputs = vec![
        chunk(0, mono, vec![0.1; 480]),
        chunk(1, mono, vec![0.1; 480]),
        chunk(2, mono, vec![0.1; 480]),
        chunk(3, stereo, vec![0.2; 960]),
        chunk(4, stereo, vec![0.2; 960]),
        chunk(5, stereo, vec![0.2; 960]),
    ];
    let mut formats = Vec::new();
    let mut sequences = Vec::new();
    for input in inputs {
        let converted = transform.transform(input);
        let frame = encoder.encode_chunk(converted).expect("encoded");
        formats.push(frame.format);
        sequences.push(frame.sequence_number);
    }
    assert_eq!(formats, vec![mono, mono, mono, stereo, stereo, stereo]);
    assert_eq!(sequences, vec![0, 1, 2, 3, 4, 5]);
    assert_eq!(rebuilds.load(Ordering::Relaxed), 2);
}

#[test]
fn capture_tracks_format_switches_with_continuous_sequence() {
    format_switches();
}

#[test]
fn codec_tracks_format_switches_with_continuous_sequence() {
    format_switches();
}

#[test]
fn codec_creates_encoder_once_and_reuses_it() {
    let format = AudioFormat::new(2, 48000);
    let rebuilds = AtomicUsize::new(0);
    let mut encoder = ChunkEncoder::new(
        |_: &AudioFormat| {
            rebuilds.fetch_add(1, Ordering::Relaxed);
            Some(TagEncoder)
        },
        2,
    );
    for seq in 0..2 {
        let frame = encoder
            .encode_chunk(chunk(seq, format, vec![0.0; 4]))
            .expect("encoded");
        assert_eq!(frame.sequence_number, seq);
    }
    assert_eq!(rebuilds.load(Ordering::Relaxed), 1);
}

#[test]
fn codec_failed_rebuild_skips_chunk() {
    let mut encoder = ChunkEncoder::new(|_: &AudioFormat| None::<TagEncoder>, 2);
    let chunk = chunk(0, AudioFormat::new(2, 48000), vec![0.0; 4]);
    assert!(encoder.encode_chunk(chunk).is_none());
}

#[test]
fn zero_channel_chunk_is_skipped() {
    let mut encoder = ChunkEncoder::new(|_: &AudioFormat| Some(TagEncoder), 2);
    let chunk = chunk(0, AudioFormat::new(0, 48000), Vec::new());
    assert!(encoder.encode_chunk(chunk).is_none());
}

#[test]
fn cache_keeps_its_codec_through_a_failed_rebuild() {
    let stereo = AudioFormat::new(2, 48000);
    let mono = AudioFormat::new(1, 48000);
    let mut cache = FormatCache::new(|format: &AudioFormat| {
        if format.channel_count == 2 {
            Some(format.sample_rate)
        } else {
            None
        }
    });
    assert_eq!(cache.format(), None);
    assert_eq!(cache.ensure_current(&stereo), Some(&mut 48000));
    assert_eq!(cache.ensure_current(&mono), None);
    assert_eq!(cache.format(), Some(stereo));
    if let Some(codec) = cache.ensure_current(&stereo) {
        *codec = 5;
    }
    assert_eq!(cache.codec, Some(5));
    cache.reset();
    assert_eq!(cache.codec, Some(48000));
}

fn next(chunker: &mut SampleChunker, source: &mut Scripted) -> Option<AudioChunk> {
    next_chunk(chunker, source)
}

#[test]
fn frames_and_counts_sequence() {
    let mut source = scripted((0..12).map(|v| v as f32).collect());
    let mut chunker = SampleChunker::new(AudioFormat::new(2, 44100), 3);
    let first = next(&mut chunker, &mut source).expect("chunk");
    assert_eq!(first.sequence_number, 0);
    assert_eq!(first.format, AudioFormat::new(2, 44100));
    assert_eq!(
        floats(&first.audio_data),
        vec![0.0, 1.0, 2.0, 3.0, 4.0, 5.0]
    );
    let second = next(&mut chunker, &mut source).expect("chunk");
    assert_eq!(second.sequence_number, 1);
    assert_eq!(f(second.audio_data[0]), 6.0);
}

#[test]
fn partial_tail_ends_stream() {
    let mut source = scripted(vec![0.0; 6]);
    let mut chunker = SampleChunker::new(AudioFormat::new(2, 44100), 2);
    assert!(next(&mut chunker, &mut source).is_some());
    assert!(next(&mut chunker, &mut source).is_none());
}

#[test]
fn zero_channel_source_ends_stream() {
    let mut source = scripted(vec![0.0; 4]);
    let mut chunker = SampleChunker::new(AudioFormat::new(0, 44100), 2);
    assert!(next(&mut chunker, &mut source).is_none());
}

#[test]
fn chunker_waits_and_goes_on() {
    let mut chunker = SampleChunker::new(AudioFormat::new(1, 44100), 2);
    assert_eq!(chunker.chunk_len(), 2);
    assert_eq!(
        chunker.poll_next(SourcePoll::Sample(1)),
        ChunkPoll::NeedSample
    );
    assert_eq!(chunker.poll_next(SourcePoll::Pending), ChunkPoll::Pending);
    assert_eq!(
        chunker.poll_next(SourcePoll::Sample(2)),
        ChunkPoll::Ready(AudioChunk::new(0, AudioFormat::new(1, 44100), vec![1, 2]))
    );
    assert_eq!(chunker.poll_next(SourcePoll::Ended), ChunkPoll::Ended);
}

#[test]
fn whole_streams_are_cut_at_once() {
    let format = AudioFormat::new(2, 48000);
    let sampled = Sampled::new(format, vec![1u32, 2, 3, 4, 5, 6, 7, 8, 9])
        .map_samples(|samples: Vec<u32>| samples.into_iter().rev().collect::<Vec<u32>>());
    let chunks = into_chunks(sampled, 2);
    assert_eq!(
        chunks,
        vec![
            AudioChunk::new(0, format, vec![9, 8, 7, 6]),
            AudioChunk::new(1, format, vec![5, 4, 3, 2]),
        ]
    );
    let mono = AudioFormat::new(1, 8000);
    let sampled = Sampled::new(format, vec![1u32, 2]).with_format(mono, |samples: Vec<u32>| samples);
    assert_eq!(sampled.format(), &mono);
    assert_eq!(sampled.into_samples(), vec![1, 2]);
    assert!(into_chunks(Sampled::new(mono, vec![1, 2, 3]), 0).is_empty());
}

#[test]
fn passthrough_codec_roundtrips() {
    let format = AudioFormat::new(2, 48000);
    let mut encoder = PassthroughEncoder::new(format);
    let mut decoder = PassthroughDecoder;
    let chunk = chunk(3, format, vec![0.5, -0.25, 0.0, 1.0]);
    let frame = encoder.encode(&chunk).expect("encode");
    assert_eq!(frame.sequence_number, 3);
    assert_eq!(frame.payload[..4], 0.5f32.to_le_bytes());
    let out = decoder.decode(&frame).expect("decode");
    assert_eq!(out, chunk);
}

#[test]
fn passthrough_decoder_rejects_non_raw() {
    let mut decoder = PassthroughDecoder;
    let frame = EncodedChunk {
        sequence_number: 0,
        codec: AudioCodec::Opus,
        payload: vec![0, 1, 2, 3],
        format: AudioFormat::new(2, 48000),
    };
    assert!(decoder.decode(&frame).is_none());
}

#[test]
fn passthrough_decoder_rejects_a_broken_word() {
    let mut decoder = PassthroughDecoder;
    let frame = EncodedChunk {
        sequence_number: 0,
        codec: AudioCodec::Raw,
        payload: vec![0, 1, 2, 3, 4],
        format: AudioFormat::new(2, 48000),
    };
    assert!(decoder.decode(&frame).is_none());
}

#[test]
fn opus_decisions() {
    let stereo = AudioFormat::new(2, 48000);
    let mono = AudioFormat::new(1, 24000);
    assert_eq!(u16_to_channels(1), Channels::Mono);
    assert_eq!(u16_to_channels(2), Channels::Stereo);
    assert_eq!(u16_to_channels(6), Channels::Stereo);
    let input = chunk(5, stereo, vec![0.4; 4]);
    assert!(encoded_frame(&input, None).is_none());
    let frame = encoded_frame(&input, Some(vec![1, 2])).expect("frame");
    assert_eq!(frame.sequence_number, 5);
    assert_eq!(frame.codec, AudioCodec::Opus);
    assert_eq!(frame.format, stereo);
    assert_eq!(decode_plan(&frame, &stereo), DecodePlan::Decode);
    assert_eq!(
        decode_plan(&frame, &mono),
        DecodePlan::Rebuild {
            sample_rate: 48000,
            channels: Channels::Stereo
        }
    );
    let raw = EncodedChunk {
        codec: AudioCodec::Raw,
        ..frame.clone()
    };
    assert_eq!(decode_plan(&raw, &stereo), DecodePlan::Refuse);
    assert_eq!(decoded_len(480, &stereo), 960);
    let out = decoded_chunk(&frame, &stereo, Some(vec![7; 960])).expect("chunk");
    assert_eq!(out.sequence_number, 5);
    assert_eq!(out.audio_data.len(), 960);
    assert!(decoded_chunk(&frame, &stereo, None).is_none());
}
