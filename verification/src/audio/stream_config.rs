//! Which of a device's configurations a stream is opened with.
use crate::audio::params::{CHANNELS, SAMPLE_RATE};
use crate::audio::AudioFormat;
use vstd::prelude::*;

verus! {

/// How many frames a device callback should be asked for.
pub const AUDIO_CALLBACK_FRAMES: u32 = 480;

/// How a device represents a sample.
#[derive(Debug, Clone, Copy, PartialEq, Eq, Structural)]
pub enum SampleFormat {
    I8,
    I16,
    I24,
    I32,
    I64,
    U8,
    U16,
    U24,
    U32,
    U64,
    F32,
    F64,
    DsdU8,
    DsdU16,
    DsdU32,
}

/// The buffer sizes that a device can do, in frames.
#[derive(Debug, Clone, Copy, PartialEq, Eq, Structural)]
pub enum SupportedBufferSize {
    Range { min: u32, max: u32 },
    Unknown,
}

/// The buffer size that a device is asked for, in frames.
#[derive(Debug, Clone, Copy, PartialEq, Eq, Structural)]
pub enum BufferSize {
    Default,
    Fixed(u32),
}

/// A range of configurations that a device can do.
#[derive(Debug, Clone, Copy, PartialEq, Eq, Structural)]
pub struct SupportedStreamConfigRange {
    pub channels: u16,
    pub min_sample_rate: u32,
    pub max_sample_rate: u32,
    pub buffer_size: SupportedBufferSize,
    pub sample_format: SampleFormat,
}

/// The configuration that a stream is opened with.
#[derive(Debug, Clone, Copy, PartialEq, Eq, Structural)]
pub struct StreamConfig {
    pub channels: u16,
    pub sample_rate: u32,
    pub buffer_size: BufferSize,
}

/// The size nearest to `AUDIO_CALLBACK_FRAMES` that a device can do.
pub open spec fn spec_callback_buffer_size(supported: SupportedBufferSize) -> BufferSize {
    match supported {
        SupportedBufferSize::Range { min, max } => BufferSize::Fixed(
            if AUDIO_CALLBACK_FRAMES < min {
                min
            } else if AUDIO_CALLBACK_FRAMES > max {
                max
            } else {
                AUDIO_CALLBACK_FRAMES
            },
        ),
        SupportedBufferSize::Unknown => BufferSize::Default,
    }
}

/// Whether a range of sizes is one.
pub open spec fn sizes_in_order(supported: SupportedBufferSize) -> bool {
    supported matches SupportedBufferSize::Range { min, max } ==> min <= max
}

pub fn callback_buffer_size(supported: &SupportedBufferSize) -> (size: BufferSize)
    requires
        sizes_in_order(*supported),
    ensures
        size == spec_callback_buffer_size(*supported),
{
    match supported {
        SupportedBufferSize::Range { min, max } => {
            let frames: u32 = if AUDIO_CALLBACK_FRAMES < *min {
                *min
            } else if AUDIO_CALLBACK_FRAMES > *max {
                *max
            } else {
                AUDIO_CALLBACK_FRAMES
            };
            BufferSize::Fixed(frames)
        },
        SupportedBufferSize::Unknown => BufferSize::Default,
    }
}

/// How well a format keeps a sample: floating point first, then by width, signed before unsigned.
/// What cannot be used has no rank.
pub open spec fn spec_sample_format_rank(format: SampleFormat) -> Option<u8> {
    match format {
        SampleFormat::F32 => Some(100),
        SampleFormat::F64 => Some(90),
        SampleFormat::I32 => Some(80),
        SampleFormat::U32 => Some(79),
        SampleFormat::I16 => Some(60),
        SampleFormat::U16 => Some(59),
        SampleFormat::I8 => Some(50),
        SampleFormat::U8 => Some(49),
        _ => None,
    }
}

#[verifier::when_used_as_spec(spec_sample_format_rank)]
pub fn sample_format_rank(format: SampleFormat) -> (rank: Option<u8>)
    ensures
        rank == spec_sample_format_rank(format),
{
    match format {
        SampleFormat::F32 => Some(100),
        SampleFormat::F64 => Some(90),
        SampleFormat::I32 => Some(80),
        SampleFormat::U32 => Some(79),
        SampleFormat::I16 => Some(60),
        SampleFormat::U16 => Some(59),
        SampleFormat::I8 => Some(50),
        SampleFormat::U8 => Some(49),
        _ => None,
    }
}

/// The rank of a range: none unless it has the pipeline's channels.
pub open spec fn range_rank(range: SupportedStreamConfigRange) -> Option<u8> {
    if range.channels == CHANNELS {
        sample_format_rank(range.sample_format)
    } else {
        None
    }
}

/// Where the best of the first `n` ranges stands: the first of those with the highest rank.
pub open spec fn best_index(ranges: Seq<SupportedStreamConfigRange>, n: int) -> Option<int>
    decreases n,
{
    if n <= 0 {
        None
    } else {
        let before = best_index(ranges, n - 1);
        match range_rank(ranges[n - 1]) {
            None => before,
            Some(rank) => match before {
                Some(i) if rank <= range_rank(ranges[i])->0 => before,
                _ => Some(n - 1),
            },
        }
    }
}

/// The range to use: the best stereo one, else the last of all.
pub open spec fn chosen(ranges: Seq<SupportedStreamConfigRange>) -> Option<
    SupportedStreamConfigRange,
> {
    match best_index(ranges, ranges.len() as int) {
        Some(i) => Some(ranges[i]),
        None => if ranges.len() > 0 {
            Some(ranges.last())
        } else {
            None
        },
    }
}

/// The best range is usable, none ranks higher, and of those that rank as high it comes first.
/// Where there is none, no range is usable.
pub proof fn best_index_is_best(ranges: Seq<SupportedStreamConfigRange>, n: int)
    requires
        0 <= n <= ranges.len(),
    ensures
        match best_index(ranges, n) {
            Some(i) => {
                &&& 0 <= i < n
                &&& range_rank(ranges[i]) is Some
                &&& forall|k: int|
                    0 <= k < n && range_rank(#[trigger] ranges[k]) is Some ==> range_rank(
                        ranges[k],
                    )->0 <= range_rank(ranges[i])->0
                &&& forall|k: int|
                    0 <= k < i && range_rank(#[trigger] ranges[k]) is Some ==> range_rank(
                        ranges[k],
                    )->0 < range_rank(ranges[i])->0
            },
            None => forall|k: int| 0 <= k < n ==> range_rank(#[trigger] ranges[k]) is None,
        },
    decreases n,
{
    if n > 0 {
        best_index_is_best(ranges, n - 1);
    }
}

/// A stereo range in a usable format is never passed over for one that is not.
pub proof fn stereo_wins(ranges: Seq<SupportedStreamConfigRange>, k: int)
    requires
        0 <= k < ranges.len(),
        range_rank(ranges[k]) is Some,
    ensures
        chosen(ranges) is Some,
        range_rank(chosen(ranges)->0) is Some,
        range_rank(chosen(ranges)->0)->0 >= range_rank(ranges[k])->0,
{
    best_index_is_best(ranges, ranges.len() as int);
}

fn best_stereo_config(ranges: &Vec<SupportedStreamConfigRange>) -> (best: Option<
    SupportedStreamConfigRange,
>)
    ensures
        best == chosen(ranges@),
{
    let mut best: Option<usize> = None;
    let mut best_rank: u8 = 0;
    let mut i: usize = 0;
    while i < ranges.len()
        invariant
            i <= ranges@.len(),
            match best {
                Some(k) => best_index(ranges@, i as int) == Some(k as int) && k < i && range_rank(
                    ranges@[k as int],
                ) == Some(best_rank),
                None => best_index(ranges@, i as int) is None,
            },
        decreases ranges@.len() - i,
    {
        let range: SupportedStreamConfigRange = ranges[i];
        if range.channels == CHANNELS {
            match sample_format_rank(range.sample_format) {
                Some(rank) => {
                    if best.is_none() || rank > best_rank {
                        best = Some(i);
                        best_rank = rank;
                    }
                },
                None => {},
            }
        }
        i += 1;
    }
    match best {
        Some(k) => Some(ranges[k]),
        None => if ranges.len() > 0 {
            Some(ranges[ranges.len() - 1])
        } else {
            None
        },
    }
}

pub fn find_stereo_input(ranges: Vec<SupportedStreamConfigRange>) -> (best: Option<
    SupportedStreamConfigRange,
>)
    ensures
        best == chosen(ranges@),
{
    best_stereo_config(&ranges)
}

pub fn find_stereo_output(ranges: Vec<SupportedStreamConfigRange>) -> (best: Option<
    SupportedStreamConfigRange,
>)
    ensures
        best == chosen(ranges@),
{
    best_stereo_config(&ranges)
}

/// The configuration that a range is opened with: the pipeline's rate, or the highest below it.
pub open spec fn opened_with(range: SupportedStreamConfigRange) -> (SampleFormat, StreamConfig) {
    (
        range.sample_format,
        StreamConfig {
            channels: range.channels,
            sample_rate: if range.max_sample_rate < SAMPLE_RATE {
                range.max_sample_rate
            } else {
                SAMPLE_RATE
            },
            buffer_size: spec_callback_buffer_size(range.buffer_size),
        },
    )
}

fn open_with(range: &SupportedStreamConfigRange) -> (config: (SampleFormat, StreamConfig))
    requires
        sizes_in_order(range.buffer_size),
    ensures
        config == opened_with(*range),
{
    let sample_rate: u32 = if range.max_sample_rate < SAMPLE_RATE {
        range.max_sample_rate
    } else {
        SAMPLE_RATE
    };
    (
        range.sample_format,
        StreamConfig {
            channels: range.channels,
            sample_rate,
            buffer_size: callback_buffer_size(&range.buffer_size),
        },
    )
}

/// What an input is opened with, of all that it can do.
pub fn get_input_config(ranges: Vec<SupportedStreamConfigRange>) -> (config: Result<
    (SampleFormat, StreamConfig),
    &'static str,
>)
    requires
        chosen(ranges@) matches Some(range) ==> sizes_in_order(range.buffer_size),
    ensures
        match chosen(ranges@) {
            Some(range) => config == Ok::<(SampleFormat, StreamConfig), &'static str>(
                opened_with(range),
            ),
            None => config matches Err(message) && message@ == "No supported input config"@,
        },
{
    match find_stereo_input(ranges) {
        Some(range) => Ok(open_with(&range)),
        None => Err("No supported input config"),
    }
}

/// What an output is opened with, of all that it can do.
pub fn get_output_config(ranges: Vec<SupportedStreamConfigRange>) -> (config: Result<
    (SampleFormat, StreamConfig),
    &'static str,
>)
    requires
        chosen(ranges@) matches Some(range) ==> sizes_in_order(range.buffer_size),
    ensures
        match chosen(ranges@) {
            Some(range) => config == Ok::<(SampleFormat, StreamConfig), &'static str>(
                opened_with(range),
            ),
            None => config matches Err(message) && message@ == "No supported output config"@,
        },
{
    match find_stereo_output(ranges) {
        Some(range) => Ok(open_with(&range)),
        None => Err("No supported output config"),
    }
}

/// The format that is mixed for an output: that of its stream, or the pipeline's own without one.
pub fn output_format(config: Option<StreamConfig>) -> (format: AudioFormat)
    ensures
        format == match config {
            Some(config) => AudioFormat {
                channel_count: config.channels,
                sample_rate: config.sample_rate,
            },
            None => AudioFormat { channel_count: CHANNELS, sample_rate: SAMPLE_RATE },
        },
{
    match config {
        Some(config) => AudioFormat::new(config.channels, config.sample_rate),
        None => AudioFormat::new(CHANNELS, SAMPLE_RATE),
    }
}

} // verus!
