//! What the audio pipeline is run with.
use crate::audio::time::{self, duration_from_nanos};
use crate::audio::AudioFormat;
use vstd::prelude::*;

verus! {

/// Nanoseconds in a second.
pub const NANOS_PER_SECOND: u64 = 1_000_000_000;

/// The rate and channels of the pipeline, the frames of a chunk, and the chunks that wait to be
/// put in order. None of them is 0, and a chunk lasts at least a nanosecond.
#[derive(Debug, Clone, Copy, PartialEq, Eq)]
pub struct AudioPipelineConfig {
    sample_rate: u32,
    channels: u16,
    frames: usize,
    jitter_chunks: usize,
}

/// How long `frames` frames last, in nanoseconds, rounded down.
pub open spec fn period_nanos(frames: int, sample_rate: int) -> int {
    frames * (NANOS_PER_SECOND as int) / sample_rate
}

/// Why a configuration is refused, if it is: the first fault counts.
pub open spec fn config_fault(
    sample_rate: u32,
    channels: u16,
    frames: usize,
    jitter_chunks: usize,
) -> Option<Seq<char>> {
    if sample_rate == 0 {
        Some("sample_rate must be > 0"@)
    } else if channels == 0 {
        Some("channels must be > 0"@)
    } else if frames == 0 {
        Some("frames must be > 0"@)
    } else if jitter_chunks == 0 {
        Some("jitter_chunks must be > 0"@)
    } else if period_nanos(frames as int, sample_rate as int) == 0 {
        Some("frames/sample_rate yields zero period"@)
    } else if period_nanos(frames as int, sample_rate as int) > u64::MAX {
        Some("period overflows"@)
    } else {
        None
    }
}

impl Default for AudioPipelineConfig {
    fn default() -> (config: Self)
        ensures
            config.wf(),
            config.spec_sample_rate() == 48000,
            config.spec_channels() == 2,
            config.spec_frames() == 480,
            config.spec_jitter_chunks() == 10,
    {
        AudioPipelineConfig { sample_rate: 48000, channels: 2, frames: 480, jitter_chunks: 10 }
    }
}

impl AudioPipelineConfig {
    pub closed spec fn spec_sample_rate(&self) -> u32 {
        self.sample_rate
    }

    pub closed spec fn spec_channels(&self) -> u16 {
        self.channels
    }

    pub closed spec fn spec_frames(&self) -> usize {
        self.frames
    }

    pub closed spec fn spec_jitter_chunks(&self) -> usize {
        self.jitter_chunks
    }

    /// A configuration without a fault.
    pub open spec fn wf(&self) -> bool {
        config_fault(
            self.spec_sample_rate(),
            self.spec_channels(),
            self.spec_frames(),
            self.spec_jitter_chunks(),
        ) is None
    }

    pub fn try_new(
        sample_rate: u32,
        channels: u16,
        frames: usize,
        jitter_chunks: usize,
    ) -> (config: Result<Self, &'static str>)
        ensures
            match config_fault(sample_rate, channels, frames, jitter_chunks) {
                Some(fault) => config matches Err(message) && message@ == fault,
                None => config matches Ok(config) && config.wf() && config.spec_sample_rate()
                    == sample_rate && config.spec_channels() == channels && config.spec_frames()
                    == frames && config.spec_jitter_chunks() == jitter_chunks,
            },
    {
        if sample_rate == 0 {
            return Err("sample_rate must be > 0");
        }
        if channels == 0 {
            return Err("channels must be > 0");
        }
        if frames == 0 {
            return Err("frames must be > 0");
        }
        if jitter_chunks == 0 {
            return Err("jitter_chunks must be > 0");
        }
        let nanos: u128 = frames as u128 * NANOS_PER_SECOND as u128 / sample_rate as u128;
        if nanos == 0 {
            return Err("frames/sample_rate yields zero period");
        }
        if nanos > u64::MAX as u128 {
            return Err("period overflows");
        }
        Ok(AudioPipelineConfig { sample_rate, channels, frames, jitter_chunks })
    }

    /// The same configuration with another number of chunks that wait.
    pub fn with_jitter_chunks(self, jitter_chunks: usize) -> (config: Result<Self, &'static str>)
        ensures
            match config_fault(
                self.spec_sample_rate(),
                self.spec_channels(),
                self.spec_frames(),
                jitter_chunks,
            ) {
                Some(fault) => config matches Err(message) && message@ == fault,
                None => config matches Ok(config) && config.wf() && config.spec_sample_rate()
                    == self.spec_sample_rate() && config.spec_channels() == self.spec_channels()
                    && config.spec_frames() == self.spec_frames() && config.spec_jitter_chunks()
                    == jitter_chunks,
            },
    {
        Self::try_new(self.sample_rate, self.channels, self.frames, jitter_chunks)
    }

    pub fn sample_rate(&self) -> (sample_rate: u32)
        ensures
            sample_rate == self.spec_sample_rate(),
    {
        self.sample_rate
    }

    pub fn channels(&self) -> (channels: u16)
        ensures
            channels == self.spec_channels(),
    {
        self.channels
    }

    pub fn frames(&self) -> (frames: usize)
        ensures
            frames == self.spec_frames(),
    {
        self.frames
    }

    pub fn jitter_chunks(&self) -> (jitter_chunks: usize)
        ensures
            jitter_chunks == self.spec_jitter_chunks(),
    {
        self.jitter_chunks
    }

    pub fn audio_format(&self) -> (format: AudioFormat)
        ensures
            format == (AudioFormat {
                channel_count: self.spec_channels(),
                sample_rate: self.spec_sample_rate(),
            }),
    {
        AudioFormat::new(self.channels, self.sample_rate)
    }

    /// How long a chunk lasts, in nanoseconds.
    pub fn chunk_period_nanos(&self) -> (nanos: u64)
        requires
            self.wf(),
            self.spec_frames() * NANOS_PER_SECOND <= u64::MAX,
        ensures
            nanos == period_nanos(self.spec_frames() as int, self.spec_sample_rate() as int),
            nanos > 0,
    {
        self.frames as u64 * NANOS_PER_SECOND / self.sample_rate as u64
    }

    /// How long a chunk lasts.
    pub fn chunk_period(&self) -> (period: std::time::Duration)
        requires
            self.wf(),
            self.spec_frames() * NANOS_PER_SECOND <= u64::MAX,
        ensures
            period == time::duration_of(
                period_nanos(self.spec_frames() as int, self.spec_sample_rate() as int) as u64,
            ),
    {
        duration_from_nanos(self.chunk_period_nanos())
    }

    /// Samples of a chunk, over all channels.
    pub fn block_samples(&self) -> (samples: usize)
        requires
            self.wf(),
            self.spec_channels() * self.spec_frames() <= usize::MAX,
        ensures
            samples == self.spec_channels() * self.spec_frames(),
            samples > 0,
    {
        proof {
            assert(self.spec_channels() * self.spec_frames() > 0) by (nonlinear_arith)
                requires
                    self.spec_channels() > 0,
                    self.spec_frames() > 0,
            ;
        }
        self.channels as usize * self.frames
    }
}

/// The number of waiting chunks can be changed freely, but not to 0.
pub proof fn any_jitter_depth_will_do(config: AudioPipelineConfig, jitter_chunks: usize)
    requires
        config.wf(),
    ensures
        config_fault(
            config.spec_sample_rate(),
            config.spec_channels(),
            config.spec_frames(),
            jitter_chunks,
        ) is None <==> jitter_chunks > 0,
{
}

} // verus!
