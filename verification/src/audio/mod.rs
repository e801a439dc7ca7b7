//! Chunks, buffers, transforms and the output mixer.
use vstd::prelude::*;

pub mod capture;
pub mod chunk;
pub mod codec;
pub mod codec_opus;
pub mod conceal;
pub mod config;
pub mod converter;
pub mod denoiser;
pub mod depop;
pub mod detect;
pub mod device;
pub mod flatten;
pub mod float;
pub mod hub;
pub mod input;
pub mod jitter;
pub mod jitter_slots;
pub mod mixer;
pub mod numbers;
pub mod output;
pub mod owner;
pub mod params;
pub mod passthrough;
pub mod playout;
pub mod report;
pub mod ring;
pub mod sample;
pub mod sample_ops;
pub mod slot;
pub mod stats;
pub mod stream_config;
pub mod stream_errors;
pub mod switch;
pub mod time;
pub mod transform;
pub mod window;

verus! {

/// Layout of an interleaved audio stream.
#[derive(Debug, Clone, Copy, PartialEq, Eq, Structural)]
pub struct AudioFormat {
    pub channel_count: u16,
    pub sample_rate: u32,
}

impl AudioFormat {
    pub fn new(channel_count: u16, sample_rate: u32) -> (format: AudioFormat)
        ensures
            format == (AudioFormat { channel_count, sample_rate }),
    {
        AudioFormat { channel_count, sample_rate }
    }
}

} // verus!
