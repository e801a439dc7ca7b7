//! What an Opus codec is given, and what is made of its answers.
use crate::audio::chunk::AudioChunk;
use crate::audio::codec::{AudioCodec, EncodedChunk};
use crate::audio::AudioFormat;
use vstd::prelude::*;

verus! {

/// The most bytes that a chunk may be encoded to.
pub const MAX_PAYLOAD: usize = 65535;

/// The channels that Opus knows.
#[derive(Debug, Clone, Copy, PartialEq, Eq, Structural)]
pub enum Channels {
    Mono,
    Stereo,
}

/// What a number of channels is encoded as: anything but one is stereo.
pub open spec fn spec_u16_to_channels(n: u16) -> Channels {
    if n == 1 {
        Channels::Mono
    } else {
        Channels::Stereo
    }
}

#[verifier::when_used_as_spec(spec_u16_to_channels)]
pub fn u16_to_channels(n: u16) -> (channels: Channels)
    ensures
        channels == spec_u16_to_channels(n),
{
    match n {
        1 => Channels::Mono,
        _ => Channels::Stereo,
    }
}

/// The frame of a chunk, once the codec has answered with `payload`.
pub fn encoded_frame(chunk: &AudioChunk, payload: Option<Vec<u8>>) -> (frame: Option<EncodedChunk>)
    ensures
        match payload {
            Some(payload) => frame == Some(
                EncodedChunk {
                    sequence_number: chunk.sequence_number,
                    codec: AudioCodec::Opus,
                    payload,
                    format: chunk.format,
                },
            ),
            None => frame is None,
        },
{
    match payload {
        Some(payload) => Some(
            EncodedChunk {
                sequence_number: chunk.sequence_number,
                codec: AudioCodec::Opus,
                payload,
                format: chunk.format,
            },
        ),
        None => None,
    }
}

/// What has to be done for a frame before it can be decoded.
#[derive(Debug, Clone, Copy, PartialEq, Eq, Structural)]
pub enum DecodePlan {
    /// The frame is not Opus.
    Refuse,
    /// The decoder was made for another format.
    Rebuild { sample_rate: u32, channels: Channels },
    Decode,
}

/// What a decoder for `format` has to do for a frame.
pub fn decode_plan(frame: &EncodedChunk, format: &AudioFormat) -> (plan: DecodePlan)
    ensures
        plan == (if frame.codec != AudioCodec::Opus {
            DecodePlan::Refuse
        } else if frame.format == *format {
            DecodePlan::Decode
        } else {
            DecodePlan::Rebuild {
                sample_rate: frame.format.sample_rate,
                channels: u16_to_channels(frame.format.channel_count),
            }
        }),
{
    if frame.codec != AudioCodec::Opus {
        return DecodePlan::Refuse;
    }
    if frame.format == *format {
        return DecodePlan::Decode;
    }
    DecodePlan::Rebuild {
        sample_rate: frame.format.sample_rate,
        channels: u16_to_channels(frame.format.channel_count),
    }
}

/// The samples that a packet of `per_channel` samples is decoded to, over all channels.
pub fn decoded_len(per_channel: usize, format: &AudioFormat) -> (len: usize)
    requires
        per_channel * format.channel_count <= usize::MAX,
    ensures
        len == per_channel * format.channel_count,
{
    proof {
        assert(0 <= per_channel * format.channel_count) by (nonlinear_arith);
    }
    per_channel * format.channel_count as usize
}

/// The chunk of a frame, once the codec has answered with `samples`.
pub fn decoded_chunk(frame: &EncodedChunk, format: &AudioFormat, samples: Option<Vec<u32>>) -> (
    chunk: Option<AudioChunk>)
    ensures
        match samples {
            Some(samples) => chunk == Some(
                AudioChunk {
                    sequence_number: frame.sequence_number,
                    format: *format,
                    audio_data: samples,
                },
            ),
            None => chunk is None,
        },
{
    match samples {
        Some(samples) => Some(AudioChunk::new(frame.sequence_number, *format, samples)),
        None => None,
    }
}

} // verus!
