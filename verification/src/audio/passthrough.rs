//! A codec that leaves samples as they are.
use crate::audio::chunk::AudioChunk;
use crate::audio::codec::{AudioCodec, AudioDecoder, AudioEncoder, EncodedChunk};
use crate::audio::AudioFormat;
use vstd::prelude::*;

verus! {

/// Byte `k` of a word, least significant first.
pub open spec fn byte_of(word: u32, k: int) -> u8 {
    if k == 0 {
        (word % 256) as u8
    } else if k == 1 {
        (word / 256 % 256) as u8
    } else if k == 2 {
        (word / 65536 % 256) as u8
    } else {
        (word / 16777216) as u8
    }
}

/// The word of four bytes, least significant first.
pub open spec fn word_of(b0: u8, b1: u8, b2: u8, b3: u8) -> u32 {
    (b0 + b1 * 256 + b2 * 65536 + b3 * 16777216) as u32
}

/// Samples as bytes.
pub open spec fn bytes_of(samples: Seq<u32>) -> Seq<u8> {
    Seq::new(4 * samples.len(), |i: int| byte_of(samples[i / 4], i % 4))
}

/// Bytes as samples; a rest of less than four bytes is left out.
pub open spec fn words_of(bytes: Seq<u8>) -> Seq<u32> {
    Seq::new(
        bytes.len() / 4,
        |i: int| word_of(bytes[4 * i], bytes[4 * i + 1], bytes[4 * i + 2], bytes[4 * i + 3]),
    )
}

/// The bytes of a word make that word.
proof fn word_is_its_bytes(word: u32)
    ensures
        word_of(byte_of(word, 0), byte_of(word, 1), byte_of(word, 2), byte_of(word, 3)) == word,
{
}

/// Samples come back from their bytes.
pub proof fn samples_come_back(samples: Seq<u32>)
    ensures
        words_of(bytes_of(samples)) =~= samples,
{
    assert forall|i: int| 0 <= i < samples.len() implies words_of(bytes_of(samples))[i]
        == samples[i] by {
        word_is_its_bytes(samples[i]);
    }
}

pub struct PassthroughEncoder {
    pub format: AudioFormat,
}

impl PassthroughEncoder {
    pub fn new(format: AudioFormat) -> (encoder: Self)
        ensures
            encoder.format == format,
    {
        PassthroughEncoder { format }
    }
}

impl AudioEncoder for PassthroughEncoder {
    open spec fn encodes(
        pre: Self,
        chunk: AudioChunk,
        post: Self,
        frame: Option<EncodedChunk>,
    ) -> bool {
        &&& post == pre
        &&& frame matches Some(frame)
        &&& frame.sequence_number == chunk.sequence_number
        &&& frame.codec == AudioCodec::Raw
        &&& frame.payload@ == bytes_of(chunk.audio_data@)
        &&& frame.format == pre.format
    }

    fn encode(&mut self, chunk: &AudioChunk) -> (frame: Option<EncodedChunk>) {
        let mut payload: Vec<u8> = Vec::new();
        let mut i: usize = 0;
        while i < chunk.audio_data.len()
            invariant
                i <= chunk.audio_data@.len(),
                payload@ =~= bytes_of(chunk.audio_data@.take(i as int)),
                *self == *old(self),
            decreases chunk.audio_data@.len() - i,
        {
            let sample: u32 = chunk.audio_data[i];
            let ghost before = payload@;
            payload.push((sample % 256) as u8);
            payload.push((sample / 256 % 256) as u8);
            payload.push((sample / 65536 % 256) as u8);
            payload.push((sample / 16777216) as u8);
            proof {
                let upto = chunk.audio_data@.take(i + 1);
                assert forall|k: int| 0 <= k < payload@.len() implies payload@[k] == bytes_of(
                    upto,
                )[k] by {
                    if k < before.len() {
                        assert(before[k] == bytes_of(chunk.audio_data@.take(i as int))[k]);
                    }
                }
            }
            i += 1;
        }
        proof {
            assert(chunk.audio_data@.take(i as int) =~= chunk.audio_data@);
        }
        Some(
            EncodedChunk {
                sequence_number: chunk.sequence_number,
                codec: AudioCodec::Raw,
                payload,
                format: self.format,
            },
        )
    }
}

pub struct PassthroughDecoder;

impl AudioDecoder for PassthroughDecoder {
    open spec fn decodes(
        pre: Self,
        frame: EncodedChunk,
        post: Self,
        chunk: Option<AudioChunk>,
    ) -> bool {
        if frame.codec != AudioCodec::Raw || frame.payload@.len() % 4 != 0 {
            chunk is None
        } else {
            &&& chunk matches Some(chunk)
            &&& chunk.sequence_number == frame.sequence_number
            &&& chunk.format == frame.format
            &&& chunk.audio_data@ == words_of(frame.payload@)
        }
    }

    fn decode(&mut self, frame: &EncodedChunk) -> (chunk: Option<AudioChunk>) {
        let len: usize = frame.payload.len();
        if frame.codec != AudioCodec::Raw || len % 4 != 0 {
            return None;
        }
        let ghost bytes = frame.payload@;
        let mut audio_data: Vec<u32> = Vec::new();
        let mut at: usize = 0;
        while at < len
            invariant
                at <= len == bytes.len(),
                len % 4 == 0,
                at % 4 == 0,
                bytes == frame.payload@,
                audio_data@.len() == at / 4,
                forall|k: int|
                    0 <= k < audio_data@.len() ==> #[trigger] audio_data@[k] == words_of(bytes)[k],
            decreases len - at,
        {
            let word: u32 = frame.payload[at] as u32 + frame.payload[at + 1] as u32 * 256
                + frame.payload[at + 2] as u32 * 65536 + frame.payload[at + 3] as u32 * 16777216;
            audio_data.push(word);
            at += 4;
        }
        proof {
            assert(audio_data@ =~= words_of(bytes));
        }
        Some(AudioChunk::new(frame.sequence_number, frame.format, audio_data))
    }
}

/// A chunk that was encoded is decoded to the same samples under the same number, in the format
/// of the encoder.
pub proof fn passthrough_roundtrips(
    encoder: PassthroughEncoder,
    chunk: AudioChunk,
    encoder_after: PassthroughEncoder,
    frame: EncodedChunk,
    decoder: PassthroughDecoder,
    decoder_after: PassthroughDecoder,
    out: Option<AudioChunk>,
)
    requires
        PassthroughEncoder::encodes(encoder, chunk, encoder_after, Some(frame)),
        PassthroughDecoder::decodes(decoder, frame, decoder_after, out),
    ensures
        out is Some,
        out->0.sequence_number == chunk.sequence_number,
        out->0.format == encoder.format,
        out->0.audio_data@ == chunk.audio_data@,
{
    samples_come_back(chunk.audio_data@);
}

} // verus!
