//! Coding: which codec a chunk goes through, and what comes back of it.
use crate::audio::chunk::AudioChunk;
use crate::audio::codec::{
    AudioCodec, AudioDecoder, AudioEncoder, ChunkEncoder, EncodedChunk, FormatCache,
};
use crate::audio::codec_opus::{
    decode_plan, decoded_chunk, decoded_len, encoded_frame, u16_to_channels, Channels, DecodePlan,
};
use crate::audio::passthrough::{PassthroughDecoder, PassthroughEncoder};
use crate::audio::AudioFormat;
use vstd::prelude::*;

verus! {

/// `codec` is the one that a cache has for `format`: the one at hand where it is for this format,
/// else one that is built for it.
pub open spec fn codec_for<C, F: FnMut(&AudioFormat) -> Option<C>>(
    cache: FormatCache<C, F>,
    format: AudioFormat,
    codec: Option<C>,
) -> bool {
    &&& cache.format == Some(format) ==> codec == cache.codec
    &&& cache.format != Some(format) ==> call_ensures(cache.rebuild, (&format,), codec)
}

/// A cache that is asked for a format has the codec for it then, if one can be had; if not, it
/// stays as it was.
pub proof fn cache_has_the_codec_asked_for<C, F: FnMut(&AudioFormat) -> Option<C>>(
    cache: &mut FormatCache<C, F>,
    format: AudioFormat,
    usable: bool,
)
    requires
        call_ensures(FormatCache::<C, F>::refresh, (cache, &format), usable),
    ensures
        final(cache).rebuild == old(cache).rebuild,
        usable ==> final(cache).format == Some(format) && final(cache).codec is Some && codec_for(
            *old(cache),
            format,
            final(cache).codec,
        ),
        !usable ==> *final(cache) == *old(cache) && codec_for(*old(cache), format, None),
{
}

/// The codec that is lent out is the one for the format, and what is made of it stays.
pub proof fn lent_codec_is_kept<C, F: FnMut(&AudioFormat) -> Option<C>>(
    cache: &mut FormatCache<C, F>,
    format: AudioFormat,
    codec: Option<&mut C>,
)
    requires
        call_ensures(FormatCache::<C, F>::ensure_current, (cache, &format), codec),
    ensures
        codec matches Some(codec) ==> codec_for(*old(cache), format, Some(*codec))
            && final(cache).codec == Some(*final(codec)) && final(cache).format == Some(format),
        codec is None ==> *final(cache) == *old(cache) && codec_for(*old(cache), format, None),
        final(cache).rebuild == old(cache).rebuild,
{
}

/// A reset builds the codec anew for the format at hand; without one there is nothing to build.
pub proof fn reset_builds_for_the_same_format<C, F: FnMut(&AudioFormat) -> Option<C>>(
    rebuild: F,
    made: FormatCache<C, F>,
    cache: &mut FormatCache<C, F>,
    told: Option<AudioFormat>,
)
    requires
        call_ensures(FormatCache::<C, F>::new, (rebuild,), made),
        call_ensures(FormatCache::<C, F>::reset, (cache,), ()),
        call_ensures(FormatCache::<C, F>::format, (&made,), told),
    ensures
        made.codec is None && told is None && made.format is None && made.rebuild == rebuild,
        final(cache).format == old(cache).format,
        final(cache).rebuild == old(cache).rebuild,
        old(cache).format is None ==> final(cache).codec == old(cache).codec,
        old(cache).format matches Some(format) ==> call_ensures(
            old(cache).rebuild,
            (&format,),
            final(cache).codec,
        ),
{
}

/// A chunk is encoded by the codec for its own format, and that codec stays. Without channels, or
/// without a codec, there is no frame, and nothing changes.
pub open spec fn is_encoded<E: AudioEncoder, F: FnMut(&AudioFormat) -> Option<E>>(
    before: ChunkEncoder<E, F>,
    chunk: AudioChunk,
    after: ChunkEncoder<E, F>,
    frame: Option<EncodedChunk>,
) -> bool {
    &&& after.frames == before.frames
    &&& after.encoder_cache.rebuild == before.encoder_cache.rebuild
    &&& {
        ||| frame is None && after.encoder_cache == before.encoder_cache && (
        chunk.format.channel_count == 0 || codec_for(before.encoder_cache, chunk.format, None))
        ||| chunk.format.channel_count > 0 && after.encoder_cache.format == Some(chunk.format)
            && after.encoder_cache.codec is Some && exists|encoder: E|
            codec_for(before.encoder_cache, chunk.format, Some(encoder)) && #[trigger] E::encodes(
                encoder,
                chunk,
                after.encoder_cache.codec->0,
                frame,
            )
    }
}

/// What an encoder makes of a chunk is made by the codec for its format.
pub(crate) proof fn encoding_is_coding<E: AudioEncoder, F: FnMut(&AudioFormat) -> Option<E>>(
    before: ChunkEncoder<E, F>,
    chunk: AudioChunk,
    after: ChunkEncoder<E, F>,
    frame: Option<EncodedChunk>,
)
    requires
        before.encodes(chunk, after, frame),
    ensures
        is_encoded(before, chunk, after, frame),
{
}

/// Chunks are encoded by the codec for their format.
pub proof fn chunk_goes_through_its_codec<E: AudioEncoder, F: FnMut(&AudioFormat) -> Option<E>>(
    encoder: &mut ChunkEncoder<E, F>,
    chunk: AudioChunk,
    frame: Option<EncodedChunk>,
)
    requires
        call_ensures(ChunkEncoder::<E, F>::encode_chunk, (encoder, chunk), frame),
    ensures
        is_encoded(*old(encoder), chunk, *final(encoder), frame),
{
    encoding_is_coding(*old(encoder), chunk, *final(encoder), frame);
}

/// A word of four bytes, the least significant first.
pub open spec fn holds_word(bytes: Seq<u8>, at: int, word: u32) -> bool {
    bytes[at] + 256 * bytes[at + 1] + 65536 * bytes[at + 2] + 16777216 * bytes[at + 3] == word
}

/// Encoding as is writes each sample in four bytes, the least significant first, and decoding
/// reads them so. The number goes along; the format is the encoder's. Bytes that are no whole
/// samples, or of another codec, are refused.
pub proof fn samples_are_four_bytes_each(
    encoder: &mut PassthroughEncoder,
    chunk: AudioChunk,
    frame: Option<EncodedChunk>,
    decoder: &mut PassthroughDecoder,
    read: EncodedChunk,
    out: Option<AudioChunk>,
)
    requires
        call_ensures(<PassthroughEncoder as AudioEncoder>::encode, (encoder, &chunk), frame),
        call_ensures(<PassthroughDecoder as AudioDecoder>::decode, (decoder, &read), out),
    ensures
        frame is Some,
        frame->0.sequence_number == chunk.sequence_number,
        frame->0.codec == AudioCodec::Raw,
        frame->0.format == old(encoder).format,
        final(encoder).format == old(encoder).format,
        frame->0.payload@.len() == 4 * chunk.audio_data@.len(),
        forall|i: int|
            0 <= i < chunk.audio_data@.len() ==> holds_word(
                frame->0.payload@,
                4 * i,
                #[trigger] chunk.audio_data@[i],
            ),
        out is Some <==> read.codec == AudioCodec::Raw && read.payload@.len() % 4 == 0,
        out matches Some(out) ==> {
            &&& out.sequence_number == read.sequence_number
            &&& out.format == read.format
            &&& 4 * out.audio_data@.len() == read.payload@.len()
            &&& forall|i: int|
                0 <= i < out.audio_data@.len() ==> holds_word(
                    read.payload@,
                    4 * i,
                    #[trigger] out.audio_data@[i],
                )
        },
{
    assert forall|i: int| 0 <= i < chunk.audio_data@.len() implies holds_word(
        frame->0.payload@,
        4 * i,
        #[trigger] chunk.audio_data@[i],
    ) by {
        let sample = chunk.audio_data@[i];
        let bytes = frame->0.payload@;
        assert(4 * i / 4 == i && (4 * i + 1) / 4 == i && (4 * i + 2) / 4 == i && (4 * i + 3) / 4
            == i);
        assert(bytes[4 * i] == (sample % 256) as u8);
        assert(bytes[4 * i + 1] == (sample / 256 % 256) as u8);
        assert(bytes[4 * i + 2] == (sample / 65536 % 256) as u8);
        assert(bytes[4 * i + 3] == (sample / 16777216) as u8);
    }
}

/// What was encoded as is comes back as it was.
pub proof fn passed_through_comes_back(
    encoder: &mut PassthroughEncoder,
    chunk: AudioChunk,
    frame: EncodedChunk,
    decoder: &mut PassthroughDecoder,
    out: Option<AudioChunk>,
)
    requires
        call_ensures(<PassthroughEncoder as AudioEncoder>::encode, (encoder, &chunk), Some(frame)),
        call_ensures(<PassthroughDecoder as AudioDecoder>::decode, (decoder, &frame), out),
    ensures
        out is Some,
        out->0.sequence_number == chunk.sequence_number,
        out->0.format == old(encoder).format,
        out->0.audio_data@ == chunk.audio_data@,
{
    crate::audio::passthrough::samples_come_back(chunk.audio_data@);
}

/// One channel is mono to Opus, and any other number is stereo.
pub proof fn only_one_channel_is_mono(n: u16, channels: Channels)
    requires
        call_ensures(u16_to_channels, (n,), channels),
    ensures
        channels == Channels::Mono <==> n == 1,
{
}

/// A frame carries the number, the format and the bytes of its chunk; a chunk carries the number
/// of its frame and the decoder's format. Without an answer of the codec there is neither.
pub proof fn opus_keeps_number_and_format(
    chunk: AudioChunk,
    payload: Option<Vec<u8>>,
    frame: Option<EncodedChunk>,
    read: EncodedChunk,
    format: AudioFormat,
    samples: Option<Vec<u32>>,
    out: Option<AudioChunk>,
)
    requires
        call_ensures(encoded_frame, (&chunk, payload), frame),
        call_ensures(decoded_chunk, (&read, &format, samples), out),
    ensures
        frame is Some <==> payload is Some,
        frame matches Some(frame) ==> frame.sequence_number == chunk.sequence_number && frame.format
            == chunk.format && frame.codec == AudioCodec::Opus && frame.payload == payload->0,
        out is Some <==> samples is Some,
        out matches Some(out) ==> out.sequence_number == read.sequence_number && out.format
            == format && out.audio_data == samples->0,
{
}

/// A frame of another codec is refused, and no other; a decoder is rebuilt exactly where the
/// frame's format is another, and then for that format. A packet holds its samples once for each
/// channel.
pub proof fn decoder_fits_the_frame(
    frame: EncodedChunk,
    format: AudioFormat,
    plan: DecodePlan,
    per_channel: usize,
    len: usize,
)
    requires
        call_ensures(decode_plan, (&frame, &format), plan),
        call_ensures(decoded_len, (per_channel, &format), len),
    ensures
        plan is Refuse <==> frame.codec != AudioCodec::Opus,
        plan is Decode <==> frame.codec == AudioCodec::Opus && frame.format == format,
        plan matches DecodePlan::Rebuild { sample_rate, channels } ==> sample_rate
            == frame.format.sample_rate && (channels == Channels::Mono
            <==> frame.format.channel_count == 1),
        len == format.channel_count * per_channel,
{
    assert(format.channel_count * per_channel == per_channel * format.channel_count)
        by (nonlinear_arith);
}

} // verus!
