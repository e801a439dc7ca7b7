//! Encoded chunks, and codecs that are rebuilt when the format of a stream changes.
use crate::audio::chunk::AudioChunk;
use crate::audio::transform::ChunkTransform;
use crate::audio::AudioFormat;
use vstd::prelude::*;

verus! {

#[derive(Debug, Clone, Copy, PartialEq, Eq, Structural)]
pub enum AudioCodec {
    Opus,
    Raw,
}

/// A chunk in the bytes of a codec.
#[derive(Debug, Clone, PartialEq)]
pub struct EncodedChunk {
    pub sequence_number: u128,
    pub codec: AudioCodec,
    pub payload: Vec<u8>,
    pub format: AudioFormat,
}

pub trait AudioEncoder: Sized {
    /// `frame` is what `pre` may make of `chunk`, and `post` what the encoder is then.
    open spec fn encodes(
        pre: Self,
        chunk: AudioChunk,
        post: Self,
        frame: Option<EncodedChunk>,
    ) -> bool {
        true
    }

    fn encode(&mut self, chunk: &AudioChunk) -> (frame: Option<EncodedChunk>)
        ensures
            Self::encodes(*old(self), *chunk, *final(self), frame),
    ;
}

pub trait AudioDecoder: Sized {
    /// `chunk` is what `pre` may make of `frame`, and `post` what the decoder is then.
    open spec fn decodes(
        pre: Self,
        frame: EncodedChunk,
        post: Self,
        chunk: Option<AudioChunk>,
    ) -> bool {
        true
    }

    fn decode(&mut self, frame: &EncodedChunk) -> (chunk: Option<AudioChunk>)
        ensures
            Self::decodes(*old(self), *frame, *final(self), chunk),
    ;
}

/// A codec and the format that it was built for.
#[verifier::reject_recursive_types(C)]
#[verifier::reject_recursive_types(F)]
pub struct FormatCache<C, F: FnMut(&AudioFormat) -> Option<C>> {
    pub codec: Option<C>,
    pub format: Option<AudioFormat>,
    pub rebuild: F,
}

impl<C, F: FnMut(&AudioFormat) -> Option<C>> FormatCache<C, F> {
    /// `current` is the cache once it has been brought to `format`, and `usable` whether it has a
    /// codec for it. Only another format asks for a new codec; where none can be built the old
    /// one stays, for its own format.
    pub open spec fn brings(self, format: AudioFormat, current: Self, usable: bool) -> bool {
        if self.format == Some(format) {
            current == self && usable == (self.codec is Some)
        } else {
            exists|built: Option<C>| #[trigger]
                call_ensures(self.rebuild, (&format,), built) && match built {
                    Some(codec) => usable && current == (FormatCache {
                        codec: Some(codec),
                        format: Some(format),
                        rebuild: self.rebuild,
                    }),
                    None => !usable && current == self,
                }
        }
    }

    pub fn new(rebuild: F) -> (cache: Self)
        ensures
            cache.codec is None,
            cache.format is None,
            cache.rebuild == rebuild,
    {
        FormatCache { codec: None, format: None, rebuild }
    }

    /// The format of the codec at hand.
    pub fn format(&self) -> (format: Option<AudioFormat>)
        ensures
            format == self.format,
    {
        self.format
    }

    /// Brings the cache to `format`, and tells whether it has a codec then.
    pub fn refresh(&mut self, format: &AudioFormat) -> (usable: bool)
        requires
            old(self).format != Some(*format) ==> call_requires(old(self).rebuild, (format,)),
        ensures
            old(self).brings(*format, *final(self), usable),
    {
        let same: bool = match self.format {
            Some(current) => current == *format,
            None => false,
        };
        if same {
            return self.codec.is_some();
        }
        let built: Option<C> = (self.rebuild)(format);
        proof {
            assert(call_ensures(old(self).rebuild, (format,), built));
        }
        match built {
            Some(codec) => {
                self.codec = Some(codec);
                self.format = Some(*format);
                true
            },
            None => false,
        }
    }

    /// The codec for `format`, built anew where the format has changed.
    pub fn ensure_current(&mut self, format: &AudioFormat) -> (codec: Option<&mut C>)
        requires
            old(self).format != Some(*format) ==> call_requires(old(self).rebuild, (format,)),
        ensures
            match codec {
                Some(codec) => exists|current: Self| #[trigger]
                    old(self).brings(*format, current, true) && *codec == current.codec->0
                        && *final(self) == (FormatCache {
                        codec: Some(*final(codec)),
                        format: current.format,
                        rebuild: current.rebuild,
                    }),
                None => old(self).brings(*format, *final(self), false),
            },
    {
        if self.refresh(format) {
            self.codec.as_mut()
        } else {
            None
        }
    }

    /// Builds the codec for its format anew.
    pub fn reset(&mut self)
        requires
            old(self).format matches Some(format) ==> call_requires(
                old(self).rebuild,
                (&format,),
            ),
        ensures
            final(self).format == old(self).format,
            final(self).rebuild == old(self).rebuild,
            match old(self).format {
                Some(format) => call_ensures(old(self).rebuild, (&format,), final(self).codec),
                None => *final(self) == *old(self),
            },
    {
        match self.format {
            Some(format) => {
                self.codec = (self.rebuild)(&format);
            },
            None => {},
        }
    }
}

/// Encodes chunks with an encoder that fits their format.
#[verifier::reject_recursive_types(E)]
#[verifier::reject_recursive_types(F)]
pub struct ChunkEncoder<E: AudioEncoder, F: FnMut(&AudioFormat) -> Option<E>> {
    pub encoder_cache: FormatCache<E, F>,
    pub frames: usize,
}

impl<E: AudioEncoder, F: FnMut(&AudioFormat) -> Option<E>> ChunkEncoder<E, F> {
    /// `frame` is what the encoder may make of `chunk`. A chunk without channels, or one that no
    /// encoder can be built for, is skipped.
    pub open spec fn encodes(
        self,
        chunk: AudioChunk,
        after: Self,
        frame: Option<EncodedChunk>,
    ) -> bool {
        &&& after.frames == self.frames
        &&& if chunk.format.channel_count == 0 {
            after.encoder_cache == self.encoder_cache && frame is None
        } else {
            exists|current: FormatCache<E, F>, usable: bool| #[trigger]
                self.encoder_cache.brings(chunk.format, current, usable) && if usable {
                    &&& E::encodes(
                        current.codec->0,
                        chunk,
                        after.encoder_cache.codec->0,
                        frame,
                    )
                    &&& after.encoder_cache == (FormatCache {
                        codec: Some(after.encoder_cache.codec->0),
                        format: current.format,
                        rebuild: current.rebuild,
                    })
                } else {
                    after.encoder_cache == current && frame is None
                }
        }
    }

    pub fn new(rebuild: F, frames: usize) -> (encoder: Self)
        ensures
            encoder.encoder_cache.codec is None,
            encoder.encoder_cache.format is None,
            encoder.encoder_cache.rebuild == rebuild,
            encoder.frames == frames,
    {
        ChunkEncoder { encoder_cache: FormatCache::new(rebuild), frames }
    }

    pub fn encode_chunk(&mut self, chunk: AudioChunk) -> (frame: Option<EncodedChunk>)
        requires
            chunk.format.channel_count > 0 && old(self).encoder_cache.format != Some(chunk.format)
                ==> call_requires(old(self).encoder_cache.rebuild, (&chunk.format,)),
        ensures
            old(self).encodes(chunk, *final(self), frame),
    {
        if chunk.format.channel_count == 0 {
            return None;
        }
        match self.encoder_cache.ensure_current(&chunk.format) {
            Some(encoder) => encoder.encode(&chunk),
            None => None,
        }
    }
}

impl<E: AudioEncoder, F: FnMut(&AudioFormat) -> Option<E>> ChunkTransform for ChunkEncoder<E, F> {
    type OutputT = Option<EncodedChunk>;

    open spec fn accepts(&self, chunk: AudioChunk) -> bool {
        chunk.format.channel_count > 0 && self.encoder_cache.format != Some(chunk.format)
            ==> call_requires(self.encoder_cache.rebuild, (&chunk.format,))
    }

    open spec fn transforms(
        pre: Self,
        chunk: AudioChunk,
        post: Self,
        out: Option<EncodedChunk>,
    ) -> bool {
        pre.encodes(chunk, post, out)
    }

    fn transform(&mut self, chunk: AudioChunk) -> (out: Option<EncodedChunk>) {
        self.encode_chunk(chunk)
    }
}

/// Once a codec stands for a format, chunks of that format ask for no other.
pub proof fn codec_is_reused<C, F: FnMut(&AudioFormat) -> Option<C>>(
    cache: FormatCache<C, F>,
    format: AudioFormat,
    current: FormatCache<C, F>,
    again: FormatCache<C, F>,
    usable: bool,
)
    requires
        cache.brings(format, current, true),
        current.brings(format, again, usable),
    ensures
        usable,
        again == current,
{
}

/// Where no codec can be built, the next chunk of the format asks again, and the codec of the
/// earlier format stays usable.
pub proof fn failed_rebuild_keeps_codec<C, F: FnMut(&AudioFormat) -> Option<C>>(
    cache: FormatCache<C, F>,
    format: AudioFormat,
    current: FormatCache<C, F>,
)
    requires
        cache.brings(format, current, false),
    ensures
        current == cache,
{
}

} // verus!
