//! Splitting, interleaving and converting the channels of interleaved samples.
use crate::audio::chunk::AudioChunk;
use crate::audio::float::{self, Arithmetic};
use crate::audio::AudioFormat;
use vstd::arithmetic::div_mod::{
    lemma_fundamental_div_mod, lemma_fundamental_div_mod_converse, lemma_mod_bound,
};
use vstd::prelude::*;

verus! {

/// How many of `len` samples, dealt out to `count` channels in turn, fall to `channel`.
pub open spec fn share(len: int, count: int, channel: int) -> int {
    if channel >= len {
        0
    } else {
        (len - channel - 1) / count + 1
    }
}

/// Every `count`-th sample, from `channel` on.
pub open spec fn strided<T>(samples: Seq<T>, count: int, channel: int) -> Seq<T> {
    Seq::new(
        share(samples.len() as int, count, channel) as nat,
        |k: int| samples[k * count + channel],
    )
}

/// The samples that the first `upto` channels have at `frame`.
pub open spec fn row<T>(channels: Seq<Seq<T>>, frame: int, upto: int) -> Seq<T>
    decreases upto,
{
    if upto <= 0 {
        Seq::empty()
    } else if frame < channels[upto - 1].len() {
        row(channels, frame, upto - 1).push(channels[upto - 1][frame])
    } else {
        row(channels, frame, upto - 1)
    }
}

/// The first `frames` rows, one after the other.
pub open spec fn rows<T>(channels: Seq<Seq<T>>, frames: int) -> Seq<T>
    decreases frames,
{
    if frames <= 0 {
        Seq::empty()
    } else {
        rows(channels, frames - 1) + row(channels, frames - 1, channels.len() as int)
    }
}

/// The channels, interleaved over as many frames as the first one has.
pub open spec fn interleaved<T>(channels: Seq<Seq<T>>) -> Seq<T> {
    rows(
        channels,
        if channels.len() == 0 {
            0
        } else {
            channels[0].len() as int
        },
    )
}

/// What a vector of channels holds.
pub open spec fn channels_view<T>(channels: Seq<Vec<T>>) -> Seq<Seq<T>> {
    Seq::new(channels.len(), |c: int| channels[c]@)
}

/// The channels that samples are split into.
pub open spec fn split<T>(samples: Seq<T>, count: int) -> Seq<Seq<T>> {
    Seq::new(count as nat, |c: int| strided(samples, count, c))
}

proof fn share_grows(len: int, count: int, channel: int)
    requires
        0 < count,
        0 <= channel < count,
        0 <= len,
    ensures
        share(len, count, channel) >= 0,
        len % count == channel ==> share(len, count, channel) == len / count && share(
            len + 1,
            count,
            channel,
        ) == len / count + 1,
        len % count != channel ==> share(len + 1, count, channel) == share(len, count, channel),
        share(len, count, channel) * count + channel - count < len,
        share(len, count, channel) * count + channel >= len,
{
    lemma_fundamental_div_mod(len, count);
    lemma_mod_bound(len, count);
    let q = len / count;
    let r = len % count;
    assert(count * q == q * count) by (nonlinear_arith);
    assert(q >= 0) by (nonlinear_arith)
        requires
            count > 0,
            len == q * count + r,
            r < count,
            len >= 0,
    ;
    assert(q * count >= 0) by (nonlinear_arith)
        requires
            q >= 0,
            count > 0,
    ;
    assert(len + 1 - channel - 1 == len - channel);
    if channel < r {
        // the channel already has its sample of the running frame
        lemma_fundamental_div_mod_converse(len - channel - 1, count, q, r - channel - 1);
        lemma_fundamental_div_mod_converse(len - channel, count, q, r - channel);
        assert((q + 1) * count == q * count + count) by (nonlinear_arith);
    } else if channel == r {
        lemma_fundamental_div_mod_converse(len - channel, count, q, 0);
        if q > 0 {
            assert(q * count > 0) by (nonlinear_arith)
                requires
                    q > 0,
                    count > 0,
            ;
            assert((q - 1) * count == q * count - count) by (nonlinear_arith);
            lemma_fundamental_div_mod_converse(len - channel - 1, count, q - 1, count - 1);
        } else {
            assert(q * count == 0) by (nonlinear_arith)
                requires
                    q == 0,
            ;
        }
    } else if len > channel {
        assert(q > 0) by (nonlinear_arith)
            requires
                count > 0,
                len == q * count + r,
                r < channel < len,
                channel < count,
        ;
        assert((q - 1) * count == q * count - count) by (nonlinear_arith);
        lemma_fundamental_div_mod_converse(
            len - channel - 1,
            count,
            q - 1,
            count + r - channel - 1,
        );
        lemma_fundamental_div_mod_converse(len - channel, count, q - 1, count + r - channel);
    } else {
        assert(q == 0) by (nonlinear_arith)
            requires
                count > 0,
                len == q * count + r,
                0 <= r < count,
                0 <= len <= channel < count,
        ;
        assert(q * count == 0) by (nonlinear_arith)
            requires
                q == 0,
        ;
    }
}

/// Deals samples out to `channel_count` channels in turn.
pub fn split_channels<T: Copy>(samples: &[T], channel_count: usize) -> (channels: Vec<Vec<T>>)
    ensures
        channels_view(channels@) =~= split(samples@, channel_count as int),
{
    let mut channels: Vec<Vec<T>> = Vec::new();
    if channel_count == 0 {
        return channels;
    }
    let mut c: usize = 0;
    while c < channel_count
        invariant
            c <= channel_count,
            channels@.len() == c,
            forall|k: int| 0 <= k < c ==> (#[trigger] channels@[k])@ =~= Seq::<T>::empty(),
        decreases channel_count - c,
    {
        channels.push(Vec::new());
        c += 1;
    }
    let mut i: usize = 0;
    while i < samples.len()
        invariant
            i <= samples@.len(),
            0 < channel_count,
            channels@.len() == channel_count,
            forall|k: int|
                0 <= k < channel_count ==> (#[trigger] channels@[k])@ =~= strided(
                    samples@.take(i as int),
                    channel_count as int,
                    k,
                ),
        decreases samples@.len() - i,
    {
        let target: usize = i % channel_count;
        let ghost before = channels@;
        channels[target].push(samples[i]);
        proof {
            let count = channel_count as int;
            lemma_mod_bound(i as int, count);
            lemma_fundamental_div_mod(i as int, count);
            let now = samples@.take(i as int);
            let then = samples@.take(i + 1);
            assert forall|k: int| 0 <= k < channel_count implies (#[trigger] channels@[k])@
                =~= strided(then, count, k) by {
                share_grows(i as int, count, k);
                assert(before[k]@ =~= strided(now, count, k));
                assert(channels@[k]@ == if k == target {
                    before[k]@.push(samples@[i as int])
                } else {
                    before[k]@
                });
                let n = share(i as int, count, k);
                assert forall|j: int| 0 <= j < strided(now, count, k).len() implies strided(
                    now,
                    count,
                    k,
                )[j] == strided(then, count, k)[j] by {
                    assert(0 <= j * count <= n * count - count) by (nonlinear_arith)
                        requires
                            0 <= j <= n - 1,
                            count > 0,
                    ;
                }
                if k == target {
                    assert(n * count + k == i) by (nonlinear_arith)
                        requires
                            n == i as int / count,
                            i as int == count * (i as int / count) + i as int % count,
                            k == i as int % count,
                    ;
                    assert(strided(then, count, k)[n] == then[n * count + k]);
                }
            }
        }
        i += 1;
    }
    proof {
        assert(samples@.take(i as int) =~= samples@);
    }
    channels
}

/// Interleaves channels over the frames of the first one; a channel that is shorter is left out
/// of the frames that it does not have.
pub fn interleave_channels<T: Copy>(channels: &[Vec<T>]) -> (samples: Vec<T>)
    ensures
        samples@ =~= interleaved(channels_view(channels@)),
{
    let frame_size: usize = if channels.len() == 0 {
        0
    } else {
        channels[0].len()
    };
    let ghost all = channels_view(channels@);
    let mut samples: Vec<T> = Vec::new();
    let mut i: usize = 0;
    while i < frame_size
        invariant
            i <= frame_size,
            all == channels_view(channels@),
            samples@ =~= rows(all, i as int),
        decreases frame_size - i,
    {
        let mut c: usize = 0;
        while c < channels.len()
            invariant
                c <= channels@.len(),
                all == channels_view(channels@),
                samples@ =~= rows(all, i as int) + row(all, i as int, c as int),
            decreases channels@.len() - c,
        {
            if i < channels[c].len() {
                samples.push(channels[c][i]);
            }
            c += 1;
        }
        i += 1;
    }
    samples
}

proof fn row_of_split<T>(samples: Seq<T>, count: int, frame: int, upto: int)
    requires
        0 < count,
        0 <= frame,
        0 <= upto <= count,
        frame * count <= samples.len(),
    ensures
        row(split(samples, count), frame, upto) =~= samples.subrange(
            frame * count,
            if frame * count + upto <= samples.len() {
                frame * count + upto
            } else {
                samples.len() as int
            },
        ),
    decreases upto,
{
    if upto > 0 {
        row_of_split(samples, count, frame, upto - 1);
        let len = samples.len() as int;
        let n = share(len, count, upto - 1);
        share_grows(len, count, upto - 1);
        assert(frame < n <==> frame * count + upto - 1 < len) by {
            if frame < n {
                assert(frame * count <= (n - 1) * count) by (nonlinear_arith)
                    requires
                        frame <= n - 1,
                        count > 0,
                ;
                assert((n - 1) * count == n * count - count) by (nonlinear_arith);
            } else {
                assert(n * count <= frame * count) by (nonlinear_arith)
                    requires
                        n <= frame,
                        count > 0,
                ;
            }
        }
    }
}

proof fn rows_of_split<T>(samples: Seq<T>, count: int, frames: int)
    requires
        0 < count,
        0 <= frames <= share(samples.len() as int, count, 0),
    ensures
        rows(split(samples, count), frames) =~= samples.take(
            if frames * count <= samples.len() {
                frames * count
            } else {
                samples.len() as int
            },
        ),
        frames * count < samples.len() + count,
    decreases frames,
{
    let len = samples.len() as int;
    share_grows(len, count, 0);
    let n = share(len, count, 0);
    assert(0 <= frames * count <= n * count) by (nonlinear_arith)
        requires
            0 <= frames <= n,
            count > 0,
    ;
    if frames > 0 {
        rows_of_split(samples, count, frames - 1);
        assert((frames - 1) * count == frames * count - count) by (nonlinear_arith);
        row_of_split(samples, count, frames - 1, count);
        let all = split(samples, count);
        let start = (frames - 1) * count;
        let end = if frames * count <= len {
            frames * count
        } else {
            len
        };
        assert(all.len() == count);
        assert(rows(all, frames - 1) =~= samples.take(start));
        assert(row(all, frames - 1, count) =~= samples.subrange(start, end));
        assert(samples.take(start) + samples.subrange(start, end) =~= samples.take(end));
    } else {
        assert(frames * count == 0) by (nonlinear_arith)
            requires
                frames == 0,
        ;
    }
}

/// Splitting and interleaving again gives the samples back, whole frames or not.
pub proof fn split_then_interleave<T>(samples: Seq<T>, count: int)
    requires
        0 < count,
    ensures
        interleaved(split(samples, count)) =~= samples,
{
    let len = samples.len() as int;
    share_grows(len, count, 0);
    rows_of_split(samples, count, share(len, count, 0));
}

/// `mean` is half the sum of `left` and `right`.
pub open spec fn averages<A: Arithmetic>(left: u32, right: u32, mean: u32) -> bool {
    exists|total: u32| #[trigger]
        call_ensures(A::sum, (left, right), total) && call_ensures(
            A::product,
            (total, float::HALF),
            mean,
        )
}

/// `out` is `data` carried over from `src` channels to `dst`. Two channels are averaged into one;
/// otherwise the channels of each whole frame are repeated in turn or left out.
pub open spec fn converts<A: Arithmetic>(
    data: Seq<u32>,
    src: int,
    dst: int,
    out: Seq<u32>,
) -> bool {
    if src == dst || src == 0 || dst == 0 {
        out == data
    } else if src == 2 && dst == 1 {
        &&& out.len() == data.len() / 2
        &&& forall|i: int|
            0 <= i < out.len() ==> averages::<A>(data[2 * i], data[2 * i + 1], #[trigger] out[i])
    } else {
        &&& out.len() == (data.len() as int / src) * dst
        &&& forall|i: int|
            0 <= i < out.len() ==> #[trigger] out[i] == data[(i / dst) * src + (i % dst) % src]
    }
}

/// Carries a chunk over to `mixer_channels` channels.
pub fn convert_to_mixer_channels<A: Arithmetic>(chunk: AudioChunk, mixer_channels: u16) -> (out:
    AudioChunk)
    requires
        chunk.format.channel_count > 0 ==> (chunk.audio_data@.len() as int
            / chunk.format.channel_count as int) * mixer_channels <= usize::MAX,
    ensures
        out.sequence_number == chunk.sequence_number,
        out.format == (AudioFormat {
            channel_count: if chunk.format.channel_count == 0 || mixer_channels == 0 {
                chunk.format.channel_count
            } else {
                mixer_channels
            },
            sample_rate: chunk.format.sample_rate,
        }),
        converts::<A>(
            chunk.audio_data@,
            chunk.format.channel_count as int,
            mixer_channels as int,
            out.audio_data@,
        ),
{
    let src_channels: u16 = chunk.format.channel_count;
    if src_channels == mixer_channels || src_channels == 0 || mixer_channels == 0 {
        return chunk;
    }
    let data: &Vec<u32> = &chunk.audio_data;
    let src: usize = src_channels as usize;
    let dst: usize = mixer_channels as usize;
    let frames: usize = data.len() / src;
    let mut out: Vec<u32> = Vec::new();
    proof {
        lemma_fundamental_div_mod(data@.len() as int, src as int);
        lemma_mod_bound(data@.len() as int, src as int);
    }
    if src == 2 && dst == 1 {
        let mut f: usize = 0;
        while f < frames
            invariant
                f <= frames,
                2 * frames <= data@.len() <= usize::MAX,
                out@.len() == f,
                forall|i: int|
                    0 <= i < f ==> averages::<A>(
                        data@[2 * i],
                        data@[2 * i + 1],
                        #[trigger] out@[i],
                    ),
            decreases frames - f,
        {
            let total: u32 = A::sum(data[2 * f], data[2 * f + 1]);
            let mean: u32 = A::product(total, float::HALF);
            proof {
                assert(averages::<A>(data@[2 * f], data@[2 * f + 1], mean));
            }
            out.push(mean);
            f += 1;
        }
    } else {
        let mut f: usize = 0;
        while f < frames
            invariant
                f <= frames,
                0 < src,
                0 < dst,
                src * frames <= data@.len() <= usize::MAX,
                frames * dst <= usize::MAX,
                out@.len() == f * dst,
                forall|i: int|
                    0 <= i < out@.len() ==> #[trigger] out@[i] == data@[(i / dst as int) * src + (i
                        % dst as int) % src as int],
            decreases frames - f,
        {
            let ghost start: int = f * dst;
            proof {
                assert(0 <= f * src && f * src + src <= src * frames) by (nonlinear_arith)
                    requires
                        0 <= f,
                        f + 1 <= frames,
                        0 < src,
                ;
            }
            let base: usize = f * src;
            let mut t: usize = 0;
            while t < dst
                invariant
                    t <= dst,
                    0 < src,
                    0 < dst,
                    start == f * dst,
                    base == f * src,
                    base + src <= data@.len() <= usize::MAX,
                    out@.len() == start + t,
                    forall|i: int|
                        0 <= i < out@.len() ==> #[trigger] out@[i] == data@[(i / dst as int) * src
                            + (i % dst as int) % src as int],
                decreases dst - t,
            {
                proof {
                    lemma_mod_bound(t as int, src as int);
                    lemma_fundamental_div_mod_converse(start + t, dst as int, f as int, t as int);
                }
                out.push(data[base + t % src]);
                t += 1;
            }
            proof {
                assert((f + 1) * dst == f * dst + dst) by (nonlinear_arith);
            }
            f += 1;
        }
    }
    AudioChunk {
        sequence_number: chunk.sequence_number,
        format: AudioFormat::new(mixer_channels, chunk.format.sample_rate),
        audio_data: out,
    }
}

/// A frame keeps its first channel, whatever the number of channels around it: only averaging two
/// channels into one mixes samples.
pub proof fn first_channel_is_kept<A: Arithmetic>(
    data: Seq<u32>,
    src: int,
    dst: int,
    out: Seq<u32>,
    frame: int,
)
    requires
        0 < src,
        0 < dst,
        src != dst,
        !(src == 2 && dst == 1),
        converts::<A>(data, src, dst, out),
        0 <= frame < data.len() as int / src,
    ensures
        out[frame * dst] == data[frame * src],
{
    assert(frame * dst + dst <= (data.len() as int / src) * dst) by (nonlinear_arith)
        requires
            frame + 1 <= data.len() as int / src,
            0 < dst,
    ;
    assert(0 <= frame * dst) by (nonlinear_arith)
        requires
            0 <= frame,
            0 < dst,
    ;
    lemma_fundamental_div_mod_converse(frame * dst, dst, frame, 0);
    lemma_fundamental_div_mod_converse(0, src, 0, 0);
}

} // verus!
