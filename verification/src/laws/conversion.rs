//! Channels and rates: what a stream becomes in another format.
use crate::audio::capture;
use crate::audio::chunk::AudioChunk;
use crate::audio::converter::{self, FormatConverter, ResampledSource};
use crate::audio::float::Arithmetic;
use crate::audio::hub::output_resampler;
use crate::audio::sample::{self, Resampler, ResamplerSpec, SampleSource, SyncSampleSource};
use crate::audio::sample_ops::{
    self, convert_to_mixer_channels, interleave_channels, split_channels,
};
use crate::audio::transform::{ChannelMap, ChunkTransform};
use crate::audio::AudioFormat;
use vstd::arithmetic::div_mod::{
    lemma_fundamental_div_mod, lemma_fundamental_div_mod_converse, lemma_mod_bound,
};
use vstd::prelude::*;

verus! {

/// A resampler was made from one rate to another, for so many channels.
pub open spec fn made_between<R: From<ResamplerSpec>>(
    resampler: R,
    source_rate: u32,
    target_rate: u32,
    channels: int,
    spec: ResamplerSpec,
) -> bool {
    &&& call_ensures(<R as From<ResamplerSpec>>::from, (spec,), resampler)
    &&& spec.source_rate == source_rate
    &&& spec.target_rate == target_rate
    &&& spec.source_channels == channels
}

/// A converter's resampler goes from the rate that comes in to the rate that goes out, whatever
/// the two are, on the channels that go out, in blocks of as many frames as are whole.
pub proof fn converter_bridges_the_rates<R: Resampler + From<ResamplerSpec>, A: Arithmetic>(
    from: AudioFormat,
    to: AudioFormat,
    block_samples: usize,
    capacity_samples: usize,
    converter: FormatConverter<R, A>,
)
    requires
        call_ensures(
            FormatConverter::<R, A>::new,
            (from, to, block_samples, capacity_samples),
            converter,
        ),
    ensures
        converter.from == from && converter.to == to,
        converter.block_samples == block_samples,
        converter.capacity_samples == capacity_samples,
        converter.pending@.len() == 0,
        exists|spec: ResamplerSpec| #[trigger]
            made_between(
                converter.resampler,
                from.sample_rate,
                to.sample_rate,
                to.channel_count as int,
                spec,
            ) && (to.channel_count > 0 ==> spec.block_frames * to.channel_count <= block_samples
                && block_samples < (spec.block_frames + 1) * to.channel_count) && (to.channel_count
                == 0 ==> spec.block_frames == 0),
{
    let spec = FormatConverter::<R, A>::resampler_spec(from, to, block_samples);
    if to.channel_count > 0 {
        let (n, c) = (block_samples as int, to.channel_count as int);
        lemma_fundamental_div_mod(n, c);
        lemma_mod_bound(n, c);
        assert(0 <= n / c <= n && (n / c) * c <= n < (n / c + 1) * c) by (nonlinear_arith)
            requires
                n == c * (n / c) + n % c,
                0 <= n % c < c,
                n >= 0,
                c > 0,
        ;
    }
    assert(made_between(
        converter.resampler,
        from.sample_rate,
        to.sample_rate,
        to.channel_count as int,
        spec,
    ));
}

/// A source that is resampled goes from its own rate to the one that is asked for, and keeps its
/// channels.
pub proof fn source_is_resampled_to_the_rate<S: SampleSource, R: Resampler + From<ResamplerSpec>>(
    delegate: S,
    target_rate: u32,
    chunk_frames: usize,
    source: ResampledSource<S, R>,
)
    requires
        call_ensures(
            ResampledSource::<S, R>::new,
            (delegate, target_rate, chunk_frames),
            source,
        ),
    ensures
        source.delegate == delegate,
        !source.drained,
        source.out_format.sample_rate == target_rate,
        source.out_format.channel_count == delegate.spec_format().channel_count,
        exists|spec: ResamplerSpec| #[trigger]
            made_between(
                source.resampler,
                delegate.spec_format().sample_rate,
                target_rate,
                delegate.spec_format().channel_count as int,
                spec,
            ) && spec.block_frames == chunk_frames,
{
    assert(made_between(
        source.resampler,
        delegate.spec_format().sample_rate,
        target_rate,
        delegate.spec_format().channel_count as int,
        ResamplerSpec {
            source_rate: delegate.spec_format().sample_rate,
            source_channels: delegate.spec_format().channel_count as usize,
            target_rate,
            block_frames: chunk_frames,
        },
    ));
}

/// A peer's resampler goes from the rate that peers send at to the rate of the output.
pub proof fn peers_are_resampled_to_the_output<R: From<ResamplerSpec>>(
    out: AudioFormat,
    block_frames: usize,
    resampler: R,
)
    requires
        call_ensures(output_resampler::<R>, (out, block_frames), resampler),
    ensures
        exists|spec: ResamplerSpec| #[trigger]
            made_between(resampler, 48000, out.sample_rate, out.channel_count as int, spec)
                && spec.block_frames == block_frames,
{
    assert(made_between(
        resampler,
        48000,
        out.sample_rate,
        out.channel_count as int,
        ResamplerSpec {
            source_rate: 48000,
            source_channels: out.channel_count as usize,
            target_rate: out.sample_rate,
            block_frames,
        },
    ));
}

/// Where channel `c` of frame `f` stands among interleaved samples of so many channels.
pub open spec fn at(f: int, c: int, channels: int) -> int {
    f * channels + c
}

/// `out` is `data` carried over from `src` channels to `dst`, frame by frame: two channels become
/// one by halving their sum; otherwise channel `c` of a frame is channel `c` of the same frame
/// before, and channels beyond the last begin again at the first. What fills no frame is left out.
pub open spec fn carried_over<A: Arithmetic>(
    data: Seq<u32>,
    src: int,
    dst: int,
    out: Seq<u32>,
) -> bool {
    if src == dst || src == 0 || dst == 0 {
        out == data
    } else {
        &&& out.len() == (data.len() as int / src) * dst
        &&& forall|f: int, c: int|
            0 <= f < data.len() as int / src && 0 <= c < dst ==> if src == 2 && dst == 1 {
                halved::<A>(data[2 * f], data[2 * f + 1], out[#[trigger] at(f, c, dst)])
            } else {
                out[at(f, c, dst)] == data[at(f, c % src, src)]
            }
    }
}

/// `mean` is half the sum of two samples.
pub open spec fn halved<A: Arithmetic>(left: u32, right: u32, mean: u32) -> bool {
    exists|total: u32| #[trigger]
        call_ensures(A::sum, (left, right), total) && call_ensures(
            A::product,
            (total, 0x3f00_0000u32),
            mean,
        )
}

/// What is converted is carried over to the other channels.
pub(crate) proof fn conversion_carries_over<A: Arithmetic>(
    data: Seq<u32>,
    src: int,
    dst: int,
    out: Seq<u32>,
)
    requires
        src >= 0,
        dst >= 0,
        sample_ops::converts::<A>(data, src, dst, out),
    ensures
        carried_over::<A>(data, src, dst, out),
{
    if src != dst && src > 0 && dst > 0 {
        let frames = data.len() as int / src;
        assert forall|f: int, c: int| 0 <= f < frames && 0 <= c < dst implies if src == 2 && dst
            == 1 {
            halved::<A>(data[2 * f], data[2 * f + 1], out[#[trigger] at(f, c, dst)])
        } else {
            out[at(f, c, dst)] == data[at(f, c % src, src)]
        } by {
            assert(0 <= f * dst + c < frames * dst) by (nonlinear_arith)
                requires
                    0 <= f < frames,
                    0 <= c < dst,
            ;
            lemma_fundamental_div_mod_converse(f * dst + c, dst, f, c);
            if src == 2 && dst == 1 {
                assert(sample_ops::averages::<A>(data[2 * f], data[2 * f + 1], out[f]));
            } else {
                let i = at(f, c, dst);
                assert(out[i] == data[(i / dst) * src + (i % dst) % src]);
            }
        }
    }
}

/// A chunk is carried over to other channels frame by frame, and keeps its number and rate.
pub proof fn frames_are_carried_over<A: Arithmetic>(
    chunk: AudioChunk,
    channels: u16,
    out: AudioChunk,
)
    requires
        call_ensures(convert_to_mixer_channels::<A>, (chunk, channels), out),
    ensures
        out.sequence_number == chunk.sequence_number,
        out.format.sample_rate == chunk.format.sample_rate,
        out.format.channel_count == if chunk.format.channel_count == 0 || channels == 0 {
            chunk.format.channel_count
        } else {
            channels
        },
        carried_over::<A>(
            chunk.audio_data@,
            chunk.format.channel_count as int,
            channels as int,
            out.audio_data@,
        ),
{
    conversion_carries_over::<A>(
        chunk.audio_data@,
        chunk.format.channel_count as int,
        channels as int,
        out.audio_data@,
    );
}

/// A channel map carries chunks over to its channels; a capped one leaves those alone that have
/// no more.
pub proof fn map_carries_over_to_its_channels<A: Arithmetic>(
    map: ChannelMap<A>,
    chunk: AudioChunk,
    after: ChannelMap<A>,
    out: AudioChunk,
)
    requires
        ChannelMap::<A>::transforms(map, chunk, after, out),
    ensures
        after == map,
        out.sequence_number == chunk.sequence_number,
        out.format.sample_rate == chunk.format.sample_rate,
        map.cap_channels && chunk.format.channel_count <= map.dst_channels ==> out.audio_data@
            == chunk.audio_data@ && out.format == chunk.format,
        !map.cap_channels || chunk.format.channel_count > map.dst_channels ==> carried_over::<A>(
            chunk.audio_data@,
            chunk.format.channel_count as int,
            map.dst_channels as int,
            out.audio_data@,
        ) && (chunk.format.channel_count > 0 && map.dst_channels > 0 ==> out.format.channel_count
            == map.dst_channels),
{
    conversion_carries_over::<A>(
        chunk.audio_data@,
        chunk.format.channel_count as int,
        map.target(chunk.format.channel_count) as int,
        out.audio_data@,
    );
}

/// A map is capped just where it was made so.
pub proof fn maps_are_made_as_asked<A: Arithmetic>(
    channels: u16,
    map: ChannelMap<A>,
    capped: ChannelMap<A>,
)
    requires
        call_ensures(ChannelMap::<A>::new, (channels,), map),
        call_ensures(ChannelMap::<A>::capped, (channels,), capped),
    ensures
        map.dst_channels == channels && !map.cap_channels,
        capped.dst_channels == channels && capped.cap_channels,
{
}

/// How many samples fill no frame of so many channels.
pub open spec fn left_over(samples: Seq<u32>, channels: int) -> int {
    if channels == 0 {
        0
    } else {
        samples.len() as int % channels
    }
}

/// What a converter holds after samples have come in: the newest of what it held and what came,
/// in order, up to its capacity. `came` is what came, and `ragged` what filled no frame; what is
/// counted as dropped is that, and what is no longer held.
pub open spec fn holds_the_newest<R: Resampler, A: Arithmetic>(
    before: FormatConverter<R, A>,
    came: Seq<u32>,
    ragged: int,
    after: FormatConverter<R, A>,
    dropped: int,
) -> bool {
    let all = before.pending@ + came;
    &&& after.pending@.is_suffix_of(all)
    &&& all.len() <= before.capacity_samples ==> after.pending@.len() == all.len()
    &&& all.len() > before.capacity_samples ==> after.pending@.len() == before.capacity_samples
    &&& ragged + all.len() - after.pending@.len() <= usize::MAX ==> dropped + after.pending@.len()
        == ragged + all.len()
}

/// Where nothing has to be converted, samples are held as they come, and the resampler is not
/// touched.
pub proof fn same_format_passes_as_it_is<R: Resampler, A: Arithmetic>(
    converter: &mut FormatConverter<R, A>,
    samples: Vec<u32>,
    dropped: usize,
)
    requires
        call_ensures(FormatConverter::<R, A>::feed, (converter, samples), dropped),
        old(converter).from == old(converter).to,
    ensures
        final(converter).resampler == old(converter).resampler,
        holds_the_newest(*old(converter), samples@, 0, *final(converter), dropped as int),
        final(converter).from == old(converter).from,
        final(converter).to == old(converter).to,
        final(converter).capacity_samples == old(converter).capacity_samples,
        final(converter).block_samples == old(converter).block_samples,
{
}

/// Otherwise the samples go into the resampler, carried over to the channels that go out, and all
/// that comes out of the resampler is held; none of it is left behind.
pub proof fn other_format_goes_through_the_resampler<R: Resampler, A: Arithmetic>(
    converter: &mut FormatConverter<R, A>,
    samples: Vec<u32>,
    dropped: usize,
)
    requires
        call_ensures(FormatConverter::<R, A>::feed, (converter, samples), dropped),
        old(converter).from != old(converter).to,
    ensures
        exists|mapped: Seq<u32>| #[trigger]
            carried_over::<A>(
                samples@,
                old(converter).from.channel_count as int,
                old(converter).to.channel_count as int,
                mapped,
            ) && final(converter).resampler.flow().pushed == old(converter).resampler.flow().pushed
                + mapped,
        final(converter).resampler.flow().waiting.len() == 0,
        exists|came: Seq<u32>|
            final(converter).resampler.flow().popped == old(converter).resampler.flow().popped
                + came && #[trigger] holds_the_newest(
                *old(converter),
                came,
                left_over(samples@, old(converter).from.channel_count as int),
                *final(converter),
                dropped as int,
            ),
        final(converter).from == old(converter).from,
        final(converter).to == old(converter).to,
        final(converter).capacity_samples == old(converter).capacity_samples,
        final(converter).block_samples == old(converter).block_samples,
{
    let before = *old(converter);
    let (src, dst) = (before.from.channel_count as int, before.to.channel_count as int);
    let gained = choose|gained: Seq<u32>| #[trigger]
        before.converts(samples@, final(converter).resampler, gained) && ({
            let all = before.pending@ + gained;
            let lost = converter::excess(all, before.capacity_samples as int)
                + converter::ragged(samples@, src);
            &&& final(converter).pending@ == converter::newest(all, before.capacity_samples as int)
            &&& lost <= usize::MAX ==> dropped == lost
            &&& lost > usize::MAX ==> dropped == usize::MAX
        });
    let (mapped, full) = choose|mapped: Seq<u32>, full: R| #[trigger]
        sample_ops::converts::<A>(samples@, src, dst, mapped) && #[trigger] sample::takes_all(
            before.resampler,
            mapped,
            full,
        ) && gained == full.flow().waiting && final(converter).resampler.flow() == (sample::Flow {
            waiting: Seq::empty(),
            popped: before.resampler.flow().popped + gained,
            ..full.flow()
        });
    conversion_carries_over::<A>(samples@, src, dst, mapped);
    assert(carried_over::<A>(samples@, src, dst, mapped));
    assert(holds_the_newest(
        before,
        gained,
        left_over(samples@, src),
        *final(converter),
        dropped as int,
    ));
}

/// Blocks leave a converter from the front, whole and one at a time; nothing is lost or left.
pub proof fn blocks_leave_from_the_front<R: Resampler, A: Arithmetic>(
    converter: &mut FormatConverter<R, A>,
    block: Option<Vec<u32>>,
)
    requires
        call_ensures(FormatConverter::<R, A>::take_block, (converter,), block),
    ensures
        match block {
            Some(block) => {
                &&& block@.len() == old(converter).block_samples > 0
                &&& old(converter).pending@ =~= block@ + final(converter).pending@
            },
            None => *final(converter) == *old(converter) && (old(converter).block_samples == 0
                || old(converter).pending@.len() < old(converter).block_samples),
        },
        final(converter).resampler == old(converter).resampler,
        final(converter).from == old(converter).from,
        final(converter).to == old(converter).to,
{
}

/// What is pending is counted.
pub proof fn pending_is_counted<R: Resampler, A: Arithmetic>(
    converter: FormatConverter<R, A>,
    n: usize,
)
    requires
        call_ensures(FormatConverter::<R, A>::pending_samples, (&converter,), n),
    ensures
        n == converter.pending@.len(),
{
}

/// What a resampled source hands out is what comes out of its resampler next, and what goes into
/// the resampler is what the delegate brings, in order. The delegate is asked only while nothing
/// is ready, and until something is or it ends.
pub proof fn resampled_source_hands_on_in_order<S: SyncSampleSource, R: Resampler>(
    source: &mut ResampledSource<S, R>,
    out: Option<u32>,
)
    requires
        call_ensures(
            <ResampledSource<S, R> as SyncSampleSource>::next_sync,
            (source,),
            out,
        ),
    ensures
        final(source).out_format == old(source).out_format,
        final(source).resampler.flow().popped == old(source).resampler.flow().popped
            + sample::brought(out),
        old(source).resampler.flow().waiting.len() > 0 ==> out == Some(
            old(source).resampler.flow().waiting[0],
        ) && final(source).delegate == old(source).delegate,
        old(source).resampler.flow().waiting.len() == 0 && old(source).drained ==> out is None
            && final(source).delegate == old(source).delegate && final(source).drained,
        old(source).resampler.flow().waiting.len() == 0 && !old(source).drained ==> exists|
            taken: Seq<Option<u32>>,
        | #[trigger]
            sample::drawn(old(source).delegate, taken, final(source).delegate) && taken.len() > 0
                && (forall|i: int| 0 <= i < taken.len() - 1 ==> #[trigger] taken[i] is Some)
                && final(source).resampler.flow().pushed == old(source).resampler.flow().pushed
                + capture::heard(
                if taken.last() is None {
                    taken.drop_last()
                } else {
                    taken
                },
            ) && final(source).drained == (taken.last() is None) && (out is None) == (taken.last()
                is None),
{
    let (pre, post) = (*old(source), *final(source));
    if pre.resampler.flow().waiting.len() == 0 && !pre.drained {
        let (asked, taken, mid, hungry, input) = choose|
            asked: R,
            taken: Seq<u32>,
            mid: S,
            hungry: R,
            input: Option<u32>,
        |
            sample::gives(pre.resampler, None, asked) && #[trigger] converter::starved(
                pre.delegate,
                asked,
                taken,
                mid,
                hungry,
            ) && #[trigger] S::yields(mid, input, post.delegate) && converter::drives(
                hungry,
                input,
                out,
                post.resampler,
            ) && post.drained == (input is None) && (input is None <==> out is None);
        starving_goes_in_order(pre.delegate, asked, taken, mid, hungry);
        let before = Seq::new(taken.len(), |i: int| Some(taken[i]));
        let all = before.push(input);
        assert(all.drop_last() =~= before);
        assert(S::yields(mid, all.last(), post.delegate));
        assert(sample::drawn(pre.delegate, all, post.delegate));
        let full = choose|full: R| #[trigger]
            sample::takes_all(hungry, sample::brought(input), full) && (input is None ==> full
                == hungry) && sample::gives(full, out, post.resampler);
        assert(capture::heard(before) =~= taken);
        let heard = capture::heard(
            if all.last() is None {
                all.drop_last()
            } else {
                all
            },
        );
        assert(heard =~= taken + sample::brought(input));
        assert(post.resampler.flow().pushed =~= pre.resampler.flow().pushed + heard);
        assert(post.resampler.flow().popped =~= pre.resampler.flow().popped
            + sample::brought(out));
    }
}

proof fn starving_goes_in_order<S: SyncSampleSource, R: Resampler>(
    delegate: S,
    resampler: R,
    taken: Seq<u32>,
    left: S,
    hungry: R,
)
    requires
        converter::starved(delegate, resampler, taken, left, hungry),
    ensures
        sample::drawn(delegate, Seq::new(taken.len(), |i: int| Some(taken[i])), left),
        hungry.flow().pushed == resampler.flow().pushed + taken,
        hungry.flow().popped == resampler.flow().popped,
    decreases taken.len(),
{
    let samples = Seq::new(taken.len(), |i: int| Some(taken[i]));
    if taken.len() == 0 {
        assert(resampler.flow().pushed + taken =~= resampler.flow().pushed);
    } else {
        let (mid, from) = choose|mid: S, from: R|
            converter::starved(delegate, resampler, taken.drop_last(), mid, from)
                && #[trigger] S::yields(mid, Some(taken.last()), left)
                && #[trigger] converter::drives(from, Some(taken.last()), None, hungry);
        starving_goes_in_order(delegate, resampler, taken.drop_last(), mid, from);
        let earlier = Seq::new(taken.drop_last().len(), |i: int| Some(taken.drop_last()[i]));
        assert(samples.drop_last() =~= earlier);
        assert(S::yields(mid, samples.last(), left));
        let full = choose|full: R| #[trigger]
            sample::takes_all(from, sample::brought(Some(taken.last())), full) && sample::gives(
                full,
                None,
                hungry,
            );
        assert(hungry.flow().pushed =~= resampler.flow().pushed + taken);
        assert(hungry.flow().popped =~= resampler.flow().popped);
    }
}

/// Driving a resampled source by hand goes the same way: what is brought goes in, and what is next
/// comes out.
pub proof fn driving_hands_on_in_order<S, R: Resampler>(
    source: &mut ResampledSource<S, R>,
    input: Option<u32>,
    out: Option<u32>,
)
    requires
        call_ensures(ResampledSource::<S, R>::drive, (source, input), out),
    ensures
        final(source).resampler.flow().pushed == old(source).resampler.flow().pushed
            + sample::brought(input),
        final(source).resampler.flow().popped == old(source).resampler.flow().popped
            + sample::brought(out),
        out is None ==> final(source).resampler.flow().waiting.len() == 0,
        old(source).resampler.flow().waiting.len() > 0 ==> out == Some(
            old(source).resampler.flow().waiting[0],
        ),
        final(source).drained == (old(source).drained || input is None),
        final(source).delegate == old(source).delegate,
{
    let full = choose|full: R| #[trigger]
        sample::takes_all(old(source).resampler, sample::brought(input), full) && (input is None
            ==> full == old(source).resampler) && sample::gives(full, out, final(source).resampler);
    if old(source).resampler.flow().waiting.len() > 0 {
        assert(full.flow().waiting[0] == old(source).resampler.flow().waiting[0]);
    }
}

/// What is ready is handed out without asking the delegate, and the end only once it is drained.
pub proof fn ready_samples_come_first<S, R: Resampler>(
    source: &mut ResampledSource<S, R>,
    ready: Option<Option<u32>>,
)
    requires
        call_ensures(ResampledSource::<S, R>::take_ready, (source,), ready),
    ensures
        final(source).delegate == old(source).delegate,
        final(source).drained == old(source).drained,
        final(source).resampler.flow().pushed == old(source).resampler.flow().pushed,
        old(source).resampler.flow().waiting.len() > 0 ==> ready == Some(
            Some(old(source).resampler.flow().waiting[0]),
        ) && final(source).resampler.flow().popped == old(source).resampler.flow().popped.push(
            old(source).resampler.flow().waiting[0],
        ),
        old(source).resampler.flow().waiting.len() == 0 ==> final(source).resampler.flow().popped
            == old(source).resampler.flow().popped && ready == (if old(source).drained {
            Some(None::<u32>)
        } else {
            None
        }),
{
    let given = choose|given: Option<u32>| #[trigger]
        sample::gives(old(source).resampler, given, final(source).resampler) && ready == if given
            is Some || old(source).drained {
            Some(given)
        } else {
            None
        };
    if old(source).resampler.flow().waiting.len() == 0 {
        assert(final(source).resampler.flow().popped =~= old(source).resampler.flow().popped);
    } else {
        assert(final(source).resampler.flow().popped =~= old(source).resampler.flow().popped.push(
            old(source).resampler.flow().waiting[0],
        ));
    }
}

/// Splitting deals the samples out in turn: sample `i` goes to channel `i % count`, behind those
/// that went there before.
pub proof fn samples_are_dealt_out_in_turn<T: Copy>(
    samples: &[T],
    count: usize,
    channels: Vec<Vec<T>>,
    i: int,
)
    requires
        count > 0,
        call_ensures(split_channels::<T>, (samples, count), channels),
        0 <= i < samples@.len(),
    ensures
        channels@.len() == count,
        0 <= i % count as int && i % (count as int) < count,
        0 <= i / count as int && i / (count as int) < channels@[i % count as int]@.len(),
        channels@[i % count as int]@[i / count as int] == samples@[i],
{
    let (n, c) = (count as int, i % count as int);
    lemma_fundamental_div_mod(i, n);
    lemma_mod_bound(i, n);
    let len = samples@.len() as int;
    assert(sample_ops::channels_view(channels@)[c] == sample_ops::strided(samples@, n, c));
    assert(sample_ops::channels_view(channels@)[c] == channels@[c]@);
    let q = (len - c - 1) / n;
    lemma_fundamental_div_mod(len - c - 1, n);
    lemma_mod_bound(len - c - 1, n);
    assert(0 <= i / n && i / n < q + 1 && c < len && (i / n) * n + c == i) by (nonlinear_arith)
        requires
            i == n * (i / n) + c,
            0 <= c < n,
            0 <= i < len,
            len - c - 1 == n * q + (len - c - 1) % n,
            0 <= (len - c - 1) % n < n,
    ;
}

/// Samples that are dealt out and interleaved again come back as they were.
pub proof fn dealt_out_samples_come_back<T: Copy>(
    samples: &[T],
    count: usize,
    channels: Vec<Vec<T>>,
    again: &[Vec<T>],
    out: Vec<T>,
)
    requires
        count > 0,
        call_ensures(split_channels::<T>, (samples, count), channels),
        again@ == channels@,
        call_ensures(interleave_channels::<T>, (again,), out),
    ensures
        out@ =~= samples@,
{
    sample_ops::split_then_interleave(samples@, count as int);
    assert(sample_ops::channels_view(again@) =~= sample_ops::split(samples@, count as int));
}

/// Nothing is dealt out but the samples, each once: what stands at `k` in a channel is the sample
/// of that turn.
pub proof fn nothing_else_is_dealt_out<T: Copy>(
    samples: &[T],
    count: usize,
    channels: Vec<Vec<T>>,
    c: int,
    k: int,
)
    requires
        call_ensures(split_channels::<T>, (samples, count), channels),
        0 <= c < channels@.len(),
        0 <= k < channels@[c]@.len(),
    ensures
        c < count,
        0 <= k * count + c < samples@.len(),
        channels@[c]@[k] == samples@[k * count + c],
{
    let (n, len) = (count as int, samples@.len() as int);
    assert(sample_ops::channels_view(channels@).len() == channels@.len());
    assert(sample_ops::channels_view(channels@)[c] == sample_ops::strided(samples@, n, c));
    assert(sample_ops::channels_view(channels@)[c] == channels@[c]@);
    if c < len {
        let q = (len - c - 1) / n;
        lemma_fundamental_div_mod(len - c - 1, n);
        lemma_mod_bound(len - c - 1, n);
        assert(0 <= k * n + c < len) by (nonlinear_arith)
            requires
                0 <= k <= q,
                n > 0,
                c >= 0,
                len - c - 1 == n * q + (len - c - 1) % n,
                0 <= (len - c - 1) % n,
        ;
    }
}

/// Frame and channel of a sample.
pub struct Cell {
    pub frame: int,
    pub channel: int,
}

/// Whether channels hold a sample at a cell.
pub open spec fn has_cell<T>(channels: Seq<Seq<T>>, cell: Cell) -> bool {
    0 <= cell.channel < channels.len() && 0 <= cell.frame < channels[cell.channel].len()
}

/// A cell comes before another: in an earlier frame, or in the same one on an earlier channel.
pub open spec fn comes_before(a: Cell, b: Cell) -> bool {
    a.frame < b.frame || (a.frame == b.frame && a.channel < b.channel)
}

/// `out` is what stands in `cells`, which come one after the other.
pub open spec fn reads_out<T>(channels: Seq<Seq<T>>, cells: Seq<Cell>, out: Seq<T>) -> bool {
    &&& out.len() == cells.len()
    &&& forall|i: int|
        0 <= i < cells.len() ==> has_cell(channels, #[trigger] cells[i]) && out[i]
            == channels[cells[i].channel][cells[i].frame]
    &&& forall|i: int, j: int|
        0 <= i < j < cells.len() ==> comes_before(#[trigger] cells[i], #[trigger] cells[j])
}

proof fn row_is_read_out<T>(channels: Seq<Seq<T>>, frame: int, upto: int) -> (cells: Seq<Cell>)
    requires
        0 <= upto <= channels.len(),
        0 <= frame,
    ensures
        reads_out(channels, cells, sample_ops::row(channels, frame, upto)),
        forall|i: int|
            0 <= i < cells.len() ==> (#[trigger] cells[i]).frame == frame && cells[i].channel
                < upto,
        forall|c: int|
            0 <= c < upto && frame < channels[c].len() ==> #[trigger] cells.contains(
                Cell { frame, channel: c },
            ),
    decreases upto,
{
    if upto == 0 {
        Seq::empty()
    } else {
        let earlier = row_is_read_out(channels, frame, upto - 1);
        let last = Cell { frame, channel: upto - 1 };
        if frame < channels[upto - 1].len() {
            let cells = earlier.push(last);
            assert(cells[cells.len() - 1] == last);
            assert forall|c: int|
                0 <= c < upto && frame < channels[c].len() implies #[trigger] cells.contains(
                Cell { frame, channel: c },
            ) by {
                if c < upto - 1 {
                    assert(earlier.contains(Cell { frame, channel: c }));
                    let i = choose|i: int|
                        0 <= i < earlier.len() && earlier[i] == (Cell { frame, channel: c });
                    assert(cells[i] == earlier[i]);
                }
            }
            cells
        } else {
            assert forall|c: int|
                0 <= c < upto && frame < channels[c].len() implies #[trigger] earlier.contains(
                Cell { frame, channel: c },
            ) by {
                assert(c < upto - 1);
            }
            earlier
        }
    }
}

proof fn rows_are_read_out<T>(channels: Seq<Seq<T>>, frames: int) -> (cells: Seq<Cell>)
    requires
        0 <= frames,
    ensures
        reads_out(channels, cells, sample_ops::rows(channels, frames)),
        forall|i: int| 0 <= i < cells.len() ==> (#[trigger] cells[i]).frame < frames,
        forall|cell: Cell|
            has_cell(channels, cell) && cell.frame < frames ==> #[trigger] cells.contains(cell),
    decreases frames,
{
    if frames == 0 {
        Seq::empty()
    } else {
        let earlier = rows_are_read_out(channels, frames - 1);
        let last = row_is_read_out(channels, frames - 1, channels.len() as int);
        let cells = earlier + last;
        assert forall|cell: Cell|
            has_cell(channels, cell) && cell.frame < frames implies #[trigger] cells.contains(
            cell,
        ) by {
            if cell.frame < frames - 1 {
                assert(earlier.contains(cell));
                let i = choose|i: int| 0 <= i < earlier.len() && earlier[i] == cell;
                assert(cells[i] == cell);
            } else {
                assert(cell == Cell { frame: frames - 1, channel: cell.channel });
                assert(last.contains(Cell { frame: frames - 1, channel: cell.channel }));
                let i = choose|i: int| 0 <= i < last.len() && last[i] == cell;
                assert(cells[earlier.len() + i] == cell);
            }
        }
        cells
    }
}

/// Interleaving reads out frame by frame, and within a frame channel by channel, all that the
/// channels hold in the frames of the first one; where a channel is shorter, it is passed over.
pub proof fn channels_are_read_out_frame_by_frame<T: Copy>(channels: &[Vec<T>], out: Vec<T>)
    requires
        call_ensures(interleave_channels::<T>, (channels,), out),
    ensures
        channels@.len() == 0 ==> out@.len() == 0,
        channels@.len() > 0 ==> exists|cells: Seq<Cell>| #[trigger]
            reads_out(sample_ops::channels_view(channels@), cells, out@) && (forall|cell: Cell|
                #[trigger]
                cells.contains(cell) <==> 0 <= cell.channel < channels@.len() && 0 <= cell.frame
                    < channels@[cell.channel]@.len() && cell.frame < channels@[0]@.len()),
{
    let all = sample_ops::channels_view(channels@);
    if channels@.len() > 0 {
        let frames = channels@[0]@.len() as int;
        assert(all[0].len() == frames);
        let cells = rows_are_read_out(all, frames);
        assert(reads_out(all, cells, out@));
        assert forall|cell: Cell| #[trigger] cells.contains(cell) <==> (0 <= cell.channel
            < channels@.len() && 0 <= cell.frame < channels@[cell.channel]@.len() && cell.frame
            < frames) by {
            if cells.contains(cell) {
                let i = choose|i: int| 0 <= i < cells.len() && cells[i] == cell;
                assert(has_cell(all, cells[i]));
            } else if 0 <= cell.channel < channels@.len() && 0 <= cell.frame
                < channels@[cell.channel]@.len() && cell.frame < frames {
                assert(has_cell(all, cell));
            }
        }
    }
}

} // verus!
