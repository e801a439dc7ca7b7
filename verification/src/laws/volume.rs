//! Volume, mute, the bounds of a sample, and chains of stages.
use crate::audio::chunk::AudioChunk;
use crate::audio::float::{self, Arithmetic};
use crate::audio::transform::{
    self, gain_chunk, is_hit, mute_chunk, ChunkTransform, Clip, Gain, GainControl, Link,
    MetricsReader, Mute,
};
use vstd::prelude::*;

verus! {

/// Arithmetic that gives one result for the same operands.
pub open spec fn is_a_function<A: Arithmetic>() -> bool {
    &&& forall|a: u32, b: u32, x: u32, y: u32|
        #![trigger call_ensures(A::product, (a, b), x), call_ensures(A::product, (a, b), y)]
        call_ensures(A::product, (a, b), x) && call_ensures(A::product, (a, b), y) ==> x == y
    &&& forall|a: u32, b: u32, x: u32, y: u32|
        #![trigger call_ensures(A::sum, (a, b), x), call_ensures(A::sum, (a, b), y)]
        call_ensures(A::sum, (a, b), x) && call_ensures(A::sum, (a, b), y) ==> x == y
    &&& forall|volume: usize, x: u32, y: u32|
        #![trigger call_ensures(A::volume_multiplier, (volume,), x), call_ensures(
            A::volume_multiplier,
            (volume,),
            y,
        )]
        call_ensures(A::volume_multiplier, (volume,), x) && call_ensures(
            A::volume_multiplier,
            (volume,),
            y,
        ) ==> x == y
}

/// A chunk at some volume is the chunk with every sample times one factor, which depends on the
/// volume only: a sample of the result depends on no other sample.
pub open spec fn scaled_by<A: Arithmetic>(
    chunk: AudioChunk,
    volume: usize,
    factor: u32,
    out: AudioChunk,
) -> bool {
    &&& call_ensures(A::volume_multiplier, (volume,), factor)
    &&& out.audio_data@.len() == chunk.audio_data@.len()
    &&& forall|i: int|
        0 <= i < chunk.audio_data@.len() ==> call_ensures(
            A::product,
            (chunk.audio_data@[i], factor),
            #[trigger] out.audio_data@[i],
        )
}

/// `out` is `chunk` at some volume.
pub open spec fn at_volume<A: Arithmetic>(
    chunk: AudioChunk,
    volume: usize,
    out: AudioChunk,
) -> bool {
    if volume == 100 {
        out == chunk
    } else {
        exists|factor: u32| #[trigger] scaled_by::<A>(chunk, volume, factor, out)
    }
}

/// Every sample is scaled by itself, all by one factor; a volume of 100 leaves every bit.
pub proof fn every_sample_is_scaled_by_itself<A: Arithmetic>(
    chunk: AudioChunk,
    volume: usize,
    out: AudioChunk,
)
    requires
        call_ensures(gain_chunk::<A>, (chunk, volume), out),
    ensures
        out.sequence_number == chunk.sequence_number,
        out.format == chunk.format,
        volume == 100 ==> out.audio_data@ == chunk.audio_data@,
        volume != 100 ==> exists|factor: u32| #[trigger]
            scaled_by::<A>(chunk, volume, factor, out),
{
    if volume != 100 {
        let factor = choose|factor: u32| #[trigger]
            call_ensures(A::volume_multiplier, (volume,), factor) && forall|i: int|
                0 <= i < out.audio_data@.len() ==> call_ensures(
                    A::product,
                    (chunk.audio_data@[i], factor),
                    #[trigger] out.audio_data@[i],
                );
        assert(scaled_by::<A>(chunk, volume, factor, out));
    }
}

/// Two chunks behind each other are scaled as they would be apart.
pub proof fn scaling_goes_piece_by_piece<A: Arithmetic>(
    a: AudioChunk,
    b: AudioChunk,
    whole: AudioChunk,
    volume: usize,
    out_a: AudioChunk,
    out_b: AudioChunk,
    out: AudioChunk,
)
    requires
        is_a_function::<A>(),
        whole.audio_data@ == a.audio_data@ + b.audio_data@,
        call_ensures(gain_chunk::<A>, (a, volume), out_a),
        call_ensures(gain_chunk::<A>, (b, volume), out_b),
        call_ensures(gain_chunk::<A>, (whole, volume), out),
    ensures
        out.audio_data@ =~= out_a.audio_data@ + out_b.audio_data@,
{
    every_sample_is_scaled_by_itself::<A>(a, volume, out_a);
    every_sample_is_scaled_by_itself::<A>(b, volume, out_b);
    every_sample_is_scaled_by_itself::<A>(whole, volume, out);
    if volume != 100 {
        let f = choose|factor: u32| #[trigger] scaled_by::<A>(whole, volume, factor, out);
        let fa = choose|factor: u32| #[trigger] scaled_by::<A>(a, volume, factor, out_a);
        let fb = choose|factor: u32| #[trigger] scaled_by::<A>(b, volume, factor, out_b);
        assert(f == fa && f == fb);
        let n = a.audio_data@.len() as int;
        assert forall|i: int| 0 <= i < out.audio_data@.len() implies out.audio_data@[i] == (
        out_a.audio_data@ + out_b.audio_data@)[i] by {
            assert(call_ensures(A::product, (whole.audio_data@[i], f), out.audio_data@[i]));
            if i < n {
                assert(call_ensures(A::product, (a.audio_data@[i], fa), out_a.audio_data@[i]));
            } else {
                assert(call_ensures(
                    A::product,
                    (b.audio_data@[i - n], fb),
                    out_b.audio_data@[i - n],
                ));
            }
        }
    }
}

/// With products by zero that are zero, silence stays silent at every volume.
pub proof fn silence_stays_silent<A: Arithmetic>(
    chunk: AudioChunk,
    volume: usize,
    out: AudioChunk,
    i: int,
)
    requires
        call_ensures(gain_chunk::<A>, (chunk, volume), out),
        forall|factor: u32, x: u32| #[trigger]
            call_ensures(A::product, (float::ZERO, factor), x) ==> x == float::ZERO,
        0 <= i < chunk.audio_data@.len(),
        chunk.audio_data@[i] == float::ZERO,
    ensures
        out.audio_data@[i] == float::ZERO,
{
    every_sample_is_scaled_by_itself::<A>(chunk, volume, out);
    if volume != 100 {
        let f = choose|factor: u32| #[trigger] scaled_by::<A>(chunk, volume, factor, out);
        assert(call_ensures(A::product, (chunk.audio_data@[i], f), out.audio_data@[i]));
    }
}

/// A stage scales by the volume that it has seen, or the maximum where that is less.
pub proof fn stage_scales_by_its_volume<A: Arithmetic>(
    gain: &mut Gain<A>,
    chunk: AudioChunk,
    out: AudioChunk,
)
    requires
        call_ensures(<Gain<A> as ChunkTransform>::transform, (gain, chunk), out),
    ensures
        *final(gain) == *old(gain),
        out.sequence_number == chunk.sequence_number,
        out.format == chunk.format,
        exists|seen: usize, volume: usize| #[trigger]
            old(gain).control.seen_at(seen) && #[trigger] at_volume::<A>(chunk, volume, out)
                && volume <= seen && volume <= old(gain).control.max_volume() && (volume == seen
                || volume == old(gain).control.max_volume()),
{
    let seen = choose|seen: usize| #[trigger]
        old(gain).control.seen_at(seen) && transform::gains::<A>(
            chunk,
            GainControl::bounded(seen, old(gain).control.max_volume()),
            out,
        );
    let volume = GainControl::bounded(seen, old(gain).control.max_volume());
    if volume != 100 {
        let factor = choose|factor: u32| #[trigger]
            call_ensures(A::volume_multiplier, (volume,), factor) && forall|i: int|
                0 <= i < out.audio_data@.len() ==> call_ensures(
                    A::product,
                    (chunk.audio_data@[i], factor),
                    #[trigger] out.audio_data@[i],
                );
        assert(scaled_by::<A>(chunk, volume, factor, out));
    }
    assert(at_volume::<A>(chunk, volume, out));
}

/// The volume that is looked up never exceeds the maximum, and is the volume that was seen where
/// that does not either. What is stored is bounded in the same way.
pub proof fn volume_is_bounded(control: GainControl, volume: usize)
    requires
        call_ensures(GainControl::get, (&control,), volume),
    ensures
        volume <= control.max_volume(),
        exists|seen: usize| #[trigger]
            control.seen_at(seen) && volume <= seen && (seen <= control.max_volume() ==> volume
                == seen) && (seen > control.max_volume() ==> volume == control.max_volume()),
{
}

/// A muted chunk is silence of the same length under the same number; one that is not muted is
/// the chunk itself.
pub proof fn mute_silences_everything(chunk: AudioChunk, muted: bool, out: AudioChunk)
    requires
        call_ensures(mute_chunk, (chunk, muted), out),
    ensures
        out.sequence_number == chunk.sequence_number,
        out.format == chunk.format,
        out.audio_data@.len() == chunk.audio_data@.len(),
        muted ==> forall|i: int|
            0 <= i < out.audio_data@.len() ==> #[trigger] out.audio_data@[i] == 0u32,
        !muted ==> out.audio_data@ == chunk.audio_data@,
{
}

/// A stage mutes just while it sees its switch on.
pub proof fn stage_mutes_by_its_switch(mute: &mut Mute, chunk: AudioChunk, out: AudioChunk)
    requires
        call_ensures(<Mute as ChunkTransform>::transform, (mute, chunk), out),
    ensures
        *final(mute) == *old(mute),
        out.sequence_number == chunk.sequence_number,
        out.format == chunk.format,
        out.audio_data@.len() == chunk.audio_data@.len(),
        old(mute).control.seen_at(true) && (forall|i: int|
            0 <= i < out.audio_data@.len() ==> #[trigger] out.audio_data@[i] == 0u32) || old(
            mute,
        ).control.seen_at(false) && out.audio_data@ == chunk.audio_data@,
{
}

/// Clamping by the bits: what lies beyond one becomes one, of either sign; everything else stays.
pub proof fn clamping_reads_the_bits(sample: u32, clamped: u32)
    requires
        call_ensures(float::clamp_unit, (sample,), clamped),
    ensures
        0x3f80_0000u32 < sample <= 0x7f80_0000u32 ==> clamped == 0x3f80_0000u32,
        0xbf80_0000u32 < sample <= 0xff80_0000u32 ==> clamped == 0xbf80_0000u32,
        sample <= 0x3f80_0000u32 ==> clamped == sample,
        0x7f80_0000u32 < sample <= 0xbf80_0000u32 ==> clamped == sample,
        0xff80_0000u32 < sample ==> clamped == sample,
{
}

/// Order by the bits: for numbers without a sign it is the order of the bits, with a sign it is
/// turned round, and whatever has a sign comes before what has none, but for zero.
pub proof fn order_reads_the_bits(a: u32, b: u32, before: bool, not_after: bool)
    requires
        call_ensures(float::less, (a, b), before),
        call_ensures(float::at_most, (a, b), not_after),
    ensures
        a <= 0x7f80_0000u32 && b <= 0x7f80_0000u32 ==> before == (a < b) && not_after == (a <= b),
        0x8000_0000u32 <= a <= 0xff80_0000u32 && 0x8000_0000u32 <= b <= 0xff80_0000u32 ==> before
            == (a > b) && not_after == (a >= b),
        0x8000_0000u32 <= a <= 0xff80_0000u32 && b <= 0x7f80_0000u32 ==> before == !(a
            == 0x8000_0000u32 && b == 0) && not_after,
        a <= 0x7f80_0000u32 && 0x8000_0000u32 <= b <= 0xff80_0000u32 ==> !before && not_after == (a
            == 0 && b == 0x8000_0000u32),
        0x7f80_0000u32 < a < 0x8000_0000u32 || a > 0xff80_0000u32 ==> !before && !not_after,
        0x7f80_0000u32 < b < 0x8000_0000u32 || b > 0xff80_0000u32 ==> !before && !not_after,
{
}

/// What is not a number, what is finite, and what a number is without its sign, by the bits.
pub proof fn classes_read_the_bits(a: u32, nan: bool, finite: bool, magnitude: u32)
    requires
        call_ensures(float::is_nan, (a,), nan),
        call_ensures(float::is_finite, (a,), finite),
        call_ensures(float::magnitude, (a,), magnitude),
    ensures
        nan == (0x7f80_0000u32 < a < 0x8000_0000u32 || a > 0xff80_0000u32),
        finite == (a < 0x7f80_0000u32 || 0x8000_0000u32 <= a < 0xff80_0000u32),
        magnitude < 0x8000_0000u32,
        magnitude == a || magnitude + 0x8000_0000u32 == a,
{
}

/// A sample counts as clipped just where it is not a number or does not stay as it is.
pub proof fn clipped_is_changed_or_no_number(sample: u32, hit: bool, clamped: u32, nan: bool)
    requires
        call_ensures(is_hit, (sample,), hit),
        call_ensures(float::clamp_unit, (sample,), clamped),
        call_ensures(float::is_nan, (sample,), nan),
    ensures
        hit == (nan || clamped != sample),
{
}

/// Clipping goes sample by sample, and counts one for each sample that it counts: two chunks
/// behind each other are clipped, and counted, as they would be apart.
pub proof fn clipping_goes_piece_by_piece(
    clip: &mut Clip,
    clip_a: &mut Clip,
    clip_b: &mut Clip,
    whole: AudioChunk,
    a: AudioChunk,
    b: AudioChunk,
    out: AudioChunk,
    out_a: AudioChunk,
    out_b: AudioChunk,
)
    requires
        whole.audio_data@ == a.audio_data@ + b.audio_data@,
        call_ensures(<Clip as ChunkTransform>::transform, (clip, whole), out),
        call_ensures(<Clip as ChunkTransform>::transform, (clip_a, a), out_a),
        call_ensures(<Clip as ChunkTransform>::transform, (clip_b, b), out_b),
    ensures
        out.sequence_number == whole.sequence_number,
        out.format == whole.format,
        out.audio_data@ =~= out_a.audio_data@ + out_b.audio_data@,
        final(clip).clip_hits - old(clip).clip_hits == (final(clip_a).clip_hits - old(
            clip_a,
        ).clip_hits) + (final(clip_b).clip_hits - old(clip_b).clip_hits),
{
    hits_add_up(a.audio_data@, b.audio_data@);
}

proof fn hits_add_up(a: Seq<u32>, b: Seq<u32>)
    ensures
        transform::hits(a + b) == transform::hits(a) + transform::hits(b),
    decreases b.len(),
{
    if b.len() == 0 {
        assert(a + b =~= a);
    } else {
        assert((a + b).drop_last() =~= a + b.drop_last());
        hits_add_up(a, b.drop_last());
    }
}

/// A chunk of one sample: it is clamped, and counted where that counts.
pub proof fn one_sample_is_clamped(clip: &mut Clip, chunk: AudioChunk, out: AudioChunk)
    requires
        chunk.audio_data@.len() == 1,
        call_ensures(<Clip as ChunkTransform>::transform, (clip, chunk), out),
    ensures
        out.audio_data@.len() == 1,
        out.audio_data@[0] == float::clamp_unit(chunk.audio_data@[0]),
        final(clip).clip_hits == old(clip).clip_hits + if is_hit(chunk.audio_data@[0]) {
            1int
        } else {
            0
        },
{
    reveal_with_fuel(transform::hits, 2);
}

/// What goes through two linked stages goes through the first, and what that makes of it through
/// the second.
pub proof fn second_stage_gets_what_the_first_made<
    A: ChunkTransform<OutputT = AudioChunk>,
    B: ChunkTransform,
>(link: &mut Link<A, B>, chunk: AudioChunk, out: B::OutputT)
    requires
        call_ensures(<Link<A, B> as ChunkTransform>::transform, (link, chunk), out),
    ensures
        exists|between: AudioChunk| #[trigger]
            A::transforms(old(link).first, chunk, final(link).first, between) && B::transforms(
                old(link).second,
                between,
                final(link).second,
                out,
            ),
{
}

/// The meter lets chunks pass as they are, and stores how loud they are.
pub proof fn meter_stores_the_loudness<A: Arithmetic>(
    meter: &mut MetricsReader<A>,
    chunk: AudioChunk,
    out: AudioChunk,
)
    requires
        call_ensures(<MetricsReader<A> as ChunkTransform>::transform, (meter, chunk), out),
    ensures
        out == chunk,
        *final(meter) == *old(meter),
        exists|samples: &[u32], bits: u64|
            samples@ == chunk.audio_data@ && #[trigger] call_ensures(A::loudness, (samples,), bits)
                && old(meter).state.moved_to(bits),
{
}

} // verus!
