//! Denoising: every channel from its own samples, frame by frame.
use crate::audio::chunk::AudioChunk;
use crate::audio::denoiser::{self, Denoise, Denoiser, MultiChannelDenoiser};
use crate::audio::transform::ChunkTransform;
use crate::user_input_event::DenoiseSelection;
use vstd::arithmetic::div_mod::{lemma_fundamental_div_mod, lemma_mod_bound};
use vstd::prelude::*;

verus! {

/// Samples `k * size .. (k + 1) * size` of one channel of a chunk.
pub open spec fn channel_frame(
    chunk: AudioChunk,
    channel: int,
    k: int,
    size: int,
) -> Seq<u32> {
    Seq::new(
        size as nat,
        |i: int| chunk.audio_data@[channel + (k * size + i) * chunk.format.channel_count],
    )
}

/// The states of one channel's denoiser and of its output, from frame to frame: each frame of the
/// channel goes through the denoiser of that channel, after the frames before it, and what it
/// makes of it stands in the same place.
pub open spec fn channel_goes_through<T: Denoiser>(
    chunk: AudioChunk,
    out: AudioChunk,
    channel: int,
    frames: int,
    states: Seq<T>,
    outputs: Seq<Seq<u32>>,
) -> bool {
    &&& states.len() == frames + 1
    &&& outputs.len() == frames + 1
    &&& forall|k: int|
        0 <= k < frames ==> #[trigger] frame_goes_through(
            chunk,
            out,
            channel,
            k,
            states,
            outputs,
        )
}

/// Frame `k` of one channel goes through, and comes out in its place.
pub open spec fn frame_goes_through<T: Denoiser>(
    chunk: AudioChunk,
    out: AudioChunk,
    channel: int,
    k: int,
    states: Seq<T>,
    outputs: Seq<Seq<u32>>,
) -> bool {
    let size = T::FRAME_SIZE as int;
    &&& outputs[k + 1] == channel_frame(out, channel, k, size)
    &&& T::denoises(
        states[k],
        outputs[k],
        channel_frame(chunk, channel, k, size),
        states[k + 1],
        outputs[k + 1],
    )
}

/// The states of the denoisers before every frame, and what the outputs held then.
spec fn stages<T: Denoiser>(
    pre: Seq<T>,
    before: Seq<Seq<u32>>,
    data: Seq<u32>,
    post: Seq<T>,
    outs: Seq<Seq<Seq<u32>>>,
    states: Seq<Seq<T>>,
) -> bool {
    &&& states.len() == outs.len() + 1
    &&& states[0] == pre
    &&& states[outs.len() as int] == post
    &&& forall|k: int|
        #![trigger states[k]]
        0 <= k < outs.len() ==> states[k].len() == pre.len() && denoiser::frame_denoised(
            states[k],
            denoiser::held(before, outs, k),
            data,
            k,
            states[k + 1],
            outs[k],
        )
}

proof fn frames_have_stages<T: Denoiser>(
    pre: Seq<T>,
    before: Seq<Seq<u32>>,
    data: Seq<u32>,
    post: Seq<T>,
    outs: Seq<Seq<Seq<u32>>>,
)
    requires
        denoiser::frames_denoised(pre, before, data, post, outs),
    ensures
        exists|states: Seq<Seq<T>>| #[trigger] stages(pre, before, data, post, outs, states),
    decreases outs.len(),
{
    if outs.len() == 0 {
        assert(stages(pre, before, data, post, outs, seq![pre]));
    } else {
        let n = outs.len() - 1;
        let mid = choose|mid: Seq<T>|
            denoiser::frames_denoised(pre, before, data, mid, outs.drop_last()) && mid.len()
                == pre.len() && #[trigger] denoiser::frame_denoised(
                mid,
                denoiser::held(before, outs, n),
                data,
                n,
                post,
                outs[n],
            );
        frames_have_stages(pre, before, data, mid, outs.drop_last());
        let earlier = choose|states: Seq<Seq<T>>| #[trigger]
            stages(pre, before, data, mid, outs.drop_last(), states);
        let states = earlier.push(post);
        assert forall|k: int|
            #![trigger states[k]]
            0 <= k < outs.len() implies states[k].len() == pre.len() && denoiser::frame_denoised(
            states[k],
            denoiser::held(before, outs, k),
            data,
            k,
            states[k + 1],
            outs[k],
        ) by {
            assert(earlier[k] == states[k]);
            if k < n {
                assert(denoiser::held(before, outs.drop_last(), k) == denoiser::held(
                    before,
                    outs,
                    k,
                ));
                assert(outs.drop_last()[k] == outs[k]);
                assert(earlier[k + 1] == states[k + 1]);
            }
        }
        assert(stages(pre, before, data, post, outs, states));
    }
}

/// How many whole frames a chunk has.
pub open spec fn whole_frames<T: Denoiser>(chunk: AudioChunk) -> int {
    chunk.audio_data@.len() as int / (chunk.format.channel_count * T::FRAME_SIZE)
}

/// Every channel of a chunk is denoised from its own samples: its frames go, one after the other,
/// through the denoiser of that channel, and come out in their places. The denoisers at hand go
/// on where they were as long as the number of channels is the same.
pub proof fn channels_are_denoised_apart<T: Denoiser>(
    before: MultiChannelDenoiser<T>,
    chunk: AudioChunk,
    after: MultiChannelDenoiser<T>,
    out: AudioChunk,
    channel: int,
)
    requires
        before.wf(),
        denoiser::frame_fits::<T>(chunk),
        denoiser::chunk_denoised(before, chunk, after, out),
        0 <= channel < chunk.format.channel_count,
        chunk.audio_data@.len() > 0,
    ensures
        exists|states: Seq<T>, outputs: Seq<Seq<u32>>| #[trigger]
            channel_goes_through(chunk, out, channel, whole_frames::<T>(chunk), states, outputs) && (
            if before.denoisers().len() == chunk.format.channel_count {
                states[0] == before.denoisers()[channel] && outputs[0]
                    == before.outputs()[channel]
            } else {
                T::initial(states[0])
            }) && states.last() == after.denoisers()[channel],
        after.denoisers().len() == chunk.format.channel_count,
        out.sequence_number == chunk.sequence_number,
        out.format == chunk.format,
        out.audio_data@.len() == chunk.audio_data@.len(),
{
    let (data, channels, size) = (
        chunk.audio_data@,
        chunk.format.channel_count as int,
        T::FRAME_SIZE as int,
    );
    let (denoisers, outputs) = choose|denoisers: Seq<T>, outputs: Seq<Seq<u32>>| #[trigger]
        before.starts(channels, denoisers, outputs) && denoiser::denoised(
            denoisers,
            outputs,
            data,
            after.denoisers(),
            after.outputs(),
            out.audio_data@,
        );
    let frames = data.len() as int / (channels * size);
    let outs = choose|outs: Seq<Seq<Seq<u32>>>|
        outs.len() == frames && denoiser::placed(out.audio_data@, outs, size, channels)
            && #[trigger] denoiser::frames_denoised(
            denoisers,
            outputs,
            data,
            after.denoisers(),
            outs,
        ) && after.outputs() == denoiser::held(outputs, outs, outs.len() as int);
    frames_have_stages(denoisers, outputs, data, after.denoisers(), outs);
    let states = choose|states: Seq<Seq<T>>| #[trigger]
        stages(denoisers, outputs, data, after.denoisers(), outs, states);
    let own_states = Seq::new((frames + 1) as nat, |k: int| states[k][channel]);
    let own_outputs = Seq::new(
        (frames + 1) as nat,
        |k: int| denoiser::held(outputs, outs, k)[channel],
    );
    assert(frames >= 0) by (nonlinear_arith)
        requires
            frames == data.len() as int / (channels * size),
            channels > 0,
            size > 0,
            data.len() >= 0,
    ;
    assert forall|k: int| 0 <= k < frames implies #[trigger] frame_goes_through(
        chunk,
        out,
        channel,
        k,
        own_states,
        own_outputs,
    ) by {
        assert(states[k].len() == denoisers.len());
        assert(outs[k][channel].len() == T::FRAME_SIZE);
        assert(own_outputs[k + 1] == outs[k][channel]);
        assert forall|i: int| 0 <= i < size implies denoiser::place(
            k,
            i,
            channel,
            size,
            channels,
        ) == channel + (k * size + i) * channels by {}
        assert(denoiser::frame_of(data, k, channel, size, channels) =~= channel_frame(
            chunk,
            channel,
            k,
            size,
        ));
        assert forall|i: int| 0 <= i < size implies outs[k][channel][i]
            == out.audio_data@[channel + (k * size + i) * channels] by {
            assert(out.audio_data@[denoiser::place(k, i, channel, size, channels)]
                == outs[k][channel][i]);
        }
        assert(outs[k][channel] =~= channel_frame(out, channel, k, size));
    }
    assert(channel_goes_through(chunk, out, channel, frames, own_states, own_outputs));
    assert(own_states.last() == states[frames][channel]);
    assert(own_states[0] == states[0][channel]);
    assert(own_outputs[0] == outputs[channel]);
    assert(whole_frames::<T>(chunk) == frames);
    if before.denoisers().len() != channels {
        assert(T::initial(denoisers[channel]));
    }
    if frames > 0 {
        assert(states[frames - 1].len() == denoisers.len());
    }
}

/// Where sample `x` of a chunk stands among whole frames.
proof fn sample_has_a_place(x: int, channels: int, size: int, frames: int) -> (at: (int, int, int))
    requires
        channels > 0,
        size > 0,
        0 <= x < frames * (channels * size),
    ensures
        0 <= at.0 < frames,
        0 <= at.1 < size,
        0 <= at.2 < channels,
        x == at.2 + (at.0 * size + at.1) * channels,
{
    let c = x % channels;
    let y = x / channels;
    lemma_fundamental_div_mod(x, channels);
    lemma_mod_bound(x, channels);
    let i = y % size;
    let k = y / size;
    lemma_fundamental_div_mod(y, size);
    lemma_mod_bound(y, size);
    assert(0 <= y) by (nonlinear_arith)
        requires
            x == channels * y + c,
            c < channels,
            0 <= x,
            channels > 0,
    ;
    assert(y < frames * size) by (nonlinear_arith)
        requires
            x == channels * y + c,
            0 <= c,
            x < frames * (channels * size),
            channels > 0,
            size > 0,
    ;
    assert(0 <= k < frames) by (nonlinear_arith)
        requires
            y == size * k + i,
            0 <= i < size,
            0 <= y < frames * size,
            size > 0,
    ;
    assert(x == c + (k * size + i) * channels) by (nonlinear_arith)
        requires
            x == channels * y + c,
            y == size * k + i,
    ;
    (k, i, c)
}

/// With a denoiser that leaves its input in its output, a chunk comes back sample for sample,
/// whatever its number of channels.
pub proof fn denoiser_that_does_nothing_changes_nothing<T: Denoiser>(
    before: MultiChannelDenoiser<T>,
    chunk: AudioChunk,
    after: MultiChannelDenoiser<T>,
    out: AudioChunk,
)
    requires
        before.wf(),
        denoiser::frame_fits::<T>(chunk),
        denoiser::chunk_denoised(before, chunk, after, out),
        forall|pre: T, held: Seq<u32>, input: Seq<u32>, post: T, output: Seq<u32>| #[trigger]
            T::denoises(pre, held, input, post, output) ==> output == input,
    ensures
        out.sequence_number == chunk.sequence_number,
        out.format == chunk.format,
        out.audio_data@ =~= chunk.audio_data@,
{
    let (data, channels, size) = (
        chunk.audio_data@,
        chunk.format.channel_count as int,
        T::FRAME_SIZE as int,
    );
    if channels > 0 && data.len() > 0 {
        assert(channels * size > 0) by (nonlinear_arith)
            requires
                channels > 0,
                size > 0,
        ;
        let frames = whole_frames::<T>(chunk);
        let whole = frames * (channels * size);
        lemma_fundamental_div_mod(data.len() as int, channels * size);
        lemma_mod_bound(data.len() as int, channels * size);
        assert(0 <= whole <= data.len()) by (nonlinear_arith)
            requires
                whole == frames * (channels * size),
                data.len() == (channels * size) * frames + data.len() as int % (channels * size),
                0 <= data.len() as int % (channels * size) < channels * size,
                frames == data.len() as int / (channels * size),
                channels * size > 0,
        ;
        assert forall|x: int| 0 <= x < data.len() implies out.audio_data@[x] == data[x] by {
            if x < whole {
                let (k, i, c) = sample_has_a_place(x, channels, size, frames);
                channels_are_denoised_apart(before, chunk, after, out, c);
                let (states, outputs) = choose|states: Seq<T>, outputs: Seq<Seq<u32>>| #[trigger]
                    channel_goes_through(chunk, out, c, frames, states, outputs);
                let (ins, outs) = (channel_frame(chunk, c, k, size), channel_frame(out, c, k, size));
                assert(frame_goes_through(chunk, out, c, k, states, outputs));
                assert(T::denoises(states[k], outputs[k], ins, states[k + 1], outs));
                assert(ins[i] == outs[i]);
            } else {
                rest_stays(before, chunk, after, out);
                assert(out.audio_data@.skip(whole)[x - whole] == data.skip(whole)[x - whole]);
            }
        }
        rest_stays(before, chunk, after, out);
    }
}

/// What stands behind the last whole frame stays as it is.
pub proof fn rest_stays<T: Denoiser>(
    before: MultiChannelDenoiser<T>,
    chunk: AudioChunk,
    after: MultiChannelDenoiser<T>,
    out: AudioChunk,
)
    requires
        denoiser::frame_fits::<T>(chunk),
        denoiser::chunk_denoised(before, chunk, after, out),
    ensures
        out.audio_data@.len() == chunk.audio_data@.len(),
        chunk.format.channel_count > 0 && chunk.audio_data@.len() > 0 ==> ({
            let whole = whole_frames::<T>(chunk) * (chunk.format.channel_count * T::FRAME_SIZE);
            out.audio_data@.skip(whole) == chunk.audio_data@.skip(whole)
        }),
        chunk.format.channel_count == 0 ==> out == chunk && after == before,
{
}

/// A chunk goes through the denoisers, whoever sends it there.
pub proof fn chunks_are_denoised<T: Denoiser>(
    denoiser: &mut MultiChannelDenoiser<T>,
    chunk: AudioChunk,
    out: AudioChunk,
)
    requires
        call_ensures(MultiChannelDenoiser::<T>::denoise_chunk, (denoiser, chunk), out),
    ensures
        denoiser::chunk_denoised(*old(denoiser), chunk, *final(denoiser), out),
{
}

/// While denoising is off chunks pass as they are, and the denoisers do not move; while it is on
/// they go through the denoisers.
pub proof fn only_what_is_selected_is_done<D: Denoiser>(
    denoise: &mut Denoise<D>,
    chunk: AudioChunk,
    selection: DenoiseSelection,
    out: AudioChunk,
)
    requires
        call_ensures(Denoise::<D>::run, (denoise, chunk, selection), out),
    ensures
        match selection {
            DenoiseSelection::Off => out == chunk && final(denoise).inner == old(denoise).inner,
            DenoiseSelection::Nnnoiseless => denoiser::chunk_denoised(
                old(denoise).inner,
                chunk,
                final(denoise).inner,
                out,
            ),
        },
        final(denoise).control == old(denoise).control,
{
}

/// What a stage of the chain does follows a look at its control: with denoising off the chunk
/// passes as it is.
pub proof fn stage_follows_its_control<D: Denoiser>(
    denoise: &mut Denoise<D>,
    chunk: AudioChunk,
    out: AudioChunk,
)
    requires
        call_ensures(<Denoise<D> as ChunkTransform>::transform, (denoise, chunk), out),
    ensures
        final(denoise).control == old(denoise).control,
        old(denoise).control.seen_at(DenoiseSelection::Off) && out == chunk && final(denoise).inner
            == old(denoise).inner || old(denoise).control.seen_at(DenoiseSelection::Nnnoiseless)
            && denoiser::chunk_denoised(
            old(denoise).inner,
            chunk,
            final(denoise).inner,
            out,
        ),
{
    let selection = choose|selection: DenoiseSelection|
        old(denoise).control.seen_at(selection) && #[trigger] denoiser::selected(
            old(denoise).inner,
            chunk,
            selection,
            final(denoise).inner,
            out,
        );
    assert(selection == DenoiseSelection::Off || selection == DenoiseSelection::Nnnoiseless);
}

} // verus!
