//! Denoising of interleaved chunks, channel by channel and frame by frame.
use crate::audio::chunk::AudioChunk;
use crate::audio::float;
use crate::audio::transform::{share, ChunkTransform};
use crate::user_input_event::DenoiseSelection;
use std::sync::atomic::{AtomicBool, Ordering};
use std::sync::Arc;
use vstd::arithmetic::div_mod::{lemma_fundamental_div_mod, lemma_mod_bound};
use vstd::prelude::*;

verus! {

/// Denoises one channel, `FRAME_SIZE` samples at a time.
pub trait Denoiser: Sized {
    const FRAME_SIZE: usize;

    /// Whether a denoiser may start like this.
    open spec fn initial(denoiser: Self) -> bool {
        true
    }

    /// `after` is what `pre` may leave in an output that held `before`, for the frame `input`.
    open spec fn denoises(
        pre: Self,
        before: Seq<u32>,
        input: Seq<u32>,
        post: Self,
        after: Seq<u32>,
    ) -> bool {
        true
    }

    fn init() -> (denoiser: Self)
        ensures
            Self::initial(denoiser),
    ;

    fn process_frame(&mut self, output: &mut [u32], input: &[u32])
        requires
            old(output)@.len() == Self::FRAME_SIZE,
            input@.len() == Self::FRAME_SIZE,
        ensures
            final(output)@.len() == Self::FRAME_SIZE,
            Self::denoises(*old(self), old(output)@, input@, *final(self), final(output)@),
    ;
}

/// Where sample `i` of channel `c` in frame `k` stands among the interleaved samples.
pub open spec fn place(k: int, i: int, c: int, size: int, channels: int) -> int {
    (k * size + i) * channels + c
}

/// Frame `k` of channel `c`.
pub open spec fn frame_of(data: Seq<u32>, k: int, c: int, size: int, channels: int) -> Seq<u32> {
    Seq::new(size as nat, |i: int| data[place(k, i, c, size, channels)])
}

/// One frame of every channel: `before` is what the outputs held, `outs` what they hold then.
pub open spec fn frame_denoised<T: Denoiser>(
    pre: Seq<T>,
    before: Seq<Seq<u32>>,
    data: Seq<u32>,
    k: int,
    post: Seq<T>,
    outs: Seq<Seq<u32>>,
) -> bool {
    &&& post.len() == pre.len()
    &&& outs.len() == pre.len()
    &&& forall|c: int|
        0 <= c < pre.len() ==> #[trigger] outs[c].len() == T::FRAME_SIZE && T::denoises(
            pre[c],
            before[c],
            frame_of(data, k, c, T::FRAME_SIZE as int, pre.len() as int),
            post[c],
            outs[c],
        )
}

/// What the outputs hold when frame `k` is taken up.
pub open spec fn held(before: Seq<Seq<u32>>, outs: Seq<Seq<Seq<u32>>>, k: int) -> Seq<Seq<u32>> {
    if k == 0 {
        before
    } else {
        outs[k - 1]
    }
}

/// A run over the first `outs.len()` frames, one after the other: `outs` holds what each left in
/// the outputs of the channels.
pub open spec fn frames_denoised<T: Denoiser>(
    pre: Seq<T>,
    before: Seq<Seq<u32>>,
    data: Seq<u32>,
    post: Seq<T>,
    outs: Seq<Seq<Seq<u32>>>,
) -> bool
    decreases outs.len(),
{
    if outs.len() == 0 {
        post == pre
    } else {
        let k = outs.len() - 1;
        exists|mid: Seq<T>|
            frames_denoised(pre, before, data, mid, outs.drop_last()) && mid.len() == pre.len()
                && #[trigger] frame_denoised(mid, held(before, outs, k), data, k, post, outs[k])
    }
}

/// The outputs of the frames, interleaved again.
pub open spec fn placed(
    out: Seq<u32>,
    outs: Seq<Seq<Seq<u32>>>,
    size: int,
    channels: int,
) -> bool {
    forall|k: int, i: int, c: int|
        0 <= k < outs.len() && 0 <= i < size && 0 <= c < channels ==> out[#[trigger] place(
            k,
            i,
            c,
            size,
            channels,
        )] == outs[k][c][i]
}

/// `out` is `data` with every whole frame denoised; the rest is as it was. The outputs of the
/// channels held `before` and hold `after` then: what the last frame left there.
pub open spec fn denoised<T: Denoiser>(
    pre: Seq<T>,
    before: Seq<Seq<u32>>,
    data: Seq<u32>,
    post: Seq<T>,
    after: Seq<Seq<u32>>,
    out: Seq<u32>,
) -> bool {
    let channels = pre.len() as int;
    let size = T::FRAME_SIZE as int;
    let whole = (data.len() as int / (channels * size)) * (channels * size);
    &&& out.len() == data.len()
    &&& out.skip(whole) =~= data.skip(whole)
    &&& exists|outs: Seq<Seq<Seq<u32>>>|
        outs.len() == data.len() as int / (channels * size) && placed(out, outs, size, channels)
            && #[trigger] frames_denoised(pre, before, data, post, outs) && after == held(
            before,
            outs,
            outs.len() as int,
        )
}

/// A denoiser for every channel.
pub struct MultiChannelDenoiser<T: Denoiser> {
    channels: u16,
    denoisers: Vec<T>,
    scratch_in: Vec<Vec<u32>>,
    scratch_out: Vec<Vec<u32>>,
}

/// A frame of all channels has a size, and one that the machine can count.
pub open spec fn frame_fits<T: Denoiser>(chunk: AudioChunk) -> bool {
    chunk.format.channel_count == 0 || chunk.audio_data@.len() == 0 || (0 < T::FRAME_SIZE
        && chunk.format.channel_count * T::FRAME_SIZE <= usize::MAX)
}

/// `out` is `chunk` denoised. One without channels or samples changes nothing.
pub open spec fn chunk_denoised<T: Denoiser>(
    pre: MultiChannelDenoiser<T>,
    chunk: AudioChunk,
    post: MultiChannelDenoiser<T>,
    out: AudioChunk,
) -> bool {
    if chunk.format.channel_count == 0 || chunk.audio_data@.len() == 0 {
        out == chunk && post == pre
    } else {
        &&& out.sequence_number == chunk.sequence_number
        &&& out.format == chunk.format
        &&& exists|denoisers: Seq<T>, outputs: Seq<Seq<u32>>| #[trigger]
            pre.starts(chunk.format.channel_count as int, denoisers, outputs) && denoised(
                denoisers,
                outputs,
                chunk.audio_data@,
                post.denoisers(),
                post.outputs(),
                out.audio_data@,
            )
    }
}

pub open spec fn views(scratch: Seq<Vec<u32>>) -> Seq<Seq<u32>> {
    Seq::new(scratch.len(), |c: int| scratch[c]@)
}

fn silent_scratch(channels: u16, size: usize) -> (scratch: Vec<Vec<u32>>)
    ensures
        scratch@.len() == channels,
        forall|c: int|
            0 <= c < channels ==> (#[trigger] scratch@[c])@ == Seq::new(
                size as nat,
                |i: int| float::ZERO,
            ),
{
    let mut scratch: Vec<Vec<u32>> = Vec::new();
    let mut c: u16 = 0;
    while c < channels
        invariant
            c <= channels,
            scratch@.len() == c,
            forall|k: int|
                0 <= k < c ==> (#[trigger] scratch@[k])@ == Seq::new(
                    size as nat,
                    |i: int| float::ZERO,
                ),
        decreases channels - c,
    {
        let silence: Vec<u32> = vec![float::ZERO; size];
        proof {
            assert(silence@ =~= Seq::new(size as nat, |i: int| float::ZERO));
        }
        scratch.push(silence);
        c += 1;
    }
    scratch
}

impl<T: Denoiser> Default for MultiChannelDenoiser<T> {
    fn default() -> (denoiser: Self)
        ensures
            denoiser.wf(),
            denoiser.denoisers() == Seq::<T>::empty(),
    {
        Self::new()
    }
}

impl<T: Denoiser> MultiChannelDenoiser<T> {
    /// The denoisers of the channels.
    pub closed spec fn denoisers(&self) -> Seq<T> {
        self.denoisers@
    }

    /// What the outputs of the channels hold.
    pub closed spec fn outputs(&self) -> Seq<Seq<u32>> {
        views(self.scratch_out@)
    }

    pub closed spec fn wf(&self) -> bool {
        &&& self.denoisers@.len() == self.channels
        &&& self.scratch_in@.len() == self.channels
        &&& self.scratch_out@.len() == self.channels
        &&& forall|c: int|
            0 <= c < self.channels ==> (#[trigger] self.scratch_in@[c])@.len() == T::FRAME_SIZE
        &&& forall|c: int|
            0 <= c < self.channels ==> (#[trigger] self.scratch_out@[c])@.len() == T::FRAME_SIZE
    }

    /// `denoisers` and `outputs` are what a chunk of `channels` channels starts from: those at
    /// hand, or new ones where the number of channels has changed.
    pub open spec fn starts(
        &self,
        channels: int,
        denoisers: Seq<T>,
        outputs: Seq<Seq<u32>>,
    ) -> bool {
        if self.denoisers().len() == channels {
            denoisers == self.denoisers() && outputs == self.outputs()
        } else {
            &&& denoisers.len() == channels
            &&& forall|c: int| 0 <= c < channels ==> T::initial(#[trigger] denoisers[c])
            &&& outputs == Seq::new(
                channels as nat,
                |c: int| Seq::new(T::FRAME_SIZE as nat, |i: int| float::ZERO),
            )
        }
    }

    pub fn new() -> (denoiser: Self)
        ensures
            denoiser.wf(),
            denoiser.denoisers() == Seq::<T>::empty(),
    {
        MultiChannelDenoiser {
            channels: 0,
            denoisers: Vec::new(),
            scratch_in: Vec::new(),
            scratch_out: Vec::new(),
        }
    }

    fn setup_denoisers(&mut self, channels: u16)
        requires
            old(self).wf(),
        ensures
            final(self).wf(),
            final(self).channels == channels,
            old(self).starts(channels as int, final(self).denoisers(), final(self).outputs()),
    {
        if channels != self.channels {
            let mut denoisers: Vec<T> = Vec::new();
            let mut c: u16 = 0;
            while c < channels
                invariant
                    c <= channels,
                    denoisers@.len() == c,
                    forall|k: int| 0 <= k < c ==> T::initial(#[trigger] denoisers@[k]),
                decreases channels - c,
            {
                denoisers.push(T::init());
                c += 1;
            }
            self.denoisers = denoisers;
            self.scratch_in = silent_scratch(channels, T::FRAME_SIZE);
            self.scratch_out = silent_scratch(channels, T::FRAME_SIZE);
            self.channels = channels;
            proof {
                assert(self.outputs() =~= Seq::new(
                    channels as nat,
                    |c: int| Seq::new(T::FRAME_SIZE as nat, |i: int| float::ZERO),
                ));
            }
        }
    }
}

proof fn place_is_inside(k: int, i: int, c: int, size: int, channels: int, frames: int)
    requires
        0 <= k < frames,
        0 <= i < size,
        0 <= c < channels,
    ensures
        0 <= k * size,
        0 <= (k * size + i) * channels,
        0 <= place(k, i, c, size, channels) < frames * (channels * size),
        place(k, i, c, size, channels) == k * (channels * size) + i * channels + c,
{
    assert(0 <= k * size && k * size + size <= frames * size) by (nonlinear_arith)
        requires
            0 <= k,
            k + 1 <= frames,
            0 < size,
    ;
    let row = k * size + i;
    assert(0 <= row * channels && row * channels + channels <= (frames * size) * channels)
        by (nonlinear_arith)
        requires
            0 <= row,
            row + 1 <= frames * size,
            0 < channels,
    ;
    assert((frames * size) * channels == frames * (channels * size)) by (nonlinear_arith);
    assert((k * size + i) * channels == k * (channels * size) + i * channels) by (nonlinear_arith);
}

proof fn place_grows(k: int, i: int, c: int, row: int, size: int, channels: int)
    requires
        0 <= c < channels,
        k * size + i < row,
    ensures
        place(k, i, c, size, channels) < row * channels,
{
    assert((k * size + i) * channels + channels <= row * channels) by (nonlinear_arith)
        requires
            k * size + i + 1 <= row,
            0 < channels,
    ;
}

impl<T: Denoiser> MultiChannelDenoiser<T> {
    /// Copies frame `k` of every channel into the inputs.
    fn read_frame(&mut self, data: &Vec<u32>, k: usize, frames: usize)
        requires
            old(self).wf(),
            k < frames,
            frames * (old(self).channels * T::FRAME_SIZE) <= data@.len() <= usize::MAX,
        ensures
            final(self).wf(),
            final(self).channels == old(self).channels,
            final(self).denoisers() == old(self).denoisers(),
            final(self).outputs() == old(self).outputs(),
            forall|c: int|
                0 <= c < old(self).channels ==> (#[trigger] final(self).scratch_in@[c])@
                    == frame_of(
                    data@,
                    k as int,
                    c,
                    T::FRAME_SIZE as int,
                    old(self).channels as int,
                ),
    {
        let ch: usize = self.channels as usize;
        let size: usize = T::FRAME_SIZE;
        let mut c: usize = 0;
        while c < ch
            invariant
                c <= ch,
                ch == self.channels,
                size == T::FRAME_SIZE,
                k < frames,
                frames * (ch * size) <= data@.len() <= usize::MAX,
                self.wf(),
                self.channels == old(self).channels,
                self.denoisers() == old(self).denoisers(),
                self.outputs() == old(self).outputs(),
                forall|done: int|
                    0 <= done < c ==> (#[trigger] self.scratch_in@[done])@ == frame_of(
                        data@,
                        k as int,
                        done,
                        size as int,
                        ch as int,
                    ),
            decreases ch - c,
        {
            let mut input: Vec<u32> = Vec::new();
            let mut i: usize = 0;
            while i < size
                invariant
                    i <= size,
                    c < ch,
                    k < frames,
                    frames * (ch * size) <= data@.len() <= usize::MAX,
                    input@.len() == i,
                    forall|done: int|
                        0 <= done < i ==> #[trigger] input@[done] == data@[place(
                            k as int,
                            done,
                            c as int,
                            size as int,
                            ch as int,
                        )],
                decreases size - i,
            {
                proof {
                    place_is_inside(
                        k as int,
                        i as int,
                        c as int,
                        size as int,
                        ch as int,
                        frames as int,
                    );
                    assert(k * size + i <= (k * size + i) * ch) by (nonlinear_arith)
                        requires
                            0 <= k * size,
                            0 <= i,
                            1 <= ch,
                    ;
                }
                input.push(data[(k * size + i) * ch + c]);
                i += 1;
            }
            proof {
                assert(input@ =~= frame_of(data@, k as int, c as int, size as int, ch as int));
            }
            self.scratch_in[c] = input;
            c += 1;
        }
    }

    /// Runs every channel's denoiser on its input.
    fn run_frame(&mut self)
        requires
            old(self).wf(),
        ensures
            final(self).wf(),
            final(self).channels == old(self).channels,
            forall|c: int|
                0 <= c < old(self).channels ==> #[trigger] final(self).outputs()[c].len()
                    == T::FRAME_SIZE && T::denoises(
                    old(self).denoisers()[c],
                    old(self).outputs()[c],
                    old(self).scratch_in@[c]@,
                    final(self).denoisers()[c],
                    final(self).outputs()[c],
                ),
    {
        let ch: usize = self.channels as usize;
        let mut c: usize = 0;
        while c < ch
            invariant
                c <= ch,
                ch == self.channels,
                old(self).wf(),
                self.wf(),
                self.channels == old(self).channels,
                self.scratch_in@ == old(self).scratch_in@,
                forall|k: int|
                    c <= k < ch ==> (#[trigger] self.scratch_out@[k]) == old(self).scratch_out@[k],
                forall|k: int|
                    c <= k < ch ==> (#[trigger] self.denoisers@[k]) == old(self).denoisers@[k],
                forall|k: int|
                    0 <= k < c ==> T::denoises(
                        old(self).denoisers@[k],
                        old(self).scratch_out@[k]@,
                        old(self).scratch_in@[k]@,
                        self.denoisers@[k],
                        (#[trigger] self.scratch_out@[k])@,
                    ),
            decreases ch - c,
        {
            self.denoisers[c].process_frame(
                self.scratch_out[c].as_mut_slice(),
                self.scratch_in[c].as_slice(),
            );
            c += 1;
        }
    }

    /// Appends the outputs, interleaved.
    fn write_frame(&self, out: &mut Vec<u32>, Ghost(k): Ghost<int>)
        requires
            self.wf(),
            0 <= k,
            old(out)@.len() == k * (self.channels * T::FRAME_SIZE),
        ensures
            final(out)@.len() == (k + 1) * (self.channels * T::FRAME_SIZE),
            old(out)@.is_prefix_of(final(out)@),
            forall|i: int, c: int|
                0 <= i < T::FRAME_SIZE && 0 <= c < self.channels ==> final(out)@[#[trigger] place(
                    k,
                    i,
                    c,
                    T::FRAME_SIZE as int,
                    self.channels as int,
                )] == self.outputs()[c][i],
    {
        let ch: usize = self.channels as usize;
        let size: usize = T::FRAME_SIZE;
        let ghost start = out@;
        let mut i: usize = 0;
        proof {
            assert((k * size) * ch == k * (ch * size)) by (nonlinear_arith);
        }
        while i < size
            invariant
                i <= size,
                ch == self.channels,
                size == T::FRAME_SIZE,
                self.wf(),
                0 <= k,
                out@.len() == (k * size + i) * ch,
                start.is_prefix_of(out@),
                forall|x: int, y: int|
                    0 <= x < i && 0 <= y < ch ==> out@[#[trigger] place(
                        k,
                        x,
                        y,
                        size as int,
                        ch as int,
                    )] == self.scratch_out@[y]@[x],
            decreases size - i,
        {
            let mut c: usize = 0;
            while c < ch
                invariant
                    c <= ch,
                    i < size,
                    ch == self.channels,
                    size == T::FRAME_SIZE,
                    self.wf(),
                    0 <= k,
                    out@.len() == (k * size + i) * ch + c,
                    start.is_prefix_of(out@),
                    forall|x: int, y: int|
                        0 <= x < i && 0 <= y < ch ==> out@[#[trigger] place(
                            k,
                            x,
                            y,
                            size as int,
                            ch as int,
                        )] == self.scratch_out@[y]@[x],
                    forall|y: int|
                        0 <= y < c ==> out@[#[trigger] place(
                            k,
                            i as int,
                            y,
                            size as int,
                            ch as int,
                        )] == self.scratch_out@[y]@[i as int],
                decreases ch - c,
            {
                let ghost before = out@;
                out.push(self.scratch_out[c][i]);
                proof {
                    assert forall|x: int, y: int| 0 <= x < i && 0 <= y < ch implies out@[
                    #[trigger] place(k, x, y, size as int, ch as int)]
                        == self.scratch_out@[y]@[x] by {
                        place_grows(k, x, y, k * size + i, size as int, ch as int);
                        place_is_inside(k, x, y, size as int, ch as int, k + 1);
                    }
                    assert forall|y: int| 0 <= y < c + 1 implies out@[#[trigger] place(
                        k,
                        i as int,
                        y,
                        size as int,
                        ch as int,
                    )] == self.scratch_out@[y]@[i as int] by {
                        place_is_inside(k, i as int, y, size as int, ch as int, k + 1);
                    }
                }
                c += 1;
            }
            proof {
                assert((k * size + i + 1) * ch == (k * size + i) * ch + ch) by (nonlinear_arith);
                assert forall|x: int, y: int| 0 <= x < i + 1 && 0 <= y < ch implies out@[
                #[trigger] place(k, x, y, size as int, ch as int)] == self.scratch_out@[y]@[x] by {
                    if x == i {
                        assert(out@[place(k, i as int, y, size as int, ch as int)]
                            == self.scratch_out@[y]@[i as int]);
                    }
                }
            }
            i += 1;
        }
        proof {
            assert((k * size + size) * ch == (k + 1) * (ch * size)) by (nonlinear_arith);
        }
    }

    /// Denoises every whole frame of a chunk.
    pub fn denoise_chunk(&mut self, chunk: AudioChunk) -> (out: AudioChunk)
        requires
            old(self).wf(),
            frame_fits::<T>(chunk),
        ensures
            final(self).wf(),
            chunk_denoised(*old(self), chunk, *final(self), out),
    {
        let channels: u16 = chunk.format.channel_count;
        let len: usize = chunk.audio_data.len();
        if channels == 0 || len == 0 {
            return chunk;
        }
        self.setup_denoisers(channels);
        let ghost denoisers = self.denoisers();
        let ghost outputs = self.outputs();
        let ghost data = chunk.audio_data@;
        let ghost mut outs: Seq<Seq<Seq<u32>>> = Seq::empty();
        let ch: usize = channels as usize;
        let size: usize = T::FRAME_SIZE;
        proof {
            assert(0 < ch * size) by (nonlinear_arith)
                requires
                    0 < ch,
                    0 < size,
            ;
        }
        let frame_samples: usize = ch * size;
        let frames: usize = len / frame_samples;
        proof {
            lemma_fundamental_div_mod(len as int, frame_samples as int);
            lemma_mod_bound(len as int, frame_samples as int);
            assert(frames * frame_samples == frame_samples * frames) by (nonlinear_arith);
        }
        let mut out: Vec<u32> = Vec::new();
        let mut k: usize = 0;
        while k < frames
            invariant
                k <= frames,
                ch == channels == self.channels,
                size == T::FRAME_SIZE,
                0 < frame_samples == ch * size,
                frames * frame_samples <= len == data.len(),
                data == chunk.audio_data@,
                self.wf(),
                denoisers.len() == ch,
                outs.len() == k,
                out@.len() == k * frame_samples,
                placed(out@, outs, size as int, ch as int),
                frames_denoised(denoisers, outputs, data, self.denoisers(), outs),
                self.outputs() == held(outputs, outs, k as int),
            decreases frames - k,
        {
            let ghost mid = self.denoisers();
            let ghost before = self.outputs();
            let ghost earlier = out@;
            self.read_frame(&chunk.audio_data, k, frames);
            self.run_frame();
            self.write_frame(&mut out, Ghost(k as int));
            proof {
                let more = outs.push(self.outputs());
                assert(more.drop_last() =~= outs);
                assert(frame_denoised(
                    mid,
                    before,
                    data,
                    k as int,
                    self.denoisers(),
                    self.outputs(),
                ));
                assert(frame_denoised(
                    mid,
                    held(outputs, more, k as int),
                    data,
                    k as int,
                    self.denoisers(),
                    more[k as int],
                ));
                assert forall|x: int, i: int, c: int|
                    0 <= x < more.len() && 0 <= i < size && 0 <= c < ch implies out@[
                #[trigger] place(x, i, c, size as int, ch as int)] == more[x][c][i] by {
                    if x < k {
                        place_is_inside(x, i, c, size as int, ch as int, k as int);
                        assert(earlier[place(x, i, c, size as int, ch as int)] == outs[x][c][i]);
                    }
                }
                outs = more;
            }
            k += 1;
        }
        let mut i: usize = frames * frame_samples;
        let ghost whole = i as int;
        let ghost settled = out@;
        while i < len
            invariant
                whole <= i <= len,
                len == data.len(),
                data == chunk.audio_data@,
                out@.len() == i,
                settled.len() == whole,
                settled.is_prefix_of(out@),
                forall|x: int| whole <= x < i ==> #[trigger] out@[x] == data[x],
            decreases len - i,
        {
            out.push(chunk.audio_data[i]);
            i += 1;
        }
        proof {
            assert forall|x: int, y: int, c: int|
                0 <= x < outs.len() && 0 <= y < size && 0 <= c < ch implies out@[#[trigger] place(
                x,
                y,
                c,
                size as int,
                ch as int,
            )] == outs[x][c][y] by {
                place_is_inside(x, y, c, size as int, ch as int, frames as int);
                assert(settled[place(x, y, c, size as int, ch as int)] == outs[x][c][y]);
            }
            assert(out@.skip(whole) =~= data.skip(whole));
            assert(old(self).starts(channels as int, denoisers, outputs));
            assert(denoised(
                denoisers,
                outputs,
                data,
                self.denoisers(),
                self.outputs(),
                out@,
            ));
        }
        AudioChunk::new(chunk.sequence_number, chunk.format, out)
    }
}

/// Which denoiser is selected, as several threads can see it.
pub struct DenoiseControl {
    denoising: AtomicBool,
}

/// How a selection is stored.
pub open spec fn flag_of(selection: DenoiseSelection) -> bool {
    selection == DenoiseSelection::Nnnoiseless
}

/// A look that finds what was stored for one selection gives that selection and no other.
pub proof fn flags_tell_selections_apart(set: DenoiseSelection, got: DenoiseSelection)
    requires
        flag_of(got) == flag_of(set),
    ensures
        got == set,
{
}

impl DenoiseControl {
    /// What holds the selection.
    pub closed spec fn held_in(&self) -> AtomicBool {
        self.denoising
    }

    /// The control was made at `selection`.
    pub closed spec fn made_at(&self, selection: DenoiseSelection) -> bool {
        call_ensures(AtomicBool::new, (flag_of(selection),), self.denoising)
    }

    /// The control was moved to `selection`.
    pub closed spec fn moved_to(&self, selection: DenoiseSelection) -> bool {
        call_ensures(
            AtomicBool::store,
            (&self.denoising, flag_of(selection), Ordering::Relaxed),
            (),
        )
    }

    /// A look at the control has found it at `selection`.
    pub closed spec fn seen_at(&self, selection: DenoiseSelection) -> bool {
        call_ensures(
            AtomicBool::load,
            (&self.denoising, Ordering::Relaxed),
            flag_of(selection),
        )
    }

    pub fn new(selection: DenoiseSelection) -> (control: Self)
        ensures
            control.made_at(selection),
    {
        DenoiseControl { denoising: AtomicBool::new(selection == DenoiseSelection::Nnnoiseless) }
    }

    pub fn set(&self, selection: DenoiseSelection)
        ensures
            self.moved_to(selection),
    {
        self.denoising.store(selection == DenoiseSelection::Nnnoiseless, Ordering::Relaxed);
    }

    /// The selection that was last seen. Other threads may have changed it by then.
    pub fn get(&self) -> (selection: DenoiseSelection)
        ensures
            self.seen_at(selection),
    {
        if self.denoising.load(Ordering::Relaxed) {
            DenoiseSelection::Nnnoiseless
        } else {
            DenoiseSelection::Off
        }
    }
}

/// A selection is stored where it is looked up: whether noise is taken out, and what was found is
/// told.
pub proof fn selection_is_stored_and_told_as_it_is(
    selection: DenoiseSelection,
    made: DenoiseControl,
    control: DenoiseControl,
    got: DenoiseSelection,
)
    requires
        call_ensures(DenoiseControl::new, (selection,), made),
        call_ensures(DenoiseControl::set, (&control, selection), ()),
        call_ensures(DenoiseControl::get, (&control,), got),
    ensures
        call_ensures(AtomicBool::new, (selection is Nnnoiseless,), made.held_in()),
        call_ensures(
            AtomicBool::store,
            (&control.held_in(), selection is Nnnoiseless, Ordering::Relaxed),
            (),
        ),
        call_ensures(
            AtomicBool::load,
            (&control.held_in(), Ordering::Relaxed),
            got is Nnnoiseless,
        ),
{
}

/// Denoises chunks while a denoiser is selected.
pub struct Denoise<D: Denoiser> {
    pub control: Arc<DenoiseControl>,
    pub inner: MultiChannelDenoiser<D>,
}

/// What `selection` makes of a chunk.
pub open spec fn selected<D: Denoiser>(
    pre: MultiChannelDenoiser<D>,
    chunk: AudioChunk,
    selection: DenoiseSelection,
    post: MultiChannelDenoiser<D>,
    out: AudioChunk,
) -> bool {
    match selection {
        DenoiseSelection::Off => post == pre && out == chunk,
        DenoiseSelection::Nnnoiseless => chunk_denoised(pre, chunk, post, out),
    }
}

impl<D: Denoiser> Denoise<D> {
    pub fn new(control: Arc<DenoiseControl>) -> (denoise: Self)
        ensures
            denoise.control == control,
            denoise.inner.wf(),
            denoise.inner.denoisers() == Seq::<D>::empty(),
    {
        Denoise { control, inner: MultiChannelDenoiser::new() }
    }

    pub fn shared(selection: DenoiseSelection) -> (pair: (Self, Arc<DenoiseControl>))
        ensures
            pair.0.control == pair.1,
            pair.0.inner.wf(),
            pair.0.inner.denoisers() == Seq::<D>::empty(),
            pair.1.made_at(selection),
    {
        let control: Arc<DenoiseControl> = Arc::new(DenoiseControl::new(selection));
        (Denoise::new(share(&control)), control)
    }

    /// Runs a chunk through what `selection` stands for.
    pub fn run(&mut self, chunk: AudioChunk, selection: DenoiseSelection) -> (out: AudioChunk)
        requires
            old(self).inner.wf(),
            frame_fits::<D>(chunk),
        ensures
            final(self).inner.wf(),
            final(self).control == old(self).control,
            selected(old(self).inner, chunk, selection, final(self).inner, out),
    {
        match selection {
            DenoiseSelection::Off => chunk,
            DenoiseSelection::Nnnoiseless => self.inner.denoise_chunk(chunk),
        }
    }
}

impl<D: Denoiser> ChunkTransform for Denoise<D> {
    type OutputT = AudioChunk;

    open spec fn accepts(&self, chunk: AudioChunk) -> bool {
        self.inner.wf() && frame_fits::<D>(chunk)
    }

    open spec fn transforms(pre: Self, chunk: AudioChunk, post: Self, out: AudioChunk) -> bool {
        &&& post.inner.wf()
        &&& post.control == pre.control
        &&& exists|selection: DenoiseSelection|
            pre.control.seen_at(selection) && #[trigger] selected(
                pre.inner,
                chunk,
                selection,
                post.inner,
                out,
            )
    }

    fn transform(&mut self, chunk: AudioChunk) -> (out: AudioChunk) {
        let selection: DenoiseSelection = self.control.get();
        self.run(chunk, selection)
    }
}

/// Denoising keeps what stands behind the last whole frame, and with it a chunk that is shorter
/// than one frame.
pub proof fn rest_is_kept<T: Denoiser>(
    pre: MultiChannelDenoiser<T>,
    chunk: AudioChunk,
    post: MultiChannelDenoiser<T>,
    out: AudioChunk,
)
    requires
        frame_fits::<T>(chunk),
        chunk_denoised(pre, chunk, post, out),
    ensures
        out.sequence_number == chunk.sequence_number,
        out.format == chunk.format,
        out.audio_data@.len() == chunk.audio_data@.len(),
        chunk.audio_data@.len() < chunk.format.channel_count * T::FRAME_SIZE ==> out.audio_data@
            == chunk.audio_data@,
{
    let len = chunk.audio_data@.len() as int;
    let samples = chunk.format.channel_count * T::FRAME_SIZE;
    if len > 0 && len < samples {
        vstd::arithmetic::div_mod::lemma_fundamental_div_mod_converse(len, samples, 0, len);
        let (denoisers, outputs) = choose|denoisers: Seq<T>, outputs: Seq<Seq<u32>>| #[trigger]
            pre.starts(chunk.format.channel_count as int, denoisers, outputs) && denoised(
                denoisers,
                outputs,
                chunk.audio_data@,
                post.denoisers(),
                post.outputs(),
                out.audio_data@,
            );
        assert(chunk.audio_data@.skip(0) =~= chunk.audio_data@);
        assert(out.audio_data@.skip(0) =~= out.audio_data@);
        assert(out.audio_data@.skip(0) =~= chunk.audio_data@.skip(0));
    }
}

} // verus!
