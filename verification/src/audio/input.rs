//! Samples from an input device through a ring.
use crate::audio::chunk::SourcePoll;
use crate::audio::output::{self, RING_CAPACITY_BLOCKS};
use crate::audio::ring::{self, look_abandoned, new_ring, ring_pop, ring_slots, ring_write};
use crate::audio::stats::InputStats;
use crate::audio::config::AudioPipelineConfig;
use crate::audio::switch::{Selection, SilenceChunkSource};
use crate::audio::AudioFormat;
use rtrb::{Consumer, Producer};
use std::sync::Arc;
use vstd::prelude::*;

verus! {

/// What is known of the input in use.
pub struct InputInfo {
    pub name: String,
    pub stats: Arc<InputStats>,
    pub selection: Selection,
}

/// A ring for an input of `channels` channels, in blocks of `frames` frames.
pub fn input_ring(channels: u16, frames: usize) -> (ring: Result<
    (Producer<u32>, Consumer<u32>),
    &'static str,
>)
    requires
        output::block_fits(channels, frames),
    ensures
        channels == 0 || frames == 0 ==> {
            &&& ring matches Err(message)
            &&& message@ == "Invalid input config with zero block size"@
        },
        channels > 0 && frames > 0 ==> {
            &&& ring matches Ok(ends)
            &&& ring::ring_capacity(ends.0) == channels * frames * RING_CAPACITY_BLOCKS
            &&& ring::ring_room(ends.0) == channels * frames * RING_CAPACITY_BLOCKS
            &&& ring::ring_written(ends.0) == Seq::<u32>::empty()
            &&& ring::ring_consumed(ends.1) == Seq::<u32>::empty()
            &&& ring::ring_waiting(ends.1) == 0
        },
{
    proof {
        assert(channels > 0 && frames > 0 ==> channels * frames > 0) by (nonlinear_arith);
        assert(0 <= channels * frames) by (nonlinear_arith);
        assert(channels == 0 || frames == 0 ==> channels * frames == 0) by (nonlinear_arith);
    }
    let block_samples: usize = channels as usize * frames;
    if block_samples == 0 {
        return Err("Invalid input config with zero block size");
    }
    Ok(new_ring(block_samples * RING_CAPACITY_BLOCKS))
}

/// Passes the samples of a device's callback on. What the ring has no room for is dropped and
/// counted; the number of those that went through is returned.
pub fn publish_samples(producer: &mut Producer<u32>, stats: &InputStats, samples: Vec<u32>) -> (
    written: usize)
    ensures
        ring::ring_capacity(*final(producer)) == ring::ring_capacity(*old(producer)),
        written <= samples@.len(),
        ring::ring_written(*final(producer)) == ring::ring_written(*old(producer))
            + samples@.take(written as int),
        samples@.len() <= ring::ring_room(*old(producer)) ==> written == samples@.len(),
        samples@.len() > ring::ring_room(*old(producer)) ==> written >= ring::ring_room(
            *old(producer),
        ),
        written < samples@.len() ==> ring::ring_room(*final(producer)) == 0
            && stats.overruns_counted((samples@.len() - written) as usize),
{
    let len: usize = samples.len();
    proof {
        assert(samples@.take(0) =~= Seq::<u32>::empty());
        assert(ring::ring_written(*producer) + samples@.take(0) =~= ring::ring_written(*producer));
    }
    if len == 0 {
        return 0;
    }
    let free: usize = ring_slots(producer);
    let writable: usize = if free < len {
        free
    } else {
        len
    };
    let written: usize = if writable > 0 {
        match ring_write(producer, writable, samples) {
            Some(written) => written,
            None => 0,
        }
    } else {
        0
    };
    if len > written {
        stats.note_overrun(len - written);
    }
    written
}

/// What asking an input brings: a sample that was there; else it has ended where its device is
/// gone, and has nothing yet where it is not.
pub open spec fn settled(popped: Option<u32>, abandoned: bool) -> SourcePoll {
    match popped {
        Some(sample) => SourcePoll::Sample(sample),
        None => if abandoned {
            SourcePoll::Ended
        } else {
            SourcePoll::Pending
        },
    }
}

/// Decides what asking an input brings.
pub fn settle(popped: Option<u32>, abandoned: bool) -> (polled: SourcePoll)
    ensures
        polled == settled(popped, abandoned),
{
    match popped {
        Some(sample) => SourcePoll::Sample(sample),
        None => if abandoned {
            SourcePoll::Ended
        } else {
            SourcePoll::Pending
        },
    }
}

/// Asks an input for its next sample: it has ended when its device is gone and nothing waits.
pub fn poll_sample(consumer: &mut Consumer<u32>) -> (polled: SourcePoll)
    ensures
        ring::ring_waiting(*old(consumer)) > 0 ==> polled is Sample,
        ring::ring_consumed(*final(consumer)) == match polled {
            SourcePoll::Sample(sample) => ring::ring_consumed(*old(consumer)).push(sample),
            _ => ring::ring_consumed(*old(consumer)),
        },
        match polled {
            SourcePoll::Sample(_) => ring::ring_waiting(*old(consumer)) > 0
                ==> ring::ring_waiting(*final(consumer)) + 1 == ring::ring_waiting(*old(consumer)),
            SourcePoll::Ended => ring::ring_waiting(*final(consumer)) == 0
                && ring::seen_abandoned(*final(consumer), true),
            SourcePoll::Pending => ring::ring_waiting(*final(consumer)) == 0
                && ring::seen_abandoned(*final(consumer), false),
        },
{
    let popped: Option<u32> = ring_pop(consumer);
    if popped.is_some() {
        return settle(popped, false);
    }
    let abandoned: bool = look_abandoned(consumer);
    settle(popped, abandoned)
}

/// What stands in for an input that cannot be had: silence in the pipeline's format, under a name
/// that says so.
pub fn build_silence(config: AudioPipelineConfig) -> (input: (SilenceChunkSource, String))
    ensures
        input.0.format == (AudioFormat {
            channel_count: config.spec_channels(),
            sample_rate: config.spec_sample_rate(),
        }),
        input.0.frames == config.spec_frames(),
        input.0.next_seq == 0,
        input.1@ == "No input device"@,
{
    (
        SilenceChunkSource::new(config.audio_format(), config.frames()),
        "No input device".to_owned(),
    )
}

} // verus!
