//! What the pipeline runs with by default.
use vstd::prelude::*;

verus! {

pub const SAMPLE_RATE: u32 = 48000;

pub const CHUNK_SIZE: usize = 480;

pub const CHANNELS: u16 = 2;

pub const MAX_VOLUME: usize = 500;

/// How long a chunk lasts, in milliseconds.
pub const CHUNK_PERIOD_MS: u64 = 10;

/// The period of a chunk is that of `CHUNK_SIZE` frames at `SAMPLE_RATE`.
pub proof fn chunk_period_fits()
    ensures
        CHUNK_PERIOD_MS == CHUNK_SIZE * 1000 / (SAMPLE_RATE as int),
{
}

} // verus!
