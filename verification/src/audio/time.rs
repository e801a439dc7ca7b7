//! Spans of time.
use std::time::Duration;
use vstd::prelude::*;

verus! {

/// The span of this many seconds and nanoseconds.
pub uninterp spec fn duration_of_parts(seconds: u64, nanos: u32) -> Duration;

/// The span of this many nanoseconds.
pub open spec fn duration_of(nanos: u64) -> Duration {
    duration_of_parts(nanos / 1_000_000_000, (nanos % 1_000_000_000) as u32)
}

/// The span of this many nanoseconds.
pub(crate) fn duration_from_nanos(nanos: u64) -> (duration: Duration)
    ensures
        duration == duration_of(nanos),
{
    duration_from_parts(nanos / 1_000_000_000, (nanos % 1_000_000_000) as u32)
}

/// Trusted: `Duration::new` makes the same span of the same numbers every time. It cannot
/// overflow where the nanoseconds stay below a second. Nothing else is said of a span.
#[verifier::external_body]
fn duration_from_parts(seconds: u64, nanos: u32) -> (duration: Duration)
    requires
        nanos < 1_000_000_000,
    ensures
        duration == duration_of_parts(seconds, nanos),
{
    Duration::new(seconds, nanos)
}

/// How long a mesh may take, in milliseconds: half a second for each edge and a little more in
/// every round, and five seconds besides. Rounds and edges are counted in 32 bits.
pub open spec fn mesh_millis(ticks: usize, edges: usize) -> int {
    (500 * (edges as u32) + 100) * (ticks as u32) + 5000
}

/// How long a mesh of so many edges may take for so many rounds.
pub fn mesh_timeout(ticks: usize, edges: usize) -> (timeout: Duration)
    ensures
        timeout == duration_of_parts(
            (mesh_millis(ticks, edges) / 1000) as u64,
            (mesh_millis(ticks, edges) % 1000 * 1_000_000) as u32,
        ),
{
    let per_tick: u128 = 500 * (edges as u32) as u128 + 100;
    proof {
        assert(0 <= per_tick * (ticks as u32) <= 2_147_483_647_600 * 0xffff_ffff)
            by (nonlinear_arith)
            requires
                0 <= per_tick <= 2_147_483_647_600,
                0 <= (ticks as u32) <= 0xffff_ffff,
        ;
    }
    let millis: u128 = per_tick * (ticks as u32) as u128 + 5000;
    duration_from_parts((millis / 1000) as u64, (millis % 1000 * 1_000_000) as u32)
}

} // verus!
