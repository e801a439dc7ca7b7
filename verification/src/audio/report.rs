//! Lines for the log.
use crate::audio::mixer::MixerMetrics;
use crate::text::{self, push_labelled};
use vstd::prelude::*;

verus! {

/// How far a count has moved since `before`; 0 where it has been reset.
pub open spec fn spec_moved(before: usize, now: usize) -> u64 {
    if now > before {
        (now - before) as u64
    } else {
        0
    }
}

#[verifier::when_used_as_spec(spec_moved)]
pub fn moved(before: usize, now: usize) -> (by: u64)
    ensures
        by == spec_moved(before, now),
{
    now.saturating_sub(before) as u64
}

/// What the mixer has counted since `prev`, in one line.
pub fn format_metrics_line(
    prev: &MixerMetrics,
    current: &MixerMetrics,
    fill_avg_nanos: u64,
    peer_count: usize,
) -> (line: String)
    ensures
        line@ == text::labelled("audio gaps="@, moved(prev.gap_detected, current.gap_detected))
            + text::labelled(" late="@, moved(prev.late_dropped, current.late_dropped)) + text::labelled(
            " underruns="@,
            moved(prev.underrun, current.underrun),
        ) + text::labelled(" plc="@, moved(prev.plc_hold, current.plc_hold)) + text::labelled(
            " clips="@,
            moved(prev.clip_hits, current.clip_hits),
        ) + text::labelled(" fills="@, moved(prev.fills, current.fills)) + text::labelled(
            " fill_avg_ns="@,
            fill_avg_nanos,
        ) + text::labelled(" peers="@, peer_count as u64),
{
    let mut line: String = String::new();
    push_labelled(&mut line, "audio gaps=", moved(prev.gap_detected, current.gap_detected));
    proof {
        let first = text::labelled(
            "audio gaps="@,
            moved(prev.gap_detected, current.gap_detected),
        );
        assert(Seq::<char>::empty() + first =~= first);
    }
    push_labelled(&mut line, " late=", moved(prev.late_dropped, current.late_dropped));
    push_labelled(&mut line, " underruns=", moved(prev.underrun, current.underrun));
    push_labelled(&mut line, " plc=", moved(prev.plc_hold, current.plc_hold));
    push_labelled(&mut line, " clips=", moved(prev.clip_hits, current.clip_hits));
    push_labelled(&mut line, " fills=", moved(prev.fills, current.fills));
    push_labelled(&mut line, " fill_avg_ns=", fill_avg_nanos);
    push_labelled(&mut line, " peers=", peer_count as u64);
    line
}

/// What the pipeline has counted since `prev`, in one line.
pub fn format_audio_interval(
    prev: &MixerMetrics,
    current: &MixerMetrics,
    fill_avg_nanos: u64,
    peer_count: usize,
    dropped: usize,
    ring_underruns: usize,
    ring_overruns: usize,
) -> (line: String)
    ensures
        line@ == text::labelled("audio gaps="@, moved(prev.gap_detected, current.gap_detected))
            + text::labelled(" late="@, moved(prev.late_dropped, current.late_dropped)) + text::labelled(
            " overflow="@,
            moved(prev.overflow_dropped, current.overflow_dropped),
        ) + text::labelled(" underruns="@, moved(prev.underrun, current.underrun)) + text::labelled(
            " plc="@,
            moved(prev.plc_hold, current.plc_hold),
        ) + text::labelled(" clips="@, moved(prev.clip_hits, current.clip_hits)) + text::labelled(
            " fills="@,
            moved(prev.fills, current.fills),
        ) + text::labelled(" stale="@, moved(prev.stale_dropped, current.stale_dropped)) + text::labelled(
            " fill_avg_ns="@,
            fill_avg_nanos,
        ) + text::labelled(" peers="@, peer_count as u64) + text::labelled(" dropped="@, dropped as u64)
            + text::labelled(" ring_underruns="@, ring_underruns as u64) + text::labelled(
            " ring_overruns="@,
            ring_overruns as u64,
        ),
{
    let mut line: String = String::new();
    push_labelled(&mut line, "audio gaps=", moved(prev.gap_detected, current.gap_detected));
    proof {
        let first = text::labelled(
            "audio gaps="@,
            moved(prev.gap_detected, current.gap_detected),
        );
        assert(Seq::<char>::empty() + first =~= first);
    }
    push_labelled(&mut line, " late=", moved(prev.late_dropped, current.late_dropped));
    push_labelled(
        &mut line,
        " overflow=",
        moved(prev.overflow_dropped, current.overflow_dropped),
    );
    push_labelled(&mut line, " underruns=", moved(prev.underrun, current.underrun));
    push_labelled(&mut line, " plc=", moved(prev.plc_hold, current.plc_hold));
    push_labelled(&mut line, " clips=", moved(prev.clip_hits, current.clip_hits));
    push_labelled(&mut line, " fills=", moved(prev.fills, current.fills));
    push_labelled(&mut line, " stale=", moved(prev.stale_dropped, current.stale_dropped));
    push_labelled(&mut line, " fill_avg_ns=", fill_avg_nanos);
    push_labelled(&mut line, " peers=", peer_count as u64);
    push_labelled(&mut line, " dropped=", dropped as u64);
    push_labelled(&mut line, " ring_underruns=", ring_underruns as u64);
    push_labelled(&mut line, " ring_overruns=", ring_overruns as u64);
    line
}

} // verus!
