//! Errors of device streams.
use std::sync::atomic::{AtomicUsize, Ordering};
use vstd::prelude::*;

verus! {

/// What can go wrong with a stream.
#[derive(Debug, Clone, Copy, PartialEq, Eq, Structural)]
pub enum ErrorKind {
    /// Samples came too late or were taken too late.
    Xrun,
    /// The stream goes on, on another device.
    DeviceChanged,
    /// The stream goes on, without real-time priority.
    RealtimeDenied,
    DeviceNotAvailable,
    StreamInvalidated,
    Other,
}

/// How many errors there were.
#[derive(Clone, Copy, Debug, PartialEq, Eq, Structural)]
pub struct StreamErrorCounts {
    pub xruns: usize,
    pub other: usize,
}

impl Default for StreamErrorCounts {
    fn default() -> (counts: Self)
        ensures
            counts == (StreamErrorCounts { xruns: 0, other: 0 }),
    {
        StreamErrorCounts { xruns: 0, other: 0 }
    }
}

/// `a - b`, and 0 where that is negative.
pub open spec fn beyond(a: usize, b: usize) -> usize {
    if a > b {
        (a - b) as usize
    } else {
        0
    }
}

impl StreamErrorCounts {
    /// What was counted since `earlier`; a count that has gone back counts as none.
    pub fn since(self, earlier: StreamErrorCounts) -> (counts: StreamErrorCounts)
        ensures
            counts == (StreamErrorCounts {
                xruns: beyond(self.xruns, earlier.xruns),
                other: beyond(self.other, earlier.other),
            }),
    {
        StreamErrorCounts {
            xruns: self.xruns.saturating_sub(earlier.xruns),
            other: self.other.saturating_sub(earlier.other),
        }
    }

    pub fn is_zero(self) -> (zero: bool)
        ensures
            zero == (self == StreamErrorCounts { xruns: 0, other: 0 }),
    {
        self.xruns == 0 && self.other == 0
    }
}

/// Whether a stream is lost with an error of this kind.
pub open spec fn spec_is_fatal(kind: ErrorKind) -> bool {
    !(kind == ErrorKind::Xrun || kind == ErrorKind::DeviceChanged || kind
        == ErrorKind::RealtimeDenied)
}

#[verifier::when_used_as_spec(spec_is_fatal)]
pub fn is_fatal(kind: ErrorKind) -> (fatal: bool)
    ensures
        fatal == spec_is_fatal(kind),
{
    match kind {
        ErrorKind::Xrun | ErrorKind::DeviceChanged | ErrorKind::RealtimeDenied => false,
        _ => true,
    }
}

/// Counts errors of several threads.
pub struct Counters {
    xruns: AtomicUsize,
    other: AtomicUsize,
}

impl Counters {
    /// What holds the number of samples that came or were taken too late.
    pub closed spec fn xruns_held_in(&self) -> AtomicUsize {
        self.xruns
    }

    /// What holds the number of all other errors.
    pub closed spec fn other_held_in(&self) -> AtomicUsize {
        self.other
    }

    /// Nothing was counted when these were made.
    pub closed spec fn made_empty(&self) -> bool {
        &&& call_ensures(AtomicUsize::new, (0usize,), self.xruns)
        &&& call_ensures(AtomicUsize::new, (0usize,), self.other)
    }

    /// One error of `kind` was added to the count that it belongs to.
    pub closed spec fn counted(&self, kind: ErrorKind) -> bool {
        if kind == ErrorKind::Xrun {
            exists|before: usize|
                call_ensures(
                    AtomicUsize::fetch_add,
                    (&self.xruns, 1usize, Ordering::Relaxed),
                    before,
                )
        } else {
            exists|before: usize|
                call_ensures(
                    AtomicUsize::fetch_add,
                    (&self.other, 1usize, Ordering::Relaxed),
                    before,
                )
        }
    }

    /// Looks at both counts have found `counts`.
    pub closed spec fn seen_at(&self, counts: StreamErrorCounts) -> bool {
        &&& call_ensures(AtomicUsize::load, (&self.xruns, Ordering::Relaxed), counts.xruns)
        &&& call_ensures(AtomicUsize::load, (&self.other, Ordering::Relaxed), counts.other)
    }

    pub fn new() -> (counters: Self)
        ensures
            counters.made_empty(),
    {
        Counters { xruns: AtomicUsize::new(0), other: AtomicUsize::new(0) }
    }

    /// Counts an error, and tells whether the stream is lost with it.
    pub fn note(&self, kind: ErrorKind) -> (fatal: bool)
        ensures
            fatal == is_fatal(kind),
            self.counted(kind),
    {
        match kind {
            ErrorKind::Xrun => {
                let _ = self.xruns.fetch_add(1, Ordering::Relaxed);
            },
            _ => {
                let _ = self.other.fetch_add(1, Ordering::Relaxed);
            },
        }
        is_fatal(kind)
    }

    pub fn snapshot(&self) -> (counts: StreamErrorCounts)
        ensures
            self.seen_at(counts),
    {
        StreamErrorCounts {
            xruns: self.xruns.load(Ordering::Relaxed),
            other: self.other.load(Ordering::Relaxed),
        }
    }
}

impl Default for Counters {
    fn default() -> (counters: Self)
        ensures
            counters.made_empty(),
    {
        Self::new()
    }
}

/// Nothing has happened since a moment just when each count stands no higher than it did then.
pub proof fn zero_since(later: StreamErrorCounts, earlier: StreamErrorCounts)
    ensures
        (beyond(later.xruns, earlier.xruns) == 0 && beyond(later.other, earlier.other) == 0) <==> (
        later.xruns <= earlier.xruns && later.other <= earlier.other),
{
}

/// An error is counted once, in the count of its own, and the two are looked up where they were
/// counted. A stream goes on after an error that says that it does, and after no other.
pub proof fn errors_are_counted_apart(
    made: Counters,
    counters: Counters,
    kind: ErrorKind,
    fatal: bool,
    counts: StreamErrorCounts,
)
    requires
        call_ensures(Counters::new, (), made),
        call_ensures(Counters::note, (&counters, kind), fatal),
        call_ensures(Counters::snapshot, (&counters,), counts),
    ensures
        call_ensures(AtomicUsize::new, (0usize,), made.xruns_held_in()),
        call_ensures(AtomicUsize::new, (0usize,), made.other_held_in()),
        kind is Xrun ==> exists|before: usize| #[trigger]
            call_ensures(
                AtomicUsize::fetch_add,
                (&counters.xruns_held_in(), 1usize, Ordering::Relaxed),
                before,
            ),
        !(kind is Xrun) ==> exists|before: usize| #[trigger]
            call_ensures(
                AtomicUsize::fetch_add,
                (&counters.other_held_in(), 1usize, Ordering::Relaxed),
                before,
            ),
        call_ensures(
            AtomicUsize::load,
            (&counters.xruns_held_in(), Ordering::Relaxed),
            counts.xruns,
        ),
        call_ensures(
            AtomicUsize::load,
            (&counters.other_held_in(), Ordering::Relaxed),
            counts.other,
        ),
        !fatal <==> kind is Xrun || kind is DeviceChanged || kind is RealtimeDenied,
{
}

/// What was counted since an earlier look, and that look, are what is counted now, unless a count
/// has gone back; there is nothing exactly where neither count is above zero.
pub proof fn counts_grow_by_what_came_since(
    now: StreamErrorCounts,
    earlier: StreamErrorCounts,
    since: StreamErrorCounts,
    zero: bool,
    kind: ErrorKind,
    fatal: bool,
)
    requires
        call_ensures(StreamErrorCounts::since, (now, earlier), since),
        call_ensures(StreamErrorCounts::is_zero, (now,), zero),
        call_ensures(is_fatal, (kind,), fatal),
    ensures
        now.xruns >= earlier.xruns ==> earlier.xruns + since.xruns == now.xruns,
        now.xruns < earlier.xruns ==> since.xruns == 0,
        now.other >= earlier.other ==> earlier.other + since.other == now.other,
        now.other < earlier.other ==> since.other == 0,
        zero <==> now.xruns == 0 && now.other == 0,
        !fatal <==> kind is Xrun || kind is DeviceChanged || kind is RealtimeDenied,
{
}

} // verus!
