//! Counts that several threads add to.
use std::sync::atomic::{AtomicU64, AtomicUsize, Ordering};
use vstd::prelude::*;

verus! {

/// The mean of `n` values that add up to `total`, rounded down; 0 where there are none.
pub open spec fn spec_average(total: u64, n: usize) -> u64 {
    if n == 0 {
        0
    } else {
        (total as int / n as int) as u64
    }
}

#[verifier::when_used_as_spec(spec_average)]
pub fn average(total: u64, n: usize) -> (mean: u64)
    ensures
        mean == spec_average(total, n),
{
    if n == 0 {
        0
    } else {
        total / n as u64
    }
}

/// What a run of times adds up to.
pub open spec fn sum(times: Seq<u64>) -> nat
    decreases times.len(),
{
    if times.len() == 0 {
        0
    } else {
        sum(times.drop_last()) + times.last() as nat
    }
}

/// The sum of a run of times lies between its length times the least and the greatest of them.
proof fn sum_lies_between(times: Seq<u64>, least: u64, greatest: u64)
    requires
        forall|i: int| 0 <= i < times.len() ==> least <= #[trigger] times[i] <= greatest,
    ensures
        least * times.len() <= sum(times) <= greatest * times.len(),
    decreases times.len(),
{
    if times.len() > 0 {
        let n = times.len() as int;
        sum_lies_between(times.drop_last(), least, greatest);
        assert(least * n == least * (n - 1) + least) by (nonlinear_arith);
        assert(greatest * n == greatest * (n - 1) + greatest) by (nonlinear_arith);
    }
}

/// The mean of a run of times is the greatest whole number that the run's length goes into its
/// sum, and lies between the least and the greatest of them. Without times it is 0.
pub proof fn mean_lies_between(times: Seq<u64>, least: u64, greatest: u64)
    requires
        sum(times) <= u64::MAX,
        times.len() <= usize::MAX,
        forall|i: int| 0 <= i < times.len() ==> least <= #[trigger] times[i] <= greatest,
    ensures
        ({
            let mean = average(sum(times) as u64, times.len() as usize);
            if times.len() == 0 {
                mean == 0
            } else {
                &&& least <= mean <= greatest
                &&& mean * times.len() <= sum(times) < (mean + 1) * times.len()
            }
        }),
{
    if times.len() > 0 {
        let (total, n) = (sum(times) as int, times.len() as int);
        let mean = total / n;
        sum_lies_between(times, least, greatest);
        vstd::arithmetic::div_mod::lemma_fundamental_div_mod(total, n);
        vstd::arithmetic::div_mod::lemma_mod_bound(total, n);
        assert(least <= mean <= greatest && mean * n <= total < (mean + 1) * n)
            by (nonlinear_arith)
            requires
                n > 0,
                least * n <= total <= greatest * n,
                total == n * mean + total % n,
                0 <= total % n < n,
        ;
    }
}

/// The sum of a run of times is the sum of the others and any one of them.
proof fn sum_without_one(times: Seq<u64>, i: int)
    requires
        0 <= i < times.len(),
    ensures
        sum(times) == sum(times.remove(i)) + times[i],
    decreases times.len(),
{
    let rest = times.remove(i);
    if i == times.len() - 1 {
        assert(rest =~= times.drop_last());
    } else {
        assert(rest.drop_last() =~= times.drop_last().remove(i));
        sum_without_one(times.drop_last(), i);
    }
}

/// The order in which times are recorded does not matter: runs of the same times have the same
/// mean.
pub proof fn order_of_times_does_not_matter(a: Seq<u64>, b: Seq<u64>)
    requires
        a.to_multiset() == b.to_multiset(),
    ensures
        sum(a) == sum(b),
        a.len() == b.len(),
        average(sum(a) as u64, a.len() as usize) == average(sum(b) as u64, b.len() as usize),
    decreases a.len(),
{
    broadcast use vstd::seq_lib::group_to_multiset_ensures;

    vstd::seq_lib::to_multiset_len(a);
    vstd::seq_lib::to_multiset_len(b);
    if a.len() > 0 {
        let last = a.len() - 1;
        let time = a[last];
        assert(a.contains(time));
        assert(b.to_multiset().count(time) > 0);
        let i = b.index_of(time);
        assert(a.remove(last).to_multiset() == b.remove(i).to_multiset());
        order_of_times_does_not_matter(a.remove(last), b.remove(i));
        sum_without_one(a, last);
        sum_without_one(b, i);
    }
}

/// How long filling a device's buffer takes.
pub struct FillStats {
    total_nanos: AtomicU64,
    fills: AtomicUsize,
}

impl FillStats {
    /// What holds the nanoseconds of all fills.
    pub closed spec fn nanos_held_in(&self) -> AtomicU64 {
        self.total_nanos
    }

    /// What holds the number of fills.
    pub closed spec fn fills_held_in(&self) -> AtomicUsize {
        self.fills
    }

    /// Nothing was counted when these were made.
    pub closed spec fn made_empty(&self) -> bool {
        &&& call_ensures(AtomicU64::new, (0u64,), self.total_nanos)
        &&& call_ensures(AtomicUsize::new, (0usize,), self.fills)
    }

    /// One fill of so many nanoseconds was added.
    pub closed spec fn counted(&self, nanos: u64) -> bool {
        &&& exists|before: usize|
            call_ensures(AtomicUsize::fetch_add, (&self.fills, 1usize, Ordering::Relaxed), before)
        &&& exists|before: u64|
            call_ensures(
                AtomicU64::fetch_add,
                (&self.total_nanos, nanos, Ordering::Relaxed),
                before,
            )
    }

    /// Looks have found `fills` fills, and then `total` nanoseconds.
    pub closed spec fn seen_at(&self, total: u64, fills: usize) -> bool {
        &&& call_ensures(AtomicUsize::load, (&self.fills, Ordering::Relaxed), fills)
        &&& call_ensures(AtomicU64::load, (&self.total_nanos, Ordering::Relaxed), total)
    }

    pub fn new() -> (stats: Self)
        ensures
            stats.made_empty(),
    {
        FillStats { total_nanos: AtomicU64::new(0), fills: AtomicUsize::new(0) }
    }

    /// Counts one fill.
    pub fn record(&self, elapsed_nanos: u64)
        ensures
            self.counted(elapsed_nanos),
    {
        let _ = self.fills.fetch_add(1, Ordering::Relaxed);
        let _ = self.total_nanos.fetch_add(elapsed_nanos, Ordering::Relaxed);
    }

    /// The mean time of a fill, in nanoseconds. Fills that other threads record meanwhile may be
    /// counted in one of the two sums only.
    pub fn avg_nanos(&self) -> (nanos: u64)
        ensures
            exists|total: u64, fills: usize| #[trigger]
                self.seen_at(total, fills) && nanos == average(total, fills),
    {
        let fills: usize = self.fills.load(Ordering::Relaxed);
        let total: u64 = self.total_nanos.load(Ordering::Relaxed);
        proof {
            assert(self.seen_at(total, fills));
        }
        average(total, fills)
    }
}

impl Default for FillStats {
    fn default() -> (stats: Self)
        ensures
            stats.made_empty(),
    {
        Self::new()
    }
}

/// A fill is one more fill and its own time more, and the mean is of just these two sums: as many
/// whole nanoseconds as go into each of the fills.
pub proof fn fills_are_counted_and_averaged(
    made: FillStats,
    stats: FillStats,
    nanos: u64,
    mean: u64,
)
    requires
        call_ensures(FillStats::new, (), made),
        call_ensures(FillStats::record, (&stats, nanos), ()),
        call_ensures(FillStats::avg_nanos, (&stats,), mean),
    ensures
        call_ensures(AtomicU64::new, (0u64,), made.nanos_held_in()),
        call_ensures(AtomicUsize::new, (0usize,), made.fills_held_in()),
        exists|before: usize| #[trigger]
            call_ensures(
                AtomicUsize::fetch_add,
                (&stats.fills_held_in(), 1usize, Ordering::Relaxed),
                before,
            ),
        exists|before: u64| #[trigger]
            call_ensures(
                AtomicU64::fetch_add,
                (&stats.nanos_held_in(), nanos, Ordering::Relaxed),
                before,
            ),
        exists|total: u64, fills: usize| #[trigger]
            call_ensures(
                AtomicU64::load,
                (&stats.nanos_held_in(), Ordering::Relaxed),
                total,
            ) && #[trigger] call_ensures(
                AtomicUsize::load,
                (&stats.fills_held_in(), Ordering::Relaxed),
                fills,
            ) && (fills == 0 ==> mean == 0) && (fills > 0 ==> mean * fills <= total < (mean + 1)
                * fills),
{
    let (total, fills) = choose|total: u64, fills: usize| #[trigger]
        stats.seen_at(total, fills) && mean == average(total, fills);
    if fills > 0 {
        mean_is_whole(total, fills, mean);
    }
    assert(call_ensures(
        AtomicU64::load,
        (&stats.nanos_held_in(), Ordering::Relaxed),
        total,
    ));
    assert(call_ensures(
        AtomicUsize::load,
        (&stats.fills_held_in(), Ordering::Relaxed),
        fills,
    ));
}

/// The mean goes into each of `n` values, and no more does.
proof fn mean_is_whole(total: u64, n: usize, mean: u64)
    requires
        n > 0,
        mean == average(total, n),
    ensures
        mean * n <= total < (mean + 1) * n,
{
    let (t, c) = (total as int, n as int);
    vstd::arithmetic::div_mod::lemma_fundamental_div_mod(t, c);
    vstd::arithmetic::div_mod::lemma_mod_bound(t, c);
    assert(0 <= t / c <= t && (t / c) * c <= t < (t / c + 1) * c) by (nonlinear_arith)
        requires
            c > 0,
            t >= 0,
            t == c * (t / c) + t % c,
            0 <= t % c < c,
    ;
}

/// The mean of `n` values goes into each of them, and no more does; of none it is 0.
pub proof fn mean_is_rounded_down(total: u64, n: usize, mean: u64)
    requires
        call_ensures(average, (total, n), mean),
    ensures
        n == 0 ==> mean == 0,
        n > 0 ==> mean * n <= total < (mean + 1) * n,
{
    if n > 0 {
        mean_is_whole(total, n, mean);
    }
}

/// Samples that a device missed, and samples that it had no room for.
pub struct OutputStats {
    underruns: AtomicUsize,
    overruns: AtomicUsize,
}

impl OutputStats {
    /// What holds the number of samples that the device missed.
    pub closed spec fn underruns_held_in(&self) -> AtomicUsize {
        self.underruns
    }

    /// What holds the number of samples that there was no room for.
    pub closed spec fn overruns_held_in(&self) -> AtomicUsize {
        self.overruns
    }

    /// Nothing was counted when these were made.
    pub closed spec fn made_empty(&self) -> bool {
        &&& call_ensures(AtomicUsize::new, (0usize,), self.underruns)
        &&& call_ensures(AtomicUsize::new, (0usize,), self.overruns)
    }

    /// So many samples were added to those that the device missed.
    pub closed spec fn underruns_counted(&self, samples: usize) -> bool {
        exists|before: usize|
            call_ensures(
                AtomicUsize::fetch_add,
                (&self.underruns, samples, Ordering::Relaxed),
                before,
            )
    }

    /// So many samples were added to those that there was no room for.
    pub closed spec fn overruns_counted(&self, samples: usize) -> bool {
        exists|before: usize|
            call_ensures(
                AtomicUsize::fetch_add,
                (&self.overruns, samples, Ordering::Relaxed),
                before,
            )
    }

    /// A look has found that the device missed so many samples.
    pub closed spec fn underruns_seen(&self, samples: usize) -> bool {
        call_ensures(AtomicUsize::load, (&self.underruns, Ordering::Relaxed), samples)
    }

    /// A look has found that there was no room for so many samples.
    pub closed spec fn overruns_seen(&self, samples: usize) -> bool {
        call_ensures(AtomicUsize::load, (&self.overruns, Ordering::Relaxed), samples)
    }

    pub fn new() -> (stats: Self)
        ensures
            stats.made_empty(),
    {
        OutputStats { underruns: AtomicUsize::new(0), overruns: AtomicUsize::new(0) }
    }

    pub fn note_underruns(&self, samples: usize)
        ensures
            self.underruns_counted(samples),
    {
        let _ = self.underruns.fetch_add(samples, Ordering::Relaxed);
    }

    pub fn note_overrun(&self, samples: usize)
        ensures
            self.overruns_counted(samples),
    {
        let _ = self.overruns.fetch_add(samples, Ordering::Relaxed);
    }

    pub fn underruns(&self) -> (samples: usize)
        ensures
            self.underruns_seen(samples),
    {
        self.underruns.load(Ordering::Relaxed)
    }

    pub fn overruns(&self) -> (samples: usize)
        ensures
            self.overruns_seen(samples),
    {
        self.overruns.load(Ordering::Relaxed)
    }
}

impl Default for OutputStats {
    fn default() -> (stats: Self)
        ensures
            stats.made_empty(),
    {
        Self::new()
    }
}

/// Samples that were missed, and samples that there was no room for, are counted apart, all of
/// them, and looked up where they were counted.
pub proof fn output_counts_are_kept_apart(
    made: OutputStats,
    stats: OutputStats,
    missed: usize,
    lost: usize,
    underruns: usize,
    overruns: usize,
)
    requires
        call_ensures(OutputStats::new, (), made),
        call_ensures(OutputStats::note_underruns, (&stats, missed), ()),
        call_ensures(OutputStats::note_overrun, (&stats, lost), ()),
        call_ensures(OutputStats::underruns, (&stats,), underruns),
        call_ensures(OutputStats::overruns, (&stats,), overruns),
    ensures
        call_ensures(AtomicUsize::new, (0usize,), made.underruns_held_in()),
        call_ensures(AtomicUsize::new, (0usize,), made.overruns_held_in()),
        exists|before: usize| #[trigger]
            call_ensures(
                AtomicUsize::fetch_add,
                (&stats.underruns_held_in(), missed, Ordering::Relaxed),
                before,
            ),
        exists|before: usize| #[trigger]
            call_ensures(
                AtomicUsize::fetch_add,
                (&stats.overruns_held_in(), lost, Ordering::Relaxed),
                before,
            ),
        call_ensures(
            AtomicUsize::load,
            (&stats.underruns_held_in(), Ordering::Relaxed),
            underruns,
        ),
        call_ensures(
            AtomicUsize::load,
            (&stats.overruns_held_in(), Ordering::Relaxed),
            overruns,
        ),
{
}

/// Samples of an input that there was no room for.
pub struct InputStats {
    overruns: AtomicUsize,
}

impl InputStats {
    /// What holds the number of samples that there was no room for.
    pub closed spec fn overruns_held_in(&self) -> AtomicUsize {
        self.overruns
    }

    /// Nothing was counted when these were made.
    pub closed spec fn made_empty(&self) -> bool {
        call_ensures(AtomicUsize::new, (0usize,), self.overruns)
    }

    /// So many samples were added to those that there was no room for.
    pub closed spec fn overruns_counted(&self, samples: usize) -> bool {
        exists|before: usize|
            call_ensures(
                AtomicUsize::fetch_add,
                (&self.overruns, samples, Ordering::Relaxed),
                before,
            )
    }

    /// A look has found that there was no room for so many samples.
    pub closed spec fn overruns_seen(&self, samples: usize) -> bool {
        call_ensures(AtomicUsize::load, (&self.overruns, Ordering::Relaxed), samples)
    }

    pub fn new() -> (stats: Self)
        ensures
            stats.made_empty(),
    {
        InputStats { overruns: AtomicUsize::new(0) }
    }

    pub fn note_overrun(&self, samples: usize)
        ensures
            self.overruns_counted(samples),
    {
        let _ = self.overruns.fetch_add(samples, Ordering::Relaxed);
    }

    pub fn overruns(&self) -> (samples: usize)
        ensures
            self.overruns_seen(samples),
    {
        self.overruns.load(Ordering::Relaxed)
    }
}

impl Default for InputStats {
    fn default() -> (stats: Self)
        ensures
            stats.made_empty(),
    {
        Self::new()
    }
}

/// Samples that there was no room for are counted, all of them, and looked up where they were
/// counted.
pub proof fn input_counts_are_kept(
    made: InputStats,
    stats: InputStats,
    lost: usize,
    overruns: usize,
)
    requires
        call_ensures(InputStats::new, (), made),
        call_ensures(InputStats::note_overrun, (&stats, lost), ()),
        call_ensures(InputStats::overruns, (&stats,), overruns),
    ensures
        call_ensures(AtomicUsize::new, (0usize,), made.overruns_held_in()),
        exists|before: usize| #[trigger]
            call_ensures(
                AtomicUsize::fetch_add,
                (&stats.overruns_held_in(), lost, Ordering::Relaxed),
                before,
            ),
        call_ensures(
            AtomicUsize::load,
            (&stats.overruns_held_in(), Ordering::Relaxed),
            overruns,
        ),
{
}

} // verus!
