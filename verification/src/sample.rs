//! Timing samples and their aggregation.

use crate::clock::duration_nanos;
use crate::clock::nanos_of;
use std::time::Duration;
use vstd::prelude::*;

verus! {

/// Nanoseconds in one second: the scale of the reported throughput.
pub const NANOS_PER_SECOND: u128 = 1_000_000_000;

/// One observed unit of work: how long it took and how many bytes it moved.
#[derive(Clone, Copy, Debug)]
pub struct Packet {
    time: u128,
    length: usize,
}

impl Packet {
    /// The sample's duration in nanoseconds.
    pub closed spec fn nanos(&self) -> nat {
        self.time as nat
    }

    /// The sample's byte length.
    pub closed spec fn bytes(&self) -> nat {
        self.length as nat
    }

    /// A sample of `length` bytes that took `time`.
    pub fn new(time: Duration, length: usize) -> (p: Packet)
        ensures
            p.nanos() == duration_nanos(time),
            p.bytes() == length,
    {
        Packet { time: nanos_of(time), length }
    }

    /// A sample of `length` bytes that took `nanos` nanoseconds.
    pub fn from_nanos(nanos: u128, length: usize) -> (p: Packet)
        ensures
            p.nanos() == nanos,
            p.bytes() == length,
    {
        Packet { time: nanos, length }
    }

    /// The sample's duration in nanoseconds.
    pub fn time_nanos(&self) -> (n: u128)
        ensures
            n == self.nanos(),
    {
        self.time
    }

    /// The sample's byte length.
    pub fn length(&self) -> (n: usize)
        ensures
            n == self.bytes(),
    {
        self.length
    }
}

/// Why a run could not be summarised.
#[derive(Clone, Copy, Debug, PartialEq, Eq, Structural)]
pub enum StatsError {
    /// No sample was recorded, so there is no mean to report.
    NoSamples,
    /// The measurement window is empty, so there is no rate to report.
    EmptyWindow,
    /// The summed durations, or the byte total scaled to a second, exceed 128 bits.
    Overflow,
}

/// What a run amounted to.
#[derive(Clone, Copy, Debug, PartialEq, Eq, Structural)]
pub struct Summary {
    /// How many samples were aggregated.
    pub samples: usize,
    /// The sum of the samples' durations, in nanoseconds.
    pub total_nanos: u128,
    /// The sum of the samples' byte lengths.
    pub total_bytes: u128,
    /// Mean latency in nanoseconds, rounded down.
    pub mean_latency_nanos: u128,
    /// Throughput in bytes per second of the window, rounded down.
    pub bytes_per_second: u128,
}

/// The sum of the durations of `s`, in nanoseconds.
pub open spec fn total_nanos(s: Seq<Packet>) -> nat
    decreases s.len(),
{
    if s.len() == 0 {
        0
    } else {
        total_nanos(s.drop_last()) + s.last().nanos()
    }
}

/// The sum of the byte lengths of `s`.
pub open spec fn total_bytes(s: Seq<Packet>) -> nat
    decreases s.len(),
{
    if s.len() == 0 {
        0
    } else {
        total_bytes(s.drop_last()) + s.last().bytes()
    }
}

/// The summary of the samples `s` over a window of `window` nanoseconds: the mean of
/// the durations and the bytes moved per second of the window, both rounded down.
pub open spec fn summary_of(s: Seq<Packet>, window: nat) -> Result<Summary, StatsError> {
    if s.len() == 0 {
        Err(StatsError::NoSamples)
    } else if window == 0 {
        Err(StatsError::EmptyWindow)
    } else if total_nanos(s) > u128::MAX || total_bytes(s) * NANOS_PER_SECOND > u128::MAX {
        Err(StatsError::Overflow)
    } else {
        Ok(
            Summary {
                samples: s.len() as usize,
                total_nanos: total_nanos(s) as u128,
                total_bytes: total_bytes(s) as u128,
                mean_latency_nanos: (total_nanos(s) as int / s.len() as int) as u128,
                bytes_per_second: (total_bytes(s) * NANOS_PER_SECOND / window as int) as u128,
            },
        )
    }
}

/// A byte total never exceeds the largest length times the number of samples.
pub proof fn lemma_total_bytes_bound(s: Seq<Packet>)
    ensures
        total_bytes(s) <= s.len() * usize::MAX,
    decreases s.len(),
{
    if s.len() > 0 {
        lemma_total_bytes_bound(s.drop_last());
        assert(total_bytes(s) <= (s.len() - 1) * usize::MAX + usize::MAX);
        assert((s.len() - 1) * usize::MAX + usize::MAX == s.len() * usize::MAX)
            by (nonlinear_arith);
    }
}

/// Sums grow with the prefix they are taken over.
pub proof fn lemma_total_nanos_monotonic(s: Seq<Packet>, i: int)
    requires
        0 <= i <= s.len(),
    ensures
        total_nanos(s.take(i)) <= total_nanos(s),
    decreases s.len() - i,
{
    if i < s.len() {
        lemma_total_nanos_monotonic(s, i + 1);
        assert(s.take(i + 1).drop_last() =~= s.take(i));
    } else {
        assert(s.take(i) =~= s);
    }
}

proof fn lemma_totals_without(s: Seq<Packet>, at: int)
    requires
        0 <= at < s.len(),
    ensures
        total_nanos(s) == total_nanos(s.remove(at)) + s[at].nanos(),
        total_bytes(s) == total_bytes(s.remove(at)) + s[at].bytes(),
    decreases s.len(),
{
    if at == s.len() - 1 {
        assert(s.remove(at) =~= s.drop_last());
    } else {
        lemma_totals_without(s.drop_last(), at);
        assert(s.remove(at).drop_last() =~= s.drop_last().remove(at));
        assert(s.remove(at).last() == s.last());
    }
}

/// Totals depend on which samples there are and how often, not on their order.
pub proof fn lemma_totals_ignore_order(a: Seq<Packet>, b: Seq<Packet>)
    requires
        a.to_multiset() == b.to_multiset(),
    ensures
        a.len() == b.len(),
        total_nanos(a) == total_nanos(b),
        total_bytes(a) == total_bytes(b),
    decreases a.len(),
{
    a.to_multiset_ensures();
    b.to_multiset_ensures();
    if a.len() > 0 {
        let last = a.last();
        let at = a.len() - 1;
        assert(a[at] == last);
        assert(a.contains(last));
        assert(a.to_multiset().count(last) > 0);
        assert(b.to_multiset().count(last) > 0);
        assert(b.contains(last));
        let j = choose|j: int| 0 <= j < b.len() && b[j] == last;
        assert(a.remove(at) =~= a.drop_last());
        assert(a.remove(at).to_multiset() =~= b.remove(j).to_multiset());
        lemma_totals_ignore_order(a.drop_last(), b.remove(j));
        lemma_totals_without(b, j);
    }
}

/// The order in which the samples were drained is irrelevant: two sequences that hold
/// the same samples equally often have the same summary.
pub proof fn lemma_summary_ignores_order(a: Seq<Packet>, b: Seq<Packet>, window: nat)
    requires
        a.to_multiset() == b.to_multiset(),
    ensures
        summary_of(a, window) == summary_of(b, window),
{
    lemma_totals_ignore_order(a, b);
}

/// An empty sample set has no summary, whatever the window: the mean is never a
/// division by zero.
pub proof fn lemma_no_samples_no_summary(window: nat)
    ensures
        summary_of(Seq::<Packet>::empty(), window) == Err::<Summary, StatsError>(
            StatsError::NoSamples,
        ),
{
}

/// Every sample counts once: a sample added to a set adds its duration and its bytes
/// to the totals and one to the count.
pub proof fn lemma_push_adds_one_sample(s: Seq<Packet>, p: Packet)
    ensures
        s.push(p).len() == s.len() + 1,
        total_nanos(s.push(p)) == total_nanos(s) + p.nanos(),
        total_bytes(s.push(p)) == total_bytes(s) + p.bytes(),
{
    assert(s.push(p).drop_last() =~= s);
}

/// Aggregates `samples` over a window of `window_nanos` nanoseconds.
///
/// Fails on an empty sample set, on an empty window, and where a total does not fit in
/// 128 bits; otherwise the summary is exactly `summary_of`.
pub fn summarize(samples: &Vec<Packet>, window_nanos: u128) -> (r: Result<Summary, StatsError>)
    ensures
        r == summary_of(samples@, window_nanos as nat),
{
    let n = samples.len();
    if n == 0 {
        return Err(StatsError::NoSamples);
    }
    if window_nanos == 0 {
        return Err(StatsError::EmptyWindow);
    }
    let mut sum_time: u128 = 0;
    let mut sum_amt: u128 = 0;
    let mut i: usize = 0;
    while i < n
        invariant
            n == samples.len(),
            n > 0,
            window_nanos > 0,
            0 <= i <= n,
            sum_time == total_nanos(samples@.take(i as int)),
            sum_amt == total_bytes(samples@.take(i as int)),
        decreases n - i,
    {
        let packet = samples[i];
        proof {
            assert(samples@.take(i + 1).drop_last() =~= samples@.take(i as int));
            lemma_total_bytes_bound(samples@.take(i + 1));
            assert((i + 1) * usize::MAX <= usize::MAX * usize::MAX) by (nonlinear_arith)
                requires
                    i + 1 <= usize::MAX,
            ;
            assert(usize::MAX * usize::MAX <= u128::MAX) by (nonlinear_arith)
                requires
                    usize::MAX <= u64::MAX,
            ;
        }
        sum_amt = sum_amt + packet.length as u128;
        match sum_time.checked_add(packet.time) {
            Some(t) => {
                sum_time = t;
            },
            None => {
                proof {
                    assert(samples@.take(i + 1).last() == packet);
                    assert(total_nanos(samples@.take(i + 1)) == sum_time + packet.time);
                    lemma_total_nanos_monotonic(samples@, i + 1);
                }
                return Err(StatsError::Overflow);
            },
        }
        i = i + 1;
    }
    assert(samples@.take(n as int) =~= samples@);
    match sum_amt.checked_mul(NANOS_PER_SECOND) {
        None => Err(StatsError::Overflow),
        Some(scaled) => Ok(
            Summary {
                samples: n,
                total_nanos: sum_time,
                total_bytes: sum_amt,
                mean_latency_nanos: sum_time / (n as u128),
                bytes_per_second: scaled / window_nanos,
            },
        ),
    }
}

} // verus!
