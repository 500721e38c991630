//! The sample queue and its collector.
//!
//! Many reporters push into the queue while the measured work runs; the collector
//! drains it once, when the run is over, and summarises what it found.

use crate::clock::duration_nanos;
use crate::clock::nanos_of;
use crate::sample::summarize;
use crate::sample::summary_of;
use crate::sample::Packet;
use crate::sample::StatsError;
use crate::sample::Summary;
use crate::text::decimal;
use crate::text::push_decimal;
use crossbeam::queue::SegQueue;
use std::sync::Arc;
use std::time::Duration;
use vstd::prelude::*;

verus! {

/// An unbounded lock-free queue.  It is shared between threads and changes under a
/// shared reference, so nothing about what it holds can be stated of a value of it.
#[verifier::external_type_specification]
#[verifier::external_body]
#[verifier::reject_recursive_types(T)]
pub struct ExSegQueue<T>(SegQueue<T>);

/// The shared queue of timing samples.
pub type Queue = Arc<SegQueue<Packet>>;

/// `SegQueue::new`: a new, empty queue.
pub assume_specification<T>[ SegQueue::<T>::new ]() -> (queue: SegQueue<T>);

/// `SegQueue::push`: appends `value` at the tail.
pub assume_specification<T>[ SegQueue::<T>::push ](queue: &SegQueue<T>, value: T);

/// `SegQueue::pop`: removes the element at the head, if the queue holds one at that
/// moment.  Other threads may push meanwhile, so nothing is promised of the result.
pub assume_specification<T>[ SegQueue::<T>::pop ](queue: &SegQueue<T>) -> (head: Option<T>);

/// `SegQueue::len`: the number of elements at some moment during the call.
pub assume_specification<T>[ SegQueue::<T>::len ](queue: &SegQueue<T>) -> (n: usize);

/// The text of a report: the throughput in bytes per second and the mean latency in
/// nanoseconds, both as decimal numerals, each with its unit.
pub open spec fn report_text(bytes_per_second: u128, mean_latency_nanos: u128) -> Seq<char> {
    "throughput="@ + decimal(bytes_per_second as nat) + " B/s, latency="@ + decimal(
        mean_latency_nanos as nat,
    ) + " ns"@
}

/// The report line for a summary.
pub fn render(summary: &Summary) -> (text: String)
    ensures
        text@ == report_text(summary.bytes_per_second, summary.mean_latency_nanos),
{
    let mut text = String::from_str("throughput=");
    push_decimal(&mut text, summary.bytes_per_second);
    text.append(" B/s, latency=");
    push_decimal(&mut text, summary.mean_latency_nanos);
    text.append(" ns");
    text
}

/// The owner of the sample queue.
pub struct Collector {
    q: Queue,
}

impl Collector {
    /// The queue that the collector drains.
    pub closed spec fn queue(&self) -> Queue {
        self.q
    }

    /// A collector with a new queue, and a handle to that queue for the reporters.
    pub fn new() -> (r: (Collector, Queue))
        ensures
            r.0.queue() == r.1,
    {
        let q: Queue = Arc::new(SegQueue::new());
        let this = Collector { q: q.clone() };
        (this, q)
    }

    /// Takes out the samples that the queue holds when the call starts, oldest first.
    ///
    /// Samples pushed while the drain runs may or may not be among them.
    pub fn drain(&self) -> (samples: Vec<Packet>) {
        let n = self.q.len();
        let mut samples: Vec<Packet> = Vec::new();
        let mut remaining = n;
        while remaining > 0
            invariant
                remaining <= n,
            decreases remaining,
        {
            match self.q.pop() {
                Some(packet) => {
                    samples.push(packet);
                },
                None => {
                    return samples;
                },
            }
            remaining = remaining - 1;
        }
        samples
    }

    /// Drains the queue and summarises the samples over the window `du`.
    ///
    /// The result is the summary of some sequence of samples, the ones that were
    /// drained; in particular it is an error, and no division by zero, when the queue
    /// was empty.
    pub fn summarize(self, du: Duration) -> (r: Result<Summary, StatsError>)
        ensures
            exists|samples: Seq<Packet>| r == #[trigger] summary_of(samples, duration_nanos(du)),
    {
        let samples = self.drain();
        let window = nanos_of(du);
        let r = summarize(&samples, window);
        assert(r == summary_of(samples@, duration_nanos(du)));
        r
    }

    /// Drains the queue and renders the summary of the samples over the window `du`
    /// as a report line.
    pub fn show(self, du: Duration) -> (r: Result<String, StatsError>)
        ensures
            exists|samples: Seq<Packet>|
                match #[trigger] summary_of(samples, duration_nanos(du)) {
                    Ok(summary) => r matches Ok(text) && text@ == report_text(
                        summary.bytes_per_second,
                        summary.mean_latency_nanos,
                    ),
                    Err(e) => r == Err::<String, StatsError>(e),
                },
    {
        let samples = self.drain();
        let window = nanos_of(du);
        let r = match summarize(&samples, window) {
            Ok(summary) => Ok(render(&summary)),
            Err(e) => Err(e),
        };
        assert(summary_of(samples@, duration_nanos(du)) is Ok ==> r is Ok);
        r
    }
}

} // verus!
