//! The per-lane reporter: it times one unit of work at a time.

use crate::clock::elapsed_since;
use crate::clock::now;
use crate::collector::Queue;
use crate::sample::Packet;
use std::time::Instant;
use vstd::prelude::*;

verus! {

/// Times the work of one lane and pushes one sample per unit of work.
///
/// The reporter holds at most one start time.  `start` and `stop` must alternate: the
/// contracts rule out a second `start` and a `stop` without a `start`.
pub struct Reporter {
    q: Queue,
    cur: Option<Instant>,
}

impl Reporter {
    /// Whether a start time is recorded, that is, whether a unit of work is being timed.
    pub closed spec fn timing(&self) -> bool {
        self.cur is Some
    }

    /// The queue that the reporter pushes into.
    pub closed spec fn queue(&self) -> Queue {
        self.q
    }

    /// A reporter that pushes into `q` and times nothing yet.
    pub fn new(q: Queue) -> (reporter: Reporter)
        ensures
            !reporter.timing(),
            reporter.queue() == q,
    {
        Reporter { q, cur: None }
    }

    /// Whether a unit of work is being timed.
    pub fn is_timing(&self) -> (b: bool)
        ensures
            b == self.timing(),
    {
        self.cur.is_some()
    }

    /// Records the start of a unit of work.
    pub fn start(&mut self)
        requires
            !old(self).timing(),
        ensures
            final(self).timing(),
            final(self).queue() == old(self).queue(),
    {
        let now = now();
        self.cur = Some(now);
    }

    /// Ends the unit of work that `start` began: pushes a sample of the time that has
    /// passed since and of `n` bytes, clears the start time and returns the sample.
    pub fn stop(&mut self, n: usize) -> (sample: Packet)
        requires
            old(self).timing(),
        ensures
            !final(self).timing(),
            final(self).queue() == old(self).queue(),
            sample.bytes() == n,
    {
        let started = self.cur.take().unwrap();
        let elapsed = elapsed_since(&started);
        let sample = Packet::new(elapsed, n);
        self.q.push(sample);
        sample
    }
}

} // verus!
