//! The worker lane: a client that writes one value after another and times each
//! round trip.

use crate::reaper::send_request;
use crate::reporter::Reporter;
use crate::request::Verdict;
use crate::request::Waiter;
use crate::request::WriteRequest;
use crate::store::all_lane_cells;
use crate::store::apply_writes;
use crate::store::lemma_no_lost_requests;
use crate::store::writes_to;
use crate::store::Write;
use crate::text::decimal;
use crate::text::lemma_decimal_injective;
use crate::text::push_decimal;
use rand::Rng;
use vstd::prelude::*;

verus! {

/// `Rng::fill` on the thread's generator (`rand::thread_rng`): overwrites every byte of
/// `buffer` with a random one.  The length stays; the bytes are anyone's guess.
#[verifier::external_body]
fn fill_random(buffer: &mut Vec<u8>)
    ensures
        final(buffer)@.len() == old(buffer)@.len(),
{
    rand::thread_rng().fill(&mut buffer[..]);
}

/// `n` random bytes.
pub fn randbytes(n: usize) -> (out: Vec<u8>)
    ensures
        out@.len() == n,
{
    let mut out: Vec<u8> = vec![0u8; n];
    fill_random(&mut out);
    out
}

/// The name of the namespace of the lane with the ordinal `lane_id`: a fixed prefix
/// and the ordinal as a decimal numeral.
pub open spec fn namespace_text(lane_id: usize) -> Seq<char> {
    "id="@ + decimal(lane_id as nat)
}

/// The namespace that the lane with the ordinal `lane_id` writes to.
pub fn lane_namespace(lane_id: usize) -> (name: String)
    ensures
        name@ == namespace_text(lane_id),
{
    let mut name = String::from_str("id=");
    push_decimal(&mut name, lane_id as u128);
    name
}

/// Lanes with different ordinals write to different namespaces.
pub proof fn lemma_namespaces_differ(a: usize, b: usize)
    requires
        a != b,
    ensures
        namespace_text(a) != namespace_text(b),
{
    let prefix = "id="@;
    if namespace_text(a) == namespace_text(b) {
        let x = decimal(a as nat);
        let y = decimal(b as nat);
        assert((prefix + x).len() == (prefix + y).len());
        assert(x =~= (prefix + x).subrange(prefix.len() as int, (prefix + x).len() as int));
        assert(y =~= (prefix + y).subrange(prefix.len() as int, (prefix + y).len() as int));
        lemma_decimal_injective(a as nat, b as nat);
    }
}

/// The namespaces of the lanes with the ordinals below `lanes`, in order.
pub open spec fn lane_namespaces(lanes: usize) -> Seq<Seq<char>> {
    Seq::new(lanes as nat, |i: int| namespace_text(i as usize))
}

/// No two of the lanes with the ordinals below `lanes` share a namespace.
pub proof fn lemma_lane_namespaces_distinct(lanes: usize)
    ensures
        lane_namespaces(lanes).no_duplicates(),
{
    assert forall|i: int, j: int|
        0 <= i < lanes && 0 <= j < lanes && i != j implies lane_namespaces(lanes)[i]
        != lane_namespaces(lanes)[j] by {
        lemma_namespaces_differ(i as usize, j as usize);
    }
}

/// No request of the library's own lanes is lost or counted twice: when the lanes with
/// the ordinals below `lanes` have each written the keys below `count`, and nothing
/// else was written, a store that started empty holds exactly `lanes` times `count`
/// cells, whatever the batches were.
pub proof fn lemma_lanes_lose_no_request(ws: Seq<Write>, lanes: usize, count: nat)
    requires
        count <= u64::MAX,
        forall|i: int|
            0 <= i < ws.len() ==> all_lane_cells(lane_namespaces(lanes), count).contains(
                #[trigger] ws[i].slot(),
            ),
        forall|k: (Seq<char>, u64)|
            all_lane_cells(lane_namespaces(lanes), count).contains(k) ==> writes_to(ws, k),
    ensures
        apply_writes(Map::empty(), ws).dom() == all_lane_cells(lane_namespaces(lanes), count),
        apply_writes(Map::empty(), ws).dom().finite(),
        apply_writes(Map::empty(), ws).dom().len() == lanes * count,
{
    lemma_lane_namespaces_distinct(lanes);
    lemma_no_lost_requests(ws, lane_namespaces(lanes), count);
}

/// Why a lane stopped.  Each of these is final: a lane that failed must not write again.
#[derive(Clone, Copy, Debug, PartialEq, Eq, Structural)]
pub enum LaneError {
    /// The lane has used every key below `u64::MAX`.
    KeysExhausted,
    /// The batcher is gone: the request could not be sent.
    ChannelClosed,
    /// The completion handle was dropped without a verdict.
    CompletionLost,
    /// The batch that held the request was abandoned.
    Abandoned,
}

/// One simulated client.  It writes to a namespace of its own under the keys
/// 0, 1, 2, ..., one request at a time.
pub struct Lane {
    namespace: String,
    next_key: u64,
    datalen: usize,
    requests: flume::Sender<WriteRequest>,
    reporter: Reporter,
}

impl Lane {
    /// The namespace that the lane writes to.
    pub closed spec fn namespace(&self) -> Seq<char> {
        self.namespace@
    }

    /// The key of the lane's next request.  A lane that started at key 0 has seen this
    /// many of its writes committed.
    pub closed spec fn spec_next_key(&self) -> u64 {
        self.next_key
    }

    /// The length of the values that the lane writes.
    pub closed spec fn datalen(&self) -> usize {
        self.datalen
    }

    /// Whether the lane may write: it is not in the middle of a round trip that failed.
    pub closed spec fn ready(&self) -> bool {
        !self.reporter.timing()
    }

    /// A lane with the ordinal `lane_id` that writes values of `datalen` bytes, sends
    /// its requests into `requests` and reports its timings through `reporter`.  It
    /// starts at key 0.
    pub fn new(
        lane_id: usize,
        datalen: usize,
        requests: flume::Sender<WriteRequest>,
        reporter: Reporter,
    ) -> (lane: Lane)
        requires
            !reporter.timing(),
        ensures
            lane.namespace() == namespace_text(lane_id),
            lane.next_key() == 0,
            lane.datalen() == datalen,
            lane.ready(),
    {
        Lane::resume(lane_id, 0, datalen, requests, reporter)
    }

    /// A lane like that of `new`, but one that takes up its namespace at `first_key`,
    /// after an earlier run has written the keys below it.
    pub fn resume(
        lane_id: usize,
        first_key: u64,
        datalen: usize,
        requests: flume::Sender<WriteRequest>,
        reporter: Reporter,
    ) -> (lane: Lane)
        requires
            !reporter.timing(),
        ensures
            lane.namespace() == namespace_text(lane_id),
            lane.next_key() == first_key,
            lane.datalen() == datalen,
            lane.ready(),
    {
        Lane {
            namespace: lane_namespace(lane_id),
            next_key: first_key,
            datalen,
            requests,
            reporter,
        }
    }

    /// The key of the lane's next request.
    #[verifier::when_used_as_spec(spec_next_key)]
    pub fn next_key(&self) -> (key: u64)
        ensures
            key == self.next_key(),
    {
        self.next_key
    }

    /// Whether the lane may write.
    pub fn is_ready(&self) -> (b: bool)
        ensures
            b == self.ready(),
    {
        !self.reporter.is_timing()
    }

    /// The lane's next request for the bytes `value`, with the waiting half of its
    /// completion handle: it targets the lane's namespace under the lane's next key.
    pub fn request(&self, value: Vec<u8>) -> (r: (WriteRequest, Waiter))
        ensures
            r.0.write().slot() == (self.namespace(), self.next_key()),
            r.0.write().value == value,
    {
        WriteRequest::new(self.namespace.clone(), self.next_key, value)
    }

    /// One round trip: generates a value, submits the request for it and blocks until
    /// the batcher has said how the request fared; the time of the round trip is
    /// reported once the write is committed.
    ///
    /// A committed write advances the lane to its next key.  Any failure is final: the
    /// key stays and the lane is no longer ready.
    pub fn write_once(&mut self) -> (r: Result<(), LaneError>)
        requires
            old(self).ready(),
        ensures
            final(self).namespace() == old(self).namespace(),
            final(self).datalen() == old(self).datalen(),
            r is Ok ==> final(self).next_key() == old(self).next_key() + 1 && final(self).ready(),
            r is Err ==> final(self).next_key() == old(self).next_key(),
            r == Err::<(), LaneError>(LaneError::KeysExhausted) <==> old(self).next_key()
                == u64::MAX,
            r == Err::<(), LaneError>(LaneError::KeysExhausted) ==> final(self).ready(),
            r matches Err(e) && e != LaneError::KeysExhausted ==> !final(self).ready(),
    {
        if self.next_key == u64::MAX {
            return Err(LaneError::KeysExhausted);
        }
        let value = randbytes(self.datalen);
        self.reporter.start();
        let (request, waiter) = self.request(value);
        if !send_request(&self.requests, request) {
            return Err(LaneError::ChannelClosed);
        }
        let verdict = waiter.wait();
        self.conclude(verdict)
    }

    /// Ends a round trip with what came back on the completion handle.
    ///
    /// Only a committed write counts: its time is reported and the lane advances to its
    /// next key.  An abandoned batch and a handle that was dropped without a verdict
    /// are final failures: nothing is reported, the key stays and the lane is no longer
    /// ready.
    pub fn conclude(&mut self, verdict: Option<Verdict>) -> (r: Result<(), LaneError>)
        requires
            !old(self).ready(),
            old(self).next_key() < u64::MAX,
        ensures
            final(self).namespace() == old(self).namespace(),
            final(self).datalen() == old(self).datalen(),
            r == (match verdict {
                Some(Verdict::Committed) => Ok::<(), LaneError>(()),
                Some(Verdict::Abandoned) => Err::<(), LaneError>(LaneError::Abandoned),
                None => Err::<(), LaneError>(LaneError::CompletionLost),
            }),
            r is Ok ==> final(self).next_key() == old(self).next_key() + 1 && final(self).ready(),
            r is Err ==> final(self).next_key() == old(self).next_key() && !final(self).ready(),
    {
        match verdict {
            None => Err(LaneError::CompletionLost),
            Some(Verdict::Abandoned) => Err(LaneError::Abandoned),
            Some(Verdict::Committed) => {
                let _ = self.reporter.stop(self.datalen);
                self.next_key = self.next_key + 1;
                Ok(())
            },
        }
    }

    /// Makes `count` round trips, one after another, and stops at the first that fails.
    ///
    /// The lane's keys are handed out in order and without gaps: when all round trips
    /// succeed the lane has advanced by `count` keys, and when one fails it has advanced
    /// by the number of round trips before it.
    pub fn run(&mut self, count: u64) -> (r: Result<(), LaneError>)
        requires
            old(self).ready(),
        ensures
            final(self).namespace() == old(self).namespace(),
            final(self).datalen() == old(self).datalen(),
            r is Ok ==> final(self).ready(),
            r is Ok ==> final(self).next_key() == old(self).next_key() + count,
            r is Err ==> old(self).next_key() <= final(self).next_key() < old(self).next_key()
                + count,
            old(self).next_key() == u64::MAX && count >= 1 ==> r == Err::<(), LaneError>(
                LaneError::KeysExhausted,
            ),
            r == Err::<(), LaneError>(LaneError::KeysExhausted) ==> final(self).next_key()
                == u64::MAX && final(self).ready(),
            r matches Err(e) && e != LaneError::KeysExhausted ==> !final(self).ready(),
    {
        let mut done: u64 = 0;
        while done < count
            invariant
                done <= count,
                self.ready(),
                self.namespace() == old(self).namespace(),
                self.datalen() == old(self).datalen(),
                self.next_key() == old(self).next_key() + done,
            decreases count - done,
        {
            match self.write_once() {
                Ok(()) => {},
                Err(e) => {
                    return Err(e);
                },
            }
            done = done + 1;
        }
        Ok(())
    }
}

} // verus!
