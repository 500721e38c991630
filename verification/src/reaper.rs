//! The commit batcher: the single consumer of the write request channel.
//!
//! One cycle waits for a request, takes whatever else is pending without waiting,
//! hands the whole batch to the storage backend as a single transaction, and then
//! fulfils every completion handle with the fate of the batch.

use crate::request::fulfil;
use crate::request::Verdict;
use crate::request::WriteRequest;
use crate::store::apply_writes;
use crate::store::transaction_result;
use crate::store::MemoryStore;
use crate::store::StoreError;
use crate::store::Write;
use vstd::prelude::*;

verus! {

/// The receiving end of a multi-producer channel.
#[verifier::external_type_specification]
#[verifier::external_body]
#[verifier::reject_recursive_types(T)]
pub struct ExRequestReceiver<T>(flume::Receiver<T>);

/// The sending end of a multi-producer channel.
#[verifier::external_type_specification]
#[verifier::external_body]
#[verifier::reject_recursive_types(T)]
pub struct ExRequestSender<T>(flume::Sender<T>);

/// `flume::Receiver::recv`: blocks until a request arrives, or until every sender is
/// gone and the channel is empty, in which case there is nothing to return.  Which
/// request arrives depends on the senders.
#[verifier::external_body]
pub(crate) fn recv_request(channel: &flume::Receiver<WriteRequest>) -> (request: Option<
    WriteRequest,
>) {
    channel.recv().ok()
}

/// `flume::Receiver::drain`: takes the requests that sit in the channel at the moment of
/// the call, without waiting for more.  How many there are depends on the senders.
#[verifier::external_body]
pub(crate) fn drain_requests(channel: &flume::Receiver<WriteRequest>) -> (pending: Vec<
    WriteRequest,
>) {
    channel.drain().collect()
}

/// `flume::Sender::send`: puts `request` into the channel.  The result tells whether a
/// receiver still existed.
#[verifier::external_body]
pub(crate) fn send_request(channel: &flume::Sender<WriteRequest>, request: WriteRequest) -> (sent:
    bool) {
    channel.send(request).is_ok()
}

/// Why a cycle of the batcher produced no committed batch.
#[derive(Debug)]
pub enum ReapError<E> {
    /// Every sender is gone and the channel is empty: there will be no more requests.
    ChannelClosed,
    /// The backend failed; the batch was abandoned and its waiters were told so.
    Backend(E),
}

/// What one committed batch amounted to.
#[derive(Clone, Copy, Debug, PartialEq, Eq, Structural)]
pub struct BatchReport {
    /// The number of requests in the batch.
    pub size: usize,
    /// The number of completion handles whose waiter was still there.
    pub delivered: usize,
}

/// What a run of cycles amounted to.
#[derive(Clone, Copy, Debug, PartialEq, Eq, Structural)]
pub struct RunTally {
    /// The number of batches that were committed.
    pub committed: u64,
    /// The number of batches that the backend refused.
    pub abandoned: u64,
    /// Whether the run ended because the channel was closed.
    pub closed: bool,
}

/// A completion handle together with the verdict that it is to carry.
pub struct Notice {
    /// The handle to fulfil.
    pub handle: oneshot::Sender<Verdict>,
    /// What to tell the waiter.
    pub verdict: Verdict,
}

/// The verdict that follows from the outcome of a batch's transaction: committed if
/// and only if the transaction succeeded.
pub open spec fn verdict_for<E>(outcome: Result<(), E>) -> Verdict {
    if outcome is Ok {
        Verdict::Committed
    } else {
        Verdict::Abandoned
    }
}

/// The batch that a first request and the requests pending behind it form.
pub fn form_batch(head: WriteRequest, tail: Vec<WriteRequest>) -> (batch: Vec<WriteRequest>)
    ensures
        batch@ == seq![head] + tail@,
{
    let mut batch: Vec<WriteRequest> = Vec::new();
    batch.push(head);
    let ghost rest = tail@;
    for request in it: tail
        invariant
            it.seq() == rest,
            batch@ == seq![head] + rest.take(it.index() as int),
    {
        assert(rest.take(it.index() + 1) =~= rest.take(it.index() as int).push(request));
        batch.push(request);
    }
    assert(rest.take(rest.len() as int) =~= rest);
    batch
}

/// Splits a batch into the writes to stage, in order, and the completion handles to
/// fulfil once the fate of the batch is known.
pub fn stage(batch: Vec<WriteRequest>) -> (r: (Vec<Write>, Vec<oneshot::Sender<Verdict>>))
    ensures
        r.0@.len() == batch@.len(),
        r.1@.len() == batch@.len(),
        forall|i: int| 0 <= i < batch@.len() ==> #[trigger] r.0@[i] == batch@[i].write(),
        forall|i: int| 0 <= i < batch@.len() ==> #[trigger] r.1@[i] == batch@[i].completion,
{
    let mut writes: Vec<Write> = Vec::new();
    let mut handles: Vec<oneshot::Sender<Verdict>> = Vec::new();
    let ghost all = batch@;
    for request in it: batch
        invariant
            it.seq() == all,
            writes@.len() == it.index(),
            handles@.len() == it.index(),
            forall|i: int| 0 <= i < it.index() ==> #[trigger] writes@[i] == all[i].write(),
            forall|i: int| 0 <= i < it.index() ==> #[trigger] handles@[i] == all[i].completion,
    {
        let (write, handle) = request.into_parts();
        writes.push(write);
        handles.push(handle);
    }
    (writes, handles)
}

/// Pairs every completion handle of a batch with the verdict that follows from the
/// outcome of the batch's transaction.
///
/// Each handle appears once, in its place, so each waiter is told once; and it is told
/// that its write was committed only where the transaction did succeed.
pub fn settle<E>(handles: Vec<oneshot::Sender<Verdict>>, outcome: &Result<(), E>) -> (notices:
    Vec<Notice>)
    ensures
        notices@.len() == handles@.len(),
        forall|i: int|
            0 <= i < handles@.len() ==> (#[trigger] notices@[i]).handle == handles@[i]
                && notices@[i].verdict == verdict_for(*outcome),
{
    let verdict = match outcome {
        Ok(_) => Verdict::Committed,
        Err(_) => Verdict::Abandoned,
    };
    let mut notices: Vec<Notice> = Vec::new();
    let ghost all = handles@;
    for handle in it: handles
        invariant
            it.seq() == all,
            verdict == verdict_for(*outcome),
            notices@.len() == it.index(),
            forall|i: int|
                0 <= i < it.index() ==> (#[trigger] notices@[i]).handle == all[i]
                    && notices@[i].verdict == verdict,
    {
        notices.push(Notice { handle, verdict });
    }
    notices
}

/// Fulfils every handle with its verdict, in order.  There is one answer per notice:
/// whether the waiter of that handle was still there.
pub fn deliver(notices: Vec<Notice>) -> (answers: Vec<bool>)
    ensures
        answers@.len() == notices@.len(),
{
    let mut answers: Vec<bool> = Vec::new();
    let ghost all = notices@;
    for notice in it: notices
        invariant
            it.seq() == all,
            answers@.len() == it.index(),
    {
        let Notice { handle, verdict } = notice;
        answers.push(fulfil(handle, verdict));
    }
    answers
}

/// The number of waiters that were still there, among the answers `answers`.
pub open spec fn heard(answers: Seq<bool>) -> nat
    decreases answers.len(),
{
    if answers.len() == 0 {
        0
    } else {
        heard(answers.drop_last()) + if answers.last() {
            1nat
        } else {
            0nat
        }
    }
}

/// There are no more waiters that heard than there are answers.
pub proof fn lemma_heard_bound(answers: Seq<bool>)
    ensures
        heard(answers) <= answers.len(),
    decreases answers.len(),
{
    if answers.len() > 0 {
        lemma_heard_bound(answers.drop_last());
    }
}

/// Counts the waiters that were still there.
pub fn count_heard(answers: &Vec<bool>) -> (count: usize)
    ensures
        count == heard(answers@),
{
    let mut count: usize = 0;
    let mut i: usize = 0;
    while i < answers.len()
        invariant
            0 <= i <= answers@.len(),
            count == heard(answers@.take(i as int)),
            count <= i,
        decreases answers@.len() - i,
    {
        assert(answers@.take(i + 1).drop_last() =~= answers@.take(i as int));
        if answers[i] {
            count = count + 1;
        }
        i = i + 1;
    }
    assert(answers@.take(answers@.len() as int) =~= answers@);
    count
}

/// The result of a cycle whose batch had `size` requests, whose waiters answered
/// `answers` and whose transaction ended in `outcome`: a report of the batch where the
/// transaction succeeded, and the backend's error where it did not.
pub fn report_batch<E>(size: usize, answers: &Vec<bool>, outcome: Result<(), E>) -> (r: Result<
    BatchReport,
    ReapError<E>,
>)
    ensures
        r == (match outcome {
            Ok(_) => Ok::<BatchReport, ReapError<E>>(
                BatchReport { size, delivered: heard(answers@) as usize },
            ),
            Err(e) => Err::<BatchReport, ReapError<E>>(ReapError::Backend(e)),
        }),
{
    let delivered = count_heard(answers);
    match outcome {
        Ok(_) => Ok(BatchReport { size, delivered }),
        Err(e) => Err(ReapError::Backend(e)),
    }
}

/// Ends a cycle: tells every waiter of the batch how the transaction went and reports
/// the batch, or hands the backend's error on.
pub fn complete<E>(handles: Vec<oneshot::Sender<Verdict>>, outcome: Result<(), E>) -> (r: Result<
    BatchReport,
    ReapError<E>,
>)
    ensures
        r is Ok <==> outcome is Ok,
        r matches Ok(report) ==> report.size == handles@.len() && report.delivered <= report.size,
        r matches Err(e) ==> outcome is Err && e == ReapError::Backend(outcome->Err_0),
{
    let size = handles.len();
    let notices = settle(handles, &outcome);
    let answers = deliver(notices);
    proof {
        lemma_heard_bound(answers@);
    }
    report_batch(size, &answers, outcome)
}

/// The tally after one more cycle: a committed batch and a refused batch are counted
/// each in its place, and a closed channel is recorded.
pub fn tally_cycle<E>(tally: RunTally, cycle: &Result<BatchReport, ReapError<E>>) -> (next:
    RunTally)
    requires
        !tally.closed,
        tally.committed + tally.abandoned < u64::MAX,
    ensures
        cycle is Ok ==> next == (RunTally { committed: (tally.committed + 1) as u64, ..tally }),
        cycle matches Err(ReapError::Backend(_)) ==> next == (RunTally {
            abandoned: (tally.abandoned + 1) as u64,
            ..tally
        }),
        cycle matches Err(ReapError::ChannelClosed) ==> next == (RunTally { closed: true, ..tally }),
{
    match cycle {
        Ok(_) => RunTally {
            committed: tally.committed + 1,
            abandoned: tally.abandoned,
            closed: false,
        },
        Err(ReapError::Backend(_)) => RunTally {
            committed: tally.committed,
            abandoned: tally.abandoned + 1,
            closed: false,
        },
        Err(ReapError::ChannelClosed) => RunTally {
            committed: tally.committed,
            abandoned: tally.abandoned,
            closed: true,
        },
    }
}

/// The commit batcher.  It owns the receiving end of the write request channel and is
/// its only consumer.
pub struct Reaper {
    recv: flume::Receiver<WriteRequest>,
}

impl Reaper {
    /// A batcher that consumes `recv`.
    pub fn new(recv: flume::Receiver<WriteRequest>) -> (reaper: Reaper)
        ensures
            reaper.channel() == recv,
    {
        Reaper { recv }
    }

    /// The receiving end of the channel that the batcher consumes.
    pub closed spec fn channel(&self) -> flume::Receiver<WriteRequest> {
        self.recv
    }

    /// Forms the next batch: blocks for one request, then takes every request that is
    /// already pending, without waiting.  There is no batch once the channel is closed.
    pub fn collect(&self) -> (batch: Option<Vec<WriteRequest>>)
        ensures
            batch matches Some(b) ==> b@.len() >= 1,
    {
        match recv_request(&self.recv) {
            None => None,
            Some(head) => {
                let tail = drain_requests(&self.recv);
                Some(form_batch(head, tail))
            },
        }
    }

    /// Runs one cycle: forms a batch, hands its writes to `transact` as one transaction,
    /// and fulfils every completion handle of the batch with the outcome.
    ///
    /// `transact` stands for the storage backend: it is called once, with the writes of
    /// the whole batch in the order in which the requests were received, and must make
    /// all of them visible or none.
    pub fn reap<E, F>(&self, transact: &F) -> (r: Result<BatchReport, ReapError<E>>) where
        F: Fn(Vec<Write>) -> Result<(), E>,

        requires
            forall|writes: Vec<Write>| call_requires(*transact, (writes,)),
        ensures
            r matches Ok(report) ==> report.size >= 1 && report.delivered <= report.size && exists|
                writes: Vec<Write>,
            |
                writes@.len() == report.size && #[trigger] call_ensures(
                    *transact,
                    (writes,),
                    Ok::<(), E>(()),
                ),
            r matches Err(ReapError::Backend(e)) ==> exists|writes: Vec<Write>|
                writes@.len() >= 1 && #[trigger] call_ensures(
                    *transact,
                    (writes,),
                    Err::<(), E>(e),
                ),
    {
        let batch = match self.collect() {
            Some(batch) => batch,
            None => {
                return Err(ReapError::ChannelClosed);
            },
        };
        let (writes, handles) = stage(batch);
        let ghost staged = writes;
        let outcome = transact(writes);
        let ghost result = outcome;
        let r = complete(handles, outcome);
        proof {
            assert(call_ensures(*transact, (staged,), result));
            if result is Ok {
                assert(result == Ok::<(), E>(result->Ok_0));
            } else {
                assert(r matches Err(ReapError::Backend(e)) && e == result->Err_0);
                assert(call_ensures(*transact, (staged,), Err::<(), E>(result->Err_0)));
            }
        }
        r
    }

    /// Runs one cycle against an in-memory store: forms a batch, commits its writes to
    /// `store` in one transaction, and fulfils every completion handle of the batch.
    ///
    /// The batch is atomic in the store: after a cycle that succeeded the store holds
    /// its old contents with every write of the batch applied, and after one that
    /// failed it holds its old contents.
    pub fn reap_into(&self, store: &mut MemoryStore) -> (r: Result<
        BatchReport,
        ReapError<StoreError>,
    >)
        requires
            old(store).wf(),
        ensures
            final(store).wf(),
            final(store).fault() == old(store).fault(),
            r matches Ok(report) ==> report.size >= 1 && report.delivered <= report.size && exists|
                writes: Seq<Write>,
            |
                writes.len() == report.size && final(store).contents() == #[trigger] apply_writes(
                    old(store).contents(),
                    writes,
                ),
            r is Err ==> final(store).contents() == old(store).contents(),
            r matches Err(ReapError::Backend(e)) ==> exists|size: nat|
                size >= 1 && Err::<(), StoreError>(e) == #[trigger] transaction_result(
                    old(store).fault(),
                    size,
                ),
    {
        let batch = match self.collect() {
            Some(batch) => batch,
            None => {
                return Err(ReapError::ChannelClosed);
            },
        };
        let (writes, handles) = stage(batch);
        let ghost staged = writes@;
        let outcome = store.transact(writes);
        let r = complete(handles, outcome);
        proof {
            if outcome is Err {
                assert(outcome == transaction_result(old(store).fault(), staged.len()));
                assert(r matches Err(ReapError::Backend(e)) && e == outcome->Err_0);
            }
        }
        r
    }

    /// Runs cycle after cycle until the channel is closed or `limit` cycles have run,
    /// and tallies what happened.  A batch that the backend refuses is abandoned, its
    /// waiters are told, and the next cycle starts.
    pub fn run<E, F>(&self, transact: &F, limit: u64) -> (tally: RunTally) where
        F: Fn(Vec<Write>) -> Result<(), E>,

        requires
            forall|writes: Vec<Write>| call_requires(*transact, (writes,)),
        ensures
            tally.committed + tally.abandoned <= limit,
            !tally.closed ==> tally.committed + tally.abandoned == limit,
            limit == 0 ==> tally == (RunTally { committed: 0, abandoned: 0, closed: false }),
    {
        let mut tally = RunTally { committed: 0, abandoned: 0, closed: false };
        while !tally.closed && tally.committed + tally.abandoned < limit
            invariant
                forall|writes: Vec<Write>| call_requires(*transact, (writes,)),
                tally.committed + tally.abandoned <= limit,
                tally.closed ==> limit > 0,
            decreases
                    if tally.closed {
                        0
                    } else {
                        limit - (tally.committed + tally.abandoned) + 1
                    },
        {
            let cycle = self.reap(transact);
            tally = tally_cycle(tally, &cycle);
        }
        tally
    }
}

} // verus!
