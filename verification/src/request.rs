//! Write requests and the one-shot handles that tell a writer how its request fared.

use crate::store::Write;
use vstd::prelude::*;

verus! {

/// The sending half of a one-shot channel.  It is consumed by the one message that it
/// can carry; nothing inside it is visible here.
#[verifier::external_type_specification]
#[verifier::external_body]
#[verifier::reject_recursive_types(T)]
pub struct ExCompletionSender<T>(oneshot::Sender<T>);

/// The receiving half of a one-shot channel.
#[verifier::external_type_specification]
#[verifier::external_body]
#[verifier::reject_recursive_types(T)]
pub struct ExCompletionReceiver<T>(oneshot::Receiver<T>);

/// The error of a wait on a one-shot channel whose sender is gone.  The receiving half
/// names it in the signature of its future.
#[verifier::external_type_specification]
#[verifier::external_body]
pub struct ExCompletionLost(oneshot::RecvError);

/// How a request fared.
#[derive(Clone, Copy, Debug, PartialEq, Eq, Structural)]
pub enum Verdict {
    /// The request's batch was committed; the write is visible.
    Committed,
    /// The request's batch was abandoned; nothing of it is visible.
    Abandoned,
}

/// One pending mutation, with the handle on which its issuer waits.
pub struct WriteRequest {
    /// The key, unique within the namespace.
    pub key: u64,
    /// The bytes to store.
    pub value: Vec<u8>,
    /// The table that the write targets.
    pub namespace: String,
    /// Fulfilled once, when the fate of the request is known.
    pub completion: oneshot::Sender<Verdict>,
}

/// The waiting half of a completion handle.
///
/// Only the library makes one, together with the handle that it belongs to, and the
/// library only ever waits on it in a blocking call or looks into it.
pub struct Waiter {
    receiver: oneshot::Receiver<Verdict>,
}

impl Waiter {
    /// Blocks until the handle is fulfilled or dropped; there is a verdict in the first
    /// case and none in the second.
    pub fn wait(self) -> (verdict: Option<Verdict>) {
        await_verdict(self)
    }

    /// Looks for the verdict without blocking.  There is none while the handle is
    /// neither fulfilled nor dropped, and none once the verdict was taken.
    pub fn try_wait(&self) -> (verdict: Option<Verdict>) {
        peek_verdict(self)
    }
}

impl WriteRequest {
    /// The mutation that the request asks for: the request without its completion
    /// handle.
    pub open spec fn write(&self) -> Write {
        Write { namespace: self.namespace, key: self.key, value: self.value }
    }

    /// A request for `value` under `key` in `namespace`, and the receiving half of its
    /// completion handle.
    pub fn new(namespace: String, key: u64, value: Vec<u8>) -> (r: (WriteRequest, Waiter))
        ensures
            r.0.write() == (Write { namespace, key, value }),
    {
        let (completion, waiter) = completion_pair();
        (WriteRequest { key, value, namespace, completion }, waiter)
    }

    /// Splits the request into its mutation and its completion handle.
    pub fn into_parts(self) -> (r: (Write, oneshot::Sender<Verdict>))
        ensures
            r.0 == self.write(),
            r.1 == self.completion,
    {
        let WriteRequest { key, value, namespace, completion } = self;
        (Write { namespace, key, value }, completion)
    }
}

/// `oneshot::channel`: a fresh one-shot channel, as its sending half and its receiving
/// half, the latter held in a `Waiter`.  Nothing is claimed of the halves.
#[verifier::external_body]
pub(crate) fn completion_pair() -> (oneshot::Sender<Verdict>, Waiter) {
    let (handle, receiver) = oneshot::channel();
    (handle, Waiter { receiver })
}

/// `oneshot::Sender::send`: hands `verdict` to the waiter and consumes the handle.  The
/// result tells whether the receiving half still existed; which of the two it is
/// depends on the waiter, so nothing is promised of it.
#[verifier::external_body]
pub(crate) fn fulfil(handle: oneshot::Sender<Verdict>, verdict: Verdict) -> (delivered: bool) {
    handle.send(verdict).is_ok()
}

/// `oneshot::Receiver::recv`: blocks until the handle is fulfilled or dropped, and gives
/// the verdict in the first case.  The call panics on a receiver that was polled as a
/// future before; a `Waiter` holds a receiver that `completion_pair` made and that
/// nothing outside this module can reach, and this module never polls one.
#[verifier::external_body]
fn await_verdict(waiter: Waiter) -> (verdict: Option<Verdict>) {
    waiter.receiver.recv().ok()
}

/// `oneshot::Receiver::try_recv`: gives the verdict if the handle was fulfilled and the
/// verdict was not taken yet, without blocking.  Whether it was depends on the batcher.
#[verifier::external_body]
fn peek_verdict(waiter: &Waiter) -> (verdict: Option<Verdict>) {
    waiter.receiver.try_recv().ok()
}

} // verus!
