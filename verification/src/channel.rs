//! The message queues that tie lobbies and connections together.
//!
//! The queues are tokio's. Nothing in this crate looks inside one: a queue
//! end is a capability that is stored, handed on, and written to.

use vstd::prelude::*;

verus! {

/// The sending end of a bounded queue, `tokio::sync::mpsc::Sender`.
#[verifier::external_type_specification]
#[verifier::external_body]
#[verifier::reject_recursive_types(T)]
pub struct ExSender<T>(tokio::sync::mpsc::Sender<T>);

/// The receiving end of a bounded queue, `tokio::sync::mpsc::Receiver`.
#[verifier::external_type_specification]
#[verifier::external_body]
#[verifier::reject_recursive_types(T)]
pub struct ExReceiver<T>(tokio::sync::mpsc::Receiver<T>);

/// The sending end of a single-use reply channel,
/// `tokio::sync::oneshot::Sender`.
#[verifier::external_type_specification]
#[verifier::external_body]
#[verifier::reject_recursive_types(T)]
pub struct ExReplySender<T>(tokio::sync::oneshot::Sender<T>);

/// Makes a queue that holds up to `capacity` messages, by
/// `tokio::sync::mpsc::channel`, and returns its two ends.
///
/// Trusted. tokio refuses a capacity of zero and one above an eighth of the
/// largest `usize`; both are ruled out here. Nothing is claimed of the ends.
#[verifier::external_body]
pub(crate) fn queue<T>(capacity: usize) -> (ends: (
    tokio::sync::mpsc::Sender<T>,
    tokio::sync::mpsc::Receiver<T>,
))
    requires
        0 < capacity <= usize::MAX / 8,
{
    tokio::sync::mpsc::channel(capacity)
}

/// Offers `message` to a queue without waiting, by
/// `tokio::sync::mpsc::Sender::try_send`, and tells whether the queue took
/// it.
///
/// Trusted, and nothing is claimed of the answer: whether the queue is full
/// or its receiver gone is for the other end to decide. A refused message is
/// dropped.
#[verifier::external_body]
pub(crate) fn try_send<T>(queue: &tokio::sync::mpsc::Sender<T>, message: T) -> (accepted: bool) {
    queue.try_send(message).is_ok()
}

/// Answers on a reply channel, by `tokio::sync::oneshot::Sender::send`.
///
/// Trusted, and nothing is claimed: the value reaches the receiver if it is
/// still there, and is dropped if it is not.
#[verifier::external_body]
pub(crate) fn reply<T>(channel: tokio::sync::oneshot::Sender<T>, value: T) {
    let _ = channel.send(value);
}

} // verus!
