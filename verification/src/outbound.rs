//! The outbound queue of a connection: an unbounded channel of `tokio`.
//!
//! The producer half is kept in the connection's record, the consumer half is
//! drained into the transport by the embedding program. Verus sees neither
//! half's contents; what is assumed of them is written here and nowhere else.

use tokio::sync::mpsc::{UnboundedReceiver, UnboundedSender};
use vstd::prelude::*;

verus! {

/// The producer half of `tokio::sync::mpsc::unbounded_channel`, opaque to the verifier.
#[verifier::external_type_specification]
#[verifier::external_body]
#[verifier::reject_recursive_types(T)]
pub struct ExUnboundedSender<T>(UnboundedSender<T>);

/// The consumer half of `tokio::sync::mpsc::unbounded_channel`, opaque to the verifier.
#[verifier::external_type_specification]
#[verifier::external_body]
#[verifier::reject_recursive_types(T)]
pub struct ExUnboundedReceiver<T>(UnboundedReceiver<T>);

/// `tokio::sync::mpsc::unbounded_channel` creates a queue and returns its two
/// halves. Nothing is claimed of them.
pub assume_specification<T>[ tokio::sync::mpsc::unbounded_channel::<T> ]() -> (halves: (
    UnboundedSender<T>,
    UnboundedReceiver<T>,
));

/// `Clone::clone` of an `UnboundedSender` returns another producer for the
/// same queue. Nothing is claimed of it.
pub assume_specification<T>[ <UnboundedSender<T> as Clone>::clone ](
    sender: &UnboundedSender<T>,
) -> (copy: UnboundedSender<T>);

/// Hands `payload` to `UnboundedSender::send`, which never waits, and tells
/// whether the queue took it. The queue refuses once its consumer half is
/// closed or dropped, which no argument of this call decides: nothing is
/// claimed of the answer. The call returns on every input; `tokio` ends the
/// process only where the count of queued messages would overflow a machine
/// word.
#[verifier::external_body]
pub(crate) fn enqueue(sender: &UnboundedSender<String>, payload: String) -> (accepted: bool) {
    sender.send(payload).is_ok()
}

} // verus!
