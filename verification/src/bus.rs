//! The broadcast bus: one shared multi-producer channel; every connection
//! holds a publish handle and one subscription. Fan-out, buffering and the
//! drop-oldest policy for slow subscribers are the channel's own; the
//! library only publishes and subscribes through the trusted items here.

use vstd::prelude::*;

verus! {

#[verifier::external_type_specification]
#[verifier::external_body]
#[verifier::reject_recursive_types(T)]
pub struct ExSender<T>(tokio::sync::broadcast::Sender<T>);

#[verifier::external_type_specification]
#[verifier::external_body]
#[verifier::reject_recursive_types(T)]
pub struct ExReceiver<T>(tokio::sync::broadcast::Receiver<T>);

/// Relies on tokio's `broadcast::Sender::clone`: another publish handle to
/// the same channel.
pub assume_specification<T>[ <tokio::sync::broadcast::Sender<T> as Clone>::clone ](
    s: &tokio::sync::broadcast::Sender<T>,
) -> tokio::sync::broadcast::Sender<T>;

/// Relies on tokio's `broadcast::Sender::subscribe`: a fresh subscription
/// that is handed a copy of every message published after this call.
pub assume_specification<T>[ tokio::sync::broadcast::Sender::<T>::subscribe ](
    s: &tokio::sync::broadcast::Sender<T>,
) -> tokio::sync::broadcast::Receiver<T>;

/// Relies on tokio's `broadcast::Sender::send`: it queues the message for
/// every current subscriber without ever blocking, and fails exactly when
/// no receiver handle exists, handing the message back unchanged.
#[verifier::external_body]
pub(crate) fn bus_send(tx: &tokio::sync::broadcast::Sender<String>, line: String) -> (r: Result<
    usize,
    String,
>)
    ensures
        r matches Err(m) ==> m == line,
{
    tx.send(line).map_err(|e| e.0)
}

} // verus!
