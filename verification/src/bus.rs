//! The room's event bus: `tokio`'s broadcast channel.
//!
//! Verus sees nothing inside the channel. The functions below are thin calls
//! into `tokio::sync::broadcast`; what a subscriber receives, and in which
//! order, is the channel's own business and no contract here speaks of it.

use tokio::sync::broadcast::{Receiver, Sender};
use vstd::prelude::*;

verus! {

/// `tokio::sync::broadcast::Sender`, the sending half of a broadcast channel.
#[verifier::external_type_specification]
#[verifier::external_body]
#[verifier::reject_recursive_types(T)]
pub struct ExSender<T>(tokio::sync::broadcast::Sender<T>);

/// `tokio::sync::broadcast::Receiver`, one subscription to a broadcast channel.
#[verifier::external_type_specification]
#[verifier::external_body]
#[verifier::reject_recursive_types(T)]
pub struct ExReceiver<T>(tokio::sync::broadcast::Receiver<T>);

/// `broadcast::channel`: opens a channel that retains up to `capacity`
/// values for slow receivers, and keeps its sending half. The call panics on
/// a capacity of zero or above half of `usize::MAX`, so those are left out.
#[verifier::external_body]
pub(crate) fn bus_open<T: Clone>(capacity: usize) -> (tx: Sender<T>)
    requires
        0 < capacity <= usize::MAX / 2,
{
    tokio::sync::broadcast::channel(capacity).0
}

/// `Sender::send`: hands `value` to every receiver subscribed at this
/// moment. With no receiver the value is dropped; either way the call returns.
#[verifier::external_body]
pub(crate) fn bus_send<T>(tx: &Sender<T>, value: T) {
    let _ = tx.send(value);
}

/// `Sender::subscribe`: a new receiver, which gets the values sent after
/// this call. The call panics only when a quarter of `usize::MAX` receivers
/// are subscribed to the channel already, which no request can leave out and
/// no machine can reach.
#[verifier::external_body]
pub(crate) fn bus_subscribe<T: Clone>(tx: &Sender<T>) -> (rx: Receiver<T>) {
    tx.subscribe()
}

} // verus!
