//! The message channel of the broadcast room: tokio's bounded broadcast
//! channel, reached through a handful of trusted declarations.
//!
//! A value sent on the channel is handed to every receiver that was
//! subscribed at that moment; a receiver that falls more than the channel's
//! capacity behind loses the oldest values. None of that is visible to the
//! verifier: the channel is shared between tasks, so the contracts here say
//! only what was handed to it and which channel a receiver belongs to.

use crate::day19::Broadcast;
use tokio::sync::broadcast::{Receiver, Sender};
use vstd::prelude::*;

verus! {

/// tokio's sending half of a broadcast channel, carried as an opaque value.
#[verifier::external_type_specification]
#[verifier::external_body]
#[verifier::reject_recursive_types(T)]
pub struct ExSender<T>(Sender<T>);

/// tokio's receiving half of a broadcast channel, carried as an opaque value.
#[verifier::external_type_specification]
#[verifier::external_body]
#[verifier::reject_recursive_types(T)]
pub struct ExReceiver<T>(Receiver<T>);

/// The number of envelopes that a channel was asked to retain when it was
/// made.
pub uninterp spec fn channel_limit(tx: Sender<Broadcast>) -> nat;

/// Calls `tokio::sync::broadcast::channel`, which makes a channel and its
/// first receiver. tokio panics on a capacity of zero or above
/// `usize::MAX / 2`; the precondition leaves both out. The contract records
/// the capacity that was handed over and nothing else.
#[verifier::external_body]
pub(crate) fn open_channel(capacity: usize) -> (pair: (Sender<Broadcast>, Receiver<Broadcast>))
    requires
        0 < capacity <= usize::MAX / 2,
    ensures
        channel_limit(pair.0) == capacity,
{
    tokio::sync::broadcast::channel(capacity)
}

/// Calls `Sender::send` and drops its answer: the number of receivers, or
/// the envelope itself when there is none. The call returns at once either
/// way. Nothing is claimed of the effect.
#[verifier::external_body]
pub(crate) fn send_envelope(tx: &Sender<Broadcast>, envelope: Broadcast) {
    let _ = tx.send(envelope);
}

/// Whether a receiver belongs to the channel that a sender sends into: what
/// is sent there is what the receiver is handed.
pub uninterp spec fn belongs_to(rx: Receiver<Broadcast>, tx: Sender<Broadcast>) -> bool;

/// Calls `Sender::subscribe`: a new receiver that sees what is sent after
/// this call. tokio gives up only when a quarter of `usize::MAX` receivers
/// are alive at once. The receiver is made over the sender's own shared
/// state, so it belongs to the sender's channel; the contract says that
/// much. What the receiver will be handed depends on what is sent later,
/// and nothing is claimed of it.
#[verifier::external_body]
pub(crate) fn new_receiver(tx: &Sender<Broadcast>) -> (rx: Receiver<Broadcast>)
    ensures
        belongs_to(rx, *tx),
{
    tx.subscribe()
}

} // verus!
