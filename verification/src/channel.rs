//! Trusted boundary around std's mpsc channels, which carry events from the
//! dispatcher to each watcher's receiver.
//!
//! Delivery policy, applied uniformly: channels are unbounded, so a send
//! never blocks the committing writer and no event is dropped for want of
//! room; a send fails only when the receiver has been dropped, which the
//! dispatcher takes as the signal to purge the watch.

use vstd::prelude::*;

use crate::model::Event;

verus! {

/// Declares std's channel sender so it can stand in fields and signatures.
#[verifier::external_type_specification]
#[verifier::external_body]
#[verifier::reject_recursive_types(T)]
pub struct ExSender<T>(std::sync::mpsc::Sender<T>);

/// Declares std's channel receiver so it can stand in signatures.
#[verifier::external_type_specification]
#[verifier::external_body]
#[verifier::reject_recursive_types(T)]
pub struct ExReceiver<T>(std::sync::mpsc::Receiver<T>);

/// The receiving end of a watcher's delivery channel, handed to the client.
pub type MpscReceiver<T> = std::sync::mpsc::Receiver<T>;

/// Relies on std::sync::mpsc::channel: returns the two ends of a fresh
/// unbounded FIFO channel; what the sender accepts, the receiver yields in
/// send order.
#[verifier::external_body]
pub(crate) fn event_channel() -> (ends: (std::sync::mpsc::Sender<Event>, MpscReceiver<Event>)) {
    std::sync::mpsc::channel()
}

/// Relies on std::sync::mpsc::Sender::send: never blocks, enqueues the value
/// in FIFO order, and returns an error exactly when the paired receiver has
/// been dropped. The result says whether the event was accepted for
/// delivery; nothing more can be promised, since the outcome depends on
/// whether the consumer still holds its receiver.
#[verifier::external_body]
pub(crate) fn send_event(sender: &std::sync::mpsc::Sender<Event>, event: Event) -> (delivered: bool) {
    match sender.send(event) {
        Ok(()) => true,
        Err(_) => false,
    }
}

} // verus!
