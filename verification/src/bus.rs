//! The event bus: `tokio::sync::broadcast` and `tokio::sync::oneshot` behind
//! contracts.

use crate::session::{Event, EventView, Subscription};
use tokio::sync::broadcast::{Receiver, Sender};
use vstd::prelude::*;

verus! {

/// `tokio::sync::broadcast::Sender`. Nothing inside it is seen from here.
#[verifier::external_type_specification]
#[verifier::external_body]
#[verifier::reject_recursive_types(T)]
pub struct ExBroadcastSender<T>(Sender<T>);

/// `tokio::sync::broadcast::Receiver`. Nothing inside it is seen from here.
#[verifier::external_type_specification]
#[verifier::external_body]
#[verifier::reject_recursive_types(T)]
pub struct ExBroadcastReceiver<T>(Receiver<T>);

/// `tokio::sync::oneshot::Sender`. Nothing inside it is seen from here.
#[verifier::external_type_specification]
#[verifier::external_body]
#[verifier::reject_recursive_types(T)]
pub struct ExOneshotSender<T>(tokio::sync::oneshot::Sender<T>);

/// The events that `send` was called with on this sender so far, oldest
/// first, whether or not a receiver was there to take them. It is the record
/// of those calls: tokio keeps the last of them for its receivers, up to the
/// backlog, and none while there is no receiver.
pub uninterp spec fn bus_sent(tx: Sender<Event>) -> Seq<EventView>;

/// The backlog that the channel of this sender was made with.
pub uninterp spec fn bus_backlog(tx: Sender<Event>) -> nat;

/// How many events `send` had been called with when this receiver was
/// made: the receiver is offered the events from that one on, and none from
/// before.
pub uninterp spec fn receiver_start(rx: Receiver<Event>) -> nat;

/// `tokio::sync::broadcast::channel`, of which the sender is kept. tokio
/// panics on a capacity of 0 or above `usize::MAX / 2`.
#[verifier::external_body]
pub(crate) fn bus_open(backlog: usize) -> (tx: Sender<Event>)
    requires
        0 < backlog <= usize::MAX / 2,
    ensures
        bus_sent(tx) == Seq::<EventView>::empty(),
        bus_backlog(tx) == backlog,
{
    tokio::sync::broadcast::channel(backlog).0
}

/// `tokio::sync::broadcast::Sender::send`. The event is handed to the
/// channel; tokio reports an error when no receiver is there, and that
/// error is dropped.
#[verifier::external_body]
pub(crate) fn bus_send(tx: &mut Sender<Event>, event: Event)
    ensures
        bus_sent(*final(tx)) == bus_sent(*old(tx)).push(event@),
        bus_backlog(*final(tx)) == bus_backlog(*old(tx)),
{
    let _ = tx.send(event);
}

/// `tokio::sync::broadcast::Sender::subscribe`: a receiver of the events
/// sent after this call. (tokio panics when a channel has `usize::MAX / 4`
/// receivers, more than a process can hold.)
#[verifier::external_body]
pub(crate) fn bus_subscribe(tx: &Sender<Event>) -> (rx: Receiver<Event>)
    ensures
        receiver_start(rx) == bus_sent(*tx).len(),
{
    tx.subscribe()
}

/// `tokio::sync::oneshot::Sender::send`. Whether the other side still
/// listened is not reported.
#[verifier::external_body]
pub(crate) fn oneshot_send(tx: tokio::sync::oneshot::Sender<Subscription>, subscription: Subscription) {
    let _ = tx.send(subscription);
}

} // verus!
