//! The per-player event channel: a bounded broadcast channel of the `tokio`
//! crate, on which every shot outcome is published to the player shot at.

use crate::messages::ShotResponse;
use tokio::sync::broadcast::{channel, Receiver, Sender};
use vstd::prelude::*;

verus! {

/// Number of outcomes that a player's channel buffers for a slow subscriber.
pub const EVENT_CAPACITY: usize = 10;

/// The publishing end of a broadcast channel.
#[verifier::external_type_specification]
#[verifier::external_body]
#[verifier::reject_recursive_types(T)]
pub struct ExSender<T>(Sender<T>);

/// A subscriber's end of a broadcast channel.
#[verifier::external_type_specification]
#[verifier::external_body]
#[verifier::reject_recursive_types(T)]
pub struct ExReceiver<T>(Receiver<T>);

/// The number of outcomes that the channel keeps for a subscriber that has
/// not read them yet. It is fixed when the channel is made.
pub uninterp spec fn room_of(sender: Sender<ShotResponse>) -> usize;

/// The subscriber is one of the channel that the sender publishes on: what
/// is published there after the subscription is what the subscriber
/// yields.
pub uninterp spec fn feeds(sender: Sender<ShotResponse>, receiver: Receiver<ShotResponse>) -> bool;

/// `tokio::sync::broadcast::channel`, of which the publishing end is kept:
/// the channel starts without subscribers. The call aborts on a capacity of
/// zero or above half of `usize::MAX`, which the precondition leaves out.
/// The contract claims that the channel keeps at least `capacity` outcomes:
/// tokio rounds the capacity up to a power of two and never down.
#[verifier::external_body]
pub(crate) fn open_channel(capacity: usize) -> (sender: Sender<ShotResponse>)
    requires
        0 < capacity <= usize::MAX / 2,
    ensures
        room_of(sender) >= capacity,
{
    channel(capacity).0
}

/// `Sender::send`: hands the outcome to every live subscriber and never
/// waits. Without subscribers the outcome is dropped. Nothing is claimed of
/// who receives it.
#[verifier::external_body]
pub(crate) fn publish(sender: &Sender<ShotResponse>, outcome: ShotResponse) {
    let _ = sender.send(outcome);
}

/// `Sender::subscribe`: a new subscriber, which receives the outcomes
/// published from now on. The call aborts only when a quarter of
/// `usize::MAX` subscribers are live at once, more than memory can hold.
/// The contract claims that the subscriber is one of this sender's channel:
/// tokio makes it from the state that the sender shares with its channel.
#[verifier::external_body]
pub(crate) fn subscribe(sender: &Sender<ShotResponse>) -> (receiver: Receiver<ShotResponse>)
    ensures
        feeds(*sender, receiver),
{
    sender.subscribe()
}

/// What a subscriber's end yields when it is polled.
#[derive(Clone, Copy, Debug, PartialEq, Eq, Structural)]
pub enum StreamEvent {
    /// The next outcome, in the order of publication.
    Outcome(ShotResponse),
    /// The subscriber was too slow and this many outcomes were dropped.
    Lagged(u64),
    /// The channel is gone.
    Closed,
}

/// What the stream to the subscriber does next.
#[derive(Clone, Copy, Debug, PartialEq, Eq, Structural)]
pub enum StreamAction {
    /// Deliver the outcome and go on.
    Deliver(ShotResponse),
    /// Tell the subscriber that outcomes were lost, and go on.
    ReportLag,
    /// End the stream.
    Finish,
}

/// The action that answers an event.
pub open spec fn action_for(event: StreamEvent) -> StreamAction {
    match event {
        StreamEvent::Outcome(outcome) => StreamAction::Deliver(outcome),
        StreamEvent::Lagged(_) => StreamAction::ReportLag,
        StreamEvent::Closed => StreamAction::Finish,
    }
}

/// Decides what the stream to a subscriber does with what its receiver
/// yielded: an outcome is delivered, a lag is reported without ending the
/// stream, and the stream ends when the channel is gone.
pub fn on_stream_event(event: StreamEvent) -> (action: StreamAction)
    ensures
        action == action_for(event),
{
    match event {
        StreamEvent::Outcome(outcome) => StreamAction::Deliver(outcome),
        StreamEvent::Lagged(_) => StreamAction::ReportLag,
        StreamEvent::Closed => StreamAction::Finish,
    }
}

} // verus!
