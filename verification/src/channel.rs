//! The channels between the window and the network task.

use crate::network::{CommandView, EventView, NetworkCommand, NetworkEvent};
use tokio::sync::mpsc;
use vstd::prelude::*;

verus! {

/// `tokio::sync::mpsc::Sender`: one end of a channel, of which nothing is known but
/// what the functions below say.
#[verifier::external_type_specification]
#[verifier::external_body]
#[verifier::reject_recursive_types(T)]
pub struct ExSender<T>(mpsc::Sender<T>);

/// `tokio::sync::mpsc::Receiver`: the other end of a channel, of which nothing is
/// known but what the functions below say.
#[verifier::external_type_specification]
#[verifier::external_body]
#[verifier::reject_recursive_types(T)]
pub struct ExReceiver<T>(mpsc::Receiver<T>);

/// How an attempt to put something into a channel ended.
#[derive(Clone, Copy, Debug, PartialEq, Eq, Structural)]
pub enum SendOutcome {
    Sent,
    /// The channel has no room at the moment.
    Full,
    /// Nobody receives from the channel any more.
    Closed,
}

/// What has been offered to the channel through this end of it so far, oldest first:
/// each command, with how the attempt to put it into the channel ended.
pub uninterp spec fn offers(command_tx: mpsc::Sender<NetworkCommand>) -> Seq<
    (CommandView, SendOutcome),
>;

/// `tokio::sync::mpsc::Sender::try_send`: puts `command` into the channel, or says
/// why it did not. Each call is one more offer through this end of the channel, of
/// `command` and nothing else, and the result is how it ended. How it ends depends on
/// what the other end of the channel has done so far, so nothing is said of that.
#[verifier::external_body]
pub(crate) fn try_send(
    command_tx: &mut mpsc::Sender<NetworkCommand>,
    command: NetworkCommand,
) -> (r: SendOutcome)
    ensures
        offers(*final(command_tx)) == offers(*old(command_tx)).push((command@, r)),
{
    match command_tx.try_send(command) {
        Ok(()) => SendOutcome::Sent,
        Err(mpsc::error::TrySendError::Full(_)) => SendOutcome::Full,
        Err(mpsc::error::TrySendError::Closed(_)) => SendOutcome::Closed,
    }
}

/// What this end of the channel has answered so far, oldest first, each time it was
/// asked for the next event: the event that it gave out, or that there was none.
pub uninterp spec fn answers(event_rx: mpsc::Receiver<NetworkEvent>) -> Seq<Option<EventView>>;

/// The answer that `received` is.
pub open spec fn answer(received: Option<NetworkEvent>) -> Option<EventView> {
    match received {
        Some(event) => Some(event@),
        None => None,
    }
}

/// The answers that give out `events`, in order.
pub open spec fn given_out(events: Seq<EventView>) -> Seq<Option<EventView>> {
    events.map_values(|event: EventView| Some(event))
}

/// `tokio::sync::mpsc::Receiver::try_recv`: takes the next event out of the channel,
/// if there is one. Each call is one more answer of this end of the channel, and the
/// result is that answer. Which one it is depends on what the other end of the channel
/// has done so far, so nothing is said of that.
#[verifier::external_body]
pub(crate) fn try_recv(event_rx: &mut mpsc::Receiver<NetworkEvent>) -> (r: Option<NetworkEvent>)
    ensures
        answers(*final(event_rx)) == answers(*old(event_rx)).push(answer(r)),
{
    event_rx.try_recv().ok()
}

/// An answer holds the event that was given out, if one was, and a list of events that
/// were given out is the list of those answers, in order.
pub proof fn law_answers_are_seen(received: Option<NetworkEvent>, events: Seq<EventView>, i: int)
    ensures
        received is None <==> answer(received) is None,
        received matches Some(event) ==> answer(received) == Some(event@),
        given_out(events).len() == events.len(),
        0 <= i < events.len() ==> given_out(events)[i] == Some(events[i]),
{
}

} // verus!
