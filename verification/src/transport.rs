//! What travels between two stages: items, one terminal failure, and the
//! end of the stream.

use vstd::prelude::*;
use std::sync::mpsc::Receiver;
use std::sync::mpsc::SendError;
use std::sync::mpsc::Sender;

verus! {

/// The sending half of a standard channel. Nothing inside it is visible to
/// proofs; it is only carried through.
#[verifier::external_type_specification]
#[verifier::external_body]
#[verifier::reject_recursive_types(T)]
pub struct ExSender<T>(Sender<T>);

/// The receiving half of a standard channel, carried through like the sender.
#[verifier::external_type_specification]
#[verifier::external_body]
#[verifier::reject_recursive_types(T)]
pub struct ExReceiver<T>(Receiver<T>);

/// The error of a send on a channel whose receiver is gone; its one public
/// field holds the message that could not be delivered.
#[verifier::external_type_specification]
#[verifier::reject_recursive_types(T)]
pub struct ExSendError<T>(SendError<T>);

/// A failure that crosses a channel boundary.
///
/// A failure starts at a producer or inside a stage and is wrapped once more
/// by every stage that passes it on, so the nesting depth counts the stages
/// it went through.
#[derive(Debug, PartialEq, Eq)]
pub enum TransportError {
    /// Raised by a producer, with its message.
    Origin(String),
    /// An average was asked of a stream that delivered no item.
    EmptyAverage,
    /// A stage counted more items than its counter can hold.
    CountOverflow,
    /// A failure received from upstream and passed on.
    Relayed(Box<TransportError>),
}

impl TransportError {
    /// Number of stages that passed this failure on.
    pub open spec fn hops(self) -> nat
        decreases self,
    {
        match self {
            TransportError::Relayed(inner) => inner.hops() + 1,
            _ => 0,
        }
    }

    /// The failure as it was first raised, with every relay stripped.
    pub open spec fn origin(self) -> TransportError
        decreases self,
    {
        match self {
            TransportError::Relayed(inner) => inner.origin(),
            _ => self,
        }
    }

    /// A failure raised by a producer.
    pub fn new(message: String) -> (e: TransportError)
        ensures
            e == TransportError::Origin(message),
    {
        TransportError::Origin(message)
    }

    /// Wraps a failure received from upstream for sending downstream.
    pub fn relay(self) -> (e: TransportError)
        ensures
            e == TransportError::Relayed(Box::new(self)),
            e.hops() == self.hops() + 1,
            e.origin() == self.origin(),
    {
        TransportError::Relayed(Box::new(self))
    }

    /// Strips every relay and returns the failure as it was first raised.
    pub fn into_origin(self) -> (e: TransportError)
        ensures
            e == self.origin(),
            !(e is Relayed),
        decreases self,
    {
        match self {
            TransportError::Relayed(inner) => (*inner).into_origin(),
            other => other,
        }
    }

    /// What a failure says of itself: the producer's message, or a fixed
    /// sentence for a failure that a stage raised. Relaying adds nothing.
    pub open spec fn text(self) -> Seq<char>
        decreases self,
    {
        match self {
            TransportError::Origin(message) => message@,
            TransportError::EmptyAverage => "average of a stream without items"@,
            TransportError::CountOverflow => "more items than the counter can count"@,
            TransportError::Relayed(inner) => inner.text(),
        }
    }

    /// The text of the failure, for a report to whoever subscribed.
    pub fn message(&self) -> (text: String)
        ensures
            text@ == self.text(),
        decreases self,
    {
        match self {
            TransportError::Origin(message) => message.clone(),
            TransportError::EmptyAverage => "average of a stream without items".to_owned(),
            TransportError::CountOverflow => "more items than the counter can count".to_owned(),
            TransportError::Relayed(inner) => inner.message(),
        }
    }
}

/// A message on a channel between two stages.
pub type Message<T> = Result<T, TransportError>;

/// What one receive on a stage's incoming channel reports.
pub enum Signal<T> {
    /// The next item.
    Item(T),
    /// The upstream failed; nothing follows.
    Failure(TransportError),
    /// Every sender is gone: the stream ended normally.
    Closed,
}

impl<T> Signal<T> {
    /// Reads the outcome of a receive: `None` stands for a channel whose
    /// senders are all gone.
    pub fn from_received(received: Option<Message<T>>) -> (s: Signal<T>)
        ensures
            s == match received {
                Some(Ok(item)) => Signal::Item(item),
                Some(Err(e)) => Signal::Failure(e),
                None => Signal::Closed,
            },
    {
        match received {
            Some(Ok(item)) => Signal::Item(item),
            Some(Err(e)) => Signal::Failure(e),
            None => Signal::Closed,
        }
    }
}

/// What a stage that works through its input in order decides on one signal.
pub enum Turn<S, Out> {
    /// Go on receiving, with this state.
    Continue(S),
    /// Send this one message downstream and stop.
    Conclude(Message<Out>),
}

/// What the dispatcher of a fan-out stage decides on one signal.
pub enum Dispatch<T> {
    /// Hand the item to a task of its own and go on receiving.
    Launch(T),
    /// Send the failure downstream and stop; tasks already launched finish
    /// on their own.
    Abort(TransportError),
    /// Stop; nothing is sent.
    Finish,
}

/// The dispatcher shared by the stages that give every item a task of its
/// own: an item is launched, a failure is relayed once and ends the
/// dispatching, a closed channel ends it silently.
pub fn dispatch<T>(signal: Signal<T>) -> (d: Dispatch<T>)
    ensures
        d == match signal {
            Signal::Item(item) => Dispatch::Launch(item),
            Signal::Failure(e) => Dispatch::Abort(TransportError::Relayed(Box::new(e))),
            Signal::Closed => Dispatch::Finish,
        },
{
    match signal {
        Signal::Item(item) => Dispatch::Launch(item),
        Signal::Failure(e) => Dispatch::Abort(e.relay()),
        Signal::Closed => Dispatch::Finish,
    }
}

/// Sends one message on a standard channel (`Sender::send`).
///
/// Whether the send succeeds depends on the receiving side, so nothing is
/// claimed of that. What the channel documents is that a failed send hands
/// the undelivered message back in the error.
#[verifier::external_body]
pub(crate) fn send_message<T>(channel: &Sender<T>, message: T) -> (sent: Result<
    (),
    SendError<T>,
>)
    ensures
        sent matches Err(e) ==> e.0 == message,
{
    channel.send(message)
}

} // verus!
