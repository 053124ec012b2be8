//! The handle that a producer sends through.

use vstd::prelude::*;
use std::sync::mpsc::SendError;
use std::sync::mpsc::Sender;
use crate::transport::send_message;
use crate::transport::Message;
use crate::transport::TransportError;

verus! {

/// A handle for sending into a stream: items with `next`, the one terminal
/// failure with `error`. Both fail when the receiving side is gone.
pub trait Observer {
    type Item;

    /// Sends an item.
    fn next(&self, value: Self::Item) -> Result<(), SendError<Message<Self::Item>>>;

    /// Sends a failure, wrapped once for the crossing.
    fn error(&self, err: TransportError) -> Result<(), SendError<Message<Self::Item>>>;
}

impl<Item> Observer for Sender<Message<Item>> {
    type Item = Item;

    fn next(&self, value: Item) -> (sent: Result<(), SendError<Message<Item>>>)
        ensures
            sent matches Err(undelivered) ==> undelivered.0 == Ok::<Item, TransportError>(value),
    {
        send_message(self, Ok(value))
    }

    fn error(&self, err: TransportError) -> (sent: Result<(), SendError<Message<Item>>>)
        ensures
            sent matches Err(undelivered) ==> undelivered.0 == Err::<Item, TransportError>(
                TransportError::Relayed(Box::new(err)),
            ),
    {
        send_message(self, Err(err.relay()))
    }
}

} // verus!
