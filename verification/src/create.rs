//! A source driven by a closure that is handed the sending end of the
//! channel and decides itself what to send and when.

use vstd::prelude::*;
use std::marker::PhantomData;
use std::sync::mpsc::Sender;
use crate::observable::Observable;
use crate::transport::Message;

verus! {

/// The source built by `create`.
pub struct Create<I, Item> {
    pub create_function: I,
    pub _marker: PhantomData<Item>,
}

/// A source that runs `create_function` once, in one task, with the sending
/// end of its channel.
pub fn create<I, Item>(create_function: I) -> (source: Create<I, Item>) where
    I: FnMut(Sender<Message<Item>>),

    ensures
        source.create_function == create_function,
{
    Create { create_function, _marker: PhantomData }
}

impl<I, Item> Observable for Create<I, Item> where I: FnMut(Sender<Message<Item>>) {
    type Item = Item;
}

} // verus!
