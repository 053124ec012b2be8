//! The composition core: every stage of a pipeline is an `Observable`, and
//! each combinator wraps the stage it is called on into the next one.

use vstd::prelude::*;
use std::collections::HashMap;
use crate::average::tally_valid;
use crate::average::zero_sum;
use crate::average::AverageObservable;
use crate::filter::FilterOp;
use crate::flatten::FlattenObservable;
use crate::group_by::groups_valid;
use crate::group_by::GroupByOp;
use crate::group_by::GroupIndex;
use crate::map::MapOp;
use crate::merge::MergeObservable;
use crate::reduce::ReduceOp;
use crate::sliding_window::Nanos;
use crate::sliding_window::SlidingWindowObservable;
use crate::transport::Signal;
use crate::transport::TransportError;

verus! {

/// A one-shot description of a stage that produces items of type `Item`.
///
/// Combinators take the stage by value and build the next stage around it;
/// nothing runs until the finished pipeline is subscribed.
pub trait Observable: Sized {
    type Item;

    /// Applies `f` to every item.
    fn map<F, B>(self, f: F) -> (op: MapOp<Self, F>) where F: Fn(Self::Item) -> B
        ensures
            op.source == self,
            op.func == f,
    {
        MapOp { source: self, func: f }
    }

    /// Keeps the items for which `f` holds.
    fn filter<F>(self, f: F) -> (op: FilterOp<Self, F>) where F: Fn(&Self::Item) -> bool
        ensures
            op.source == self,
            op.func == f,
    {
        FilterOp { source: self, func: f }
    }

    /// Folds the items into one result, starting from `collector`.
    fn reduce<C, R>(self, collector: C, f: R) -> (op: ReduceOp<Self, C, R>) where
        R: Fn(C, Self::Item) -> C,

        ensures
            op.source == self,
            op.collector == collector,
            op.func == f,
    {
        ReduceOp { source: self, collector, func: f }
    }

    /// Splits the stream into one stream per key; no group is open yet.
    fn group_by<GF, Key>(self, grouping_function: GF) -> (op: GroupByOp<
        Self,
        GF,
        GroupIndex<Key>,
    >) where GF: Fn(&Self::Item) -> Key
        ensures
            op.source == self,
            op.grouping_function == grouping_function,
            op.channel_store@ == Map::<Key, usize>::empty(),
            groups_valid(op.channel_store@),
    {
        GroupByOp { source: self, grouping_function, channel_store: HashMap::new() }
    }

    /// Joins the streams of a stream of stages into one.
    fn flatten(self) -> (op: FlattenObservable<Self>)
        ensures
            op.source == self,
    {
        FlattenObservable { source: self }
    }

    /// Maps every item to a stage and joins their streams: `map(f)` followed
    /// by `flatten()`.
    fn flat_map<F, B>(self, f: F) -> (op: FlattenObservable<MapOp<Self, F>>) where
        F: Fn(Self::Item) -> B,

        ensures
            op.source.source == self,
            op.source.func == f,
    {
        FlattenObservable { source: MapOp { source: self, func: f } }
    }

    /// Joins this stream and `other`, of the same type, into one.
    fn merge(self, other: Self) -> (op: MergeObservable<Self, Self>)
        ensures
            op.source1 == self,
            op.source2 == other,
    {
        MergeObservable { source1: self, source2: other }
    }

    /// Averages the stream; the tally starts at zero items with sum zero.
    /// The stage that this builds is itself a stage for a stream of `i64`.
    fn average(self) -> (op: AverageObservable<Self, i128, u64>)
        ensures
            op.source == self,
            op.collector == 0,
            op.count == 0,
            tally_valid(op.collector, op.count),
    {
        AverageObservable { source: self, collector: zero_sum(), count: 0 }
    }

    /// Buffers the items and sends, every `interval`, those that are not
    /// older than `window_size` by the timestamp that `time_function` reads
    /// from them. The buffer starts empty.
    fn sliding_window<F>(self, interval: Nanos, window_size: Nanos, time_function: F) -> (op:
        SlidingWindowObservable<Self, Self::Item, F>) where F: Fn(&Self::Item) -> Nanos
        ensures
            op.source == self,
            op.interval == interval,
            op.window_size == window_size,
            op.time_function == time_function,
            op.buffer@ == Seq::<(Nanos, Self::Item)>::empty(),
    {
        SlidingWindowObservable {
            source: self,
            interval,
            window_size,
            time_function,
            buffer: Vec::new(),
        }
    }
}

/// What the consumer at the end of a pipeline decides on one signal.
pub enum Delivery<T> {
    /// Hand the item to the subscriber's callback and go on receiving.
    Hand(T),
    /// The run has failed: stop, and raise the failure to whoever
    /// subscribed. It is never dropped.
    Fatal(TransportError),
    /// The stream ended normally: stop.
    Done,
}

/// One turn of the consumer that `subscribe` starts.
pub fn subscribe_turn<T>(signal: Signal<T>) -> (turn: Delivery<T>)
    ensures
        turn == match signal {
            Signal::Item(item) => Delivery::Hand(item),
            Signal::Failure(e) => Delivery::Fatal(e),
            Signal::Closed => Delivery::Done,
        },
{
    match signal {
        Signal::Item(item) => Delivery::Hand(item),
        Signal::Failure(e) => Delivery::Fatal(e),
        Signal::Closed => Delivery::Done,
    }
}

} // verus!
