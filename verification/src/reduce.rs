//! Reduce: one worker folds the items, in arrival order, into a single
//! result that is sent when the upstream ends.

use vstd::prelude::*;
use crate::observable::Observable;
use crate::transport::Signal;
use crate::transport::TransportError;
use crate::transport::Turn;

verus! {

/// The stage built by `reduce`: an upstream, the seed of the fold and the
/// function that folds one item into the accumulator.
pub struct ReduceOp<Source, CollectResult, ReduceFunction> {
    pub source: Source,
    pub collector: CollectResult,
    pub func: ReduceFunction,
}

impl<Source, CollectResult, ReduceFunction> Observable for ReduceOp<
    Source,
    CollectResult,
    ReduceFunction,
> where Source: Observable, ReduceFunction: Fn(CollectResult, Source::Item) -> CollectResult {
    type Item = CollectResult;
}

/// `accumulators` are the values that a fold of `func` over `items` goes
/// through: it starts at `seed` and each next one is a result of `func` on
/// the one before and the next item.
pub open spec fn fold_trace<C, T, F: Fn(C, T) -> C>(
    func: F,
    seed: C,
    items: Seq<T>,
    accumulators: Seq<C>,
) -> bool {
    &&& accumulators.len() == items.len() + 1
    &&& accumulators[0] == seed
    &&& forall|i: int|
        0 <= i < items.len() ==> call_ensures(
            func,
            (accumulators[i], #[trigger] items[i]),
            accumulators[i + 1],
        )
}

/// `result` is an accumulator that folding `func` over `items` from the left,
/// starting at `seed`, can end in. For a function that computes one result
/// per argument this is the left fold itself.
pub open spec fn folds_to<C, T, F: Fn(C, T) -> C>(
    func: F,
    seed: C,
    items: Seq<T>,
    result: C,
) -> bool {
    exists|accumulators: Seq<C>|
        #[trigger] fold_trace(func, seed, items, accumulators) && accumulators.last() == result
}

/// What the reduce worker, holding `collector`, may do on `signal`.
pub open spec fn reduce_reacts<C, T, F: Fn(C, T) -> C>(
    func: F,
    collector: C,
    signal: Signal<T>,
    turn: Turn<C, C>,
) -> bool {
    match signal {
        Signal::Item(item) => turn matches Turn::Continue(next) && call_ensures(
            func,
            (collector, item),
            next,
        ),
        Signal::Failure(e) => turn == Turn::<C, C>::Conclude(
            Err(TransportError::Relayed(Box::new(e))),
        ),
        Signal::Closed => turn == Turn::<C, C>::Conclude(Ok(collector)),
    }
}

/// One turn of the reduce worker.
///
/// An item is folded into the accumulator. A closed channel ends the stage
/// with the accumulator as its one item. A failure ends it with the failure,
/// relayed once, and the partial accumulator is dropped.
pub fn reduce_turn<C, T, F: Fn(C, T) -> C>(func: &F, collector: C, signal: Signal<T>) -> (turn:
    Turn<C, C>)
    requires
        signal matches Signal::Item(item) ==> call_requires(*func, (collector, item)),
    ensures
        reduce_reacts(*func, collector, signal, turn),
{
    match signal {
        Signal::Item(item) => Turn::Continue(func(collector, item)),
        Signal::Failure(e) => Turn::Conclude(Err(e.relay())),
        Signal::Closed => Turn::Conclude(Ok(collector)),
    }
}

/// Reduce yields the left fold. Take any finite sequence of items: a worker
/// that starts at `seed`, takes them one by one through the accumulators
/// `states` and then sees its channel closed ends with exactly one message,
/// an item that is a left fold of `func` over the sequence from `seed`.
pub proof fn law_reduce_yields_left_fold<C, T, F: Fn(C, T) -> C>(
    func: F,
    seed: C,
    items: Seq<T>,
    states: Seq<C>,
    last: Turn<C, C>,
)
    requires
        states.len() == items.len() + 1,
        states[0] == seed,
        forall|i: int|
            0 <= i < items.len() ==> reduce_reacts(
                func,
                states[i],
                Signal::Item(#[trigger] items[i]),
                Turn::Continue(states[i + 1]),
            ),
        reduce_reacts(func, states[items.len() as int], Signal::Closed, last),
    ensures
        last == Turn::<C, C>::Conclude(Ok(states[items.len() as int])),
        folds_to(func, seed, items, states[items.len() as int]),
{
    assert(fold_trace(func, seed, items, states));
}

/// `func` computes `function`: whatever a call returns is the value that
/// `function` gives for the arguments.
pub open spec fn computes_fold<C, T, F: Fn(C, T) -> C>(
    func: F,
    function: spec_fn(C, T) -> C,
) -> bool {
    forall|accumulator: C, item: T, next: C| #[trigger]
        call_ensures(func, (accumulator, item), next) ==> next == function(accumulator, item)
}

/// For a fold function that computes `function`, the one item that reduce
/// yields is `items.fold_left(seed, function)`.
pub proof fn law_reduce_of_function<C, T, F: Fn(C, T) -> C>(
    func: F,
    function: spec_fn(C, T) -> C,
    seed: C,
    items: Seq<T>,
    result: C,
)
    requires
        computes_fold(func, function),
        folds_to(func, seed, items, result),
    ensures
        result == items.fold_left(seed, function),
{
    let accumulators = choose|accumulators: Seq<C>|
        #[trigger] fold_trace(func, seed, items, accumulators) && accumulators.last() == result;
    lemma_trace_is_fold_left(func, function, seed, items, accumulators);
}

/// Running reduce again gives the same result, as long as the items arrive
/// in the same order: two folds of a function over one sequence from one
/// seed end in the same accumulator.
pub proof fn law_reduce_rerun_same_result<C, T, F: Fn(C, T) -> C>(
    func: F,
    function: spec_fn(C, T) -> C,
    seed: C,
    items: Seq<T>,
    first: C,
    second: C,
)
    requires
        computes_fold(func, function),
        folds_to(func, seed, items, first),
        folds_to(func, seed, items, second),
    ensures
        first == second,
{
    law_reduce_of_function(func, function, seed, items, first);
    law_reduce_of_function(func, function, seed, items, second);
}

proof fn lemma_trace_is_fold_left<C, T, F: Fn(C, T) -> C>(
    func: F,
    function: spec_fn(C, T) -> C,
    seed: C,
    items: Seq<T>,
    accumulators: Seq<C>,
)
    requires
        computes_fold(func, function),
        fold_trace(func, seed, items, accumulators),
    ensures
        accumulators.last() == items.fold_left(seed, function),
    decreases items.len(),
{
    if items.len() > 0 {
        let n = items.len() as int;
        let shorter = items.drop_last();
        let earlier = accumulators.drop_last();
        assert forall|i: int| 0 <= i < shorter.len() implies call_ensures(
            func,
            (earlier[i], #[trigger] shorter[i]),
            earlier[i + 1],
        ) by {
            assert(shorter[i] == items[i]);
        }
        lemma_trace_is_fold_left(func, function, seed, shorter, earlier);
        assert(call_ensures(func, (accumulators[n - 1], items[n - 1]), accumulators[n]));
    }
}

} // verus!
