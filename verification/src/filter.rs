//! Filter: a dispatcher gives every item a task of its own, which asks the
//! predicate and sends the item on if it holds. The order is not kept.

use vstd::prelude::*;
use crate::observable::Observable;

verus! {

/// The stage built by `filter`: an upstream and the predicate that admits
/// an item.
pub struct FilterOp<S, F> {
    pub source: S,
    pub func: F,
}

impl<S, F> Observable for FilterOp<S, F> where S: Observable, F: Fn(&S::Item) -> bool {
    type Item = S::Item;
}

/// What the task of `item` may end in: the item itself where the predicate
/// returned `true`, nothing where it returned `false`.
pub open spec fn filter_admits<T, F: Fn(&T) -> bool>(func: F, item: T, outcome: Option<T>) -> bool {
    match outcome {
        Some(sent) => sent == item && call_ensures(func, (&item,), true),
        None => call_ensures(func, (&item,), false),
    }
}

/// The task of one item: asks the predicate; `Some` is the item to send
/// downstream, `None` means that nothing is sent.
pub fn filter_item<T, F: Fn(&T) -> bool>(func: &F, item: T) -> (outcome: Option<T>)
    requires
        call_requires(*func, (&item,)),
    ensures
        filter_admits(*func, item, outcome),
{
    if func(&item) {
        Some(item)
    } else {
        None
    }
}

/// The items that a run of tasks sends, listed in the order of the tasks.
pub open spec fn sent_items<T>(outcomes: Seq<Option<T>>) -> Seq<T>
    decreases outcomes.len(),
{
    if outcomes.len() == 0 {
        Seq::empty()
    } else {
        let earlier = sent_items(outcomes.drop_last());
        match outcomes.last() {
            Some(item) => earlier.push(item),
            None => earlier,
        }
    }
}

/// `func` computes `predicate`: whatever a call returns is the value that
/// `predicate` gives for the item.
pub open spec fn computes_predicate<T, F: Fn(&T) -> bool>(
    func: F,
    predicate: spec_fn(T) -> bool,
) -> bool {
    forall|item: T, verdict: bool| #[trigger]
        call_ensures(func, (&item,), verdict) ==> verdict == predicate(item)
}

/// Filter sends exactly the items that satisfy the predicate. Where the
/// tasks of `items` ended in `outcomes`, one for one, and the predicate
/// computes `predicate`, the items sent are `items.filter(predicate)`: as a
/// multiset, whatever order the tasks finish in.
pub proof fn law_filter_emits_satisfying_items<T, F: Fn(&T) -> bool>(
    func: F,
    predicate: spec_fn(T) -> bool,
    items: Seq<T>,
    outcomes: Seq<Option<T>>,
)
    requires
        computes_predicate(func, predicate),
        outcomes.len() == items.len(),
        forall|i: int|
            0 <= i < items.len() ==> filter_admits(func, #[trigger] items[i], outcomes[i]),
    ensures
        sent_items(outcomes) == items.filter(predicate),
        sent_items(outcomes).to_multiset() == items.filter(predicate).to_multiset(),
        forall|item: T|
            sent_items(outcomes).to_multiset().count(item) == if predicate(item) {
                items.to_multiset().count(item)
            } else {
                0
            },
    decreases items.len(),
{
    reveal(Seq::filter);
    assert forall|item: T|
        items.filter(predicate).to_multiset().count(item) == if predicate(item) {
            items.to_multiset().count(item)
        } else {
            0
        } by {
        lemma_filter_counts(items, predicate, item);
    }
    if items.len() > 0 {
        let n = items.len() as int;
        let shorter = items.drop_last();
        let earlier = outcomes.drop_last();
        assert forall|i: int| 0 <= i < shorter.len() implies filter_admits(
            func,
            #[trigger] shorter[i],
            earlier[i],
        ) by {
            assert(shorter[i] == items[i]);
            assert(filter_admits(func, items[i], outcomes[i]));
        }
        law_filter_emits_satisfying_items(func, predicate, shorter, earlier);
        assert(filter_admits(func, items[n - 1], outcomes[n - 1]));
    }
}

/// Running filter again gives the same results. Two runs over the same
/// items, arriving in whatever order each time, with a predicate that
/// computes `predicate`, send the same multiset.
pub proof fn law_filter_rerun_same_results<T, F: Fn(&T) -> bool>(
    func: F,
    predicate: spec_fn(T) -> bool,
    first_items: Seq<T>,
    first_outcomes: Seq<Option<T>>,
    second_items: Seq<T>,
    second_outcomes: Seq<Option<T>>,
)
    requires
        computes_predicate(func, predicate),
        first_items.to_multiset() == second_items.to_multiset(),
        first_outcomes.len() == first_items.len(),
        second_outcomes.len() == second_items.len(),
        forall|i: int|
            0 <= i < first_items.len() ==> filter_admits(
                func,
                #[trigger] first_items[i],
                first_outcomes[i],
            ),
        forall|i: int|
            0 <= i < second_items.len() ==> filter_admits(
                func,
                #[trigger] second_items[i],
                second_outcomes[i],
            ),
    ensures
        sent_items(first_outcomes).to_multiset() == sent_items(second_outcomes).to_multiset(),
{
    law_filter_emits_satisfying_items(func, predicate, first_items, first_outcomes);
    law_filter_emits_satisfying_items(func, predicate, second_items, second_outcomes);
    assert(sent_items(first_outcomes).to_multiset() =~= sent_items(
        second_outcomes,
    ).to_multiset());
}

/// How often an item occurs among the filtered items: as often as in the
/// sequence where the predicate holds of it, never where it does not.
proof fn lemma_filter_counts<T>(items: Seq<T>, predicate: spec_fn(T) -> bool, item: T)
    ensures
        items.filter(predicate).to_multiset().count(item) == if predicate(item) {
            items.to_multiset().count(item)
        } else {
            0
        },
    decreases items.len(),
{
    broadcast use vstd::seq_lib::group_to_multiset_ensures;

    reveal(Seq::filter);
    if items.len() == 0 {
        assert(!items.contains(item));
        assert(!items.filter(predicate).contains(item));
    } else {
        let earlier = items.drop_last();
        let last = items.last();
        lemma_filter_counts(earlier, predicate, item);
        assert(items == earlier.push(last));
        assert(items.to_multiset() =~= earlier.to_multiset().insert(last));
        if predicate(last) {
            assert(items.filter(predicate) == earlier.filter(predicate).push(last));
            assert(items.filter(predicate).to_multiset() =~= earlier.filter(
                predicate,
            ).to_multiset().insert(last));
        }
    }
}

} // verus!
