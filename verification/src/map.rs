//! Map: a dispatcher gives every item a task of its own, which applies the
//! function and sends the result. The order of the results is not kept.

use vstd::prelude::*;
use crate::observable::Observable;
use crate::utils::lemma_same_items_len;
use crate::utils::lemma_same_items_step;

verus! {

/// The stage built by `map`: an upstream and the function applied to each
/// of its items.
pub struct MapOp<S, M> {
    pub source: S,
    pub func: M,
}

impl<Item, S, M> Observable for MapOp<S, M> where S: Observable, M: Fn(S::Item) -> Item {
    type Item = Item;
}

/// The task of one item: applies the function; the result is the item to
/// send downstream.
pub fn map_item<T, U, M: Fn(T) -> U>(func: &M, item: T) -> (out: U)
    requires
        call_requires(*func, (item,)),
    ensures
        call_ensures(*func, (item,), out),
{
    func(item)
}

/// `func` computes `function`: whatever a call returns is the value that
/// `function` gives for the argument.
pub open spec fn computes_map<T, U, M: Fn(T) -> U>(func: M, function: spec_fn(T) -> U) -> bool {
    forall|item: T, out: U| #[trigger] call_ensures(func, (item,), out) ==> out == function(item)
}

/// Map sends the image of every item. Where the tasks of `items` produced
/// `outs`, one for one, and the function computes `function`, the items sent
/// are `items.map_values(function)`: as a multiset, whatever order the tasks
/// finish in.
pub proof fn law_map_emits_images<T, U, M: Fn(T) -> U>(
    func: M,
    function: spec_fn(T) -> U,
    items: Seq<T>,
    outs: Seq<U>,
)
    requires
        computes_map(func, function),
        outs.len() == items.len(),
        forall|i: int| 0 <= i < items.len() ==> call_ensures(func, (#[trigger] items[i],), outs[i]),
    ensures
        outs == items.map_values(function),
        outs.to_multiset() == items.map_values(function).to_multiset(),
{
    assert forall|i: int| 0 <= i < items.len() implies outs[i] == items.map_values(function)[i] by {
        assert(call_ensures(func, (items[i],), outs[i]));
    }
    assert(outs =~= items.map_values(function));
}

/// Running map again gives the same results. Two runs over the same
/// items, arriving in whatever order each time, with a function that
/// computes `function`, send the same multiset.
pub proof fn law_map_rerun_same_results<T, U, M: Fn(T) -> U>(
    func: M,
    function: spec_fn(T) -> U,
    first_items: Seq<T>,
    first_outs: Seq<U>,
    second_items: Seq<T>,
    second_outs: Seq<U>,
)
    requires
        computes_map(func, function),
        first_items.to_multiset() == second_items.to_multiset(),
        first_outs.len() == first_items.len(),
        second_outs.len() == second_items.len(),
        forall|i: int|
            0 <= i < first_items.len() ==> call_ensures(
                func,
                (#[trigger] first_items[i],),
                first_outs[i],
            ),
        forall|i: int|
            0 <= i < second_items.len() ==> call_ensures(
                func,
                (#[trigger] second_items[i],),
                second_outs[i],
            ),
    ensures
        first_outs.to_multiset() == second_outs.to_multiset(),
{
    law_map_emits_images(func, function, first_items, first_outs);
    law_map_emits_images(func, function, second_items, second_outs);
    lemma_images_of_same_items(function, first_items, second_items);
}

proof fn lemma_images_of_same_items<T, U>(function: spec_fn(T) -> U, first: Seq<T>, second: Seq<T>)
    requires
        first.to_multiset() == second.to_multiset(),
    ensures
        first.map_values(function).to_multiset() == second.map_values(function).to_multiset(),
    decreases first.len(),
{
    broadcast use vstd::seq_lib::group_to_multiset_ensures;

    lemma_same_items_len(first, second);
    if first.len() == 0 {
        assert(first.map_values(function) =~= second.map_values(function));
    } else {
        let at = lemma_same_items_step(first, second);
        let image = function(first.last());
        lemma_images_of_same_items(function, first.drop_last(), second.remove(at));
        assert(first.map_values(function) =~= first.drop_last().map_values(function).push(image));
        let images = second.map_values(function);
        assert(images.remove(at) =~= second.remove(at).map_values(function));
        assert(images[at] == image);
        assert(images.remove(at).to_multiset() == images.to_multiset().remove(image));
        assert(images.contains(image));
        assert(images.to_multiset().count(image) > 0);
        assert(images.to_multiset().remove(image).insert(image) =~= images.to_multiset());
    }
}

} // verus!
