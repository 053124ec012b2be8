//! GroupBy: one worker splits a stream into one stream per key. The first
//! item of a key opens a group, which is sent downstream as a `KeySubject`;
//! every item is then forwarded into the group of its key.

use vstd::prelude::*;
use std::collections::HashMap;
use std::hash::Hash;
use std::sync::mpsc::Receiver;
use vstd::std_specs::hash::obeys_key_model;
use crate::observable::Observable;
use crate::transport::Message;
use crate::transport::Signal;
use crate::transport::TransportError;
use crate::utils::all_lanes;
use crate::utils::law_lanes_add_up;
use crate::utils::payloads;

verus! {

/// The groups opened so far: each key with the number of its group. Groups
/// are numbered from 0 in the order in which their first item arrived.
pub type GroupIndex<Key> = HashMap<Key, usize>;

/// One partition of a grouped stream: the key and the receiving end of the
/// channel that carries the items of that key. It is itself a stage.
#[verifier::reject_recursive_types(Item)]
pub struct KeySubject<Key, Item> {
    pub key: Key,
    pub source: Receiver<Message<Item>>,
}

impl<Key, Item> Observable for KeySubject<Key, Item> {
    type Item = Item;
}

/// The stage built by `group_by`: an upstream, the function that gives the
/// key of an item, and the groups opened so far.
pub struct GroupByOp<Source, GroupingFunction, CS> {
    pub source: Source,
    pub grouping_function: GroupingFunction,
    pub channel_store: CS,
}

impl<Source, GroupingFunction, Key> Observable for GroupByOp<
    Source,
    GroupingFunction,
    GroupIndex<Key>,
> where Source: Observable, GroupingFunction: Fn(&Source::Item) -> Key {
    type Item = KeySubject<Key, Source::Item>;
}

/// Where one item goes.
pub struct Routed<Key, Item> {
    /// The key that the grouping function gave for the item.
    pub key: Key,
    /// The number of the group of that key.
    pub group: usize,
    /// Whether this item opens the group: the group's channel is then
    /// created and its `KeySubject` sent downstream before the item is
    /// forwarded.
    pub fresh: bool,
    /// The item, to be forwarded into the group.
    pub item: Item,
}

/// What the group-by worker decides on one signal.
pub enum Grouping<Key, Item> {
    /// Forward the item into its group and go on receiving.
    Deliver(Routed<Key, Item>),
    /// Send the failure on the outer channel, not into any group, and stop.
    Abort(TransportError),
    /// Stop; nothing is sent.
    Finish,
}

/// The groups are numbered without gaps and no two keys share a group.
pub open spec fn groups_valid<Key>(index: Map<Key, usize>) -> bool {
    &&& index.dom().finite()
    &&& forall|k: Key| index.contains_key(k) ==> #[trigger] index[k] < index.len()
    &&& forall|j: Key, k: Key|
        index.contains_key(j) && index.contains_key(k) && j != k ==> #[trigger] index[j]
            != #[trigger] index[k]
}

/// The group that an item of `key` goes to: the group of the key where it
/// has one, else the next free number.
pub open spec fn group_of<Key>(index: Map<Key, usize>, key: Key) -> usize {
    if index.contains_key(key) {
        index[key]
    } else {
        index.len() as usize
    }
}

/// What the worker, with the groups `before`, may decide on `signal`, and
/// the groups it then has.
pub open spec fn group_reacts<Key, Item, GF: Fn(&Item) -> Key>(
    func: GF,
    before: Map<Key, usize>,
    signal: Signal<Item>,
    after: Map<Key, usize>,
    turn: Grouping<Key, Item>,
) -> bool {
    match signal {
        Signal::Item(item) => {
            &&& turn matches Grouping::Deliver(routed)
            &&& routed.item == item
            &&& call_ensures(func, (&item,), routed.key)
            &&& routed.fresh == !before.contains_key(routed.key)
            &&& routed.group == group_of(before, routed.key)
            &&& after == before.insert(routed.key, routed.group)
        },
        Signal::Failure(e) => {
            &&& turn == Grouping::<Key, Item>::Abort(TransportError::Relayed(Box::new(e)))
            &&& after == before
        },
        Signal::Closed => {
            &&& turn == Grouping::<Key, Item>::Finish
            &&& after == before
        },
    }
}

/// One turn of the group-by worker.
///
/// The key of an item is computed and looked up; an unseen key opens the
/// next group. A failure is relayed once, for the outer channel, and ends
/// the stage; the groups keep what they have. A closed channel ends it
/// silently.
pub fn group_by_turn<Key: Eq + Hash + Copy, Item, GF: Fn(&Item) -> Key>(
    func: &GF,
    index: &mut GroupIndex<Key>,
    signal: Signal<Item>,
) -> (turn: Grouping<Key, Item>)
    requires
        obeys_key_model::<Key>(),
        groups_valid(old(index)@),
        signal matches Signal::Item(item) ==> call_requires(*func, (&item,)),
    ensures
        group_reacts(*func, old(index)@, signal, final(index)@, turn),
        groups_valid(final(index)@),
{
    broadcast use vstd::std_specs::hash::group_hash_axioms;

    match signal {
        Signal::Item(item) => {
            let key = func(&item);
            let found = index.get(&key);
            match found {
                Some(group) => {
                    let group: usize = *group;
                    assert(index@.insert(key, group) =~= index@);
                    Grouping::Deliver(Routed { key, group, fresh: false, item })
                },
                None => {
                    let group: usize = index.len();
                    index.insert(key, group);
                    Grouping::Deliver(Routed { key, group, fresh: true, item })
                },
            }
        },
        Signal::Failure(e) => Grouping::Abort(e.relay()),
        Signal::Closed => Grouping::Finish,
    }
}

/// A run of the worker over `items`: it starts without groups, `routes[i]`
/// is what it decided for `items[i]`, and `indexes[i]` are the groups it had
/// before that item.
pub open spec fn grouping_run<Key, Item, GF: Fn(&Item) -> Key>(
    func: GF,
    items: Seq<Item>,
    routes: Seq<Routed<Key, Item>>,
    indexes: Seq<Map<Key, usize>>,
) -> bool {
    &&& routes.len() == items.len()
    &&& indexes.len() == items.len() + 1
    &&& indexes[0] == Map::<Key, usize>::empty()
    &&& forall|i: int|
        0 <= i < items.len() ==> group_reacts(
            func,
            indexes[i],
            Signal::Item(items[i]),
            indexes[i + 1],
            Grouping::Deliver(#[trigger] routes[i]),
        )
}

/// The forwarded items in order, each with the number of the group it was
/// forwarded into.
pub open spec fn deliveries<Key, Item>(routes: Seq<Routed<Key, Item>>) -> Seq<(nat, Item)> {
    routes.map_values(|routed: Routed<Key, Item>| (routed.group as nat, routed.item))
}

/// GroupBy partitions its stream. After any run over `items` (that opens no
/// more groups than the machine can number):
/// the groups together hold exactly the items of the stream, as a multiset;
/// every forwarded item has the key that the grouping function gave for it;
/// and two items share a group exactly when they have the same key.
pub proof fn law_group_by_partitions<Key, Item, GF: Fn(&Item) -> Key>(
    func: GF,
    items: Seq<Item>,
    routes: Seq<Routed<Key, Item>>,
    indexes: Seq<Map<Key, usize>>,
)
    requires
        grouping_run(func, items, routes, indexes),
        indexes.last().dom().finite() ==> indexes.last().len() <= usize::MAX,
    ensures
        all_lanes(deliveries(routes), indexes.last().len()) == items.to_multiset(),
        forall|i: int|
            0 <= i < items.len() ==> (#[trigger] routes[i]).item == items[i] && call_ensures(
                func,
                (&items[i],),
                routes[i].key,
            ),
        forall|i: int, j: int|
            0 <= i < items.len() && 0 <= j < items.len() ==> ((#[trigger] routes[i]).group == (
            #[trigger] routes[j]).group <==> routes[i].key == routes[j].key),
{
    lemma_grouping_run(func, items, routes, indexes);
    let index = indexes.last();
    assert forall|i: int| 0 <= i < deliveries(routes).len() implies (#[trigger] deliveries(
        routes,
    )[i]).0 < index.len() by {
        assert(index.contains_key(routes[i].key));
    }
    law_lanes_add_up(deliveries(routes), index.len());
    assert(payloads(deliveries(routes)) =~= items) by {
        assert forall|i: int| 0 <= i < items.len() implies payloads(deliveries(routes))[i]
            == items[i] by {
            assert(routes[i].item == items[i]);
        }
    }
    assert forall|i: int, j: int| 0 <= i < items.len() && 0 <= j < items.len() implies ((
    #[trigger] routes[i]).group == (#[trigger] routes[j]).group <==> routes[i].key
        == routes[j].key) by {
        assert(index.contains_key(routes[i].key) && index[routes[i].key] == routes[i].group);
        assert(index.contains_key(routes[j].key) && index[routes[j].key] == routes[j].group);
    }
}

proof fn lemma_grouping_run<Key, Item, GF: Fn(&Item) -> Key>(
    func: GF,
    items: Seq<Item>,
    routes: Seq<Routed<Key, Item>>,
    indexes: Seq<Map<Key, usize>>,
)
    requires
        grouping_run(func, items, routes, indexes),
        indexes.last().dom().finite() ==> indexes.last().len() <= usize::MAX,
    ensures
        groups_valid(indexes.last()),
        forall|i: int|
            0 <= i < items.len() ==> indexes.last().contains_key((#[trigger] routes[i]).key)
                && indexes.last()[routes[i].key] == routes[i].group,
        forall|i: int|
            0 <= i < items.len() ==> (#[trigger] routes[i]).item == items[i] && call_ensures(
                func,
                (&items[i],),
                routes[i].key,
            ),
    decreases items.len(),
{
    if items.len() == 0 {
        assert(indexes.last() == Map::<Key, usize>::empty());
    } else {
        let n = items.len() as int;
        let shorter = items.drop_last();
        let earlier = routes.drop_last();
        let before = indexes.drop_last();
        assert forall|i: int| 0 <= i < shorter.len() implies group_reacts(
            func,
            before[i],
            Signal::Item(shorter[i]),
            before[i + 1],
            Grouping::Deliver(#[trigger] earlier[i]),
        ) by {
            assert(group_reacts(
                func,
                indexes[i],
                Signal::Item(items[i]),
                indexes[i + 1],
                Grouping::Deliver(routes[i]),
            ));
        }
        let old_index = indexes[n - 1];
        let new_index = indexes[n];
        let last = routes[n - 1];
        assert(before.last() == old_index);
        assert(group_reacts(
            func,
            old_index,
            Signal::Item(items[n - 1]),
            new_index,
            Grouping::Deliver(last),
        ));
        assert(new_index == old_index.insert(last.key, last.group));
        lemma_insert_len(old_index, last.key, last.group);
        lemma_grouping_run(func, shorter, earlier, before);
        assert(groups_valid(new_index));
        assert forall|i: int| 0 <= i < items.len() implies new_index.contains_key(
            (#[trigger] routes[i]).key,
        ) && new_index[routes[i].key] == routes[i].group by {
            if i < n - 1 {
                assert(earlier[i] == routes[i]);
            }
        }
        assert forall|i: int| 0 <= i < items.len() implies (#[trigger] routes[i]).item == items[i]
            && call_ensures(func, (&items[i],), routes[i].key) by {
            if i < n - 1 {
                assert(earlier[i] == routes[i]);
                assert(shorter[i] == items[i]);
            }
        }
    }
}

/// Inserting a key keeps a finite map finite and adds at most one entry.
proof fn lemma_insert_len<Key>(index: Map<Key, usize>, key: Key, group: usize)
    ensures
        index.insert(key, group).dom().finite() <==> index.dom().finite(),
        index.dom().finite() ==> index.insert(key, group).len() == if index.contains_key(key) {
            index.len()
        } else {
            index.len() + 1
        },
{
    broadcast use vstd::set::group_set_axioms;
    broadcast use vstd::map::group_map_axioms;

    let longer = index.insert(key, group);
    assert(longer.dom() =~= index.dom().insert(key));
    assert(index.dom().insert(key).remove(key) =~= index.dom().remove(key));
    if longer.dom().finite() && !index.dom().finite() {
        if index.contains_key(key) {
            assert(index.dom().insert(key) =~= index.dom());
        } else {
            assert(longer.dom().remove(key) =~= index.dom());
        }
    }
}

} // verus!
