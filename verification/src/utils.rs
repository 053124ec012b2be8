//! The forwarding worker, and what a channel with several senders delivers.

use vstd::prelude::*;
use vstd::multiset::Multiset;
use std::sync::mpsc::SendError;
use std::sync::mpsc::Sender;
use crate::transport::send_message;

verus! {

/// Whether a worker goes on after a send: a send fails only when the
/// receiving side is gone, and the worker then stops without a word.
pub fn delivered<T>(sent: Result<(), SendError<T>>) -> (go_on: bool)
    ensures
        go_on == sent is Ok,
{
    match sent {
        Ok(_) => true,
        Err(_) => false,
    }
}

/// One turn of the forwarding worker: passes what was received on to
/// `outgoing`, unchanged, and says whether to go on. `None` stands for a
/// closed incoming channel, which ends the forwarding; so does a receiver
/// that is gone.
pub fn forward_messages<Item>(received: Option<Item>, outgoing: &Sender<Item>) -> (go_on: bool)
    ensures
        received is None ==> !go_on,
{
    match received {
        Some(message) => delivered(send_message(outgoing, message)),
        None => false,
    }
}

/// What `source` sent, in its order, among `arrivals`. Each arrival on a
/// shared channel is a message with the number of the sender it came from.
pub open spec fn lane<T>(arrivals: Seq<(nat, T)>, source: nat) -> Seq<T>
    decreases arrivals.len(),
{
    if arrivals.len() == 0 {
        Seq::empty()
    } else {
        let earlier = lane(arrivals.drop_last(), source);
        if arrivals.last().0 == source {
            earlier.push(arrivals.last().1)
        } else {
            earlier
        }
    }
}

/// What the first `sources` senders sent, together, as a multiset.
pub open spec fn all_lanes<T>(arrivals: Seq<(nat, T)>, sources: nat) -> Multiset<T>
    decreases sources,
{
    if sources == 0 {
        Multiset::empty()
    } else {
        all_lanes(arrivals, (sources - 1) as nat).add(
            lane(arrivals, (sources - 1) as nat).to_multiset(),
        )
    }
}

/// The messages of `arrivals` in the order of arrival, which is what the
/// receiver of the shared channel reads.
pub open spec fn payloads<T>(arrivals: Seq<(nat, T)>) -> Seq<T> {
    arrivals.map_values(|arrival: (nat, T)| arrival.1)
}

/// A shared channel delivers the multiset union of what its senders sent.
/// However the messages of `sources` senders interleave, what arrives is,
/// as a multiset, what the senders sent together.
pub proof fn law_lanes_add_up<T>(arrivals: Seq<(nat, T)>, sources: nat)
    requires
        forall|i: int| 0 <= i < arrivals.len() ==> (#[trigger] arrivals[i]).0 < sources,
    ensures
        payloads(arrivals).to_multiset() == all_lanes(arrivals, sources),
    decreases arrivals.len(),
{
    broadcast use vstd::seq_lib::to_multiset_build;

    if arrivals.len() == 0 {
        lemma_no_arrivals::<T>(arrivals, sources);
        assert(payloads(arrivals) =~= Seq::<T>::empty());
        payloads(arrivals).to_multiset_ensures();
        assert(payloads(arrivals).to_multiset() =~= Multiset::<T>::empty());
    } else {
        let earlier = arrivals.drop_last();
        let last = arrivals.last();
        assert forall|i: int| 0 <= i < earlier.len() implies (#[trigger] earlier[i]).0
            < sources by {
            assert(earlier[i] == arrivals[i]);
        }
        law_lanes_add_up(earlier, sources);
        assert(arrivals == earlier.push(last));
        lemma_lanes_push(earlier, last, sources);
        assert(payloads(arrivals) =~= payloads(earlier).push(last.1));
    }
}

/// Two sequences with the same items, the first not empty: the last item of
/// the first stands somewhere in the second, and without it the two still
/// have the same items.
pub proof fn lemma_same_items_step<T>(first: Seq<T>, second: Seq<T>) -> (at: int)
    requires
        first.to_multiset() == second.to_multiset(),
        first.len() > 0,
    ensures
        0 <= at < second.len(),
        second[at] == first.last(),
        first.drop_last().to_multiset() == second.remove(at).to_multiset(),
{
    broadcast use vstd::seq_lib::group_to_multiset_ensures;

    let last = first.last();
    assert(first == first.drop_last().push(last));
    assert(first.to_multiset() =~= first.drop_last().to_multiset().insert(last));
    assert(first.to_multiset().count(last) > 0);
    assert(second.contains(last));
    let at = choose|at: int| 0 <= at < second.len() && second[at] == last;
    assert(second.remove(at).to_multiset() == second.to_multiset().remove(last));
    assert(first.drop_last().to_multiset().insert(last).remove(last)
        =~= first.drop_last().to_multiset());
    at
}

/// Two sequences with the same items have the same length.
pub proof fn lemma_same_items_len<T>(first: Seq<T>, second: Seq<T>)
    requires
        first.to_multiset() == second.to_multiset(),
    ensures
        first.len() == second.len(),
{
    broadcast use vstd::seq_lib::group_to_multiset_ensures;

    assert(first.to_multiset().len() == first.len());
    assert(second.to_multiset().len() == second.len());
}

proof fn lemma_no_arrivals<T>(arrivals: Seq<(nat, T)>, sources: nat)
    requires
        arrivals.len() == 0,
    ensures
        all_lanes(arrivals, sources) == Multiset::<T>::empty(),
    decreases sources,
{
    if sources > 0 {
        let k = (sources - 1) as nat;
        lemma_no_arrivals(arrivals, k);
        lane(arrivals, k).to_multiset_ensures();
        assert(lane(arrivals, k).to_multiset() =~= Multiset::<T>::empty());
        assert(Multiset::<T>::empty().add(Multiset::<T>::empty()) =~= Multiset::<T>::empty());
    }
}

/// One more arrival adds its message to the lanes exactly once, where its
/// sender is among those counted, and not at all where it is not.
proof fn lemma_lanes_push<T>(arrivals: Seq<(nat, T)>, last: (nat, T), sources: nat)
    ensures
        all_lanes(arrivals.push(last), sources) == if last.0 < sources {
            all_lanes(arrivals, sources).insert(last.1)
        } else {
            all_lanes(arrivals, sources)
        },
    decreases sources,
{
    broadcast use vstd::seq_lib::to_multiset_build;

    if sources > 0 {
        let k = (sources - 1) as nat;
        lemma_lanes_push(arrivals, last, k);
        let longer = arrivals.push(last);
        assert(longer.drop_last() == arrivals);
        assert(longer.last() == last);
        if last.0 == k {
            assert(lane(longer, k) == lane(arrivals, k).push(last.1));
            assert(all_lanes(arrivals, k).add(lane(arrivals, k).to_multiset().insert(last.1))
                =~= all_lanes(arrivals, k).add(lane(arrivals, k).to_multiset()).insert(last.1));
        } else {
            assert(lane(longer, k) == lane(arrivals, k));
            if last.0 < k {
                assert(all_lanes(arrivals, k).insert(last.1).add(lane(arrivals, k).to_multiset())
                    =~= all_lanes(arrivals, k).add(lane(arrivals, k).to_multiset()).insert(
                    last.1,
                ));
            }
        }
    }
}

} // verus!
