//! Flatten: a worker receives the inner stages of a stream of stages and
//! subscribes each as it arrives. All of them send into one shared channel,
//! which a forwarding worker drains into the downstream channel.

use vstd::prelude::*;
use vstd::multiset::Multiset;
use crate::observable::Observable;
use crate::transport::Dispatch;
use crate::transport::Signal;
use crate::transport::TransportError;
use crate::utils::all_lanes;
use crate::utils::lane;
use crate::utils::law_lanes_add_up;
use crate::utils::payloads;

verus! {

/// An inner stage on its way to be subscribed into the shared channel.
pub struct FlattenObserver<S> {
    pub source: S,
}

/// The stage built by `flatten`: an upstream whose items are stages.
pub struct FlattenObservable<S> {
    pub source: S,
}

impl<S> Observable for FlattenObservable<S> where S: Observable, S::Item: Observable {
    type Item = <S::Item as Observable>::Item;
}

/// One turn of the flatten worker.
///
/// An inner stage is handed out to be subscribed at once, beside those
/// already running. A failure of the outer stream is relayed once and ends
/// the worker; the inner stages already subscribed go on. A closed channel
/// ends it silently.
pub fn flatten_turn<Inner>(signal: Signal<Inner>) -> (turn: Dispatch<FlattenObserver<Inner>>)
    ensures
        turn == match signal {
            Signal::Item(inner) => Dispatch::Launch(FlattenObserver { source: inner }),
            Signal::Failure(e) => Dispatch::Abort(TransportError::Relayed(Box::new(e))),
            Signal::Closed => Dispatch::Finish,
        },
{
    match signal {
        Signal::Item(inner) => Dispatch::Launch(FlattenObserver { source: inner }),
        Signal::Failure(e) => Dispatch::Abort(e.relay()),
        Signal::Closed => Dispatch::Finish,
    }
}

/// The items of the first `count` streams together, as a multiset.
pub open spec fn union_of<T>(streams: Seq<Seq<T>>, count: nat) -> Multiset<T>
    decreases count,
{
    if count == 0 {
        Multiset::empty()
    } else {
        union_of(streams, (count - 1) as nat).add(streams[count - 1].to_multiset())
    }
}

/// Flatten sends the multiset union of all inner items. Let the inner stage
/// number `k` send `inner[k]`, and let `arrivals` be any order in which the
/// shared channel delivers all of it: what goes downstream is, as a
/// multiset, the union of the inner streams.
pub proof fn law_flatten_emits_union<T>(inner: Seq<Seq<T>>, arrivals: Seq<(nat, T)>)
    requires
        forall|i: int| 0 <= i < arrivals.len() ==> (#[trigger] arrivals[i]).0 < inner.len(),
        forall|k: int| 0 <= k < inner.len() ==> lane(arrivals, k as nat) == #[trigger] inner[k],
    ensures
        payloads(arrivals).to_multiset() == union_of(inner, inner.len()),
{
    law_lanes_add_up(arrivals, inner.len());
    lemma_lanes_are_union(inner, arrivals, inner.len());
}

proof fn lemma_lanes_are_union<T>(inner: Seq<Seq<T>>, arrivals: Seq<(nat, T)>, count: nat)
    requires
        count <= inner.len(),
        forall|k: int| 0 <= k < inner.len() ==> lane(arrivals, k as nat) == #[trigger] inner[k],
    ensures
        all_lanes(arrivals, count) == union_of(inner, count),
    decreases count,
{
    if count > 0 {
        lemma_lanes_are_union(inner, arrivals, (count - 1) as nat);
        assert(lane(arrivals, (count - 1) as nat) == inner[count - 1]);
    }
}

} // verus!
