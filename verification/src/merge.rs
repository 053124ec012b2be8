//! Merge: two stages of one item type send into the same downstream
//! channel; nothing stands between them and the channel.

use vstd::prelude::*;
use vstd::multiset::Multiset;
use crate::observable::Observable;
use crate::utils::all_lanes;
use crate::utils::lane;
use crate::utils::law_lanes_add_up;
use crate::utils::payloads;

verus! {

/// The stage built by `merge`: the two upstreams.
pub struct MergeObservable<Source1, Source2> {
    pub source1: Source1,
    pub source2: Source2,
}

impl<Source> Observable for MergeObservable<Source, Source> where Source: Observable {
    type Item = Source::Item;
}

/// Merge sends the multiset union of both streams. Let the first stage
/// send `first` and the second `second`, and let `arrivals` be any order in
/// which the shared channel delivers all of it: what goes downstream is, as
/// a multiset, the union of the two.
pub proof fn law_merge_emits_union<T>(first: Seq<T>, second: Seq<T>, arrivals: Seq<(nat, T)>)
    requires
        forall|i: int| 0 <= i < arrivals.len() ==> (#[trigger] arrivals[i]).0 < 2,
        lane(arrivals, 0) == first,
        lane(arrivals, 1) == second,
    ensures
        payloads(arrivals).to_multiset() == first.to_multiset().add(second.to_multiset()),
{
    law_lanes_add_up(arrivals, 2);
    assert(all_lanes(arrivals, 2) == all_lanes(arrivals, 1).add(second.to_multiset()));
    assert(all_lanes(arrivals, 1) == all_lanes(arrivals, 0).add(first.to_multiset()));
    assert(all_lanes(arrivals, 0) == Multiset::<T>::empty());
    assert(Multiset::<T>::empty().add(first.to_multiset()) =~= first.to_multiset());
}

} // verus!
