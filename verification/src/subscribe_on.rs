//! SubscribeOn: the upstream is subscribed on a scheduler of its own, and a
//! forwarding worker on the pipeline's scheduler passes its messages on.

use vstd::prelude::*;
use crate::observable::Observable;

verus! {

/// The stage that runs `source` on `pool`.
pub struct SubscribeOnObservable<Source, Pool> {
    pub source: Source,
    pub pool: Pool,
}

impl<Source, Pool> Observable for SubscribeOnObservable<Source, Pool> where Source: Observable {
    type Item = Source::Item;
}

} // verus!
