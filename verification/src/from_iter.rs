//! A source that replays a finite sequence, one task per element.

use vstd::prelude::*;
use crate::observable::Observable;

verus! {

/// The source built by `from_iter`.
pub struct FromIter<I> {
    pub iter: I,
}

/// A source that sends the elements of `iter`. Each element gets a task of
/// its own, so the order in which they arrive downstream is not kept.
pub fn from_iter<I>(iter: I) -> (source: FromIter<I>) where I: Iterator
    ensures
        source.iter == iter,
{
    FromIter { iter }
}

impl<I> Observable for FromIter<I> where I: Iterator {
    type Item = I::Item;
}

} // verus!
