//! Average: one worker adds up the items and counts them; when the
//! upstream ends it sends the sum divided by the count.

use vstd::prelude::*;
use crate::observable::Observable;
use crate::transport::Signal;
use crate::transport::TransportError;
use crate::transport::Turn;
use crate::utils::lemma_same_items_len;
use crate::utils::lemma_same_items_step;

verus! {

/// The stage built by `average`: an upstream, the running sum and the number
/// of items added so far.
pub struct AverageObservable<Source, C, CC> {
    pub source: Source,
    pub collector: C,
    pub count: CC,
}

impl<Source> Observable for AverageObservable<Source, i128, u64> where
    Source: Observable<Item = i64>,
 {
    type Item = i64;
}

/// The additive identity that a fresh running sum starts from
/// (`num_traits::Zero::zero` at `i128`, which is the number 0).
#[verifier::external_body]
pub(crate) fn zero_sum() -> (z: i128)
    ensures
        z == 0,
{
    <i128 as num_traits::Zero>::zero()
}

/// The sum of the items.
pub open spec fn total(items: Seq<i64>) -> int
    decreases items.len(),
{
    if items.len() == 0 {
        0
    } else {
        total(items.drop_last()) + items.last()
    }
}

/// The quotient of `sum` by a positive `count`, rounded toward zero as
/// integer division on the machine rounds.
pub open spec fn quotient(sum: int, count: int) -> int {
    if sum >= 0 {
        sum / count
    } else {
        -((-sum) / count)
    }
}

/// A running sum that `count` items of 64 bits can add up to.
pub open spec fn tally_valid(sum: i128, count: u64) -> bool {
    -count * 0x8000_0000_0000_0000 <= sum <= count * 0x7fff_ffff_ffff_ffff
}

/// What the average worker, holding `tally`, does on `signal`.
pub open spec fn average_step(tally: (i128, u64), signal: Signal<i64>) -> Turn<(i128, u64), i64> {
    match signal {
        Signal::Item(item) => if tally.1 == u64::MAX {
            Turn::Conclude(Err(TransportError::CountOverflow))
        } else {
            Turn::Continue(((tally.0 + item) as i128, (tally.1 + 1) as u64))
        },
        Signal::Failure(e) => Turn::Conclude(Err(TransportError::Relayed(Box::new(e)))),
        Signal::Closed => if tally.1 == 0 {
            Turn::Conclude(Err(TransportError::EmptyAverage))
        } else {
            Turn::Conclude(Ok(quotient(tally.0 as int, tally.1 as int) as i64))
        },
    }
}

/// One turn of the average worker.
///
/// An item is added to the sum and counted. A closed channel ends the stage
/// with the quotient of sum and count as its one item, or with
/// `EmptyAverage` where no item was counted. A failure ends it with the
/// failure, relayed once. An item that the counter cannot count ends it
/// with `CountOverflow`.
pub fn average_turn(sum: i128, count: u64, signal: Signal<i64>) -> (turn: Turn<(i128, u64), i64>)
    requires
        tally_valid(sum, count),
    ensures
        turn == average_step((sum, count), signal),
        turn matches Turn::Continue(next) ==> tally_valid(next.0, next.1),
        (signal is Closed && count > 0) ==> turn == Turn::<(i128, u64), i64>::Conclude(
            Ok(quotient(sum as int, count as int) as i64),
        ) && i64::MIN <= quotient(sum as int, count as int) <= i64::MAX,
{
    match signal {
        Signal::Item(item) => {
            if count == u64::MAX {
                Turn::Conclude(Err(TransportError::CountOverflow))
            } else {
                Turn::Continue((sum + item as i128, count + 1))
            }
        },
        Signal::Failure(e) => Turn::Conclude(Err(e.relay())),
        Signal::Closed => {
            if count == 0 {
                Turn::Conclude(Err(TransportError::EmptyAverage))
            } else {
                let divisor: i128 = count as i128;
                proof {
                    lemma_quotient_bounds(sum as int, count as int);
                }
                let mean: i128 = if sum >= 0 {
                    sum / divisor
                } else {
                    -((-sum) / divisor)
                };
                Turn::Conclude(Ok(mean as i64))
            }
        },
    }
}

/// A sum of `count` items of 64 bits has a quotient of 64 bits.
pub proof fn lemma_quotient_bounds(sum: int, count: int)
    requires
        count > 0,
        -count * 0x8000_0000_0000_0000 <= sum <= count * 0x7fff_ffff_ffff_ffff,
    ensures
        i64::MIN <= quotient(sum, count) <= i64::MAX,
{
    if sum >= 0 {
        assert(sum / count <= 0x7fff_ffff_ffff_ffff) by (nonlinear_arith)
            requires
                count > 0,
                0 <= sum <= count * 0x7fff_ffff_ffff_ffff,
        ;
        assert(0 <= sum / count) by (nonlinear_arith)
            requires
                count > 0,
                0 <= sum,
        ;
    } else {
        let m = -sum;
        assert(m / count <= 0x8000_0000_0000_0000) by (nonlinear_arith)
            requires
                count > 0,
                0 <= m <= count * 0x8000_0000_0000_0000,
        ;
        assert(0 <= m / count) by (nonlinear_arith)
            requires
                count > 0,
                0 <= m,
        ;
    }
}

/// Where the worker stands after it took `items`, one by one, from an empty
/// tally.
pub open spec fn tally_after(items: Seq<i64>) -> Turn<(i128, u64), i64>
    decreases items.len(),
{
    if items.len() == 0 {
        Turn::Continue((0i128, 0u64))
    } else {
        match tally_after(items.drop_last()) {
            Turn::Continue(tally) => average_step(tally, Signal::Item(items.last())),
            concluded => concluded,
        }
    }
}

/// The one message of a worker that took `items` and then saw its channel
/// closed.
pub open spec fn average_outcome(items: Seq<i64>) -> Turn<(i128, u64), i64> {
    match tally_after(items) {
        Turn::Continue(tally) => average_step(tally, Signal::Closed),
        concluded => concluded,
    }
}

/// Average yields the sum over the count. For every sequence of at least one
/// item (and no more than the counter can count), the worker ends with one
/// item: the sum of the sequence divided by its length.
pub proof fn law_average_is_sum_over_count(items: Seq<i64>)
    requires
        0 < items.len() <= u64::MAX,
    ensures
        average_outcome(items) == Turn::<(i128, u64), i64>::Conclude(
            Ok(quotient(total(items), items.len() as int) as i64),
        ),
        i64::MIN <= quotient(total(items), items.len() as int) <= i64::MAX,
{
    lemma_tally_after(items);
    lemma_quotient_bounds(total(items), items.len() as int);
}

/// Average of nothing is a failure of its own, not a division by zero.
pub proof fn law_average_of_nothing()
    ensures
        average_outcome(Seq::<i64>::empty()) == Turn::<(i128, u64), i64>::Conclude(
            Err(TransportError::EmptyAverage),
        ),
{
}

/// Running average again gives the same result. Two runs over the same
/// items, arriving in whatever order each time, end with the same message.
pub proof fn law_average_rerun_same_result(first: Seq<i64>, second: Seq<i64>)
    requires
        first.to_multiset() == second.to_multiset(),
        first.len() <= u64::MAX,
    ensures
        average_outcome(first) == average_outcome(second),
{
    lemma_same_items_len(first, second);
    lemma_total_of_same_items(first, second);
    lemma_tally_after(first);
    lemma_tally_after(second);
}

proof fn lemma_total_of_same_items(first: Seq<i64>, second: Seq<i64>)
    requires
        first.to_multiset() == second.to_multiset(),
    ensures
        total(first) == total(second),
    decreases first.len(),
{
    lemma_same_items_len(first, second);
    if first.len() > 0 {
        let at = lemma_same_items_step(first, second);
        lemma_total_of_same_items(first.drop_last(), second.remove(at));
        lemma_total_remove(second, at);
    }
}

proof fn lemma_total_remove(items: Seq<i64>, at: int)
    requires
        0 <= at < items.len(),
    ensures
        total(items) == total(items.remove(at)) + items[at],
    decreases items.len(),
{
    if at == items.len() - 1 {
        assert(items.remove(at) =~= items.drop_last());
    } else {
        lemma_total_remove(items.drop_last(), at);
        assert(items.remove(at).drop_last() =~= items.drop_last().remove(at));
        assert(items.remove(at).last() == items.last());
    }
}

proof fn lemma_tally_after(items: Seq<i64>)
    requires
        items.len() <= u64::MAX,
    ensures
        tally_after(items) == Turn::<(i128, u64), i64>::Continue(
            (total(items) as i128, items.len() as u64),
        ),
        -items.len() * 0x8000_0000_0000_0000 <= total(items) <= items.len()
            * 0x7fff_ffff_ffff_ffff,
    decreases items.len(),
{
    if items.len() > 0 {
        lemma_tally_after(items.drop_last());
    }
}

} // verus!
