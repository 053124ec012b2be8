//! SlidingWindow: items are kept in a buffer together with their logical
//! timestamps. On every tick, and once more when the upstream ends, the
//! entries that are older than the window are dropped and a copy of the rest
//! is sent downstream.

use vstd::prelude::*;
use std::time::Duration;
use std::time::SystemTime;
use std::time::UNIX_EPOCH;
use crate::observable::Observable;
use crate::transport::Signal;
use crate::transport::TransportError;

verus! {

/// A point in time or a span of time, in nanoseconds.
pub type Nanos = u128;

/// The buffer of a window: the items in arrival order, each with the
/// timestamp that the time function gave for it. It is not ordered by time.
pub type WindowBuffer<Item> = Vec<(Nanos, Item)>;

/// The stage built by `sliding_window`: an upstream, the period of the
/// ticks, the greatest age of an item, the function that reads the logical
/// timestamp of an item, and the buffer.
pub struct SlidingWindowObservable<Source, Item, TimeFunction> {
    pub source: Source,
    pub interval: Nanos,
    pub window_size: Nanos,
    pub time_function: TimeFunction,
    pub buffer: WindowBuffer<Item>,
}

impl<Source, TimeFunction> Observable for SlidingWindowObservable<
    Source,
    Source::Item,
    TimeFunction,
> where Source: Observable, TimeFunction: Fn(&Source::Item) -> Nanos {
    type Item = Vec<Source::Item>;
}

/// An entry stamped `stamp` is older than the window at time `now`.
pub open spec fn expired(stamp: Nanos, window_size: Nanos, now: Nanos) -> bool {
    stamp + window_size < now
}

/// The entries that survive an eviction at time `now`, in their order.
pub open spec fn survivors<Item>(
    entries: Seq<(Nanos, Item)>,
    window_size: Nanos,
    now: Nanos,
) -> Seq<(Nanos, Item)> {
    entries.filter(|entry: (Nanos, Item)| !expired(entry.0, window_size, now))
}

/// `window` is a copy of the items of `entries`, in order.
pub open spec fn copies<Item: Clone>(entries: Seq<(Nanos, Item)>, window: Seq<Item>) -> bool {
    &&& window.len() == entries.len()
    &&& forall|i: int| 0 <= i < entries.len() ==> cloned(entries[i].1, #[trigger] window[i])
}

/// Whether an entry is older than the window; the sum is taken without
/// overflow.
pub fn is_expired(stamp: Nanos, window_size: Nanos, now: Nanos) -> (old: bool)
    ensures
        old == expired(stamp, window_size, now),
{
    match stamp.checked_add(window_size) {
        Some(deadline) => deadline < now,
        None => false,
    }
}

/// Drops every entry that is older than the window at time `now`; the rest
/// keep their order.
pub fn evict<Item>(buffer: &mut WindowBuffer<Item>, window_size: Nanos, now: Nanos)
    ensures
        final(buffer)@ == survivors(old(buffer)@, window_size, now),
        forall|i: int|
            0 <= i < final(buffer)@.len() ==> !expired(
                (#[trigger] final(buffer)@[i]).0,
                window_size,
                now,
            ),
{
    let ghost entries = buffer@;
    let ghost keep = |entry: (Nanos, Item)| !expired(entry.0, window_size, now);
    let mut i: usize = 0;
    let ghost mut seen: int = 0;
    proof {
        reveal(Seq::filter);
        assert(entries.take(0).filter(keep) =~= Seq::<(Nanos, Item)>::empty());
        assert(buffer@.take(0) =~= Seq::<(Nanos, Item)>::empty());
        assert(buffer@.skip(0) =~= entries.skip(0));
    }
    while i < buffer.len()
        invariant
            0 <= seen <= entries.len(),
            i <= buffer@.len(),
            buffer@.len() - i == entries.len() - seen,
            buffer@.take(i as int) == entries.take(seen).filter(keep),
            buffer@.skip(i as int) == entries.skip(seen),
            keep == |entry: (Nanos, Item)| !expired(entry.0, window_size, now),
        decreases buffer@.len() - i,
    {
        let ghost before = buffer@;
        assert(before[i as int] == before.skip(i as int)[0]);
        assert(entries[seen] == entries.skip(seen)[0]);
        proof {
            reveal(Seq::filter);
            assert(entries.take(seen + 1).drop_last() =~= entries.take(seen));
            assert(entries.take(seen + 1).last() == entries[seen]);
        }
        if is_expired(buffer[i].0, window_size, now) {
            buffer.remove(i);
            proof {
                assert(buffer@.take(i as int) =~= before.take(i as int));
                assert(buffer@.skip(i as int) =~= before.skip(i as int).skip(1));
                assert(entries.skip(seen).skip(1) =~= entries.skip(seen + 1));
                seen = seen + 1;
            }
        } else {
            proof {
                assert(buffer@.take(i + 1) =~= before.take(i as int).push(before[i as int]));
                assert(buffer@.skip(i + 1) =~= before.skip(i as int).skip(1));
                assert(entries.skip(seen).skip(1) =~= entries.skip(seen + 1));
                seen = seen + 1;
            }
            i += 1;
        }
    }
    proof {
        assert(buffer@.take(i as int) =~= buffer@);
        assert(entries.take(seen) =~= entries);
        broadcast use vstd::seq_lib::group_filter_ensures;
    }
}

/// A copy of the items in the buffer, in order.
pub fn snapshot<Item: Clone>(buffer: &WindowBuffer<Item>) -> (window: Vec<Item>)
    ensures
        copies(buffer@, window@),
{
    let mut window: Vec<Item> = Vec::new();
    let mut i: usize = 0;
    while i < buffer.len()
        invariant
            i <= buffer.len(),
            window@.len() == i,
            forall|j: int| 0 <= j < i ==> cloned(buffer@[j].1, #[trigger] window@[j]),
        decreases buffer.len() - i,
    {
        window.push(buffer[i].1.clone());
        i += 1;
    }
    window
}

/// One tick at time `now`: evicts, then returns the window to send
/// downstream. No item of the window is older than the window size.
pub fn window_tick<Item: Clone>(
    buffer: &mut WindowBuffer<Item>,
    window_size: Nanos,
    now: Nanos,
) -> (window: Vec<Item>)
    ensures
        final(buffer)@ == survivors(old(buffer)@, window_size, now),
        copies(final(buffer)@, window@),
        forall|i: int|
            0 <= i < final(buffer)@.len() ==> !expired(
                (#[trigger] final(buffer)@[i]).0,
                window_size,
                now,
            ),
{
    evict(buffer, window_size, now);
    snapshot(buffer)
}

/// What the ingestion worker decides on one signal.
pub enum Ingestion<Item> {
    /// The item is in the buffer; go on receiving.
    Buffered,
    /// The upstream ended. Send `window`, stop the ticks, then send
    /// `failure` if there is one, and stop.
    Closing { window: Vec<Item>, failure: Option<TransportError> },
}

/// One turn of the ingestion worker, at time `now`.
///
/// An item is stamped by the time function and appended to the buffer. When
/// the upstream ends, closed or failed, the buffer is evicted one last time
/// and its window returned; a failure is relayed once and follows the
/// window.
pub fn window_turn<Item: Clone, TF: Fn(&Item) -> Nanos>(
    time_function: &TF,
    buffer: &mut WindowBuffer<Item>,
    window_size: Nanos,
    now: Nanos,
    signal: Signal<Item>,
) -> (turn: Ingestion<Item>)
    requires
        signal matches Signal::Item(item) ==> call_requires(*time_function, (&item,)),
    ensures
        match signal {
            Signal::Item(item) => {
                &&& turn is Buffered
                &&& final(buffer)@.len() == old(buffer)@.len() + 1
                &&& final(buffer)@.drop_last() == old(buffer)@
                &&& final(buffer)@.last().1 == item
                &&& call_ensures(*time_function, (&item,), final(buffer)@.last().0)
            },
            Signal::Failure(e) => {
                &&& final(buffer)@ == survivors(old(buffer)@, window_size, now)
                &&& turn matches Ingestion::Closing { window, failure }
                &&& copies(final(buffer)@, window@)
                &&& failure == Some(TransportError::Relayed(Box::new(e)))
            },
            Signal::Closed => {
                &&& final(buffer)@ == survivors(old(buffer)@, window_size, now)
                &&& turn matches Ingestion::Closing { window, failure }
                &&& copies(final(buffer)@, window@)
                &&& failure is None
            },
        },
{
    match signal {
        Signal::Item(item) => {
            let stamp: Nanos = time_function(&item);
            buffer.push((stamp, item));
            assert(buffer@.drop_last() =~= old(buffer)@);
            Ingestion::Buffered
        },
        Signal::Failure(e) => {
            let window = window_tick(buffer, window_size, now);
            Ingestion::Closing { window, failure: Some(e.relay()) }
        },
        Signal::Closed => {
            let window = window_tick(buffer, window_size, now);
            Ingestion::Closing { window, failure: None }
        },
    }
}

/// A reading of the system clock. Nothing inside it is visible to proofs.
#[verifier::external_type_specification]
#[verifier::external_body]
pub struct ExSystemTime(SystemTime);

/// Reads the system clock (`SystemTime::now`). Nothing is claimed of the
/// reading.
#[verifier::external_body]
pub(crate) fn system_now() -> SystemTime {
    SystemTime::now()
}

/// The span from the Unix epoch to `reading` (`SystemTime::duration_since`);
/// `None` for a reading that lies before the epoch. Nothing is claimed of
/// the span.
#[verifier::external_body]
pub(crate) fn since_epoch(reading: SystemTime) -> Option<Duration> {
    reading.duration_since(UNIX_EPOCH).ok()
}

/// The whole nanoseconds of a span (`Duration::as_nanos`). The span is
/// opaque to proofs, so nothing is claimed of the number.
#[verifier::external_body]
pub(crate) fn duration_nanos(span: Duration) -> Nanos {
    span.as_nanos()
}

/// The time since the Unix epoch by the system clock. A clock that is set
/// before the epoch reads as zero.
pub fn get_now_duration() -> Nanos {
    let elapsed: Option<Nanos> = match since_epoch(system_now()) {
        Some(span) => Some(duration_nanos(span)),
        None => None,
    };
    reading_or_zero(elapsed)
}

/// One tick at the time that the system clock shows: reads the clock, then
/// evicts and returns the window as `window_tick` does for that time.
pub fn window_tick_now<Item: Clone>(buffer: &mut WindowBuffer<Item>, window_size: Nanos) -> (window:
    Vec<Item>)
    ensures
        exists|now: Nanos| #[trigger]
            survivors(old(buffer)@, window_size, now) == final(buffer)@,
        copies(final(buffer)@, window@),
{
    let now: Nanos = get_now_duration();
    window_tick(buffer, window_size, now)
}

/// What a reading of the clock counts as: the nanoseconds since the epoch
/// where the clock gave them, zero where the clock is set before the epoch.
pub fn reading_or_zero(elapsed: Option<Nanos>) -> (now: Nanos)
    ensures
        now == match elapsed {
            Some(nanos) => nanos,
            None => 0,
        },
{
    match elapsed {
        Some(nanos) => nanos,
        None => 0,
    }
}

} // verus!
