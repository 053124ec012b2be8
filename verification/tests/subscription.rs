use rx_streams::create::create;
use rx_streams::from_iter::from_iter;
use rx_streams::observable::subscribe_turn;
use rx_streams::observable::Delivery;
use rx_streams::observable::Observable;
use rx_streams::observer::Observer;
use rx_streams::transport::Message;
use rx_streams::transport::Signal;
use rx_streams::transport::TransportError;
use std::sync::atomic::AtomicI32;
use std::sync::atomic::Ordering;
use std::sync::mpsc;
use std::sync::mpsc::Receiver;
use std::sync::mpsc::Sender;
use std::sync::Arc;

/// Reads the channel to its end as the consumer of a subscription does and
/// hands every item to `f`; a failure of the run is returned.
fn consume<T, F: FnMut(T)>(incoming: Receiver<Message<T>>, mut f: F) -> Result<(), TransportError> {
    loop {
        match subscribe_turn(Signal::from_received(incoming.recv().ok())) {
            Delivery::Hand(item) => f(item),
            Delivery::Fatal(e) => return Err(e),
            Delivery::Done => return Ok(()),
        }
    }
}

#[test]
fn it_creates() {
    let collector = Arc::new(AtomicI32::new(0));
    let collector_c = collector.clone();
    let source = create(|sender: Sender<Message<i32>>| {
        sender.next(1).unwrap();
        sender.next(2).unwrap();
        sender.next(3).unwrap();
    });
    let (outgoing, incoming) = mpsc::channel::<Message<i32>>();
    let mut create_function = source.create_function;
    create_function(outgoing);
    let ended = consume(incoming, move |v: i32| {
        collector.fetch_add(v, Ordering::Relaxed);
    });
    assert_eq!(ended, Ok(()));
    assert_eq!(collector_c.load(Ordering::Relaxed), 6);
}

#[test]
fn create_it_can_mut_access_external_state() {
    let collector = Arc::new(AtomicI32::new(0));
    let collector_c = collector.clone();
    let mut _test = 0;
    let source = create(move |sender: Sender<Message<i32>>| {
        sender.next(1).unwrap();
        sender.next(2).unwrap();
        sender.next(3).unwrap();
        let _test2 = &mut _test;
        assert_eq!(*_test2, 0);
    });
    let (outgoing, incoming) = mpsc::channel::<Message<i32>>();
    let mut create_function = source.create_function;
    create_function(outgoing);
    let ended = consume(incoming, move |v: i32| {
        collector.fetch_add(v, Ordering::Relaxed);
    });
    assert_eq!(ended, Ok(()));
    assert_eq!(collector_c.load(Ordering::Relaxed), 6);
}

#[test]
fn observable_it_can_mut_access_external_state() {
    let collector = Arc::new(AtomicI32::new(0));
    let collector_c = collector.clone();
    let mut _test = 0;
    let source = from_iter(0..10);
    let (outgoing, incoming) = mpsc::channel::<Message<i32>>();
    for v in source.iter {
        outgoing.next(v).unwrap();
    }
    drop(outgoing);
    let ended = consume(incoming, move |v: i32| {
        let _test2 = &mut _test;
        collector.fetch_add(v, Ordering::Relaxed);
    });
    assert_eq!(ended, Ok(()));
    assert_eq!(collector_c.load(Ordering::Relaxed), 45);
}

#[test]
fn a_failure_ends_the_subscription_and_is_raised() {
    let (outgoing, incoming) = mpsc::channel::<Message<i32>>();
    outgoing.next(1).unwrap();
    outgoing.error(TransportError::Origin(String::from("broken pipe"))).unwrap();
    outgoing.next(2).unwrap();
    drop(outgoing);
    let mut handed: Vec<i32> = Vec::new();
    let ended = consume(incoming, |v: i32| handed.push(v));
    assert_eq!(handed, vec![1]);
    let failure = ended.unwrap_err();
    assert_eq!(failure.message(), "broken pipe");
    assert_eq!(
        failure,
        TransportError::Relayed(Box::new(TransportError::Origin(String::from("broken pipe"))))
    );
}

#[test]
fn the_consumer_hands_on_items_and_stops_at_the_end() {
    assert!(matches!(subscribe_turn(Signal::Item(9)), Delivery::Hand(9)));
    assert!(matches!(subscribe_turn(Signal::<i32>::Closed), Delivery::Done));
    match subscribe_turn(Signal::<i32>::Failure(TransportError::EmptyAverage)) {
        Delivery::Fatal(e) => assert_eq!(e, TransportError::EmptyAverage),
        _ => panic!("a failure is fatal"),
    }
}

#[test]
fn combinators_wrap_the_stage_they_are_called_on() {
    let pipeline = from_iter(1..4)
        .map(|v: i32| v * 10)
        .filter(|v: &i32| *v > 10)
        .reduce(5, |c: i32, v: i32| c - v);
    assert_eq!(pipeline.collector, 5);
    assert_eq!((pipeline.func)(5, 3), 2);
    assert!((pipeline.source.func)(&11));
    assert!(!(pipeline.source.func)(&10));
    assert_eq!((pipeline.source.source.func)(4), 40);
    let items: Vec<i32> = pipeline.source.source.source.iter.collect();
    assert_eq!(items, vec![1, 2, 3]);
}

#[test]
fn builders_start_from_an_empty_state() {
    let grouped = from_iter(0..3).group_by(|v: &i32| *v);
    assert!(grouped.channel_store.is_empty());
    let averaged = from_iter(0..3).map(i64::from).average();
    assert_eq!(averaged.collector, 0);
    assert_eq!(averaged.count, 0);
    let windowed = from_iter(0..3).sliding_window(23, 59, |v: &i32| *v as u128);
    assert_eq!(windowed.interval, 23);
    assert_eq!(windowed.window_size, 59);
    assert!(windowed.buffer.is_empty());
    assert_eq!((windowed.time_function)(&7), 7);
    let merged = from_iter(0..2).merge(from_iter(5..7));
    assert_eq!(merged.source1.iter.collect::<Vec<i32>>(), vec![0, 1]);
    assert_eq!(merged.source2.iter.collect::<Vec<i32>>(), vec![5, 6]);
}
