use rx_streams::observer::Observer;
use rx_streams::transport::dispatch;
use rx_streams::transport::Dispatch;
use rx_streams::transport::Message;
use rx_streams::transport::Signal;
use rx_streams::transport::TransportError;
use rx_streams::utils::delivered;
use rx_streams::utils::forward_messages;
use std::sync::mpsc;

#[test]
fn relay_wraps_once_and_keeps_the_origin() {
    let raised = TransportError::new(String::from("disk on fire"));
    assert_eq!(raised, TransportError::Origin(String::from("disk on fire")));
    let relayed = raised.relay();
    assert_eq!(
        relayed,
        TransportError::Relayed(Box::new(TransportError::Origin(String::from("disk on fire"))))
    );
    let twice = relayed.relay();
    assert_eq!(twice.message(), "disk on fire");
    assert_eq!(twice.into_origin(), TransportError::Origin(String::from("disk on fire")));
}

#[test]
fn every_failure_has_a_text() {
    assert_eq!(TransportError::Origin(String::new()).message(), "");
    assert_eq!(TransportError::EmptyAverage.message(), "average of a stream without items");
    assert_eq!(
        TransportError::CountOverflow.relay().message(),
        "more items than the counter can count"
    );
    assert_eq!(TransportError::EmptyAverage.into_origin(), TransportError::EmptyAverage);
}

#[test]
fn a_receive_reads_as_a_signal() {
    assert!(matches!(Signal::from_received(Some(Ok(7))), Signal::Item(7)));
    let failed: Option<Message<i32>> = Some(Err(TransportError::EmptyAverage));
    assert!(matches!(
        Signal::from_received(failed),
        Signal::Failure(TransportError::EmptyAverage)
    ));
    let closed: Option<Message<i32>> = None;
    assert!(matches!(Signal::from_received(closed), Signal::Closed));
}

#[test]
fn the_dispatcher_launches_relays_and_finishes() {
    assert!(matches!(dispatch(Signal::Item(3)), Dispatch::Launch(3)));
    match dispatch(Signal::<i32>::Failure(TransportError::Origin(String::from("boom")))) {
        Dispatch::Abort(e) => assert_eq!(
            e,
            TransportError::Relayed(Box::new(TransportError::Origin(String::from("boom"))))
        ),
        _ => panic!("a failure must abort the dispatching"),
    }
    assert!(matches!(dispatch(Signal::<i32>::Closed), Dispatch::Finish));
}

#[test]
fn next_sends_an_item_through_the_channel() {
    let (sender, receiver) = mpsc::channel::<Message<i32>>();
    assert!(sender.next(41).is_ok());
    assert!(sender.next(42).is_ok());
    assert_eq!(receiver.recv().unwrap(), Ok(41));
    assert_eq!(receiver.recv().unwrap(), Ok(42));
}

#[test]
fn error_sends_the_failure_wrapped_once() {
    let (sender, receiver) = mpsc::channel::<Message<i32>>();
    assert!(sender.error(TransportError::Origin(String::from("late"))).is_ok());
    assert_eq!(
        receiver.recv().unwrap(),
        Err(TransportError::Relayed(Box::new(TransportError::Origin(String::from("late")))))
    );
}

#[test]
fn a_send_without_receiver_hands_the_message_back() {
    let (sender, receiver) = mpsc::channel::<Message<i32>>();
    drop(receiver);
    let undelivered = sender.next(5).unwrap_err();
    assert_eq!(undelivered.0, Ok(5));
    let undelivered = sender.error(TransportError::EmptyAverage).unwrap_err();
    assert_eq!(undelivered.0, Err(TransportError::Relayed(Box::new(TransportError::EmptyAverage))));
}

#[test]
fn a_worker_goes_on_only_after_a_send_that_arrived() {
    let (sender, receiver) = mpsc::channel::<i32>();
    assert!(delivered(sender.send(1)));
    drop(receiver);
    assert!(!delivered(sender.send(2)));
}

#[test]
fn forwarding_passes_messages_on_unchanged() {
    let (outgoing, downstream) = mpsc::channel::<Message<i32>>();
    assert!(forward_messages(Some(Ok(1)), &outgoing));
    assert!(forward_messages(Some(Err(TransportError::EmptyAverage)), &outgoing));
    assert!(forward_messages(Some(Ok(2)), &outgoing));
    assert!(!forward_messages(None, &outgoing));
    drop(outgoing);
    let received: Vec<Message<i32>> = downstream.iter().collect();
    assert_eq!(received, vec![Ok(1), Err(TransportError::EmptyAverage), Ok(2)]);
}

#[test]
fn forwarding_stops_when_the_receiver_is_gone() {
    let (outgoing, downstream) = mpsc::channel::<Message<i32>>();
    drop(downstream);
    assert!(!forward_messages(Some(Ok(1)), &outgoing));
}
