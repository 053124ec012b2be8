use rx_streams::filter::filter_item;
use rx_streams::from_iter::from_iter;
use rx_streams::map::map_item;
use rx_streams::observable::Observable;
use rx_streams::reduce::reduce_turn;
use rx_streams::transport::dispatch;
use rx_streams::transport::Dispatch;
use rx_streams::transport::Message;
use rx_streams::transport::Signal;
use rx_streams::transport::TransportError;
use rx_streams::transport::Turn;

/// Runs the dispatcher over the signals and every launched task at once,
/// in the order of launch; returns what is sent downstream.
fn run_tasks<T, U, Task: Fn(T) -> Option<U>>(task: Task, signals: Vec<Signal<T>>) -> Vec<Message<U>> {
    let mut sent: Vec<Message<U>> = Vec::new();
    for signal in signals {
        match dispatch(signal) {
            Dispatch::Launch(item) => {
                if let Some(out) = task(item) {
                    sent.push(Ok(out));
                }
            }
            Dispatch::Abort(e) => {
                sent.push(Err(e));
                return sent;
            }
            Dispatch::Finish => return sent,
        }
    }
    sent
}

fn closing<T>(items: Vec<T>) -> Vec<Signal<T>> {
    let mut signals: Vec<Signal<T>> = items.into_iter().map(Signal::Item).collect();
    signals.push(Signal::Closed);
    signals
}

fn items_of<T>(sent: Vec<Message<T>>) -> Vec<T> {
    sent.into_iter().map(|message: Message<T>| message.unwrap()).collect()
}

#[test]
fn it_maps() {
    let op = from_iter(0..10).map(|v: i32| v + 1);
    let func = op.func;
    let items: Vec<i32> = op.source.iter.collect();
    let sent = run_tasks(|v: i32| Some(map_item(&func, v)), closing(items));
    let mut collector: i32 = 0;
    for v in items_of(sent) {
        assert!(v > 0 && v < 11);
        collector += v;
    }
    assert_eq!(collector, 55);
}

#[test]
fn map_sends_the_image_of_every_item() {
    let double = |v: u8| u16::from(v) * 2;
    let sent = run_tasks(|v: u8| Some(map_item(&double, v)), closing(vec![255, 0, 7, 7]));
    assert_eq!(items_of(sent), vec![510, 0, 14, 14]);
}

#[test]
fn it_filters() {
    let op = from_iter(0..10).filter(|v: &i32| v % 2 == 0);
    let func = op.func;
    let items: Vec<i32> = op.source.iter.collect();
    let sent = run_tasks(|v: i32| filter_item(&func, v), closing(items));
    let mut collector: i32 = 0;
    for v in items_of(sent) {
        assert_eq!(v % 2, 0);
        collector += v;
    }
    assert_eq!(collector, 20);
}

#[test]
fn filter_sends_exactly_the_items_that_satisfy_the_predicate() {
    let small = |v: &i32| *v < 3;
    assert_eq!(filter_item(&small, 2), Some(2));
    assert_eq!(filter_item(&small, 3), None);
    let sent = run_tasks(|v: i32| filter_item(&small, v), closing(vec![5, 1, 1, 9, 2, 3, 1]));
    let mut kept = items_of(sent);
    kept.sort();
    assert_eq!(kept, vec![1, 1, 1, 2]);
}

#[test]
fn filter_of_nothing_sends_nothing() {
    let any = |_: &i32| true;
    let sent = run_tasks(|v: i32| filter_item(&any, v), closing(vec![]));
    assert!(sent.is_empty());
}

#[test]
fn a_failure_is_relayed_and_ends_the_dispatching() {
    let inc = |v: i32| v + 1;
    let signals = vec![
        Signal::Item(1),
        Signal::Failure(TransportError::Origin(String::from("lost"))),
        Signal::Item(2),
        Signal::Closed,
    ];
    let sent = run_tasks(|v: i32| Some(map_item(&inc, v)), signals);
    assert_eq!(
        sent,
        vec![
            Ok(2),
            Err(TransportError::Relayed(Box::new(TransportError::Origin(String::from("lost")))))
        ]
    );
}

#[test]
fn map_and_filter_give_the_same_items_in_any_order_of_arrival() {
    let inc = |v: i32| v + 1;
    let even = |v: &i32| v % 2 == 0;
    let mut first: Vec<i32> = items_of(run_tasks(|v: i32| Some(map_item(&inc, v)), closing(vec![3, 1, 2, 1])));
    let mut second: Vec<i32> = items_of(run_tasks(|v: i32| Some(map_item(&inc, v)), closing(vec![1, 1, 2, 3])));
    first.sort();
    second.sort();
    assert_eq!(first, vec![2, 2, 3, 4]);
    assert_eq!(first, second);
    let mut first: Vec<i32> = items_of(run_tasks(|v: i32| filter_item(&even, v), closing(vec![4, 1, 2, 4])));
    let mut second: Vec<i32> = items_of(run_tasks(|v: i32| filter_item(&even, v), closing(vec![2, 4, 4, 1])));
    first.sort();
    second.sort();
    assert_eq!(first, vec![2, 4, 4]);
    assert_eq!(first, second);
}

/// Runs `from_iter(0..10).map(+1).filter(even).reduce(0, sum)` stage by
/// stage and returns what the last stage sends.
fn run_pipeline() -> Vec<Message<i32>> {
    let pipeline = from_iter(0..10)
        .map(|v: i32| v + 1)
        .filter(|v: &i32| v % 2 == 0)
        .reduce(0, |c: i32, v: i32| c + v);
    let filter = pipeline.source;
    let map = filter.source;
    let source: Vec<i32> = map.source.iter.collect();
    let mapped = run_tasks(|v: i32| Some(map_item(&map.func, v)), closing(source));
    let filtered = run_tasks(|v: i32| filter_item(&filter.func, v), closing(items_of(mapped)));
    let mut collector: i32 = pipeline.collector;
    for signal in closing(items_of(filtered)) {
        match reduce_turn(&pipeline.func, collector, signal) {
            Turn::Continue(next) => collector = next,
            Turn::Conclude(message) => return vec![message],
        }
    }
    Vec::new()
}

#[test]
fn a_pipeline_of_map_filter_and_reduce_sums_the_even_successors() {
    assert_eq!(run_pipeline(), vec![Ok(30)]);
}

#[test]
fn a_rebuilt_pipeline_gives_the_same_results() {
    assert_eq!(run_pipeline(), run_pipeline());
}
