use async_heapless::{Oneshot, Poll};
use std::sync::atomic::{AtomicUsize, Ordering};
use std::sync::Arc;
use std::task::{Wake, Waker};

struct Counter(AtomicUsize);

impl Wake for Counter {
    fn wake(self: Arc<Self>) {
        self.0.fetch_add(1, Ordering::SeqCst);
    }
}

impl Counter {
    fn new() -> (Arc<Counter>, Waker) {
        let counter = Arc::new(Counter(AtomicUsize::new(0)));
        (counter.clone(), Waker::from(counter))
    }

    fn get(&self) -> usize {
        self.0.load(Ordering::SeqCst)
    }
}

fn is_pending<T>(poll: Poll<T>) -> bool {
    matches!(poll, Poll::Pending)
}

#[test]
fn put_then_take() {
    let mut oneshot = Oneshot::new();
    assert!(oneshot.is_empty());
    assert_eq!(oneshot.take(), None);
    oneshot.put(7u8);
    assert!(!oneshot.is_empty());
    assert_eq!(oneshot.take(), Some(7));
    assert!(oneshot.is_empty());
    assert_eq!(oneshot.take(), None);
}

#[test]
fn send_then_receive() {
    let (counter, waker) = Counter::new();
    let mut oneshot = Oneshot::new();
    let (sender, mut receiver) = oneshot.split();
    sender.send(&mut oneshot, "message");
    assert!(matches!(receiver.poll(&mut oneshot, &waker), Poll::Ready("message")));
    assert!(oneshot.is_empty());
    assert_eq!(counter.get(), 0);
    receiver.drop(&mut oneshot);
}

#[test]
fn receiver_is_notified_once() {
    let (counter, waker) = Counter::new();
    let mut oneshot = Oneshot::new();
    let (sender, mut receiver) = oneshot.split();
    assert!(is_pending(receiver.poll(&mut oneshot, &waker)));
    assert!(is_pending(receiver.poll(&mut oneshot, &waker)));
    assert_eq!(counter.get(), 0);
    sender.send(&mut oneshot, 1);
    assert_eq!(counter.get(), 1);
    assert!(matches!(receiver.poll(&mut oneshot, &waker), Poll::Ready(1)));
    assert!(is_pending(receiver.poll(&mut oneshot, &waker)));
    assert_eq!(counter.get(), 1);
}

#[test]
fn latest_task_is_notified() {
    let (old, waker_old) = Counter::new();
    let (new, waker_new) = Counter::new();
    let mut oneshot = Oneshot::new();
    let (sender, mut receiver) = oneshot.split();
    assert!(is_pending(receiver.poll(&mut oneshot, &waker_old)));
    assert!(is_pending(receiver.poll(&mut oneshot, &waker_new)));
    sender.send(&mut oneshot, ());
    assert_eq!((old.get(), new.get()), (0, 1));
}

#[test]
fn notified_only_for_the_next_message() {
    let (counter, waker) = Counter::new();
    let mut oneshot = Oneshot::new();
    let mut receiver = oneshot.recv();
    assert!(is_pending(receiver.poll(&mut oneshot, &waker)));
    receiver.drop(&mut oneshot);
    oneshot.put(1);
    assert_eq!(oneshot.take(), Some(1));
    oneshot.put(2);
    assert_eq!(oneshot.take(), Some(2));
    assert_eq!(counter.get(), 1);
}

#[test]
fn dropping_the_receiver_drops_the_message() {
    let message = Arc::new(());
    let mut oneshot = Oneshot::new();
    let (sender, receiver) = oneshot.split();
    sender.send(&mut oneshot, message.clone());
    assert_eq!(Arc::strong_count(&message), 2);
    receiver.drop(&mut oneshot);
    assert_eq!(Arc::strong_count(&message), 1);
    assert!(oneshot.is_empty());
}

#[test]
fn splitting_drops_the_message() {
    let message = Arc::new(());
    let mut oneshot = Oneshot::new();
    oneshot.put(message.clone());
    let (sender, receiver) = oneshot.split();
    assert_eq!(Arc::strong_count(&message), 1);
    assert!(oneshot.is_empty());
    sender.drop(&mut oneshot);
    receiver.drop(&mut oneshot);
    oneshot.put(message.clone());
    assert!(!oneshot.is_empty());
}

#[test]
fn dropping_the_oneshot_drops_the_message() {
    let message = Arc::new(());
    let mut oneshot = Oneshot::new();
    oneshot.put(message.clone());
    drop(oneshot);
    assert_eq!(Arc::strong_count(&message), 1);
}

#[test]
fn a_oneshot_can_be_used_again() {
    let (_, waker) = Counter::new();
    let mut oneshot = Oneshot::new();
    for round in 0..3 {
        let (sender, mut receiver) = oneshot.split();
        assert!(is_pending(receiver.poll(&mut oneshot, &waker)));
        sender.send(&mut oneshot, round);
        assert!(matches!(receiver.poll(&mut oneshot, &waker), Poll::Ready(got) if got == round));
        receiver.drop(&mut oneshot);
    }
}

#[test]
fn handles_made_one_by_one() {
    let (_, waker) = Counter::new();
    let mut oneshot = Oneshot::new();
    let mut receiver = oneshot.recv();
    oneshot.put(1);
    assert!(matches!(receiver.poll(&mut oneshot, &waker), Poll::Ready(1)));
    let sender = oneshot.send();
    sender.send(&mut oneshot, 2);
    assert!(matches!(receiver.poll(&mut oneshot, &waker), Poll::Ready(2)));
}

#[test]
fn fill_hands_the_waker_over() {
    let (counter, waker) = Counter::new();
    let mut oneshot = Oneshot::new();
    assert!(oneshot.fill(1).is_none());
    assert_eq!(oneshot.take(), Some(1));
    let mut receiver = oneshot.recv();
    assert!(is_pending(receiver.poll(&mut oneshot, &waker)));
    let handed_over = oneshot.fill(2).unwrap();
    assert_eq!(counter.get(), 0);
    handed_over.wake();
    assert_eq!(counter.get(), 1);
    assert!(matches!(receiver.poll(&mut oneshot, &waker), Poll::Ready(2)));
}

#[test]
fn fill_takes_the_waker_off() {
    let (counter, waker) = Counter::new();
    let mut oneshot = Oneshot::new();
    let mut receiver = oneshot.recv();
    assert!(is_pending(receiver.poll(&mut oneshot, &waker)));
    receiver.drop(&mut oneshot);
    assert!(oneshot.fill(1).is_some());
    assert_eq!(oneshot.take(), Some(1));
    oneshot.put(2);
    assert_eq!(counter.get(), 0);
}

#[test]
fn each_message_is_handed_out_or_dropped_once() {
    let (_, waker) = Counter::new();
    let messages: Vec<Arc<()>> = (0..4).map(|_| Arc::new(())).collect();
    let counts = |expected: [usize; 4]| {
        for (message, count) in messages.iter().zip(expected) {
            assert_eq!(Arc::strong_count(message), count);
        }
    };
    let mut oneshot = Oneshot::new();
    let (sender, mut receiver) = oneshot.split();
    sender.send(&mut oneshot, messages[0].clone());
    let got = match receiver.poll(&mut oneshot, &waker) {
        Poll::Ready(message) => message,
        Poll::Pending => panic!("pending"),
    };
    oneshot.put(messages[1].clone());
    counts([2, 2, 1, 1]);
    receiver.drop(&mut oneshot);
    counts([2, 1, 1, 1]);
    oneshot.put(messages[2].clone());
    let (sender, _receiver) = oneshot.split();
    counts([2, 1, 1, 1]);
    sender.send(&mut oneshot, messages[3].clone());
    counts([2, 1, 1, 2]);
    drop(oneshot);
    counts([2, 1, 1, 1]);
    drop(got);
    counts([1, 1, 1, 1]);
}
