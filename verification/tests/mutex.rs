use async_heapless::mutex::{Guard, Lock};
use async_heapless::{Mutex, Poll};
use std::sync::atomic::{AtomicUsize, Ordering};
use std::sync::Arc;
use std::task::{Wake, Waker};

struct Counter(AtomicUsize);

impl Wake for Counter {
    fn wake(self: Arc<Self>) {
        self.0.fetch_add(1, Ordering::SeqCst);
    }
}

impl Counter {
    fn new() -> (Arc<Counter>, Waker) {
        let counter = Arc::new(Counter(AtomicUsize::new(0)));
        (counter.clone(), Waker::from(counter))
    }

    fn get(&self) -> usize {
        self.0.load(Ordering::SeqCst)
    }
}

fn ready<T>(poll: Poll<Guard<T>>) -> Guard<T> {
    match poll {
        Poll::Ready(guard) => guard,
        Poll::Pending => panic!("pending"),
    }
}

fn is_pending<T>(poll: Poll<Guard<T>>) -> bool {
    matches!(poll, Poll::Pending)
}

#[test]
fn free_mutex_is_granted_at_once() {
    let (counter, waker) = Counter::new();
    let mut mutex = Mutex::new(5u32);
    let mut lock = mutex.lock();
    assert!(lock.can_poll(&mutex));
    let guard = ready(lock.poll(&mut mutex, &waker));
    assert_eq!(*guard.deref(&mutex), 5);
    assert!(guard.drop(&mut mutex).is_none());
    assert_eq!(counter.get(), 0);
}

#[test]
fn what_a_guard_writes_the_next_reads() {
    let (_, waker) = Counter::new();
    let mut mutex = Mutex::new(1u32);
    let mut first = mutex.lock();
    let mut guard = ready(first.poll(&mut mutex, &waker));
    *guard.deref_mut(&mut mutex) += 41;
    let _ = guard.drop(&mut mutex);
    let mut second = mutex.lock();
    let guard = ready(second.poll(&mut mutex, &waker));
    assert_eq!(*guard.deref(&mutex), 42);
    let _ = guard.drop(&mut mutex);
}

#[test]
fn only_one_guard_at_a_time() {
    let (_, waker) = Counter::new();
    let mut mutex = Mutex::new(());
    let mut first = mutex.lock();
    let mut second = mutex.lock();
    let guard = ready(first.poll(&mut mutex, &waker));
    assert!(is_pending(second.poll(&mut mutex, &waker)));
    assert!(is_pending(second.poll(&mut mutex, &waker)));
    let _ = guard.drop(&mut mutex);
    let guard = ready(second.poll(&mut mutex, &waker));
    // A future that was given its guard queues again when it is polled again.
    assert!(is_pending(first.poll(&mut mutex, &waker)));
    assert!(is_pending(second.poll(&mut mutex, &waker)));
    let _ = guard.drop(&mut mutex);
    let guard = ready(first.poll(&mut mutex, &waker));
    let _ = guard.drop(&mut mutex);
    let guard = ready(second.poll(&mut mutex, &waker));
    let _ = guard.drop(&mut mutex);
}

#[test]
fn turns_go_in_order_of_first_poll() {
    let (one, waker_one) = Counter::new();
    let (two, waker_two) = Counter::new();
    let (three, waker_three) = Counter::new();
    let mut mutex = Mutex::new(());
    let mut three_lock = mutex.lock();
    let mut one_lock = mutex.lock();
    let mut two_lock = mutex.lock();
    let mut first = mutex.lock();
    let guard = ready(first.poll(&mut mutex, &waker_one));
    assert!(is_pending(one_lock.poll(&mut mutex, &waker_one)));
    assert!(is_pending(two_lock.poll(&mut mutex, &waker_two)));
    assert!(is_pending(three_lock.poll(&mut mutex, &waker_three)));

    guard.drop(&mut mutex).unwrap().wake();
    assert_eq!((one.get(), two.get(), three.get()), (1, 0, 0));
    assert!(is_pending(two_lock.poll(&mut mutex, &waker_two)));
    let guard = ready(one_lock.poll(&mut mutex, &waker_one));

    guard.drop(&mut mutex).unwrap().wake();
    assert_eq!((one.get(), two.get(), three.get()), (1, 1, 0));
    assert!(is_pending(three_lock.poll(&mut mutex, &waker_three)));
    let guard = ready(two_lock.poll(&mut mutex, &waker_two));

    guard.drop(&mut mutex).unwrap().wake();
    assert_eq!((one.get(), two.get(), three.get()), (1, 1, 1));
    let guard = ready(three_lock.poll(&mut mutex, &waker_three));
    assert!(guard.drop(&mut mutex).is_none());
}

#[test]
fn latest_waker_is_called() {
    let (old, waker_old) = Counter::new();
    let (new, waker_new) = Counter::new();
    let mut mutex = Mutex::new(());
    let mut first = mutex.lock();
    let mut second = mutex.lock();
    let guard = ready(first.poll(&mut mutex, &waker_old));
    assert!(is_pending(second.poll(&mut mutex, &waker_old)));
    assert!(is_pending(second.poll(&mut mutex, &waker_new)));
    guard.drop(&mut mutex).unwrap().wake();
    assert_eq!((old.get(), new.get()), (0, 1));
}

#[test]
fn wakers_are_kept_until_called_and_then_released() {
    let (counter, waker) = Counter::new();
    let mut mutex = Mutex::new(());
    let mut first = mutex.lock();
    let mut second = mutex.lock();
    let guard = ready(first.poll(&mut mutex, &waker));
    assert!(is_pending(second.poll(&mut mutex, &waker)));
    // The counter is held by the test, by `waker` and by the clone in the slot.
    assert_eq!(Arc::strong_count(&counter), 3);
    drop(guard.drop(&mut mutex));
    assert_eq!(Arc::strong_count(&counter), 2);
    let guard = ready(second.poll(&mut mutex, &waker));
    assert_eq!(Arc::strong_count(&counter), 2);
    let _ = guard.drop(&mut mutex);
}

#[test]
fn dropped_futures_are_passed_over() {
    let (counter, waker) = Counter::new();
    let (last, waker_last) = Counter::new();
    let mut mutex = Mutex::new(());
    let mut first = mutex.lock();
    let guard = ready(first.poll(&mut mutex, &waker));
    let mut dropped: Vec<Lock<()>> = Vec::new();
    for _ in 0..5 {
        let mut lock = mutex.lock();
        assert!(is_pending(lock.poll(&mut mutex, &waker)));
        dropped.push(lock);
    }
    let mut survivor = mutex.lock();
    assert!(is_pending(survivor.poll(&mut mutex, &waker_last)));
    for lock in dropped {
        lock.drop(&mut mutex);
    }
    assert_eq!(Arc::strong_count(&counter), 2);
    guard.drop(&mut mutex).unwrap().wake();
    assert_eq!((counter.get(), last.get()), (0, 1));
    let _ = ready(survivor.poll(&mut mutex, &waker_last)).drop(&mut mutex);
}

#[test]
fn all_waiting_futures_dropped() {
    let (_, waker) = Counter::new();
    let mut mutex = Mutex::new(());
    let mut first = mutex.lock();
    let guard = ready(first.poll(&mut mutex, &waker));
    for _ in 0..15 {
        let mut lock = mutex.lock();
        assert!(is_pending(lock.poll(&mut mutex, &waker)));
        lock.drop(&mut mutex);
    }
    let full = mutex.lock();
    assert!(!full.can_poll(&mutex));
    assert!(guard.drop(&mut mutex).is_none());
    let mut next = mutex.lock();
    let _ = ready(next.poll(&mut mutex, &waker)).drop(&mut mutex);
}

#[test]
fn dropping_a_future_that_was_not_polled_changes_nothing() {
    let (_, waker) = Counter::new();
    let mut mutex = Mutex::new(());
    let unused = mutex.lock();
    unused.drop(&mut mutex);
    let mut lock = mutex.lock();
    let _ = ready(lock.poll(&mut mutex, &waker)).drop(&mut mutex);
}

#[test]
fn a_turn_that_is_not_taken_is_not_passed_on() {
    let (_, waker) = Counter::new();
    let mut mutex = Mutex::new(());
    let mut first = mutex.lock();
    let mut second = mutex.lock();
    let mut third = mutex.lock();
    let guard = ready(first.poll(&mut mutex, &waker));
    assert!(is_pending(second.poll(&mut mutex, &waker)));
    assert!(guard.drop(&mut mutex).is_some());
    second.drop(&mut mutex);
    assert!(is_pending(third.poll(&mut mutex, &waker)));
    assert!(is_pending(third.poll(&mut mutex, &waker)));
}

#[test]
fn sixteen_slots() {
    let (_, waker) = Counter::new();
    let mut mutex = Mutex::new(());
    let mut locks: Vec<Lock<()>> = Vec::new();
    let mut first = mutex.lock();
    let guard = ready(first.poll(&mut mutex, &waker));
    for _ in 0..15 {
        let mut lock = mutex.lock();
        assert!(lock.can_poll(&mutex));
        assert!(is_pending(lock.poll(&mut mutex, &waker)));
        locks.push(lock);
    }
    let seventeenth = mutex.lock();
    assert!(!seventeenth.can_poll(&mutex));
    assert!(locks[0].can_poll(&mutex));
    let _ = guard.drop(&mut mutex);
    assert!(seventeenth.can_poll(&mutex));
}

#[test]
fn the_queue_goes_round() {
    let (counter, waker) = Counter::new();
    let mut mutex = Mutex::new(0u32);
    let mut holder = mutex.lock();
    let mut guard = ready(holder.poll(&mut mutex, &waker));
    for turn in 0..100 {
        let mut waiting = mutex.lock();
        assert!(is_pending(waiting.poll(&mut mutex, &waker)));
        *guard.deref_mut(&mut mutex) += 1;
        guard.drop(&mut mutex).unwrap().wake();
        assert_eq!(counter.get(), turn + 1);
        guard = ready(waiting.poll(&mut mutex, &waker));
    }
    assert_eq!(*guard.deref(&mutex), 100);
    assert!(guard.drop(&mut mutex).is_none());
}

#[test]
fn a_future_that_was_given_its_guard_waits_behind_it() {
    let (_, waker) = Counter::new();
    let mut mutex = Mutex::new(());
    let mut lock = mutex.lock();
    let guard = ready(lock.poll(&mut mutex, &waker));
    assert!(is_pending(lock.poll(&mut mutex, &waker)));
    assert!(guard.drop(&mut mutex).is_some());
    assert!(ready(lock.poll(&mut mutex, &waker)).drop(&mut mutex).is_none());
}

#[test]
fn of_two_waiting_futures_the_earlier_is_served() {
    let (_, waker) = Counter::new();
    let mut mutex = Mutex::new(());
    let mut holder = mutex.lock();
    let mut earlier = mutex.lock();
    let mut later = mutex.lock();
    let guard = ready(holder.poll(&mut mutex, &waker));
    assert!(is_pending(earlier.poll(&mut mutex, &waker)));
    assert!(is_pending(later.poll(&mut mutex, &waker)));
    assert!(guard.drop(&mut mutex).is_some());
    assert!(is_pending(later.poll(&mut mutex, &waker)));
    assert!(ready(earlier.poll(&mut mutex, &waker)).drop(&mut mutex).is_some());
    assert!(ready(later.poll(&mut mutex, &waker)).drop(&mut mutex).is_none());
}

#[test]
fn waiting_and_cancelling_leave_the_value_alone() {
    let (_, waker) = Counter::new();
    let mut mutex = Mutex::new(1u32);
    let mut first = mutex.lock();
    let mut second = mutex.lock();
    let mut third = mutex.lock();
    let mut guard = ready(first.poll(&mut mutex, &waker));
    *guard.deref_mut(&mut mutex) = 2;
    assert!(is_pending(second.poll(&mut mutex, &waker)));
    assert!(is_pending(third.poll(&mut mutex, &waker)));
    second.drop(&mut mutex);
    assert_eq!(*guard.deref(&mutex), 2);
    *guard.deref_mut(&mut mutex) = 3;
    assert!(guard.drop(&mut mutex).is_some());
    let guard = ready(third.poll(&mut mutex, &waker));
    assert_eq!(*guard.deref(&mutex), 3);
    assert!(guard.drop(&mut mutex).is_none());
}
