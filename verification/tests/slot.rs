use async_heapless::slot::Slot;
use std::sync::atomic::{AtomicUsize, Ordering};
use std::sync::Arc;
use std::task::{Wake, Waker};

struct Counter(AtomicUsize);

impl Wake for Counter {
    fn wake(self: Arc<Self>) {
        self.0.fetch_add(1, Ordering::SeqCst);
    }
}

fn counting() -> (Arc<Counter>, Waker) {
    let counter = Arc::new(Counter(AtomicUsize::new(0)));
    (counter.clone(), Waker::from(counter))
}

#[test]
fn woken_before_ready() {
    let (_, waker) = counting();
    let mut slot = Slot::default();
    let (live, stored) = slot.wake();
    assert!(live && stored.is_none());
    assert!(slot.ready(&waker));
}

#[test]
fn ready_resets_a_woken_slot() {
    let (counter, waker) = counting();
    let mut slot = Slot::default();
    assert!(slot.wake().0);
    assert!(slot.ready(&waker));
    assert_eq!(Arc::strong_count(&counter), 2);
    // The slot dozes again: it is not ready, and it takes a waker.
    assert!(!slot.ready(&waker));
    assert_eq!(Arc::strong_count(&counter), 3);
}

#[test]
fn woken_after_ready() {
    let (counter, waker) = counting();
    let mut slot = Slot::default();
    assert!(!slot.ready(&waker));
    let (live, stored) = slot.wake();
    assert!(live);
    stored.unwrap().wake();
    assert_eq!(counter.0.load(Ordering::SeqCst), 1);
    let (live, stored) = slot.wake();
    assert!(live && stored.is_none());
    assert!(slot.ready(&waker));
}

#[test]
fn woken_in_the_middle_of_ready() {
    let (counter, waker) = counting();
    let mut slot = Slot::default();
    assert!(!slot.doze());
    let (live, stored) = slot.wake();
    assert!(live && stored.is_none());
    assert!(slot.sleep(waker.clone()));
    assert_eq!(Arc::strong_count(&counter), 2);
    assert!(!slot.doze());
}

#[test]
fn ready_replaces_the_waker() {
    let (old, waker_old) = counting();
    let (new, waker_new) = counting();
    let mut slot = Slot::default();
    assert!(!slot.ready(&waker_old));
    assert!(!slot.ready(&waker_new));
    assert_eq!(Arc::strong_count(&old), 2);
    assert_eq!(Arc::strong_count(&new), 3);
    slot.wake().1.unwrap().wake();
    assert_eq!(old.0.load(Ordering::SeqCst), 0);
    assert_eq!(new.0.load(Ordering::SeqCst), 1);
}

#[test]
fn a_dead_slot_cannot_be_woken() {
    let (counter, waker) = counting();
    let mut slot = Slot::default();
    assert!(!slot.ready(&waker));
    slot.kill();
    assert_eq!(Arc::strong_count(&counter), 2);
    let (live, stored) = slot.wake();
    assert!(!live && stored.is_none());
    slot.reset();
    let (live, _) = slot.wake();
    assert!(live);
}

#[test]
fn reset_makes_a_woken_slot_doze() {
    let (counter, waker) = counting();
    let mut slot = Slot::default();
    assert!(slot.wake().0);
    slot.reset();
    assert!(!slot.ready(&waker));
    slot.reset();
    assert_eq!(Arc::strong_count(&counter), 2);
    assert!(!slot.doze());
}
