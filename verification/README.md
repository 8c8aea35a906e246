# async-heapless

Async synchronization primitives that need no heap: a mutex and a oneshot channel. They are written
in Verus; every operation states what it does and is proved to do it.

The primitives are for tasks that share one thread. An operation runs to its end before the next
one begins, and takes the primitive that it works on: a `Lock`, `Guard`, `Sender` or `Receiver` is
handed the mutex or the oneshot that it belongs to. A verified caller cannot hand it another one;
other callers have to see to that themselves.

- `src/mutex.rs`, `src/slot.rs`, `src/queue.rs`: the mutex, one place in its queue, and what the
  queue stands for. The mutex calls no waker; who drops a guard is given the waker of the task
  whose turn it is.
- `src/oneshot.rs`: the oneshot channel. `put` calls the waker of the task that waits; `fill` hands
  it to the caller.
- `src/waker.rs`: what is trusted of `core::task::Waker` and of `futures::task::AtomicWaker`.
- `src/mutex_laws.rs`, `src/oneshot_laws.rs`: what holds over any number of calls.
- `src/mutex_steps.rs`, `src/slot_laws.rs`, and the second half of `src/oneshot_laws.rs`: what holds
  when the single steps of several calls are mixed.
- `app/`: the same primitives behind shared references, as futures that can be awaited.
