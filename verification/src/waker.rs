//! The wakers that the primitives store, and what is trusted of them.
use core::task::Waker;
use futures::task::AtomicWaker;
use vstd::prelude::*;

verus! {

/// `core::task::Waker`, carried through unopened.
#[verifier::external_type_specification]
#[verifier::external_body]
pub struct ExWaker(Waker);

/// `futures::task::AtomicWaker`, a cell that holds at most one waker.
#[verifier::external_type_specification]
#[verifier::external_body]
pub struct ExAtomicWaker(AtomicWaker);

/// The task that a waker wakes.
pub uninterp spec fn task(waker: Waker) -> int;

/// The task that a waker wakes, where there is a waker.
pub open spec fn task_of(waker: Option<Waker>) -> Option<int> {
    match waker {
        Some(waker) => Some(task(waker)),
        None => None,
    }
}

/// There is a task to wake exactly where there is a waker, and it is that waker's.
pub proof fn task_of_is_the_task(waker: Option<Waker>)
    ensures
        waker is None <==> task_of(waker) is None,
        waker matches Some(some) ==> task_of(waker) == Some(task(some)),
{
}

/// The task of the waker that an `AtomicWaker` holds, if it holds one.
pub uninterp spec fn registered(cell: AtomicWaker) -> Option<int>;

/// The tasks that an `AtomicWaker` has woken, the earliest first.
pub uninterp spec fn woken(cell: AtomicWaker) -> Seq<int>;

/// `Waker::clone` gives another waker of the same task.
pub assume_specification[ <Waker as Clone>::clone ](waker: &Waker) -> (result: Waker)
    ensures
        task(result) == task(*waker),
;

/// `AtomicWaker::new` gives a cell that holds no waker and has woken nobody.
pub assume_specification[ AtomicWaker::new ]() -> (cell: AtomicWaker)
    ensures
        registered(cell) is None,
        woken(cell) == Seq::<int>::empty(),
;

/// `AtomicWaker::register`, by a caller that no other access to the cell can meet: the cell
/// ends up holding a waker of the given waker's task in place of what it held, and nobody is
/// woken. A waker whose `clone` panics is not covered.
#[verifier::external_body]
pub(crate) fn register(cell: &mut AtomicWaker, waker: &Waker)
    ensures
        registered(*final(cell)) == Some(task(*waker)),
        woken(*final(cell)) == woken(*old(cell)),
{
    cell.register(waker)
}

/// `AtomicWaker::wake`, by a caller that no other access to the cell can meet: the waker that
/// the cell holds is taken out and woken; where it holds none, nothing happens.
#[verifier::external_body]
pub(crate) fn wake(cell: &mut AtomicWaker)
    ensures
        registered(*final(cell)) is None,
        woken(*final(cell)) == match registered(*old(cell)) {
            Some(task) => woken(*old(cell)).push(task),
            None => woken(*old(cell)),
        },
{
    cell.wake()
}

/// `AtomicWaker::take`, by a caller that no other access to the cell can meet: the waker that the
/// cell holds is taken out and handed over, and not woken; where it holds none, nothing happens.
#[verifier::external_body]
pub(crate) fn take(cell: &mut AtomicWaker) -> (waker: Option<Waker>)
    ensures
        task_of(waker) == registered(*old(cell)),
        registered(*final(cell)) is None,
        woken(*final(cell)) == woken(*old(cell)),
{
    cell.take()
}

} // verus!
