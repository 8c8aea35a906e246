//! What each operation does to the entries of a queue, one by one, and what it leaves alone.
use crate::queue::{lemma_first_live, QueueView, CAPACITY};
use crate::slot::SlotView;
use vstd::prelude::*;

verus! {

/// A new queue has no entries and no guard is out.
pub proof fn new_queue_has_nobody()
    ensures
        QueueView::empty().entries.len() == 0,
        !QueueView::empty().locked,
        QueueView::empty().wf(),
{
}

/// Positions and slots are two ways to say the same: the slots are taken in turn from the first on,
/// and no two positions share one.
pub proof fn positions_and_slots_agree(queue: QueueView, position: int, slot: int)
    requires
        0 <= queue.first < CAPACITY,
        0 <= position < CAPACITY,
        0 <= slot < CAPACITY,
    ensures
        queue.slot_at(position) == (queue.first + position) % (CAPACITY as int),
        queue.position(slot) == (slot - queue.first) % (CAPACITY as int),
        queue.position(queue.slot_at(position)) == position,
        queue.slot_at(queue.position(slot)) == slot,
{
}

/// Registering adds one entry at the back, which is ready where nobody is before it and has nobody
/// to wake otherwise. It leaves every other entry as it was, and takes a slot that nobody had.
pub proof fn registering_adds_one_at_the_back(queue: QueueView)
    requires
        queue.wf(),
        queue.entries.len() < CAPACITY,
    ensures
        queue.registered().first == queue.first,
        queue.registered().locked == queue.locked,
        queue.registered().entries.len() == queue.entries.len() + 1,
        forall|k: int|
            0 <= k < queue.entries.len() ==> (#[trigger] queue.registered().entries[k])
                == queue.entries[k],
        queue.entries.len() == 0 ==> queue.registered().entries.last() is Waking,
        queue.entries.len() > 0 ==> queue.registered().entries.last() is Dozing,
        !queue.owns((queue.first + queue.entries.len()) % (CAPACITY as int)),
        queue.registered().owns((queue.first + queue.entries.len()) % (CAPACITY as int)),
{
}

/// A future that holds a slot is given the guard exactly where it is at the front and no guard is
/// out; one that holds none, exactly where nobody is before it.
pub proof fn guard_is_given_at_the_front(queue: QueueView, slot: int)
    requires
        queue.wf(),
    ensures
        queue.owns(slot) ==> (queue.grants(Some(slot)) <==> slot == queue.first && !queue.locked),
        queue.entries.len() < CAPACITY ==> (queue.grants(None) <==> queue.entries.len() == 0),
{
}

/// A poll of a future that holds a slot changes the entry for that slot and no other: the entry
/// dozes where the guard is given, and else it holds the task that the future was polled for. No
/// entry comes or goes, a guard that is out stays out, and the future keeps its slot unless it is
/// given the guard.
pub proof fn polling_touches_only_its_own_entry(
    queue: QueueView,
    slot: int,
    task: int,
    position: int,
)
    requires
        queue.wf(),
        queue.owns(slot),
        0 <= position < queue.entries.len(),
    ensures
        ({
            let polled = queue.polled(Some(slot), task);
            let granted = slot == queue.first && !queue.locked;
            &&& polled.first == queue.first
            &&& polled.entries.len() == queue.entries.len()
            &&& polled.locked == (queue.locked || granted)
            &&& queue.kept(Some(slot)) == if granted {
                None
            } else {
                Some(slot)
            }
            &&& (queue.first + position) % (CAPACITY as int) != slot ==> polled.entries[position]
                == queue.entries[position]
            &&& (queue.first + position) % (CAPACITY as int) == slot ==> polled.entries[position]
                == if granted {
                SlotView::Dozing
            } else {
                SlotView::Asleep(task)
            }
        }),
{
}

/// The first poll of a future adds its entry at the back and changes no other. The entry dozes
/// where the guard is given, and else it holds the task that the future was polled for; then the
/// future holds the slot that comes after those in use.
pub proof fn first_poll_touches_only_its_own_entry(queue: QueueView, task: int, position: int)
    requires
        queue.wf(),
        queue.entries.len() < CAPACITY,
        0 <= position < queue.entries.len(),
    ensures
        ({
            let polled = queue.polled(None, task);
            &&& polled.first == queue.first
            &&& polled.entries.len() == queue.entries.len() + 1
            &&& polled.locked == queue.locked
            &&& polled.entries[position] == queue.entries[position]
            &&& polled.entries.last() == SlotView::Asleep(task)
            &&& queue.kept(None) == Some(
                (queue.first + queue.entries.len()) % (CAPACITY as int),
            )
        }),
{
}

/// The first poll of a future that finds the queue empty gives it the guard, and its entry dozes at
/// the front.
pub proof fn first_poll_of_a_free_mutex(queue: QueueView, task: int)
    requires
        queue.wf(),
        queue.entries.len() == 0,
    ensures
        ({
            let polled = queue.polled(None, task);
            &&& polled.first == queue.first
            &&& polled.entries.len() == 1
            &&& polled.entries[0] is Dozing
            &&& polled.locked
            &&& queue.kept(None) is None
        }),
{
}

/// Dropping a future that holds a slot makes the entry for that slot dead and changes no other.
pub proof fn dropping_touches_only_its_own_entry(queue: QueueView, slot: int, position: int)
    requires
        queue.wf(),
        queue.owns(slot),
        0 <= position < queue.entries.len(),
    ensures
        ({
            let killed = queue.killed(slot);
            &&& killed.first == queue.first
            &&& killed.entries.len() == queue.entries.len()
            &&& killed.locked == queue.locked
            &&& (queue.first + position) % (CAPACITY as int) != slot ==> killed.entries[position]
                == queue.entries[position]
            &&& (queue.first + position) % (CAPACITY as int) == slot ==> killed.entries[position]
                is Dead
        }),
{
}

/// The end of an access takes off the front and the dead entries behind it. The first entry that is
/// not dead becomes ready, the task in it is the one that is told, and every entry behind it is
/// left as it was.
pub proof fn end_of_access_touches_only_the_front(queue: QueueView, gone: int, behind: int)
    requires
        0 <= queue.first < CAPACITY,
        0 < gone <= queue.entries.len() <= CAPACITY,
        forall|k: int| 0 < k < gone ==> (#[trigger] queue.entries[k]) is Dead,
        gone < queue.entries.len() ==> !(queue.entries[gone] is Dead),
    ensures
        ({
            let advanced = queue.advanced();
            &&& advanced.first == (queue.first + gone) % (CAPACITY as int)
            &&& advanced.entries.len() == queue.entries.len() - gone
            &&& !advanced.locked
            &&& gone == queue.entries.len() ==> queue.next_sleeper() is None
            &&& gone < queue.entries.len() ==> {
                &&& advanced.entries[0] is Waking
                &&& queue.next_sleeper() == match queue.entries[gone] {
                    SlotView::Asleep(task) => Some(task),
                    _ => None,
                }
            }
            &&& 0 < behind < advanced.entries.len() ==> advanced.entries[behind]
                == queue.entries[gone + behind]
        }),
{
    lemma_first_live(queue.entries, 1);
    let found = queue.successor();
    if found < gone {
        assert(queue.entries[found] is Dead);
    }
    if gone < found {
        assert(queue.entries[gone] is Dead);
    }
}

/// A slot is some future's as long as its entry is not dead and its future was not given the guard:
/// nobody else's call takes it away.
pub proof fn slots_are_owned_while_live(queue: QueueView, position: int)
    requires
        queue.wf(),
        0 <= position < queue.entries.len(),
    ensures
        queue.owns((queue.first + position) % (CAPACITY as int)) <==> {
            &&& !(queue.entries[position] is Dead)
            &&& !(queue.locked && position == 0)
        },
{
}

} // verus!
