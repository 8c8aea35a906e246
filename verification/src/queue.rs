//! What the queue of a mutex stands for, and what each operation makes of it.
use crate::slot::SlotView;
use vstd::prelude::*;

verus! {

/// How many futures can queue for a mutex at a time.
pub const CAPACITY: usize = 16;

/// The slot that a place in the sequence of registrations falls on: places are counted on and on,
/// and the slots are taken in turn.
pub open spec fn slot_for(place: int) -> int {
    place % (CAPACITY as int)
}

/// The futures that have registered with a mutex and are not done with it.
pub struct QueueView {
    /// The index of the slot at the front.
    pub first: int,
    /// The slots in use, from the front of the queue to its back.
    pub entries: Seq<SlotView>,
    /// Whether the future at the front has been given its guard.
    pub locked: bool,
}

/// The first position from `from` on that does not hold a dead slot, or the length of the
/// queue where all the rest is dead.
pub open spec fn first_live(entries: Seq<SlotView>, from: int) -> int
    decreases entries.len() - from,
{
    if from < entries.len() && entries[from] is Dead {
        first_live(entries, from + 1)
    } else if from < entries.len() {
        from
    } else {
        entries.len() as int
    }
}

/// From `from` on, all before the first live position is dead, and that position is not.
pub proof fn lemma_first_live(entries: Seq<SlotView>, from: int)
    requires
        0 <= from <= entries.len(),
    ensures
        from <= first_live(entries, from) <= entries.len(),
        forall|k: int|
            from <= k < first_live(entries, from) ==> (#[trigger] entries[k]) is Dead,
        first_live(entries, from) < entries.len() ==> !(entries[first_live(
            entries,
            from,
        )] is Dead),
    decreases entries.len() - from,
{
    if from < entries.len() && entries[from] is Dead {
        lemma_first_live(entries, from + 1);
    }
}

impl QueueView {
    /// A queue that nobody has registered with.
    pub open spec fn empty() -> QueueView {
        QueueView { first: 0, entries: Seq::empty(), locked: false }
    }

    /// The index of the slot at a position of the queue.
    pub open spec fn slot_at(self, position: int) -> int {
        if self.first + position < CAPACITY {
            self.first + position
        } else {
            self.first + position - CAPACITY
        }
    }

    /// The position in the queue of the slot with the given index.
    pub open spec fn position(self, slot: int) -> int {
        if slot >= self.first {
            slot - self.first
        } else {
            slot - self.first + CAPACITY
        }
    }

    /// Only the slot at the front is ever ready. It is ready, or dead, until its future is given
    /// the guard; from then on it dozes.
    pub open spec fn inv(self) -> bool {
        &&& 0 <= self.first < CAPACITY
        &&& self.entries.len() <= CAPACITY
        &&& self.entries.len() > 0 && !self.locked ==> self.entries[0] is Waking
            || self.entries[0] is Dead
        &&& forall|k: int|
            0 < k < self.entries.len() ==> !((#[trigger] self.entries[k]) is Waking)
        &&& self.locked ==> self.entries.len() > 0 && self.entries[0] is Dozing
    }

    /// Besides, every future that waits has left a waker: so it is between operations.
    pub open spec fn wf(self) -> bool {
        &&& self.inv()
        &&& forall|k: int|
            0 < k < self.entries.len() ==> !((#[trigger] self.entries[k]) is Dozing)
    }

    /// A future that is not done with the mutex can hold this slot.
    pub open spec fn owns(self, slot: int) -> bool {
        &&& 0 <= slot < CAPACITY
        &&& self.position(slot) < self.entries.len()
        &&& !(self.entries[self.position(slot)] is Dead)
        &&& !(self.locked && self.position(slot) == 0)
    }

    /// The queue after one more future has registered: with nobody before it, it is ready.
    pub open spec fn registered(self) -> QueueView {
        let entry = if self.entries.len() == 0 {
            SlotView::Waking
        } else {
            SlotView::Dozing
        };
        QueueView { entries: self.entries.push(entry), ..self }
    }

    /// The slot of a future while it is polled: its own, or a new one at the back.
    pub open spec fn polled_slot(self, slot: Option<int>) -> int {
        match slot {
            Some(slot) => slot,
            None => self.slot_at(self.entries.len() as int),
        }
    }

    /// The queue while a future is polled: it has registered if it had no slot.
    pub open spec fn polled_queue(self, slot: Option<int>) -> QueueView {
        match slot {
            Some(_) => self,
            None => self.registered(),
        }
    }

    /// Whether polling a future that holds `slot` gives it its guard: it is at the front.
    pub open spec fn grants(self, slot: Option<int>) -> bool {
        let queue = self.polled_queue(slot);
        queue.entries[queue.position(self.polled_slot(slot))] is Waking
    }

    /// The queue after a future that held `slot` was polled on behalf of `task`.
    pub open spec fn polled(self, slot: Option<int>, task: int) -> QueueView {
        let queue = self.polled_queue(slot);
        let position = queue.position(self.polled_slot(slot));
        QueueView {
            entries: queue.entries.update(position, queue.entries[position].readied(task)),
            locked: self.locked || self.grants(slot),
            ..queue
        }
    }

    /// The slot that a future that held `slot` holds after it was polled.
    pub open spec fn kept(self, slot: Option<int>) -> Option<int> {
        if self.grants(slot) {
            None
        } else {
            Some(self.polled_slot(slot))
        }
    }

    /// The queue after the future that holds `slot` was dropped.
    pub open spec fn killed(self, slot: int) -> QueueView {
        QueueView {
            entries: self.entries.update(self.position(slot), SlotView::Dead),
            ..self
        }
    }

    /// The position of the future whose turn comes after the one at the front.
    pub open spec fn successor(self) -> int {
        first_live(self.entries, 1)
    }

    /// The queue after the front is done: the front leaves, the dead slots behind it leave, and
    /// the next one is woken.
    pub open spec fn advanced(self) -> QueueView {
        let rest = self.entries.skip(self.successor());
        QueueView {
            first: self.slot_at(self.successor()),
            entries: if rest.len() > 0 {
                rest.update(0, SlotView::Waking)
            } else {
                rest
            },
            locked: false,
        }
    }

    /// The task that has to be told when the front is done.
    pub open spec fn next_sleeper(self) -> Option<int> {
        if self.successor() < self.entries.len() {
            self.entries[self.successor()].sleeper()
        } else {
            None
        }
    }
}

} // verus!
