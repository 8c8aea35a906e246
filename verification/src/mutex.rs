//! A mutex whose futures queue for it in the order in which they were first polled.
use crate::poll::Poll;
use crate::queue::{first_live, lemma_first_live, slot_for, QueueView, CAPACITY};
use crate::slot::{Slot, SlotView};
use crate::waker::{task, task_of};
use core::marker::PhantomData;
use core::task::Waker;
use vstd::prelude::*;

verus! {

/// A value, and the queue of the futures that wait for access to it.
pub struct Mutex<T> {
    value: T,
    // The front of the queue contains the waker currently being woken.
    front: usize,
    // The back of the queue is where new wakers are added.
    back: usize,
    slots: [Slot; CAPACITY],
    // Whether the future at the front has been given its guard.
    locked: Ghost<bool>,
    // How many guards have been given.
    turn: Ghost<nat>,
    // Shared with the futures and guards that are made from the mutex.
    id: Ghost<int>,
}

/// What a mutex stands for.
pub struct MutexView<T> {
    pub value: T,
    pub queue: QueueView,
    /// How many guards have been given.
    pub turn: nat,
}

/// How far `back` is ahead of `front`; both go round.
spec fn distance(front: usize, back: usize) -> int {
    if front <= back {
        back - front
    } else {
        back - front + usize::MAX + 1
    }
}

/// The `len` slots from `first` on, going round.
spec fn in_use(slots: Seq<Slot>, first: int, len: int) -> Seq<SlotView> {
    Seq::new(
        len as nat,
        |k: int|
            slots[if first + k < CAPACITY {
                first + k
            } else {
                first + k - CAPACITY
            }]@,
    )
}

impl<T> View for Mutex<T> {
    type V = MutexView<T>;

    closed spec fn view(&self) -> MutexView<T> {
        let first = self.front as int % (CAPACITY as int);
        MutexView {
            value: self.value,
            queue: QueueView {
                first,
                entries: in_use(self.slots@, first, distance(self.front, self.back)),
                locked: self.locked@,
            },
            turn: self.turn@,
        }
    }
}

/// Places go round at a multiple of the number of slots.
proof fn lemma_max()
    ensures
        usize::MAX as int % 16 == 15,
{
    vstd::layout::unsigned_int_max_values();
}

/// The slot at the back, by its distance from the one at the front.
proof fn lemma_slot_of(front: usize, back: usize)
    requires
        distance(front, back) < 16,
    ensures
        back as int % 16 == (if front as int % 16 + distance(front, back) < 16 {
            front as int % 16 + distance(front, back)
        } else {
            front as int % 16 + distance(front, back) - 16
        }),
        back & 15 == back as int % 16,
{
    lemma_max();
    assert(back & 15 == back % 16) by (bit_vector);
}

/// Where the front slot dozes again and `front` moves on, the first entry has left.
proof fn lemma_front_leaves<T>(before: Mutex<T>, after: Mutex<T>, slot: Slot)
    requires
        before.slots_wf(),
        distance(before.front, before.back) > 0,
        after.slots@ == before.slots@.update(before@.queue.first, slot),
        slot.wf(),
        slot@ is Dozing,
        after.front == (if before.front == usize::MAX {
            0
        } else {
            before.front + 1
        }),
        after.back == before.back,
    ensures
        after.slots_wf(),
        after@.queue.first == before@.queue.slot_at(1),
        after@.queue.entries == before@.queue.entries.skip(1),
        (after.back == after.front) == (after@.queue.entries.len() == 0),
{
    lemma_max();
    assert(after@.queue.entries =~= before@.queue.entries.skip(1));
}

/// Where only the slot at a position changes, only the entry there does.
proof fn lemma_entry_changes<T>(before: Mutex<T>, after: Mutex<T>, position: int, slot: Slot)
    requires
        before.slots_wf(),
        0 <= position < distance(before.front, before.back),
        after.slots@ == before.slots@.update(before@.queue.slot_at(position), slot),
        slot.wf(),
        after.front == before.front,
        after.back == before.back,
    ensures
        after.slots_wf(),
        after@.queue.first == before@.queue.first,
        after@.queue.entries == before@.queue.entries.update(position, slot@),
{
    assert(after@.queue.entries =~= before@.queue.entries.update(position, slot@));
}

impl<T> Mutex<T> {
    /// What the mutex has in common with the futures and guards that were made from it. Nothing is
    /// said of it where a mutex is made, so no caller can prove it equal for two mutexes that were
    /// made apart, and methods that ask for it to agree cannot be called across them.
    pub closed spec fn id(self) -> int {
        self.id@
    }

    /// The slots, by their index.
    pub closed spec fn slots(self) -> Seq<Slot> {
        self.slots@
    }

    /// Nothing but slots differs.
    pub closed spec fn differs_only_in_slots(self, other: Self) -> bool {
        &&& self.value == other.value
        &&& self.front == other.front
        &&& self.back == other.back
        &&& self.locked == other.locked
        &&& self.turn == other.turn
        &&& self.id == other.id
    }

    /// Each slot is well formed, and those that are not in use doze.
    pub closed spec fn slots_wf(self) -> bool {
        &&& distance(self.front, self.back) <= CAPACITY
        &&& forall|i: int| 0 <= i < CAPACITY ==> (#[trigger] self.slots@[i]).wf()
        &&& forall|i: int|
            0 <= i < CAPACITY && self@.queue.position(i) >= distance(self.front, self.back)
                ==> (#[trigger] self.slots@[i])@ is Dozing
    }

    /// A slot that is not in use dozes, and so contains no waker.
    pub proof fn free_slots_doze(self, slot: int)
        requires
            self.slots_wf(),
            0 <= slot < CAPACITY,
            self@.queue.position(slot) >= self@.queue.entries.len(),
        ensures
            self.slots()[slot].wf(),
            self.slots()[slot]@ is Dozing,
    {
    }

    /// The slot at a position of the queue is what the entry there says.
    pub proof fn slots_in_use_are_the_entries(self, position: int)
        requires
            self.slots_wf(),
            0 <= position < self@.queue.entries.len(),
        ensures
            self.slots()[self@.queue.slot_at(position)].wf(),
            self.slots()[self@.queue.slot_at(position)]@ == self@.queue.entries[position],
    {
    }

    /// The mutex within an operation: a future that waits may not have left its waker yet.
    pub open spec fn inv(self) -> bool {
        &&& self.slots_wf()
        &&& self@.queue.inv()
    }

    /// The mutex between operations.
    pub open spec fn wf(self) -> bool {
        &&& self.slots_wf()
        &&& self@.queue.wf()
    }

    /// A mutex around `value` that nobody has locked or waits for.
    pub fn new(value: T) -> (mutex: Self)
        ensures
            mutex.wf(),
            mutex@ == (MutexView { value, queue: QueueView::empty(), turn: 0 }),
    {
        let mutex = Mutex {
            value,
            front: 0,
            back: 0,
            slots: [
                Slot::default(),
                Slot::default(),
                Slot::default(),
                Slot::default(),
                Slot::default(),
                Slot::default(),
                Slot::default(),
                Slot::default(),
                Slot::default(),
                Slot::default(),
                Slot::default(),
                Slot::default(),
                Slot::default(),
                Slot::default(),
                Slot::default(),
                Slot::default(),
            ],
            locked: Ghost(false),
            turn: Ghost(0),
            id: Ghost(arbitrary()),
        };
        assert(mutex@.queue.entries =~= Seq::empty());
        mutex
    }

    /// Registers one more future at the back of the queue and returns the index of its slot, or
    /// `None` if all slots are in use. With nobody before it the slot is woken at once. This is
    /// the only method that changes `back`.
    pub(crate) fn register(&mut self) -> (slot: Option<usize>)
        requires
            old(self).inv(),
        ensures
            final(self).inv(),
            final(self).id() == old(self).id(),
            match slot {
                Some(slot) => {
                    &&& old(self)@.queue.entries.len() < CAPACITY
                    &&& slot == old(self)@.queue.slot_at(old(self)@.queue.entries.len() as int)
                    &&& final(self)@ == (MutexView {
                        queue: old(self)@.queue.registered(),
                        ..old(self)@
                    })
                },
                None => {
                    &&& old(self)@.queue.entries.len() == CAPACITY
                    &&& final(self)@ == old(self)@
                },
            },
    {
        let back: usize = self.back;
        let used: usize = back.wrapping_sub(self.front);
        if used >= CAPACITY {
            return None;
        }
        self.back = back.wrapping_add(1);
        proof {
            lemma_slot_of(self.front, back);
            assert(used == distance(self.front, back));
        }
        if used == 0 {
            let (_, waker) = self.get(back).wake();
            assert(waker is None);
        }
        assert(self@.queue.entries =~= old(self)@.queue.registered().entries);
        Some(back & (CAPACITY - 1))
    }

    /// Ends the access of the current slot: frees it and the dead slots behind it, and wakes the
    /// next one. Returns the waker of that one, for the caller to call. This is the only method
    /// that changes `front`, and the drop of a guard is all that calls it.
    #[must_use]
    pub(crate) fn next(&mut self) -> (waker: Option<Waker>)
        requires
            old(self).slots_wf(),
            old(self)@.queue.entries.len() > 0,
        ensures
            final(self).slots_wf(),
            old(self).inv() ==> final(self).inv(),
            final(self).id() == old(self).id(),
            final(self)@ == (MutexView { queue: old(self)@.queue.advanced(), ..old(self)@ }),
            task_of(waker) == old(self)@.queue.next_sleeper(),
    {
        let ghost queue = self@.queue;
        let ghost mut gone: int = 0;
        self.locked = Ghost(false);
        loop
            invariant
                self.slots_wf(),
                self@.value == old(self)@.value,
                self@.turn == old(self)@.turn,
                self.id() == old(self).id(),
                queue == old(self)@.queue,
                0 <= queue.first < CAPACITY,
                queue.entries.len() <= CAPACITY,
                0 <= gone < queue.entries.len(),
                self@.queue.first == queue.slot_at(gone),
                self@.queue.entries == queue.entries.skip(gone),
                !self@.queue.locked,
                queue.successor() == first_live(queue.entries, gone + 1),
            decreases queue.entries.len() - gone,
        {
            // First, reset the slot at the front.
            assert(self@.queue.entries.len() > 0);
            let ghost before = *self;
            let front: usize = self.front;
            self.get(front).reset();
            // Then release it.
            let front: usize = front.wrapping_add(1);
            self.front = front;
            proof {
                lemma_front_leaves(before, *self, self.slots@[before@.queue.first]);
                gone = gone + 1;
                assert(self@.queue.entries == queue.entries.skip(gone));
            }
            if self.back == front {
                return None;
            }
            let ghost before = *self;
            let (live, waker) = self.get(front).wake();
            proof {
                assert(before.slots@[before@.queue.first]@ == before@.queue.entries[0]);
                assert(before@.queue.entries[0] == queue.entries[gone]);
                lemma_entry_changes(before, *self, 0, self.slots@[before@.queue.first]);
            }
            if live {
                return waker;
            }
            // Woke a dead slot, try next.
            assert(self@.queue.entries == queue.entries.skip(gone));
        }
    }

    /// A future for access to the value.
    pub fn lock(&self) -> (lock: Lock<T>)
        ensures
            lock@ is None,
            lock.id() == self.id(),
    {
        Lock { slot: None, id: self.id, mutex: PhantomData }
    }

    /// The slot that a place in the sequence of registrations falls on.
    pub(crate) fn get(&mut self, i: usize) -> (slot: &mut Slot)
        ensures
            old(self).slots().len() == CAPACITY,
            *slot == old(self).slots()[slot_for(i as int)],
            final(self).slots() == old(self).slots().update(slot_for(i as int), *final(slot)),
            final(self).differs_only_in_slots(*old(self)),
    {
        assert(i & 15 == i % 16) by (bit_vector);
        &mut self.slots[i & (CAPACITY - 1)]
    }
}

/// A future for access to the value of a mutex. It does nothing until it is polled: then it
/// registers with the mutex and holds a slot until it is done.
///
/// The methods take the mutex that made it.
pub struct Lock<T> {
    slot: Option<usize>,
    id: Ghost<int>,
    mutex: PhantomData<T>,
}

impl<T> View for Lock<T> {
    type V = Option<int>;

    /// The slot that the future holds.
    closed spec fn view(&self) -> Option<int> {
        match self.slot {
            Some(slot) => Some(slot as int),
            None => None,
        }
    }
}

impl<T> Lock<T> {
    /// The mutex that the future is for.
    pub closed spec fn id(self) -> int {
        self.id@
    }

    /// The future is for this mutex, and the queue has the slot that it holds for a future.
    pub open spec fn belongs_to(self, mutex: Mutex<T>) -> bool {
        &&& self.id() == mutex.id()
        &&& self@ matches Some(slot) ==> mutex@.queue.owns(slot)
    }

    /// Whether the future can be polled: it holds a slot or can get one.
    pub fn can_poll(&self, mutex: &Mutex<T>) -> (can: bool)
        requires
            mutex.wf(),
        ensures
            can == (self@ is Some || mutex@.queue.entries.len() < CAPACITY),
    {
        self.slot.is_some() || mutex.back.wrapping_sub(mutex.front) < CAPACITY
    }

    /// Polls the future on behalf of the task of `waker`. At the first poll it joins the queue;
    /// when it is at the front it is given the guard and lets go of its slot; until then it
    /// leaves a clone of the waker in its slot. While a guard is out, no other is given.
    ///
    /// Futures should not do anything until awaited. If a slot were taken earlier and then the
    /// future not polled for a while, its turn could come and not be used until much later,
    /// while everything else that waits is blocked.
    pub fn poll(&mut self, mutex: &mut Mutex<T>, waker: &Waker) -> (result: Poll<Guard<T>>)
        requires
            old(mutex).wf(),
            old(self).belongs_to(*old(mutex)),
            old(self)@ is None ==> old(mutex)@.queue.entries.len() < CAPACITY,
        ensures
            final(mutex).wf(),
            final(mutex).id() == old(mutex).id(),
            final(mutex)@ == (MutexView {
                value: old(mutex)@.value,
                queue: old(mutex)@.queue.polled(old(self)@, task(*waker)),
                turn: if old(mutex)@.queue.grants(old(self)@) {
                    old(mutex)@.turn + 1
                } else {
                    old(mutex)@.turn
                },
            }),
            final(self).id() == old(self).id(),
            final(self)@ == old(mutex)@.queue.kept(old(self)@),
            final(self).belongs_to(*final(mutex)),
            result is Ready <==> old(mutex)@.queue.grants(old(self)@),
            result is Ready ==> !old(mutex)@.queue.locked,
            forall|k: int|
                0 <= k < old(mutex)@.queue.entries.len() && old(self)@ != Some(
                    slot_for(old(mutex)@.queue.first + k),
                ) ==> (#[trigger] final(mutex)@.queue.entries[k])
                    == old(mutex)@.queue.entries[k],
            result matches Poll::Ready(guard) ==> guard.guards(*final(mutex)),
            forall|guard: Guard<T>|
                guard.guards(*old(mutex)) ==> result is Pending && #[trigger] guard.guards(
                    *final(mutex),
                ),
    {
        let slot = match self.slot {
            Some(slot) => slot,
            None => mutex.register().expect("mutex slots exhausted"),
        };
        let ghost before = *mutex;
        let ghost position = before@.queue.position(slot as int);
        assert(before.slots@[slot as int]@ == before@.queue.entries[position]);
        let woken = mutex.slots[slot].ready(waker);
        proof {
            lemma_entry_changes(before, *mutex, position, mutex.slots@[slot as int]);
        }
        if woken {
            let ghost turn: nat = mutex.turn@ + 1;
            mutex.locked = Ghost(true);
            mutex.turn = Ghost(turn);
            self.slot = None;
            Poll::Ready(Guard { turn: Ghost(turn), id: self.id, mutex: PhantomData })
        } else {
            self.slot = Some(slot);
            Poll::Pending
        }
    }

    /// Drops the future. If it holds a slot, the slot is dead from then on and its turn is passed
    /// over when it comes. A turn that has come already is not passed on: a future that has been
    /// woken should be polled for its guard.
    pub fn drop(self, mutex: &mut Mutex<T>)
        requires
            old(mutex).wf(),
            self.belongs_to(*old(mutex)),
        ensures
            final(mutex).wf(),
            final(mutex).id() == old(mutex).id(),
            final(mutex)@ == match self@ {
                Some(slot) => MutexView {
                    queue: old(mutex)@.queue.killed(slot),
                    ..old(mutex)@
                },
                None => old(mutex)@,
            },
            forall|k: int|
                0 <= k < old(mutex)@.queue.entries.len() && self@ != Some(
                    slot_for(old(mutex)@.queue.first + k),
                ) ==> (#[trigger] final(mutex)@.queue.entries[k])
                    == old(mutex)@.queue.entries[k],
    {
        if let Some(slot) = self.slot {
            let ghost before = *mutex;
            mutex.slots[slot].kill();
            proof {
                let position = before@.queue.position(slot as int);
                lemma_entry_changes(before, *mutex, position, mutex.slots@[slot as int]);
            }
        }
    }
}

/// Access to the value of a mutex. While it exists the mutex gives out no other.
///
/// The methods take the mutex that it came from.
pub struct Guard<T> {
    turn: Ghost<nat>,
    id: Ghost<int>,
    mutex: PhantomData<T>,
}

impl<T> Guard<T> {
    /// The mutex that the guard is of.
    pub closed spec fn id(self) -> int {
        self.id@
    }

    /// Which of the guards of its mutex it is, counted from the first.
    pub closed spec fn turn(self) -> nat {
        self.turn@
    }

    /// It is the guard of this mutex that is out.
    pub open spec fn guards(self, mutex: Mutex<T>) -> bool {
        &&& self.id() == mutex.id()
        &&& self.turn() == mutex@.turn
        &&& mutex@.queue.locked
    }

    /// The value.
    pub fn deref<'a>(&'a self, mutex: &'a Mutex<T>) -> (value: &'a T)
        requires
            self.guards(*mutex),
        ensures
            *value == mutex@.value,
    {
        &mutex.value
    }

    /// The value, to change.
    pub fn deref_mut<'a>(&'a mut self, mutex: &'a mut Mutex<T>) -> (value: &'a mut T)
        requires
            old(mutex).wf(),
            old(self).guards(*old(mutex)),
        ensures
            *value == old(mutex)@.value,
            final(mutex).wf(),
            final(mutex).id() == old(mutex).id(),
            final(mutex)@ == (MutexView { value: *final(value), ..old(mutex)@ }),
            *final(self) == *old(self),
            final(self).guards(*final(mutex)),
    {
        &mut mutex.value
    }

    /// Gives the access up. The next future in the queue has its turn: the waker that it left is
    /// returned, for the caller to call.
    #[must_use]
    pub fn drop(self, mutex: &mut Mutex<T>) -> (waker: Option<Waker>)
        requires
            old(mutex).wf(),
            self.guards(*old(mutex)),
        ensures
            final(mutex).wf(),
            final(mutex).id() == old(mutex).id(),
            final(mutex)@ == (MutexView { queue: old(mutex)@.queue.advanced(), ..old(mutex)@ }),
            task_of(waker) == old(mutex)@.queue.next_sleeper(),
    {
        proof {
            lemma_first_live(mutex@.queue.entries, 1);
        }
        mutex.next()
    }
}

/// There is one guard of a mutex at a time: any two that are out are the same.
pub proof fn one_guard_at_a_time<T>(mutex: Mutex<T>, one: Guard<T>, other: Guard<T>)
    requires
        one.guards(mutex),
        other.guards(mutex),
    ensures
        one == other,
{
}

} // verus!
