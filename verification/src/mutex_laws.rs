//! What holds of a mutex and of all the futures and guards that share it, whatever calls are
//! made on them and in whatever order.
use crate::queue::{lemma_first_live, slot_for, QueueView, CAPACITY};
use crate::slot::SlotView;
use vstd::prelude::*;

verus! {

/// A mutex and everything that was made from it.
pub struct World<T> {
    /// The value that the mutex guards.
    pub value: T,
    pub queue: QueueView,
    /// The futures that are not dropped, by name, each with the slot that it holds.
    pub locks: Map<int, Option<int>>,
    /// How many guards are out.
    pub guards: nat,
    /// How many futures have ever registered.
    pub issued: nat,
    /// For each future that has registered, how many had registered before it, the last time.
    pub numbers: Map<int, nat>,
    /// For each entry of the queue, how many futures had registered before it did.
    pub tickets: Seq<nat>,
    /// The tickets that guards were given for, the earliest first.
    pub granted: Seq<nat>,
}

/// A call on a mutex or on something that was made from it.
pub enum Event<T> {
    /// `Mutex::lock`; the future is given a name.
    Lock(int),
    /// `Lock::poll` of the named future, on behalf of a task.
    Poll(int, int),
    /// `Lock::drop` of the named future.
    DropLock(int),
    /// `Guard::deref_mut`, through which this value is written.
    Write(T),
    /// `Guard::drop`.
    DropGuard,
}

impl<T> World<T> {
    /// A new mutex around a value.
    pub open spec fn new(value: T) -> World<T> {
        World {
            value,
            queue: QueueView::empty(),
            locks: Map::empty(),
            guards: 0,
            issued: 0,
            numbers: Map::empty(),
            tickets: Seq::empty(),
            granted: Seq::empty(),
        }
    }

    /// Whether the call can be made: what it is made on exists, and a future that is polled for
    /// the first time finds a slot.
    pub open spec fn admits(self, event: Event<T>) -> bool {
        match event {
            Event::Lock(name) => !self.locks.contains_key(name),
            Event::Poll(name, _) => {
                &&& self.locks.contains_key(name)
                &&& self.locks[name] is None ==> self.queue.entries.len() < CAPACITY
            },
            Event::DropLock(name) => self.locks.contains_key(name),
            Event::Write(_) => self.guards > 0,
            Event::DropGuard => self.guards > 0,
        }
    }

    /// What the call makes of the world.
    pub open spec fn after(self, event: Event<T>) -> World<T> {
        match event {
            Event::Lock(name) => World { locks: self.locks.insert(name, None), ..self },
            Event::Poll(name, task) => {
                let slot = self.locks[name];
                let tickets = if slot is None {
                    self.tickets.push(self.issued)
                } else {
                    self.tickets
                };
                let position = self.queue.position(self.queue.polled_slot(slot));
                World {
                    value: self.value,
                    queue: self.queue.polled(slot, task),
                    locks: self.locks.insert(name, self.queue.kept(slot)),
                    guards: if self.queue.grants(slot) {
                        self.guards + 1
                    } else {
                        self.guards
                    },
                    issued: if slot is None {
                        self.issued + 1
                    } else {
                        self.issued
                    },
                    numbers: if slot is None {
                        self.numbers.insert(name, self.issued)
                    } else {
                        self.numbers
                    },
                    tickets,
                    granted: if self.queue.grants(slot) {
                        self.granted.push(tickets[position])
                    } else {
                        self.granted
                    },
                }
            },
            Event::DropLock(name) => World {
                queue: match self.locks[name] {
                    Some(slot) => self.queue.killed(slot),
                    None => self.queue,
                },
                locks: self.locks.remove(name),
                ..self
            },
            Event::Write(value) => World { value, ..self },
            Event::DropGuard => World {
                queue: self.queue.advanced(),
                guards: (self.guards - 1) as nat,
                tickets: self.tickets.skip(self.queue.successor()),
                ..self
            },
        }
    }

    /// The queue is as it is between calls, the guards match it, and the futures share the live
    /// slots out among themselves.
    pub open spec fn sound(self) -> bool {
        &&& self.queue.wf()
        &&& self.guards == (if self.queue.locked {
            1nat
        } else {
            0nat
        })
        &&& forall|name: int| #[trigger]
            self.locks.contains_key(name) && self.locks[name] is Some ==> self.queue.owns(
                self.locks[name]->0,
            )
        &&& forall|one: int, other: int|
            #![trigger self.locks.contains_key(one), self.locks.contains_key(other)]
            self.locks.contains_key(one) && self.locks.contains_key(other) && one != other
                && self.locks[one] is Some ==> self.locks[one] != self.locks[other]
        &&& forall|slot: int| #[trigger] self.queue.owns(slot) ==> self.holds(slot)
    }

    /// Some future holds the slot.
    pub open spec fn holds(self, slot: int) -> bool {
        exists|name: int| #[trigger]
            self.locks.contains_key(name) && self.locks[name] == Some(slot)
    }

    /// The future has registered and was not given its guard yet.
    pub open spec fn waits(self, name: int) -> bool {
        self.locks.contains_key(name) && self.locks[name] is Some
    }

    /// Where in the queue a future waits.
    pub open spec fn position_of(self, name: int) -> int {
        self.queue.position(self.locks[name]->0)
    }

    /// The queue is in the order of registration, and guards were given in that order.
    pub open spec fn ordered(self) -> bool {
        &&& self.tickets.len() == self.queue.entries.len()
        &&& forall|name: int| #[trigger]
            self.waits(name) ==> self.tickets[self.position_of(name)] == self.numbers[name]
        &&& increasing(self.tickets)
        &&& increasing(self.granted)
        &&& forall|k: int| 0 <= k < self.tickets.len() ==> #[trigger] self.tickets[k] < self.issued
        &&& forall|k: int| 0 <= k < self.granted.len() ==> #[trigger] self.granted[k] < self.issued
        &&& forall|g: int, k: int|
            0 <= g < self.granted.len() && 0 <= k < self.tickets.len() ==> (
            #[trigger] self.granted[g]) <= (#[trigger] self.tickets[k]) && (self.granted[g]
                == self.tickets[k] ==> k == 0 && self.queue.locked)
    }

    /// The future at the front has its guard, or gets it when it is polled.
    pub open spec fn front_is_live(self) -> bool {
        self.queue.entries.len() > 0 && !self.queue.locked ==> self.queue.entries[0] is Waking
    }

    /// The call drops a future that has been woken and not been polled since.
    pub open spec fn abandons_turn(self, event: Event<T>) -> bool {
        match event {
            Event::DropLock(name) => self.locks[name] == Some(self.queue.first),
            _ => false,
        }
    }
}

/// Each number is greater than all before it.
pub open spec fn increasing(numbers: Seq<nat>) -> bool {
    forall|i: int, j: int| 0 <= i < j < numbers.len() ==> numbers[i] < numbers[j]
}

/// The world after these calls on a new mutex.
pub open spec fn world_after<T>(initial: T, events: Seq<Event<T>>) -> World<T>
    decreases events.len(),
{
    if events.len() == 0 {
        World::new(initial)
    } else {
        world_after(initial, events.drop_last()).after(events.last())
    }
}

/// Each call can be made when its turn comes.
pub open spec fn possible<T>(initial: T, events: Seq<Event<T>>) -> bool
    decreases events.len(),
{
    events.len() > 0 ==> {
        &&& possible(initial, events.drop_last())
        &&& world_after(initial, events.drop_last()).admits(events.last())
    }
}

/// No call drops a future that has been woken and not been polled since.
pub open spec fn no_turn_abandoned<T>(initial: T, events: Seq<Event<T>>) -> bool
    decreases events.len(),
{
    events.len() > 0 ==> {
        &&& no_turn_abandoned(initial, events.drop_last())
        &&& !world_after(initial, events.drop_last()).abandons_turn(events.last())
    }
}

proof fn lemma_step<T>(world: World<T>, event: Event<T>)
    requires
        world.sound(),
        world.ordered(),
        world.admits(event),
    ensures
        world.after(event).sound(),
        world.after(event).ordered(),
        !world.abandons_turn(event) && world.front_is_live() ==> world.after(
            event,
        ).front_is_live(),
{
    let next = world.after(event);
    assert forall|name: int| #[trigger] next.waits(name) implies next.tickets[next.position_of(
        name,
    )] == next.numbers[name] by {
        if event is DropGuard {
            lemma_first_live(world.queue.entries, 1);
        }
        assert(world.locks.contains_key(name));
        assert(world.locks[name] is Some ==> world.waits(name));
    }
    match event {
        Event::Lock(name) => {
            assert forall|slot: int| #[trigger] next.queue.owns(slot) implies next.holds(slot) by {
                assert(world.queue.owns(slot));
                let holder = choose|holder: int| #[trigger]
                    world.locks.contains_key(holder) && world.locks[holder] == Some(slot);
                assert(next.locks.contains_key(holder));
            }
        },
        Event::Poll(name, task) => {
            let polled = world.queue.polled_slot(world.locks[name]);
            assert forall|slot: int| #[trigger] next.queue.owns(slot) implies next.holds(slot) by {
                if slot == polled {
                    assert(next.locks.contains_key(name));
                } else {
                    assert(world.queue.owns(slot));
                    let holder = choose|holder: int| #[trigger]
                        world.locks.contains_key(holder) && world.locks[holder] == Some(slot);
                    assert(next.locks.contains_key(holder));
                }
            }
        },
        Event::DropLock(name) => {
            assert forall|slot: int| #[trigger] next.queue.owns(slot) implies next.holds(slot) by {
                assert(world.queue.owns(slot));
                let holder = choose|holder: int| #[trigger]
                    world.locks.contains_key(holder) && world.locks[holder] == Some(slot);
                assert(next.locks.contains_key(holder));
            }
        },
        Event::Write(_) => {
            assert forall|slot: int| #[trigger] next.queue.owns(slot) implies next.holds(slot) by {
                assert(world.holds(slot));
                let holder = choose|holder: int| #[trigger]
                    world.locks.contains_key(holder) && world.locks[holder] == Some(slot);
                assert(next.locks.contains_key(holder));
            }
        },
        Event::DropGuard => {
            lemma_first_live(world.queue.entries, 1);
            assert forall|slot: int| #[trigger] next.queue.owns(slot) implies next.holds(slot) by {
                assert(world.queue.owns(slot));
                let holder = choose|holder: int| #[trigger]
                    world.locks.contains_key(holder) && world.locks[holder] == Some(slot);
                assert(next.locks.contains_key(holder));
            }
        },
    }
}

proof fn lemma_calls<T>(initial: T, events: Seq<Event<T>>)
    requires
        possible(initial, events),
    ensures
        world_after(initial, events).sound(),
        world_after(initial, events).ordered(),
        no_turn_abandoned(initial, events) ==> world_after(initial, events).front_is_live(),
    decreases events.len(),
{
    if events.len() > 0 {
        lemma_calls(initial, events.drop_last());
        lemma_step(world_after(initial, events.drop_last()), events.last());
    }
}

/// At no time is there more than one guard.
pub proof fn mutual_exclusion<T>(initial: T, events: Seq<Event<T>>)
    requires
        possible(initial, events),
    ensures
        world_after(initial, events).guards <= 1,
{
    lemma_calls(initial, events);
}

/// Every future and every guard that is out can be used and dropped: the mutex is as the methods
/// ask, and no call on one of them takes from another what it holds.
pub proof fn handles_stay_valid<T>(initial: T, events: Seq<Event<T>>)
    requires
        possible(initial, events),
    ensures
        world_after(initial, events).queue.wf(),
        world_after(initial, events).guards > 0 ==> world_after(initial, events).queue.locked,
        forall|name: int| #[trigger]
            world_after(initial, events).locks.contains_key(name) && world_after(initial, events).locks[name] is Some
                ==> world_after(initial, events).queue.owns(world_after(initial, events).locks[name]->0),
{
    lemma_calls(initial, events);
}

/// Guards are given in the order in which the futures registered, and never past a future that
/// registered earlier and still waits. Each future waits where its number says.
pub proof fn first_come_first_served<T>(initial: T, events: Seq<Event<T>>)
    requires
        possible(initial, events),
    ensures
        ({
            let world = world_after(initial, events);
            &&& increasing(world.granted)
            &&& increasing(world.tickets)
            &&& world.tickets.len() == world.queue.entries.len()
            &&& forall|name: int| #[trigger]
                world.waits(name) ==> 0 <= world.position_of(name) < world.tickets.len()
                    && world.tickets[world.position_of(name)] == world.numbers[name]
            &&& forall|g: int, k: int|
                0 <= g < world.granted.len() && 0 <= k < world.tickets.len() ==> (
                #[trigger] world.granted[g]) <= (#[trigger] world.tickets[k])
        }),
{
    lemma_calls(initial, events);
    let world = world_after(initial, events);
    assert forall|name: int| #[trigger] world.waits(name) implies 0 <= world.position_of(name)
        < world.tickets.len() by {
        assert(world.locks.contains_key(name));
    }
}

/// Of two futures that wait, the one that was polled for the first time later is not given a guard
/// as long as the other waits.
pub proof fn earlier_poll_goes_first<T>(initial: T, events: Seq<Event<T>>, earlier: int, later: int)
    requires
        possible(initial, events),
        world_after(initial, events).waits(earlier),
        world_after(initial, events).waits(later),
        world_after(initial, events).numbers[earlier] < world_after(initial, events).numbers[later],
    ensures
        !world_after(initial, events).queue.grants(world_after(initial, events).locks[later]),
        world_after(initial, events).position_of(earlier) < world_after(initial, events).position_of(later),
{
    first_come_first_served(initial, events);
    lemma_calls(initial, events);
}

/// While a guard is out, no poll gives another one.
pub proof fn no_second_guard<T>(initial: T, events: Seq<Event<T>>, name: int, task: int)
    requires
        possible(initial, events),
        world_after(initial, events).guards > 0,
        world_after(initial, events).admits(Event::Poll(name, task)),
    ensures
        !world_after(initial, events).queue.grants(world_after(initial, events).locks[name]),
        world_after(initial, events).after(Event::Poll(name, task)).guards == world_after(initial, events).guards,
{
    lemma_calls(initial, events);
    assert(world_after(initial, events).locks.contains_key(name));
}

/// The queue never stalls: while it is not empty, either a guard is out or there is a future that
/// gets one when it is polled. Calls that drop a future between its being woken and its being
/// polled are left out.
pub proof fn no_stall<T>(initial: T, events: Seq<Event<T>>)
    requires
        possible(initial, events),
        no_turn_abandoned(initial, events),
        world_after(initial, events).queue.entries.len() > 0,
    ensures
        world_after(initial, events).guards == 1 || exists|name: int| #[trigger]
            world_after(initial, events).locks.contains_key(name) && world_after(initial, events).locks[name] is Some
                && world_after(initial, events).queue.grants(world_after(initial, events).locks[name]),
{
    lemma_calls(initial, events);
    let world = world_after(initial, events);
    if !world.queue.locked {
        assert(world.queue.owns(world.queue.first));
        let name = choose|name: int| #[trigger]
            world.locks.contains_key(name) && world.locks[name] == Some(world.queue.first);
        assert(world.locks.contains_key(name) && world.queue.grants(world.locks[name]));
    }
}

/// The value that was written last, or the one that the mutex was made with.
pub open spec fn last_written<T>(initial: T, events: Seq<Event<T>>) -> T
    decreases events.len(),
{
    if events.len() == 0 {
        initial
    } else {
        match events.last() {
            Event::Write(value) => value,
            _ => last_written(initial, events.drop_last()),
        }
    }
}

/// Whatever the calls, a guard reads what was last written through any guard of the mutex:
/// locking, waiting, cancelling and unlocking never change the value.
pub proof fn guards_read_what_was_last_written<T>(initial: T, events: Seq<Event<T>>)
    requires
        possible(initial, events),
    ensures
        world_after(initial, events).value == last_written(initial, events),
    decreases events.len(),
{
    if events.len() > 0 {
        guards_read_what_was_last_written(initial, events.drop_last());
    }
}

/// A future that finds the queue empty is given the guard at its first poll.
pub proof fn free_mutex_is_granted(queue: QueueView, task: int)
    requires
        queue.wf(),
        queue.entries.len() == 0,
    ensures
        queue.grants(None),
        queue.polled(None, task).locked,
{
}

/// When a guard is dropped, the turn goes to the first future in the queue that is not dropped,
/// its task is the one that is told, and all slots before its own are free again. Where there is
/// no such future, nobody is told and the queue is empty.
pub proof fn turn_goes_to_the_next(queue: QueueView, position: int)
    requires
        queue.wf(),
        queue.locked,
        0 < position <= queue.entries.len(),
        forall|k: int| 0 < k < position ==> (#[trigger] queue.entries[k]) is Dead,
        position < queue.entries.len() ==> !(queue.entries[position] is Dead),
    ensures
        queue.advanced().entries.len() == queue.entries.len() - position,
        queue.advanced().first == queue.slot_at(position),
        !queue.advanced().locked,
        position == queue.entries.len() ==> queue.next_sleeper() is None,
        position < queue.entries.len() ==> {
            &&& queue.entries[position] is Asleep
            &&& queue.next_sleeper() == Some(queue.entries[position]->0)
            &&& queue.advanced().grants(Some(queue.slot_at(position)))
        },
{
    lemma_first_live(queue.entries, 1);
    let found = queue.successor();
    if found < position {
        assert(queue.entries[found] is Dead);
    }
    if position < found {
        assert(queue.entries[position] is Dead);
    }
}

/// The end of an access frees at least one slot and as many more as are passed over, and where a
/// slot is still in use, the one at the front is ready.
pub proof fn end_of_access_frees_slots(queue: QueueView)
    requires
        queue.entries.len() > 0,
    ensures
        1 <= queue.successor() <= queue.entries.len(),
        queue.advanced().entries.len() == queue.entries.len() - queue.successor(),
        queue.advanced().first == queue.slot_at(queue.successor()),
        queue.advanced().entries.len() == 0 || queue.advanced().entries[0] is Waking,
{
    lemma_first_live(queue.entries, 1);
}

/// Only registering moves the back of the queue, and only the end of an access moves its front.
pub proof fn ends_move_separately(queue: QueueView, slot: int, task: int)
    requires
        queue.wf(),
    ensures
        queue.registered().first == queue.first,
        queue.polled(None, task).first == queue.first,
        queue.polled(Some(slot), task).first == queue.first,
        queue.owns(slot) ==> queue.polled(Some(slot), task).entries.len() == queue.entries.len(),
        queue.killed(slot).first == queue.first,
        queue.owns(slot) ==> queue.killed(slot).entries.len() == queue.entries.len(),
        queue.entries.len() > 0 ==> (queue.advanced().slot_at(
            queue.advanced().entries.len() as int,
        ) - queue.slot_at(queue.entries.len() as int)) % (CAPACITY as int) == 0,
{
    if queue.entries.len() > 0 {
        lemma_first_live(queue.entries, 1);
    }
}

/// A future that is polled again before its turn keeps its place, and so does everyone else.
pub proof fn polling_again_keeps_the_place(queue: QueueView, slot: int, task: int)
    requires
        queue.wf(),
        queue.owns(slot),
        !queue.grants(Some(slot)),
    ensures
        queue.kept(Some(slot)) == Some(slot),
        queue.polled(Some(slot), task).position(slot) == queue.position(slot),
        forall|k: int|
            0 <= k < queue.entries.len() && k != queue.position(slot) ==> (#[trigger] queue.polled(
                Some(slot),
                task,
            ).entries[k]) == queue.entries[k],
        queue.polled(Some(slot), task).entries[queue.position(slot)] == SlotView::Asleep(task),
{
}

/// Every place in the sequence of registrations falls on a slot, and two places fall on the same
/// one exactly if they are a multiple of the number of slots apart.
pub proof fn places_share_slots_in_turn(one: usize, other: usize)
    ensures
        0 <= slot_for(one as int) < CAPACITY,
        slot_for(one as int) == slot_for(other as int) <==> (one - other) % (CAPACITY as int) == 0,
{
}

/// The task that the named future was last polled for.
pub open spec fn last_task<T>(events: Seq<Event<T>>, name: int) -> Option<int>
    decreases events.len(),
{
    if events.len() == 0 {
        None
    } else {
        match events.last() {
            Event::Poll(polled, task) if polled == name => Some(task),
            _ => last_task(events.drop_last(), name),
        }
    }
}

/// The entry of a future that waits behind the front holds the task that the future was last polled
/// for, whatever calls were made on others since.
pub proof fn waiting_tasks_are_kept<T>(initial: T, events: Seq<Event<T>>, name: int)
    requires
        possible(initial, events),
        world_after(initial, events).waits(name),
    ensures
        ({
            let world = world_after(initial, events);
            &&& last_task(events, name) is Some
            &&& 0 <= world.position_of(name) < world.queue.entries.len()
            &&& world.queue.entries[world.position_of(name)] == if world.position_of(name) > 0 {
                SlotView::Asleep(last_task(events, name)->0)
            } else {
                SlotView::Waking
            }
        }),
    decreases events.len(),
{
    lemma_calls(initial, events);
    let now = world_after(initial, events);
    assert(now.locks.contains_key(name));
    if events.len() > 0 {
        let before = world_after(initial, events.drop_last());
        let event = events.last();
        lemma_calls(initial, events.drop_last());
        let polled = match event {
            Event::Poll(polled, _) => polled == name,
            _ => false,
        };
        if !polled {
            assert(before.locks.contains_key(name));
            waiting_tasks_are_kept(initial, events.drop_last(), name);
            match event {
                Event::Poll(other, _) => {
                    assert(before.locks.contains_key(other));
                },
                Event::DropLock(other) => {
                    assert(before.locks.contains_key(other));
                },
                Event::DropGuard => {
                    lemma_first_live(before.queue.entries, 1);
                },
                _ => {},
            }
        }
    }
}

/// When a guard is dropped, the one that is told is the task that the earliest future that waits was
/// last polled for, and that future gets the guard when it is polled.
pub proof fn turn_tells_the_earliest_waiter<T>(initial: T, events: Seq<Event<T>>, name: int)
    requires
        possible(initial, events),
        world_after(initial, events).guards > 0,
        world_after(initial, events).waits(name),
        forall|other: int| #[trigger]
            world_after(initial, events).waits(other) ==> world_after(initial, events).numbers[name]
                <= world_after(initial, events).numbers[other],
    ensures
        ({
            let world = world_after(initial, events);
            let next = world.after(Event::DropGuard);
            &&& world.queue.next_sleeper() == last_task(events, name)
            &&& next.waits(name)
            &&& next.queue.grants(next.locks[name])
        }),
{
    let world = world_after(initial, events);
    lemma_calls(initial, events);
    first_come_first_served(initial, events);
    waiting_tasks_are_kept(initial, events, name);
    assert(world.locks.contains_key(name));
    let position = world.position_of(name);
    assert forall|k: int| 0 < k < position implies (#[trigger] world.queue.entries[k]) is Dead by {
        if !(world.queue.entries[k] is Dead) {
            let slot = world.queue.slot_at(k);
            assert(world.queue.owns(slot));
            let holder = choose|holder: int| #[trigger]
                world.locks.contains_key(holder) && world.locks[holder] == Some(slot);
            assert(world.waits(holder));
            assert(world.position_of(holder) == k);
        }
    }
    turn_goes_to_the_next(world.queue, position);
}

/// When a guard is dropped and no future waits, nobody is told and the queue is empty.
pub proof fn turn_tells_nobody_if_nobody_waits<T>(initial: T, events: Seq<Event<T>>)
    requires
        possible(initial, events),
        world_after(initial, events).guards > 0,
        forall|other: int| !(#[trigger] world_after(initial, events).waits(other)),
    ensures
        world_after(initial, events).queue.next_sleeper() is None,
        world_after(initial, events).after(Event::DropGuard).queue.entries.len() == 0,
{
    let world = world_after(initial, events);
    lemma_calls(initial, events);
    assert forall|k: int| 0 < k < world.queue.entries.len() implies (
    #[trigger] world.queue.entries[k]) is Dead by {
        if !(world.queue.entries[k] is Dead) {
            let slot = world.queue.slot_at(k);
            assert(world.queue.owns(slot));
            let holder = choose|holder: int| #[trigger]
                world.locks.contains_key(holder) && world.locks[holder] == Some(slot);
            assert(world.waits(holder));
        }
    }
    turn_goes_to_the_next(world.queue, world.queue.entries.len() as int);
}

/// A future whose turn has come keeps it, whatever calls are made on others.
pub proof fn a_turn_is_kept<T>(initial: T, events: Seq<Event<T>>, event: Event<T>, name: int)
    requires
        possible(initial, events),
        world_after(initial, events).admits(event),
        world_after(initial, events).waits(name),
        world_after(initial, events).queue.grants(world_after(initial, events).locks[name]),
        event matches Event::Poll(other, _) ==> other != name,
        event matches Event::DropLock(other) ==> other != name,
    ensures
        world_after(initial, events).after(event).waits(name),
        world_after(initial, events).after(event).queue.grants(
            world_after(initial, events).after(event).locks[name],
        ),
{
    let world = world_after(initial, events);
    lemma_calls(initial, events);
    assert(world.locks.contains_key(name));
    match event {
        Event::Poll(other, _) => {
            assert(world.locks.contains_key(other));
        },
        Event::DropLock(other) => {
            assert(world.locks.contains_key(other));
        },
        _ => {},
    }
}

/// A call on one future takes no slot from another: who waits goes on waiting until its own poll
/// gives it the guard or it is dropped.
pub proof fn others_go_on_waiting<T>(
    initial: T,
    events: Seq<Event<T>>,
    event: Event<T>,
    name: int,
)
    requires
        possible(initial, events),
        world_after(initial, events).admits(event),
        world_after(initial, events).waits(name),
        event matches Event::Poll(other, _) ==> other != name,
        event matches Event::DropLock(other) ==> other != name,
    ensures
        world_after(initial, events).after(event).waits(name),
        world_after(initial, events).after(event).locks[name] == world_after(
            initial,
            events,
        ).locks[name],
        world_after(initial, events).after(event).queue.owns(
            world_after(initial, events).locks[name]->0,
        ),
{
    let world = world_after(initial, events);
    lemma_calls(initial, events);
    lemma_step(world, event);
    assert(world.locks.contains_key(name));
    assert(world.after(event).locks.contains_key(name));
}

} // verus!
