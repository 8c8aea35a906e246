//! What holds of a mutex when calls on it run at the same time, step by step.
//!
//! Each step is one access to `front`, to `back` or to the state of a slot; the steps of different
//! calls come in any order. What `next` does relies on its not running twice at the same time, so
//! a guard is dropped only when no earlier `next` is still under way.
use crate::queue::{first_live, lemma_first_live, slot_for, QueueView, CAPACITY};
use crate::slot::SlotView;
use vstd::prelude::*;

verus! {

/// How far a future, or the guard that it was given, has come.
pub enum Stage {
    /// It was not polled yet.
    Fresh,
    /// In `register`: `back` was this.
    SeenBack(int),
    /// In `register`: `back` was this, and then `front` was that.
    SeenFront(int, int),
    /// In `register`: this place in the order is its own; about to look at `front` again.
    Claimed(int),
    /// In `register`: nobody is before it; about to wake its own slot.
    Rousing(int),
    /// It holds the slot for this place; between polls, or about to begin `ready`.
    Queued(int),
    /// Between the two steps of `ready`, on behalf of a task.
    Settling(int, int),
    /// In `ready`: the slot for this place was woken; about to reset it.
    Accepting(int),
    /// `register` found all slots in use.
    Refused,
    /// It was given the guard.
    Holding(int),
    /// In `next`: about to look at `front`.
    Leaving,
    /// In `next`: about to reset the slot for this place.
    Resetting(int),
    /// In `next`: about to move `front` on.
    Moving,
    /// In `next`: `front` was moved on to this place; about to look at `back`.
    Looking(int),
    /// In `next`: about to wake the slot for this place.
    Waking(int),
    /// It was dropped, or `next` is done.
    Gone,
}

impl Stage {
    /// The place in the order of registration that a future has.
    pub open spec fn place(self) -> Option<int> {
        match self {
            Stage::Claimed(place) => Some(place),
            Stage::Rousing(place) => Some(place),
            Stage::Queued(place) => Some(place),
            Stage::Settling(place, _) => Some(place),
            Stage::Accepting(place) => Some(place),
            Stage::Holding(place) => Some(place),
            _ => None,
        }
    }

    /// In `next`, with the front not moved on.
    pub open spec fn at_front(self) -> bool {
        self is Leaving || self is Resetting || self is Moving
    }

    /// In `next`.
    pub open spec fn in_next(self) -> bool {
        self.at_front() || self is Looking || self is Waking
    }
}

/// A mutex and the futures and guards that share it. Places in the order of registration are
/// counted without end; the slot for a place is found by going round.
pub struct Shared {
    pub front: int,
    pub back: int,
    pub slots: Seq<SlotView>,
    pub stages: Map<int, Stage>,
}

/// What happens next.
pub enum Act {
    /// `Mutex::lock`; the future is given a name.
    Lock(int),
    /// The named future takes its next step in `poll`, on behalf of a task. If it is about to
    /// claim a place, it may fail for no reason.
    Poll(int, int, bool),
    /// The named future is dropped between polls.
    DropLock(int),
    /// The guard of the named future is dropped, or takes its next step in `next`.
    DropGuard(int),
}

impl Shared {
    /// A new mutex.
    pub open spec fn new() -> Shared {
        Shared {
            front: 0,
            back: 0,
            slots: Seq::new(CAPACITY as nat, |i: int| SlotView::Dozing),
            stages: Map::empty(),
        }
    }

    /// The slot for a place.
    pub open spec fn slot(self, place: int) -> SlotView {
        self.slots[slot_for(place)]
    }

    /// With the slot for a place changed.
    pub open spec fn with_slot(self, place: int, slot: SlotView) -> Shared {
        Shared { slots: self.slots.update(slot_for(place), slot), ..self }
    }

    /// With a future moved on.
    pub open spec fn at(self, name: int, stage: Stage) -> Shared {
        Shared { stages: self.stages.insert(name, stage), ..self }
    }

    /// Some call of `next` is under way.
    pub open spec fn next_under_way(self) -> bool {
        exists|name: int| #[trigger]
            self.stages.contains_key(name) && self.stages[name].in_next()
    }

    /// Whether it can happen.
    pub open spec fn admits(self, act: Act) -> bool {
        match act {
            Act::Lock(name) => !self.stages.contains_key(name),
            Act::Poll(name, _, _) => {
                &&& self.stages.contains_key(name)
                &&& self.stages[name] is Fresh || self.stages[name] is SeenBack
                    || self.stages[name] is SeenFront || self.stages[name] is Claimed
                    || self.stages[name] is Rousing || self.stages[name] is Queued
                    || self.stages[name] is Settling || self.stages[name] is Accepting
            },
            Act::DropLock(name) => {
                &&& self.stages.contains_key(name)
                &&& self.stages[name] is Queued
            },
            Act::DropGuard(name) => {
                &&& self.stages.contains_key(name)
                &&& self.stages[name].in_next() || self.stages[name] is Holding
                    && !self.next_under_way()
            },
        }
    }

    /// The next step of a poll.
    pub open spec fn poll_step(self, name: int, task: int, fails: bool) -> Shared {
        match self.stages[name] {
            Stage::Fresh => self.at(name, Stage::SeenBack(self.back)),
            Stage::SeenBack(back) => self.at(name, Stage::SeenFront(back, self.front)),
            Stage::SeenFront(back, front) => if !(0 <= back - front < CAPACITY) {
                self.at(name, Stage::Refused)
            } else if self.back == back && !fails {
                Shared { back: back + 1, ..self.at(name, Stage::Claimed(back)) }
            } else {
                self.at(name, Stage::SeenBack(self.back))
            },
            Stage::Claimed(place) => if place == self.front {
                self.at(name, Stage::Rousing(place))
            } else {
                self.at(name, Stage::Queued(place))
            },
            Stage::Rousing(place) => self.with_slot(place, self.slot(place).awoken()).at(
                name,
                Stage::Queued(place),
            ),
            Stage::Queued(place) => if self.slot(place) is Waking {
                self.at(name, Stage::Accepting(place))
            } else {
                self.with_slot(place, self.slot(place).dozed()).at(
                    name,
                    Stage::Settling(place, task),
                )
            },
            Stage::Settling(place, task) => if self.slot(place) is Waking {
                self.at(name, Stage::Accepting(place))
            } else {
                self.with_slot(place, self.slot(place).readied(task)).at(
                    name,
                    Stage::Queued(place),
                )
            },
            Stage::Accepting(place) => self.with_slot(place, SlotView::Dozing).at(
                name,
                Stage::Holding(place),
            ),
            _ => self,
        }
    }

    /// The next step of the drop of a guard.
    pub open spec fn next_step(self, name: int) -> Shared {
        match self.stages[name] {
            Stage::Holding(_) => self.at(name, Stage::Leaving),
            Stage::Leaving => self.at(name, Stage::Resetting(self.front)),
            Stage::Resetting(place) => self.with_slot(place, SlotView::Dozing).at(
                name,
                Stage::Moving,
            ),
            Stage::Moving => Shared {
                front: self.front + 1,
                ..self.at(name, Stage::Looking(self.front + 1))
            },
            Stage::Looking(place) => self.at(
                name,
                if self.back == place {
                    Stage::Gone
                } else {
                    Stage::Waking(place)
                },
            ),
            Stage::Waking(place) => self.with_slot(place, self.slot(place).awoken()).at(
                name,
                if self.slot(place) is Dead {
                    Stage::Leaving
                } else {
                    Stage::Gone
                },
            ),
            _ => self,
        }
    }

    pub open spec fn after(self, act: Act) -> Shared {
        match act {
            Act::Lock(name) => self.at(name, Stage::Fresh),
            Act::Poll(name, task, fails) => self.poll_step(name, task, fails),
            Act::DropLock(name) => self.with_slot(
                self.stages[name].place()->0,
                SlotView::Dead,
            ).at(name, Stage::Gone),
            Act::DropGuard(name) => self.next_step(name),
        }
    }

    /// The place is in use.
    pub open spec fn in_use(self, place: int) -> bool {
        self.front <= place < self.back
    }

    spec fn stage_sound(self, stage: Stage) -> bool {
        match stage {
            Stage::SeenBack(back) => back <= self.back,
            Stage::SeenFront(back, front) => back <= self.back && front <= self.front,
            Stage::Rousing(place) => place == self.front,
            Stage::Accepting(place) => place == self.front && self.slot(place) is Waking,
            Stage::Holding(place) => place == self.front,
            Stage::Leaving => self.front < self.back,
            Stage::Resetting(place) => place == self.front && self.front < self.back,
            Stage::Moving => self.front < self.back && self.slot(self.front) is Dozing,
            Stage::Looking(place) => place == self.front,
            Stage::Waking(place) => place == self.front && self.front < self.back,
            _ => true,
        }
    }

    spec fn sound(self) -> bool {
        &&& self.slots.len() == CAPACITY
        &&& 0 <= self.front <= self.back <= self.front + CAPACITY
        // The slots that are not in use doze, and only the one at the front may be ready.
        &&& forall|place: int|
            self.back <= place < self.front + CAPACITY ==> self.slots[#[trigger] slot_for(
                place,
            )] is Dozing
        &&& forall|place: int|
            self.front < place < self.back ==> !(self.slots[#[trigger] slot_for(place)] is Waking)
        &&& forall|name: int| #[trigger]
            self.stages.contains_key(name) ==> self.stage_sound(self.stages[name])
        // Each place in use is the place of one future, or of the guard that is being dropped.
        &&& forall|name: int| #[trigger]
            self.stages.contains_key(name) && self.stages[name].place() is Some ==> self.in_use(
                self.stages[name].place()->0,
            ) && !(self.slot(self.stages[name].place()->0) is Dead)
        &&& forall|one: int, other: int|
            #![trigger self.stages.contains_key(one), self.stages.contains_key(other)]
            self.stages.contains_key(one) && self.stages.contains_key(other) && one != other ==> {
                &&& !(self.stages[one].in_next() && self.stages[other].in_next())
                &&& self.stages[one].place() is Some ==> self.stages[one].place()
                    != self.stages[other].place()
                &&& self.stages[one].at_front() ==> self.stages[other].place() != Some(self.front)
            }
    }
}

impl Shared {
    /// A future has the place.
    pub open spec fn has_place(self, place: int) -> bool {
        exists|name: int| #[trigger]
            self.stages.contains_key(name) && self.stages[name].place() == Some(place)
    }

    /// The guard of the future at the front is being dropped.
    pub open spec fn front_is_left(self) -> bool {
        exists|name: int| #[trigger]
            self.stages.contains_key(name) && self.stages[name].at_front()
    }

    /// A future has the place at the front and is about to wake its slot itself.
    pub open spec fn front_rouses_itself(self) -> bool {
        exists|name: int| #[trigger]
            self.stages.contains_key(name) && (self.stages[name] == Stage::Claimed(self.front)
                || self.stages[name] == Stage::Rousing(self.front))
    }

    /// The act drops the future at the front with nobody left to pass its turn on.
    pub open spec fn abandons_turn(self, act: Act) -> bool {
        match act {
            Act::DropLock(name) => self.stages[name].place() == Some(self.front)
                && !self.next_under_way(),
            _ => false,
        }
    }

    /// Unless a `next` is under way, the front has its guard, or is ready, or about to be.
    spec fn lively(self) -> bool {
        self.front < self.back && !self.next_under_way() ==> self.guard_out() || self.slot(
            self.front,
        ) is Waking || self.front_rouses_itself()
    }

    /// Each live slot in use is for a future that has its place.
    spec fn accounted(self) -> bool {
        forall|place: int|
            self.in_use(place) && !(self.slots[#[trigger] slot_for(place)] is Dead) ==> {
                ||| self.has_place(place)
                ||| place == self.front && self.front_is_left()
            }
    }
}

proof fn lemma_slots_differ(front: int, one: int, other: int)
    requires
        front <= one < front + CAPACITY,
        front <= other < front + CAPACITY,
        one != other,
    ensures
        slot_for(one) != slot_for(other),
{
}

proof fn lemma_slots_go_round(place: int)
    ensures
        slot_for(place + CAPACITY) == slot_for(place),
        0 <= slot_for(place) < CAPACITY,
{
}

/// Changing the slot for one place leaves those for the other places as they are.
proof fn lemma_with_slot(now: Shared, place: int, slot: SlotView)
    requires
        now.slots.len() == CAPACITY,
        now.front <= place < now.front + CAPACITY,
    ensures
        now.with_slot(place, slot).slots.len() == CAPACITY,
        now.with_slot(place, slot).slot(place) == slot,
        forall|other: int|
            now.front <= other < now.front + CAPACITY && other != place ==> now.with_slot(
                place,
                slot,
            ).slots[#[trigger] slot_for(other)] == now.slots[slot_for(other)],
{
    assert forall|other: int|
        now.front <= other < now.front + CAPACITY && other != place implies now.with_slot(
        place,
        slot,
    ).slots[#[trigger] slot_for(other)] == now.slots[slot_for(other)] by {
        lemma_slots_differ(now.front, place, other);
    }
}

/// The place whose slot an act changes, if it changes one, and what the slot becomes.
spec fn changed_slot(now: Shared, act: Act) -> Option<(int, SlotView)> {
    match act {
        Act::Lock(_) => None,
        Act::Poll(name, _, _) => match now.stages[name] {
            Stage::Rousing(place) => Some((place, now.slot(place).awoken())),
            Stage::Queued(place) => if now.slot(place) is Waking {
                None
            } else {
                Some((place, now.slot(place).dozed()))
            },
            Stage::Settling(place, task) => if now.slot(place) is Waking {
                None
            } else {
                Some((place, now.slot(place).readied(task)))
            },
            Stage::Accepting(place) => Some((place, SlotView::Dozing)),
            _ => None,
        },
        Act::DropLock(name) => Some((now.stages[name].place()->0, SlotView::Dead)),
        Act::DropGuard(name) => match now.stages[name] {
            Stage::Resetting(place) => Some((place, SlotView::Dozing)),
            Stage::Waking(place) => Some((place, now.slot(place).awoken())),
            _ => None,
        },
    }
}

/// An act changes the slot for one place at most, and leaves those for the other places as they
/// are.
proof fn lemma_slots_after(now: Shared, act: Act)
    requires
        now.sound(),
        now.admits(act),
    ensures
        now.after(act).slots.len() == CAPACITY,
        match changed_slot(now, act) {
            Some((place, slot)) => {
                &&& now.in_use(place)
                &&& now.after(act).slots[slot_for(place)] == slot
                &&& forall|other: int|
                    now.front <= other < now.front + CAPACITY && other != place ==> now.after(
                        act,
                    ).slots[#[trigger] slot_for(other)] == now.slots[slot_for(other)]
            },
            None => now.after(act).slots == now.slots,
        },
{
    if let Some((place, slot)) = changed_slot(now, act) {
        lemma_with_slot(now, place, slot);
    }
}

proof fn lemma_lock(now: Shared, name: int)
    requires
        now.sound(),
        now.admits(Act::Lock(name)),
    ensures
        now.after(Act::Lock(name)).sound(),
{
}

proof fn lemma_poll(now: Shared, name: int, task: int, fails: bool)
    requires
        now.sound(),
        now.admits(Act::Poll(name, task, fails)),
    ensures
        now.after(Act::Poll(name, task, fails)).sound(),
{
    lemma_slots_after(now, Act::Poll(name, task, fails));
}

proof fn lemma_drop_lock(now: Shared, name: int)
    requires
        now.sound(),
        now.admits(Act::DropLock(name)),
    ensures
        now.after(Act::DropLock(name)).sound(),
{
    lemma_slots_after(now, Act::DropLock(name));
}

proof fn lemma_next(now: Shared, name: int)
    requires
        now.sound(),
        now.admits(Act::DropGuard(name)),
    ensures
        now.after(Act::DropGuard(name)).sound(),
{
    lemma_slots_after(now, Act::DropGuard(name));
    if now.stages[name] is Moving {
        lemma_slots_go_round(now.front);
    }
}

/// The future that an act moves on.
spec fn mover(act: Act) -> int {
    match act {
        Act::Lock(name) => name,
        Act::Poll(name, _, _) => name,
        Act::DropLock(name) => name,
        Act::DropGuard(name) => name,
    }
}

proof fn lemma_others_stay(now: Shared, act: Act)
    requires
        now.admits(act),
    ensures
        now.after(act).stages.contains_key(mover(act)),
        forall|name: int|
            name != mover(act) ==> #[trigger] now.after(act).stages.contains_key(name)
                == now.stages.contains_key(name),
        forall|name: int|
            name != mover(act) && #[trigger] now.after(act).stages.contains_key(name)
                ==> now.after(act).stages[name] == now.stages[name],
{
}

proof fn lemma_lively(now: Shared, act: Act)
    requires
        now.sound(),
        now.lively(),
        now.admits(act),
        !now.abandons_turn(act),
    ensures
        now.after(act).lively(),
{
    let next = now.after(act);
    let name = mover(act);
    lemma_others_stay(now, act);
    lemma_slots_after(now, act);
    if next.front < next.back && !next.next_under_way() {
        if now.next_under_way() {
            let passer = choose|passer: int| #[trigger]
                now.stages.contains_key(passer) && now.stages[passer].in_next();
            assert(next.stages.contains_key(passer));
            assert(passer == name);
            assert(now.stages[name] is Waking);
        } else {
            if now.front_rouses_itself() {
                let rouser = choose|rouser: int| #[trigger]
                    now.stages.contains_key(rouser) && (now.stages[rouser] == Stage::Claimed(
                        now.front,
                    ) || now.stages[rouser] == Stage::Rousing(now.front));
                assert(next.stages.contains_key(rouser));
            }
            if now.guard_out() {
                let holder = choose|holder: int| #[trigger]
                    now.stages.contains_key(holder) && now.stages[holder] is Holding;
                assert(next.stages.contains_key(holder));
            }
            assert(next.stages.contains_key(name));
            assert(now.front <= now.back <= now.front + CAPACITY);
        }
    }
}

proof fn lemma_accounted(now: Shared, act: Act)
    requires
        now.sound(),
        now.accounted(),
        now.admits(act),
    ensures
        now.after(act).accounted(),
{
    let next = now.after(act);
    let name = mover(act);
    lemma_others_stay(now, act);
    lemma_slots_after(now, act);
    assert forall|place: int|
        next.in_use(place) && !(next.slots[#[trigger] slot_for(place)] is Dead) implies {
        ||| next.has_place(place)
        ||| place == next.front && next.front_is_left()
    } by {
        assert(next.stages.contains_key(name));
        if now.in_use(place) && !(now.slots[slot_for(place)] is Dead) {
            if now.has_place(place) {
                let owner = choose|owner: int| #[trigger]
                    now.stages.contains_key(owner) && now.stages[owner].place() == Some(place);
                assert(next.stages.contains_key(owner));
            } else {
                let leaver = choose|leaver: int| #[trigger]
                    now.stages.contains_key(leaver) && now.stages[leaver].at_front();
                assert(next.stages.contains_key(leaver));
            }
        }
    }
}

/// The mutex after these acts.
pub open spec fn after_acts(acts: Seq<Act>) -> Shared
    decreases acts.len(),
{
    if acts.len() == 0 {
        Shared::new()
    } else {
        after_acts(acts.drop_last()).after(acts.last())
    }
}

/// Each act can happen when its turn comes.
pub open spec fn possible(acts: Seq<Act>) -> bool
    decreases acts.len(),
{
    acts.len() > 0 ==> {
        &&& possible(acts.drop_last())
        &&& after_acts(acts.drop_last()).admits(acts.last())
    }
}

/// No act drops the future at the front with nobody left to pass its turn on.
pub open spec fn no_turn_abandoned(acts: Seq<Act>) -> bool
    decreases acts.len(),
{
    acts.len() > 0 ==> {
        &&& no_turn_abandoned(acts.drop_last())
        &&& !after_acts(acts.drop_last()).abandons_turn(acts.last())
    }
}

proof fn lemma_acts(acts: Seq<Act>)
    requires
        possible(acts),
    ensures
        after_acts(acts).sound(),
        after_acts(acts).accounted(),
        no_turn_abandoned(acts) ==> after_acts(acts).lively(),
    decreases acts.len(),
{
    if acts.len() > 0 {
        let now = after_acts(acts.drop_last());
        lemma_acts(acts.drop_last());
        lemma_accounted(now, acts.last());
        if no_turn_abandoned(acts) {
            lemma_lively(now, acts.last());
        }
        match acts.last() {
            Act::Lock(name) => lemma_lock(now, name),
            Act::Poll(name, task, fails) => lemma_poll(now, name, task, fails),
            Act::DropLock(name) => lemma_drop_lock(now, name),
            Act::DropGuard(name) => lemma_next(now, name),
        }
    }
}

/// Whatever the order of the steps, at most one guard is out, and none while another one that was
/// dropped still has its place.
pub proof fn mutual_exclusion(acts: Seq<Act>, one: int, other: int)
    requires
        possible(acts),
        after_acts(acts).stages.contains_key(one),
        after_acts(acts).stages.contains_key(other),
        after_acts(acts).stages[one] is Holding,
        after_acts(acts).stages[other] is Holding || after_acts(acts).stages[other].at_front(),
    ensures
        one == other,
{
    lemma_acts(acts);
}

/// Whatever the order of the steps, no more places are in use than there are slots, each future's
/// place is in use, no two futures share one, and a future that holds the guard has the earliest.
pub proof fn places_are_kept(acts: Seq<Act>, one: int, other: int)
    requires
        possible(acts),
        after_acts(acts).stages.contains_key(one),
        after_acts(acts).stages.contains_key(other),
        after_acts(acts).stages[one].place() is Some,
        after_acts(acts).stages[other].place() is Some,
    ensures
        after_acts(acts).back - after_acts(acts).front <= CAPACITY,
        after_acts(acts).in_use(after_acts(acts).stages[one].place()->0),
        after_acts(acts).stages[one].place() == after_acts(acts).stages[other].place() ==> one
            == other,
        after_acts(acts).stages[one] is Holding ==> after_acts(acts).stages[one].place()->0
            <= after_acts(acts).stages[other].place()->0,
{
    lemma_acts(acts);
}

impl Shared {
    /// No call is half done.
    pub open spec fn at_rest(self) -> bool {
        forall|name: int| #[trigger]
            self.stages.contains_key(name) ==> self.stages[name] is Fresh
                || self.stages[name] is Queued || self.stages[name] is Refused
                || self.stages[name] is Holding || self.stages[name] is Gone
    }

    /// A guard is out.
    pub open spec fn guard_out(self) -> bool {
        exists|name: int| #[trigger]
            self.stages.contains_key(name) && self.stages[name] is Holding
    }

    /// What the queue stands for.
    pub open spec fn queue(self) -> QueueView {
        QueueView {
            first: slot_for(self.front),
            entries: Seq::new(
                (self.back - self.front) as nat,
                |k: int| self.slots[slot_for(self.front + k)],
            ),
            locked: self.guard_out(),
        }
    }
}

/// Whatever the order of the steps, the queue does not stall: when no call is half done and places
/// are in use, a guard is out or there is a future that gets one when it is polled. Acts that drop
/// the future at the front with nobody left to pass its turn on are left out.
pub proof fn no_stall(acts: Seq<Act>)
    requires
        possible(acts),
        no_turn_abandoned(acts),
        after_acts(acts).at_rest(),
        after_acts(acts).front < after_acts(acts).back,
    ensures
        after_acts(acts).guard_out() || exists|name: int| #[trigger]
            after_acts(acts).stages.contains_key(name) && after_acts(acts).stages[name]
                == Stage::Queued(after_acts(acts).front) && after_acts(acts).slot(
                after_acts(acts).front,
            ) is Waking,
{
    lemma_acts(acts);
    let now = after_acts(acts);
    if !now.guard_out() {
        assert(now.slots[slot_for(now.front)] is Waking);
        assert(now.has_place(now.front));
        let name = choose|name: int| #[trigger]
            now.stages.contains_key(name) && now.stages[name].place() == Some(now.front);
        assert(now.stages.contains_key(name));
    }
}

impl Shared {
    /// So many steps of a poll, none of which fails.
    pub open spec fn polled(self, name: int, task: int, steps: nat) -> Shared
        decreases steps,
    {
        if steps == 0 {
            self
        } else {
            self.poll_step(name, task, false).polled(name, task, (steps - 1) as nat)
        }
    }

    /// The rest of a `next`.
    pub open spec fn next_finished(self, name: int) -> Shared
        decreases
            self.back - self.front + 1,
            match self.stages[name] {
                Stage::Holding(_) => 6int,
                Stage::Leaving => 5,
                Stage::Resetting(_) => 4,
                Stage::Moving => 3,
                Stage::Looking(_) => 8,
                Stage::Waking(_) => 7,
                _ => 0,
            },
        when self.front <= self.back
    {
        if self.stages[name].in_next() || self.stages[name] is Holding {
            self.next_step(name).next_finished(name)
        } else {
            self
        }
    }
}

#[verifier::rlimit(40)]
proof fn lemma_first_poll(before: Shared, name: int, task: int)
    requires
        before.sound(),
        before.stages.contains_key(name),
        before.stages[name] is Fresh,
        before.back - before.front < CAPACITY,
    ensures
        before.polled(
            name,
            task,
            if before.back == before.front {
                7
            } else {
                6
            },
        ) == (Shared {
            front: before.front,
            back: before.back + 1,
            slots: before.slots.update(
                slot_for(before.back),
                if before.back == before.front {
                    SlotView::Dozing
                } else {
                    SlotView::Asleep(task)
                },
            ),
            stages: before.stages.insert(
                name,
                if before.back == before.front {
                    Stage::Holding(before.back)
                } else {
                    Stage::Queued(before.back)
                },
            ),
        }),
{
    let back = before.back;
    let free = before.front == back;
    lemma_slots_go_round(back);
    assert(before.slots[slot_for(back)] is Dozing);
    let s1 = before.poll_step(name, task, false);
    let s2 = s1.poll_step(name, task, false);
    let s3 = s2.poll_step(name, task, false);
    let s4 = s3.poll_step(name, task, false);
    let s5 = s4.poll_step(name, task, false);
    let s6 = s5.poll_step(name, task, false);
    let s7 = s6.poll_step(name, task, false);
    assert(before.polled(name, task, 6) == s6 && before.polled(name, task, 7) == s7) by {
        reveal_with_fuel(Shared::polled, 8);
    }
    assert(s3.stages[name] == Stage::Claimed(back) && s3.slots == before.slots);
    assert(s4.stages[name] == if free {
        Stage::Rousing(back)
    } else {
        Stage::Queued(back)
    });
    assert(s5.stages[name] == if free {
        Stage::Queued(back)
    } else {
        Stage::Settling(back, task)
    });
    assert(s5.slots =~= if free {
        before.slots.update(slot_for(back), SlotView::Waking)
    } else {
        before.slots
    });
    let slot = if free {
        SlotView::Dozing
    } else {
        SlotView::Asleep(task)
    };
    let stage = if free {
        Stage::Holding(back)
    } else {
        Stage::Queued(back)
    };
    let done = if free {
        s7
    } else {
        s6
    };
    assert(free ==> s6.stages[name] == Stage::Accepting(back));
    assert(done.slots =~= before.slots.update(slot_for(back), slot));
    assert(done.stages =~= before.stages.insert(name, stage));
}

/// Whether a guard is out, after one future has moved on.
proof fn lemma_guard_out(before: Shared, done: Shared, name: int, stage: Stage)
    requires
        before.stages.contains_key(name),
        !(before.stages[name] is Holding),
        done.stages == before.stages.insert(name, stage),
    ensures
        done.guard_out() == (before.guard_out() || stage is Holding),
{
    if before.guard_out() {
        let holder = choose|holder: int| #[trigger]
            before.stages.contains_key(holder) && before.stages[holder] is Holding;
        assert(done.stages.contains_key(holder));
    }
    if done.guard_out() {
        let holder = choose|holder: int| #[trigger]
            done.stages.contains_key(holder) && done.stages[holder] is Holding;
        assert(holder == name || before.stages.contains_key(holder));
    }
    assert(done.stages.contains_key(name));
}

/// What the queue stands for, after a future has taken the place at the back.
#[verifier::rlimit(40)]
proof fn lemma_joined(before: Shared, done: Shared, name: int, task: int)
    requires
        before.sound(),
        before.stages.contains_key(name),
        before.stages[name] is Fresh,
        before.back - before.front < CAPACITY,
        done.front == before.front,
        done.back == before.back + 1,
        done.slots == before.slots.update(
            slot_for(before.back),
            if before.back == before.front {
                SlotView::Dozing
            } else {
                SlotView::Asleep(task)
            },
        ),
        done.stages == before.stages.insert(
            name,
            if before.back == before.front {
                Stage::Holding(before.back)
            } else {
                Stage::Queued(before.back)
            },
        ),
    ensures
        before.queue().grants(None) == (before.back == before.front),
        slot_for(before.back) == before.queue().polled_slot(None),
        done.queue() == before.queue().polled(None, task),
{
    lemma_guard_out(before, done, name, done.stages[name]);
    lemma_with_slot(before, before.back, done.slots[slot_for(before.back)]);
    assert(slot_for(before.back) == before.queue().slot_at(before.back - before.front));
    assert(before.queue().position(slot_for(before.back)) == before.back - before.front);
    assert(done.queue().entries =~= before.queue().polled(None, task).entries);
}

/// A first poll that is not interrupted makes of the queue what `Lock::poll` makes of it.
pub proof fn steps_of_first_poll(acts: Seq<Act>, name: int, task: int)
    requires
        possible(acts),
        after_acts(acts).at_rest(),
        after_acts(acts).stages.contains_key(name),
        after_acts(acts).stages[name] is Fresh,
        after_acts(acts).queue().entries.len() < CAPACITY,
    ensures
        ({
            let before = after_acts(acts);
            let granted = before.queue().grants(None);
            let done = before.polled(
                name,
                task,
                if granted {
                    7
                } else {
                    6
                },
            );
            &&& done.queue() == before.queue().polled(None, task)
            &&& done.stages[name] == if granted {
                Stage::Holding(before.back)
            } else {
                Stage::Queued(before.back)
            }
            &&& slot_for(before.back) == before.queue().polled_slot(None)
        }),
{
    let before = after_acts(acts);
    lemma_acts(acts);
    lemma_first_poll(before, name, task);
    let done = before.polled(
        name,
        task,
        if before.back == before.front {
            7
        } else {
            6
        },
    );
    lemma_joined(before, done, name, task);
}

/// A later poll that is not interrupted makes of the queue what `Lock::poll` makes of it.
pub proof fn steps_of_later_poll(acts: Seq<Act>, name: int, place: int, task: int)
    requires
        possible(acts),
        after_acts(acts).at_rest(),
        after_acts(acts).stages.contains_key(name),
        after_acts(acts).stages[name] == Stage::Queued(place),
    ensures
        ({
            let before = after_acts(acts);
            let granted = before.queue().grants(Some(slot_for(place)));
            let done = before.polled(name, task, 2);
            &&& done.queue() == before.queue().polled(Some(slot_for(place)), task)
            &&& done.stages[name] == if granted {
                Stage::Holding(place)
            } else {
                Stage::Queued(place)
            }
        }),
{
    let before = after_acts(acts);
    lemma_acts(acts);
    lemma_slots_go_round(place);
    lemma_slots_go_round(before.front);
    let queue = before.queue();
    assert(queue.position(slot_for(place)) == place - before.front);
    assert(queue.entries[place - before.front] == before.slot(place));
    let granted = queue.grants(Some(slot_for(place)));
    let s1 = before.poll_step(name, task, false);
    let s2 = s1.poll_step(name, task, false);
    assert(before.polled(name, task, 2) == s2) by {
        reveal_with_fuel(Shared::polled, 3);
    }
    let done = s2;
    let slot = before.slot(place).readied(task);
    assert(done.slots =~= before.slots.update(slot_for(place), slot));
    assert(done.stages =~= before.stages.insert(name, done.stages[name]));
    lemma_guard_out(before, done, name, done.stages[name]);
    lemma_with_slot(before, place, slot);
    assert(done.queue().entries =~= queue.polled(Some(slot_for(place)), task).entries);
}

/// The drop of a future makes of the queue what `Lock::drop` makes of it.
pub proof fn step_of_drop_lock(acts: Seq<Act>, name: int, place: int)
    requires
        possible(acts),
        after_acts(acts).at_rest(),
        after_acts(acts).stages.contains_key(name),
        after_acts(acts).stages[name] == Stage::Queued(place),
    ensures
        after_acts(acts).after(Act::DropLock(name)).queue() == after_acts(acts).queue().killed(
            slot_for(place),
        ),
{
    let before = after_acts(acts);
    let done = before.after(Act::DropLock(name));
    lemma_acts(acts);
    lemma_slots_go_round(place);
    lemma_slots_go_round(before.front);
    lemma_guard_out(before, done, name, Stage::Gone);
    lemma_with_slot(before, place, SlotView::Dead);
    assert(before.queue().position(slot_for(place)) == place - before.front);
    assert(done.queue().entries =~= before.queue().killed(slot_for(place)).entries);
}

proof fn lemma_first_live_shifts(entries: Seq<SlotView>, from: int)
    requires
        entries.len() > 0,
        0 <= from < entries.len(),
    ensures
        first_live(entries.skip(1), from) + 1 == first_live(entries, from + 1),
    decreases entries.len() - from,
{
    let rest = entries.skip(1);
    if from < rest.len() && rest[from] is Dead {
        lemma_first_live_shifts(entries, from + 1);
    }
}

/// The steps of a `next` from its first look at `front` until `front` is moved on: the front leaves.
proof fn lemma_front_left(now: Shared, name: int)
    requires
        now.sound(),
        now.stages.contains_key(name),
        now.stages[name] is Leaving,
    ensures
        ({
            let left = now.next_step(name).next_step(name).next_step(name);
            &&& left.sound()
            &&& left.front == now.front + 1
            &&& left.back == now.back
            &&& left.stages == now.stages.insert(name, Stage::Looking(now.front + 1))
            &&& left.queue().first == now.queue().slot_at(1)
            &&& left.queue().entries == now.queue().entries.skip(1)
            &&& now.next_finished(name) == left.next_finished(name)
        }),
{
    let s1 = now.next_step(name);
    lemma_next(now, name);
    let s2 = s1.next_step(name);
    lemma_next(s1, name);
    let s3 = s2.next_step(name);
    lemma_next(s2, name);
    lemma_slots_go_round(now.front);
    lemma_with_slot(now, now.front, SlotView::Dozing);
    assert(s3.stages =~= now.stages.insert(name, Stage::Looking(now.front + 1)));
    assert(s3.queue().entries =~= now.queue().entries.skip(1));
    assert(now.next_finished(name) == s3.next_finished(name)) by {
        reveal_with_fuel(Shared::next_finished, 4);
    }
}

/// The last step of a `next` at a slot that is in use: the slot is woken unless it is dead.
proof fn lemma_front_awoken(left: Shared, name: int)
    requires
        left.sound(),
        left.stages.contains_key(name),
        left.stages[name] == Stage::Looking(left.front),
        left.front < left.back,
    ensures
        ({
            let awoken = left.next_step(name).next_step(name);
            let dead = left.queue().entries[0] is Dead;
            &&& awoken.sound()
            &&& awoken.front == left.front
            &&& awoken.back == left.back
            &&& awoken.stages == left.stages.insert(
                name,
                if dead {
                    Stage::Leaving
                } else {
                    Stage::Gone
                },
            )
            &&& awoken.queue().entries == left.queue().entries.update(
                0,
                left.queue().entries[0].awoken(),
            )
            &&& left.next_finished(name) == awoken.next_finished(name)
        }),
{
    let s1 = left.next_step(name);
    lemma_next(left, name);
    let s2 = s1.next_step(name);
    lemma_next(s1, name);
    lemma_with_slot(s1, s1.front, s1.slot(s1.front).awoken());
    let dead = left.queue().entries[0] is Dead;
    let stage = if dead {
        Stage::Leaving
    } else {
        Stage::Gone
    };
    assert(s2.stages =~= left.stages.insert(name, stage));
    assert(s2.queue().entries =~= left.queue().entries.update(
        0,
        left.queue().entries[0].awoken(),
    ));
    assert(left.next_finished(name) == s2.next_finished(name)) by {
        reveal_with_fuel(Shared::next_finished, 3);
    }
}

/// From its first look at `front`, a `next` that is not interrupted advances the queue.
proof fn lemma_next_finished(now: Shared, name: int)
    requires
        now.sound(),
        now.stages.contains_key(name),
        now.stages[name] is Leaving,
    ensures
        now.next_finished(name).stages == now.stages.insert(name, Stage::Gone),
        now.next_finished(name).queue().first == now.queue().advanced().first,
        now.next_finished(name).queue().entries == now.queue().advanced().entries,
    decreases now.back - now.front,
{
    let entries = now.queue().entries;
    let left = now.next_step(name).next_step(name).next_step(name);
    lemma_front_left(now, name);
    if left.back == left.front {
        let done = left.next_step(name);
        assert(left.next_finished(name) == done) by {
            reveal_with_fuel(Shared::next_finished, 2);
        }
        assert(done.stages =~= now.stages.insert(name, Stage::Gone));
        assert(first_live(entries, 1) == 1);
        assert(done.queue().entries =~= now.queue().advanced().entries);
    } else {
        let awoken = left.next_step(name).next_step(name);
        lemma_front_awoken(left, name);
        assert(left.queue().entries[0] == entries[1]);
        if entries[1] is Dead {
            assert(awoken.queue().entries =~= entries.skip(1));
            lemma_next_finished(awoken, name);
            assert(awoken.stages.insert(name, Stage::Gone) =~= now.stages.insert(
                name,
                Stage::Gone,
            ));
            lemma_first_live_shifts(entries, 1);
            lemma_first_live(entries, 2);
            assert(awoken.queue().advanced().entries =~= now.queue().advanced().entries);
        } else {
            assert(awoken.next_finished(name) == awoken);
            assert(awoken.stages =~= now.stages.insert(name, Stage::Gone));
            assert(awoken.queue().entries =~= now.queue().advanced().entries);
        }
    }
}

/// The drop of a guard that is not interrupted makes of the queue what `Guard::drop` makes of it.
pub proof fn steps_of_next(acts: Seq<Act>, name: int)
    requires
        possible(acts),
        after_acts(acts).at_rest(),
        after_acts(acts).stages.contains_key(name),
        after_acts(acts).stages[name] is Holding,
    ensures
        after_acts(acts).next_finished(name).queue() == after_acts(acts).queue().advanced(),
        after_acts(acts).next_finished(name).stages[name] is Gone,
{
    let before = after_acts(acts);
    lemma_acts(acts);
    let leaving = before.next_step(name);
    lemma_next(before, name);
    lemma_next_finished(leaving, name);
    let done = before.next_finished(name);
    assert(done == leaving.next_finished(name));
    assert(leaving.queue().entries =~= before.queue().entries);
    assert(!done.guard_out()) by {
        if done.guard_out() {
            let holder = choose|holder: int| #[trigger]
                done.stages.contains_key(holder) && done.stages[holder] is Holding;
            assert(before.stages.contains_key(holder));
        }
    }
}

} // verus!
