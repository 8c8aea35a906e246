//! What holds of a slot when its future is polled or dropped while others wake it.
//!
//! The state of a slot changes in single steps, but the waker is put in and taken out in steps of
//! their own. The state decides who may do so.
use crate::slot::SlotView;
use vstd::prelude::*;

verus! {

/// A slot that was not woken holds the task of the latest `ready`, whatever was there before; who
/// wakes it is given that task, once.
pub proof fn wake_finds_the_latest_task(view: SlotView, first: int, second: int)
    requires
        view is Dozing || view is Asleep,
    ensures
        view.readied(first).sleeper() == Some(first),
        view.readied(first).readied(second).sleeper() == Some(second),
        view.readied(first).awoken() is Waking,
        view.readied(first).awoken().sleeper() is None,
{
}

/// A wake is told to the next `ready`, which resets the slot; the `ready` after that is told nothing
/// and is waited for again.
pub proof fn wake_is_told_once(view: SlotView, first: int, second: int)
    requires
        !(view is Dead),
    ensures
        view.awoken() is Waking,
        view.awoken().awoken() is Waking,
        view.awoken().readied(first) is Dozing,
        view.awoken().dozed() is Dozing,
        view.awoken().readied(first).readied(second) == SlotView::Asleep(second),
{
}

/// A dead slot stays dead when it is woken and has nobody to wake; no other slot dies of a wake, of
/// a `ready` or of letting go of its waker.
pub proof fn only_kill_kills(view: SlotView, task: int)
    ensures
        view.awoken() is Dead <==> view is Dead,
        view.dozed() is Dead <==> view is Dead,
        !(view is Dead) ==> !(view.readied(task) is Dead) && view.dozed() is Dozing,
        SlotView::Dead.sleeper() is None,
        SlotView::Dozing.sleeper() is None,
        SlotView::Waking.sleeper() is None,
        SlotView::Asleep(task).sleeper() == Some(task),
{
}

/// The state of a slot, without the waker.
pub enum Phase {
    Dozing,
    Asleep,
    Waking,
    Dead,
}

/// How far the future that owns the slot has come.
pub enum Owner {
    /// Between calls. It may call `ready` or `kill`.
    Idle,
    /// In `ready`: the slot was asleep; about to drop the old waker.
    Clearing(int),
    /// In `ready`: about to write the waker of the given task.
    Writing(int),
    /// In `ready`: the waker is written; about to fall asleep.
    Settling(int),
    /// In `ready`: the slot was woken meanwhile; about to drop the waker.
    Discarding,
    /// In `ready`: the slot was woken; about to reset it.
    Accepting,
    /// `ready` has returned true. It is not called again.
    Told,
    /// In `kill`: the slot was asleep; about to drop the waker.
    Burying,
    /// `kill` has returned.
    Gone,
}

/// A slot, the future that owns it, and the calls of `wake` on it.
pub struct Contest {
    pub phase: Phase,
    /// The task of the waker that is written into the slot.
    pub stored: Option<int>,
    pub owner: Owner,
    /// The task of the latest `ready`.
    pub task: Option<int>,
    /// How many calls of `wake` are about to take the waker out.
    pub takers: nat,
    /// How many calls of `wake` found the slot alive.
    pub wakes: nat,
    /// How many calls of `wake` found it dead.
    pub refusals: nat,
    /// The tasks whose wakers were called, the earliest first.
    pub called: Seq<int>,
}

/// Who takes the next step.
pub enum Move {
    /// The owner goes on; between calls it begins `ready` on behalf of the given task.
    Ready(int),
    /// The owner goes on; between calls it begins `kill`.
    Kill,
    /// Somebody begins `wake`.
    Wake,
    /// A `wake` that is about to take the waker out goes on.
    Call,
}

impl Contest {
    /// A slot that was just allocated.
    pub open spec fn start() -> Contest {
        Contest {
            phase: Phase::Dozing,
            stored: None,
            owner: Owner::Idle,
            task: None,
            takers: 0,
            wakes: 0,
            refusals: 0,
            called: Seq::empty(),
        }
    }

    /// The first step of `ready`.
    pub open spec fn begin_ready(self, task: int) -> Contest {
        match self.phase {
            Phase::Asleep => Contest {
                phase: Phase::Dozing,
                owner: Owner::Clearing(task),
                task: Some(task),
                ..self
            },
            Phase::Waking => Contest { owner: Owner::Accepting, task: Some(task), ..self },
            _ => Contest { owner: Owner::Writing(task), task: Some(task), ..self },
        }
    }

    /// The first step of `kill`.
    pub open spec fn begin_kill(self) -> Contest {
        Contest {
            phase: Phase::Dead,
            owner: if self.phase is Asleep {
                Owner::Burying
            } else {
                Owner::Gone
            },
            ..self
        }
    }

    /// The next step of a call that the owner is in.
    pub open spec fn go_on(self) -> Contest {
        match self.owner {
            Owner::Clearing(task) => Contest { stored: None, owner: Owner::Writing(task), ..self },
            Owner::Writing(task) => Contest {
                stored: Some(task),
                owner: Owner::Settling(task),
                ..self
            },
            Owner::Settling(_) => if self.phase is Dozing {
                Contest { phase: Phase::Asleep, owner: Owner::Idle, ..self }
            } else {
                Contest { owner: Owner::Discarding, ..self }
            },
            Owner::Discarding => Contest { stored: None, owner: Owner::Accepting, ..self },
            Owner::Accepting => Contest { phase: Phase::Dozing, owner: Owner::Told, ..self },
            Owner::Burying => Contest { stored: None, owner: Owner::Gone, ..self },
            _ => self,
        }
    }

    /// The first step of a `wake`.
    pub open spec fn begin_wake(self) -> Contest {
        match self.phase {
            Phase::Dead => Contest { refusals: self.refusals + 1, ..self },
            Phase::Asleep => Contest {
                phase: Phase::Waking,
                wakes: self.wakes + 1,
                takers: self.takers + 1,
                ..self
            },
            _ => Contest { phase: Phase::Waking, wakes: self.wakes + 1, ..self },
        }
    }

    /// The second step of a `wake` that found the slot asleep.
    pub open spec fn call(self) -> Contest {
        Contest {
            stored: None,
            takers: (self.takers - 1) as nat,
            called: self.called.push(self.stored->0),
            ..self
        }
    }

    pub open spec fn step(self, turn: Move) -> Contest {
        match turn {
            Move::Ready(task) => if self.owner is Idle {
                self.begin_ready(task)
            } else {
                self.go_on()
            },
            Move::Kill => if self.owner is Idle {
                self.begin_kill()
            } else {
                self.go_on()
            },
            Move::Wake => self.begin_wake(),
            Move::Call => if self.takers > 0 {
                self.call()
            } else {
                self
            },
        }
    }

    /// In its next step the owner takes a waker out of the slot.
    pub open spec fn owner_takes(self) -> bool {
        self.owner is Clearing || self.owner is Discarding || self.owner is Burying
    }

    /// In its next step the owner puts a waker into the slot.
    pub open spec fn owner_puts(self) -> bool {
        self.owner is Writing
    }

    /// The slot is what `view` says and no call is half done.
    pub open spec fn rests_as(self, view: SlotView) -> bool {
        &&& self.takers == 0
        &&& self.stored == view.sleeper()
        &&& match view {
            SlotView::Dozing => self.phase is Dozing,
            SlotView::Asleep(_) => self.phase is Asleep,
            SlotView::Waking => self.phase is Waking,
            SlotView::Dead => self.phase is Dead,
        }
    }

    spec fn sound(self) -> bool {
        &&& self.takers <= 1
        &&& self.called.len() + self.takers <= 1
        // Where the waker is.
        &&& self.stored is Some <==> (self.phase is Asleep || self.takers == 1
            || self.owner is Settling || self.owner_takes())
        &&& match self.owner {
            Owner::Idle => match self.phase {
                Phase::Dozing => self.task is None,
                Phase::Asleep => self.task is Some && self.stored == self.task,
                Phase::Waking => true,
                Phase::Dead => false,
            },
            Owner::Clearing(task) => self.task == Some(task),
            Owner::Writing(task) => self.task == Some(task),
            Owner::Settling(task) => self.task == Some(task) && self.stored == Some(task),
            Owner::Discarding => self.phase is Waking && self.wakes > 0,
            Owner::Accepting => self.phase is Waking && self.wakes > 0,
            Owner::Told => (self.phase is Dozing || self.phase is Waking) && self.wakes > 0,
            Owner::Burying => self.phase is Dead,
            Owner::Gone => self.phase is Dead,
        }
        &&& self.owner is Clearing || self.owner_puts() || self.owner is Settling ==> (
        self.phase is Dozing || self.phase is Waking) && self.takers == 0 && self.called.len() == 0
        &&& self.owner is Discarding || self.owner is Burying ==> self.takers == 0
            && self.called.len() == 0
        // Who was woken.
        &&& (self.phase is Dozing || self.phase is Asleep) && !(self.owner is Told)
            ==> self.wakes == 0 && self.takers == 0 && self.called.len() == 0
        &&& self.phase is Waking ==> self.wakes > 0
        &&& self.refusals > 0 ==> self.phase is Dead
        &&& self.owner is Idle && self.phase is Waking && self.task is Some ==> {
            ||| self.takers == 1 && self.stored == self.task
            ||| self.takers == 0 && self.called == seq![self.task->0]
        }
    }
}

/// The contest after these moves.
pub open spec fn after_moves(moves: Seq<Move>) -> Contest
    decreases moves.len(),
{
    if moves.len() == 0 {
        Contest::start()
    } else {
        after_moves(moves.drop_last()).step(moves.last())
    }
}

proof fn lemma_step(now: Contest, turn: Move)
    requires
        now.sound(),
    ensures
        now.step(turn).sound(),
{
    if turn is Call && now.takers > 0 {
        assert(now.call().called =~= seq![now.stored->0]);
    }
}

proof fn lemma_moves(moves: Seq<Move>)
    ensures
        after_moves(moves).sound(),
    decreases moves.len(),
{
    if moves.len() > 0 {
        lemma_moves(moves.drop_last());
        lemma_step(after_moves(moves.drop_last()), moves.last());
    }
}

/// A `ready` that is not interrupted does what `Slot::ready` does; one that returns true leaves a
/// slot that dozes.
pub proof fn steps_of_ready(contest: Contest, view: SlotView, task: int)
    requires
        contest.owner is Idle,
        contest.rests_as(view),
        !(view is Dead),
    ensures
        ({
            let done = contest.begin_ready(task).go_on().go_on().go_on();
            &&& done.rests_as(view.readied(task))
            &&& view is Waking ==> done.owner is Told
            &&& !(view is Waking) ==> done.owner is Idle
        }),
{
}

/// A `wake` that is not interrupted does what `Slot::wake` does.
pub proof fn steps_of_wake(contest: Contest, view: SlotView)
    requires
        contest.rests_as(view),
    ensures
        ({
            let begun = contest.begin_wake();
            let done = if view is Asleep {
                begun.call()
            } else {
                begun
            };
            &&& done.rests_as(view.awoken())
            &&& done.refusals == contest.refusals + (if view is Dead {
                1int
            } else {
                0int
            })
            &&& done.called == match view.sleeper() {
                Some(task) => contest.called.push(task),
                None => contest.called,
            }
        }),
{
}

/// A `kill` that is not interrupted does what `Slot::kill` does.
pub proof fn steps_of_kill(contest: Contest, view: SlotView)
    requires
        contest.owner is Idle,
        contest.rests_as(view),
    ensures
        contest.begin_kill().go_on().owner is Gone,
        contest.begin_kill().go_on().rests_as(SlotView::Dead),
{
}

/// Whatever runs at the same time, only one call is ever at the waker in the slot. Whoever takes
/// it out finds it there, and whoever puts one in finds none.
pub proof fn waker_is_never_contended(moves: Seq<Move>)
    ensures
        ({
            let now = after_moves(moves);
            &&& now.takers <= 1
            &&& now.takers == 1 ==> !now.owner_takes() && !now.owner_puts()
            &&& now.takers == 1 || now.owner_takes() ==> now.stored is Some
            &&& now.owner_puts() ==> now.stored is None
        }),
{
    lemma_moves(moves);
}

/// `ready` returns true only if the slot was woken, and `wake` returns false only if the future
/// that owns the slot was dropped.
pub proof fn answers_are_true(moves: Seq<Move>)
    ensures
        after_moves(moves).owner is Told ==> after_moves(moves).wakes > 0,
        after_moves(moves).refusals > 0 ==> after_moves(moves).owner is Burying || after_moves(
            moves,
        ).owner is Gone,
{
    lemma_moves(moves);
}

/// No wake is lost. If the slot was woken and its future is between calls, the next `ready` returns
/// true; and if there was a `ready` before, the waker that the latest one left is called, once.
pub proof fn no_wake_is_lost(moves: Seq<Move>, task: int)
    requires
        after_moves(moves).wakes > 0,
        after_moves(moves).owner is Idle,
    ensures
        after_moves(moves).begin_ready(task).owner is Accepting,
        after_moves(moves).begin_ready(task).go_on().owner is Told,
        after_moves(moves).takers == 0 && after_moves(moves).task is Some ==> after_moves(
            moves,
        ).called == seq![after_moves(moves).task->0],
{
    lemma_moves(moves);
}

} // verus!
