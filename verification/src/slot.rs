//! One place in the queue of tasks that wait for a mutex.
use crate::waker::{task, task_of};
use core::task::Waker;
use vstd::prelude::*;

verus! {

/// The slot is not ready and does not contain a waker.
const DOZING: usize = 0;

/// The slot is not ready and contains a waker.
const ASLEEP: usize = 1;

/// The slot is ready and does not contain a waker.
const WAKING: usize = 3;

/// The future is dropped and the slot does not contain a waker.
const DEAD: usize = 7;

/// What a slot stands for.
pub enum SlotView {
    /// Not ready, and nobody to wake.
    Dozing,
    /// Not ready; the given task is to be woken.
    Asleep(int),
    /// Ready.
    Waking,
    /// The future that the slot belonged to is dropped.
    Dead,
}

impl SlotView {
    /// The slot after its future let go of the waker in it, or was told that it is ready.
    pub open spec fn dozed(self) -> SlotView {
        if self is Dead {
            self
        } else {
            SlotView::Dozing
        }
    }

    /// The slot after its future was polled on behalf of `task`: a slot that was ready is reset.
    pub open spec fn readied(self, task: int) -> SlotView {
        if self is Waking {
            SlotView::Dozing
        } else {
            SlotView::Asleep(task)
        }
    }

    /// The slot after it was woken.
    pub open spec fn awoken(self) -> SlotView {
        if self is Dead {
            self
        } else {
            SlotView::Waking
        }
    }

    /// The task that waits in the slot, if there is one.
    pub open spec fn sleeper(self) -> Option<int> {
        match self {
            SlotView::Asleep(task) => Some(task),
            _ => None,
        }
    }
}

/// A place in a queue: how far the future that it belongs to has come, and the waker to call
/// when it is that future's turn.
pub struct Slot {
    state: usize,
    waker: Option<Waker>,
}

impl View for Slot {
    type V = SlotView;

    closed spec fn view(&self) -> SlotView {
        if self.state == DOZING {
            SlotView::Dozing
        } else if self.state == ASLEEP {
            SlotView::Asleep(task(self.waker->0))
        } else if self.state == WAKING {
            SlotView::Waking
        } else {
            SlotView::Dead
        }
    }
}

impl Default for Slot {
    fn default() -> (slot: Self)
        ensures
            slot.wf(),
            slot@ is Dozing,
    {
        Slot { state: DOZING, waker: None }
    }
}

impl Slot {
    /// The state is one of the four, and the slot contains a waker exactly while it is asleep.
    pub closed spec fn wf(self) -> bool {
        &&& self.state == DOZING || self.state == ASLEEP || self.state == WAKING || self.state
            == DEAD
        &&& self.waker is Some <==> self.state == ASLEEP
    }

    /// Returns true if the slot is woken, and sets the waker otherwise. It takes the two steps
    /// `doze` and `sleep`; a wake may come in between.
    ///
    /// Only the future that owns the slot calls this, so the slot is not dead. When this returns
    /// true it is not called again, so it resets the slot beforehand.
    pub fn ready(&mut self, waker: &Waker) -> (woken: bool)
        requires
            old(self).wf(),
            !(old(self)@ is Dead),
        ensures
            final(self).wf(),
            final(self)@ == old(self)@.readied(task(*waker)),
            woken == (old(self)@ is Waking),
    {
        if self.doze() {
            return true;
        }
        self.sleep(waker.clone())
    }

    /// The first step of `ready`. A slot that is asleep dozes again and drops its old waker.
    /// Returns true if the slot is woken, and resets it beforehand.
    pub fn doze(&mut self) -> (woken: bool)
        requires
            old(self).wf(),
        ensures
            final(self).wf(),
            final(self)@ == old(self)@.dozed(),
            woken == (old(self)@ is Waking),
    {
        if self.state == ASLEEP {
            self.state = DOZING;
            self.waker = None;
        } else if self.state == WAKING {
            self.reset();
            return true;
        }
        false
    }

    /// The second step of `ready`. A slot that dozes falls asleep with the waker; for one that was
    /// woken since the first step the waker is dropped. Returns true if the slot is woken, and
    /// resets it beforehand.
    pub fn sleep(&mut self, waker: Waker) -> (woken: bool)
        requires
            old(self).wf(),
            old(self)@ is Dozing || old(self)@ is Waking,
        ensures
            final(self).wf(),
            final(self)@ == old(self)@.readied(task(waker)),
            woken == (old(self)@ is Waking),
    {
        if self.state == DOZING {
            self.state = ASLEEP;
            self.waker = Some(waker);
            false
        } else {
            self.reset();
            true
        }
    }

    /// Wakes the slot. Returns true if the slot is woken and false if it is dead, and the waker
    /// that the slot contained: whoever wakes the slot calls it.
    #[must_use]
    pub fn wake(&mut self) -> (result: (bool, Option<Waker>))
        requires
            old(self).wf(),
        ensures
            final(self).wf(),
            final(self)@ == old(self)@.awoken(),
            result.0 == !(old(self)@ is Dead),
            task_of(result.1) == old(self)@.sleeper(),
    {
        assert(0usize | 3 == 3 && 1usize | 3 == 3 && 3usize | 3 == 3 && 7usize | 3 == 7)
            by (bit_vector);
        let state: usize = self.state;
        self.state = state | WAKING;
        let waker = self.waker.take();
        (state != DEAD, waker)
    }

    /// Kills the slot: the future that it belongs to is dropped. A waker in it is dropped too.
    pub fn kill(&mut self)
        requires
            old(self).wf(),
        ensures
            final(self).wf(),
            final(self)@ is Dead,
    {
        self.state = DEAD;
        self.waker = None;
    }

    /// Makes the slot doze before it returns to the pool. A waker in it is dropped.
    ///
    /// This cannot happen after the slot is newly allocated, since it might be woken at any
    /// time, nor while it is unallocated, since it might be about to be allocated. It happens
    /// before the slot is deallocated.
    pub fn reset(&mut self)
        requires
            old(self).wf(),
        ensures
            final(self).wf(),
            final(self)@ is Dozing,
    {
        self.state = DOZING;
        self.waker = None;
    }
}

} // verus!
