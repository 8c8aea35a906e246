//! A oneshot channel is a synchronization primitive used to send a single message from one task
//! to another. When the sender has sent a message and it is ready to be received, the oneshot
//! notifies the receiver. The receiver is polled for the message.
use crate::poll::Poll;
use crate::waker::{register, registered, take, task, task_of, wake, woken};
use core::marker::PhantomData;
use core::task::Waker;
use futures::task::AtomicWaker;
use vstd::prelude::*;

verus! {

/// Transfers a single message between tasks.
pub struct Oneshot<T> {
    message: Option<T>,
    waker: AtomicWaker,
    has_message: bool,
    // The handles that are out.
    handles: Ghost<Handles>,
    // Shared with the handles that are made from the oneshot.
    id: Ghost<int>,
}

/// The handles to a oneshot that are out.
pub struct Handles {
    /// How many senders were made. All but the last are void.
    pub senders: nat,
    /// How many receivers were made. All but the last are void.
    pub receivers: nat,
    /// Whether the last sender is still out.
    pub sender: bool,
    /// Whether the last receiver is still out.
    pub receiver: bool,
}

/// What a oneshot stands for.
pub struct OneshotView<T> {
    /// The message that was put in and not taken out.
    pub message: Option<T>,
    /// The task that is notified when a message is put in.
    pub waiting: Option<int>,
    /// The tasks that have been notified, the earliest first.
    pub notified: Seq<int>,
    /// The handles that are out.
    pub handles: Handles,
}

impl<T> OneshotView<T> {
    /// Nothing was ever put in, nobody waits, and there are no handles.
    pub open spec fn empty() -> OneshotView<T> {
        OneshotView {
            message: None,
            waiting: None,
            notified: Seq::empty(),
            handles: Handles { senders: 0, receivers: 0, sender: false, receiver: false },
        }
    }

    /// After `message` was put in and who waited was taken off, to be notified.
    pub open spec fn filled(self, message: T) -> OneshotView<T> {
        OneshotView { message: Some(message), waiting: None, ..self }
    }

    /// After `message` was put in: who waited is notified, and waits no longer.
    pub open spec fn put(self, message: T) -> OneshotView<T> {
        OneshotView {
            notified: match self.waiting {
                Some(task) => self.notified.push(task),
                None => self.notified,
            },
            ..self.filled(message)
        }
    }

    /// After the message, if there was one, was taken out.
    pub open spec fn taken(self) -> OneshotView<T> {
        OneshotView { message: None, ..self }
    }

    /// After `task` said that it waits, in place of who waited before.
    pub open spec fn awaited(self, task: int) -> OneshotView<T> {
        OneshotView { waiting: Some(task), ..self }
    }

    /// After a new sender was made.
    pub open spec fn with_sender(self) -> OneshotView<T> {
        OneshotView {
            handles: Handles { senders: self.handles.senders + 1, sender: true, ..self.handles },
            ..self
        }
    }

    /// After the sender was given up.
    pub open spec fn without_sender(self) -> OneshotView<T> {
        OneshotView { handles: Handles { sender: false, ..self.handles }, ..self }
    }

    /// After a new receiver was made.
    pub open spec fn with_receiver(self) -> OneshotView<T> {
        OneshotView {
            handles: Handles {
                receivers: self.handles.receivers + 1,
                receiver: true,
                ..self.handles
            },
            ..self
        }
    }

    /// After the receiver was given up.
    pub open spec fn without_receiver(self) -> OneshotView<T> {
        OneshotView { handles: Handles { receiver: false, ..self.handles }, ..self }
    }

    /// After a message that was left was dropped and a new sender and a new receiver were made.
    pub open spec fn split(self) -> OneshotView<T> {
        self.taken().with_sender().with_receiver()
    }
}

impl<T> View for Oneshot<T> {
    type V = OneshotView<T>;

    closed spec fn view(&self) -> OneshotView<T> {
        OneshotView {
            message: self.message,
            waiting: registered(self.waker),
            notified: woken(self.waker),
            handles: self.handles@,
        }
    }
}

impl<T> Oneshot<T> {
    /// What the oneshot has in common with the handles that were made from it. Nothing is said of
    /// it where a oneshot is made, so no caller can prove it equal for two oneshots that were made
    /// apart, and methods that ask for it to agree cannot be called across them.
    pub closed spec fn id(self) -> int {
        self.id@
    }

    /// The cell that the waker of the task that waits is kept in.
    pub closed spec fn cell(self) -> AtomicWaker {
        self.waker
    }

    /// Who waits is who is registered with the cell, and who was notified is who the cell has woken.
    pub proof fn notifications_are_those_of_the_cell(self)
        ensures
            self@.waiting == registered(self.cell()),
            self@.notified == woken(self.cell()),
    {
    }

    /// The flag tells whether there is a message.
    pub closed spec fn flag_wf(self) -> bool {
        self.has_message == self.message is Some
    }

    /// Besides, while there is a sender there is no message.
    pub open spec fn wf(self) -> bool {
        &&& self.flag_wf()
        &&& self@.handles.sender ==> self@.message is None
    }

    /// A oneshot without a message.
    pub fn new() -> (oneshot: Self)
        ensures
            oneshot.wf(),
            oneshot@ == OneshotView::<T>::empty(),
    {
        Oneshot {
            message: None,
            waker: AtomicWaker::new(),
            has_message: false,
            handles: Ghost(
                Handles { senders: 0, receivers: 0, sender: false, receiver: false },
            ),
            id: Ghost(arbitrary()),
        }
    }

    /// Puts the message in and notifies the task that waits for it. The message is there before
    /// the flag says so, and the flag says so before the task is notified.
    ///
    /// This must not be used when the oneshot might contain a message or a sender exists.
    pub fn put(&mut self, message: T)
        requires
            old(self).wf(),
            old(self)@.message is None,
            !old(self)@.handles.sender,
        ensures
            final(self).wf(),
            final(self).id() == old(self).id(),
            final(self)@ == old(self)@.put(message),
            final(self)@.message == Some(message),
            final(self)@.waiting is None,
            old(self)@.waiting is None ==> final(self)@.notified == old(self)@.notified,
            old(self)@.waiting matches Some(task) ==> final(self)@.notified
                == old(self)@.notified.push(task),
            final(self)@.handles == old(self)@.handles,
    {
        self.message = Some(message);
        self.has_message = true;
        wake(&mut self.waker);
    }

    /// Puts the message in as `put` does, but calls nobody: the waker of the task that waits is
    /// returned, for the caller to call. This is for callers that must let go of the oneshot
    /// first, because the waker may come back to it.
    #[must_use]
    pub fn fill(&mut self, message: T) -> (waker: Option<Waker>)
        requires
            old(self).wf(),
            old(self)@.message is None,
            !old(self)@.handles.sender,
        ensures
            final(self).wf(),
            final(self).id() == old(self).id(),
            final(self)@ == old(self)@.filled(message),
            final(self)@.message == Some(message),
            final(self)@.waiting is None,
            final(self)@.notified == old(self)@.notified,
            final(self)@.handles == old(self)@.handles,
            task_of(waker) == old(self)@.waiting,
    {
        self.message = Some(message);
        self.has_message = true;
        take(&mut self.waker)
    }

    /// Takes the message out, if there is one.
    ///
    /// This must not be used while a receiver exists.
    pub fn take(&mut self) -> (message: Option<T>)
        requires
            old(self).wf(),
            !old(self)@.handles.receiver,
        ensures
            final(self).wf(),
            final(self).id() == old(self).id(),
            final(self)@ == old(self)@.taken(),
            final(self)@.message is None,
            final(self)@.waiting == old(self)@.waiting,
            final(self)@.notified == old(self)@.notified,
            final(self)@.handles == old(self)@.handles,
            message == old(self)@.message,
    {
        self.remove()
    }

    /// Takes the message out, whether or not there is a receiver. The message has left before the
    /// flag says so.
    fn remove(&mut self) -> (message: Option<T>)
        requires
            old(self).wf(),
        ensures
            final(self).wf(),
            final(self).id() == old(self).id(),
            final(self)@ == old(self)@.taken(),
            final(self)@.message is None,
            final(self)@.waiting == old(self)@.waiting,
            final(self)@.notified == old(self)@.notified,
            final(self)@.handles == old(self)@.handles,
            message == old(self)@.message,
    {
        if self.has_message {
            let message = self.message.take();
            self.has_message = false;
            message
        } else {
            None
        }
    }

    /// Splits the oneshot into a sender and a receiver. The sender can send one message. The
    /// receiver can be polled for that message. A message that was left in the oneshot is
    /// dropped. This can be called again, once the sender and the receiver are done with, in
    /// order to send a new message.
    pub fn split(&mut self) -> (handles: (Sender<T>, Receiver<T>))
        requires
            old(self).wf(),
        ensures
            final(self).wf(),
            final(self).id() == old(self).id(),
            final(self)@ == old(self)@.split(),
            final(self)@.message is None,
            final(self)@.waiting == old(self)@.waiting,
            final(self)@.notified == old(self)@.notified,
            handles.0.sends_to(*final(self)),
            handles.1.receives_from(*final(self)),
    {
        self.remove();
        let ghost handles = self@.with_sender().with_receiver().handles;
        self.handles = Ghost(handles);
        (
            Sender { number: Ghost(handles.senders), id: self.id, oneshot: PhantomData },
            Receiver { number: Ghost(handles.receivers), id: self.id, oneshot: PhantomData },
        )
    }

    /// A receiver. There must be no more than one at a time.
    pub fn recv(&mut self) -> (receiver: Receiver<T>)
        requires
            old(self).wf(),
            !old(self)@.handles.receiver,
        ensures
            final(self).wf(),
            final(self).id() == old(self).id(),
            final(self)@ == old(self)@.with_receiver(),
            final(self)@.message == old(self)@.message,
            final(self)@.waiting == old(self)@.waiting,
            final(self)@.notified == old(self)@.notified,
            final(self)@.handles.sender == old(self)@.handles.sender,
            final(self)@.handles.senders == old(self)@.handles.senders,
            receiver.receives_from(*final(self)),
    {
        let ghost handles = self@.with_receiver().handles;
        self.handles = Ghost(handles);
        Receiver { number: Ghost(handles.receivers), id: self.id, oneshot: PhantomData }
    }

    /// A sender. There must be no more than one at a time, and the oneshot must be empty when the
    /// sender is created.
    pub fn send(&mut self) -> (sender: Sender<T>)
        requires
            old(self).wf(),
            old(self)@.message is None,
            !old(self)@.handles.sender,
        ensures
            final(self).wf(),
            final(self).id() == old(self).id(),
            final(self)@ == old(self)@.with_sender(),
            final(self)@.message == old(self)@.message,
            final(self)@.waiting == old(self)@.waiting,
            final(self)@.notified == old(self)@.notified,
            final(self)@.handles.receiver == old(self)@.handles.receiver,
            final(self)@.handles.receivers == old(self)@.handles.receivers,
            sender.sends_to(*final(self)),
    {
        let ghost handles = self@.with_sender().handles;
        self.handles = Ghost(handles);
        Sender { number: Ghost(handles.senders), id: self.id, oneshot: PhantomData }
    }

    /// Whether there is no message.
    pub fn is_empty(&self) -> (empty: bool)
        requires
            self.wf(),
        ensures
            empty == (self@.message is None),
    {
        !self.has_message
    }
}

/// Sends one message through the oneshot that it was made from.
pub struct Sender<T> {
    number: Ghost<nat>,
    id: Ghost<int>,
    oneshot: PhantomData<T>,
}

impl<T> View for Sender<T> {
    type V = nat;

    /// Which of the senders of its oneshot it is, counted from the first.
    closed spec fn view(&self) -> nat {
        self.number@
    }
}

impl<T> Sender<T> {
    /// The oneshot that the sender is of.
    pub closed spec fn id(self) -> int {
        self.id@
    }

    /// It is the sender of this oneshot that is out.
    pub open spec fn sends_to(self, oneshot: Oneshot<T>) -> bool {
        &&& self.id() == oneshot.id()
        &&& self@ == oneshot@.handles.senders
        &&& oneshot@.handles.sender
    }

    /// Puts the message into the oneshot, which is empty as long as it has a sender. The sender
    /// is used up.
    pub fn send(self, oneshot: &mut Oneshot<T>, message: T)
        requires
            old(oneshot).wf(),
            self.sends_to(*old(oneshot)),
        ensures
            final(oneshot).wf(),
            old(oneshot)@.message is None,
            final(oneshot).id() == old(oneshot).id(),
            final(oneshot)@ == old(oneshot)@.put(message).without_sender(),
            final(oneshot)@.message == Some(message),
            final(oneshot)@.waiting is None,
            old(oneshot)@.waiting is None ==> final(oneshot)@.notified == old(oneshot)@.notified,
            old(oneshot)@.waiting matches Some(task) ==> final(oneshot)@.notified
                == old(oneshot)@.notified.push(task),
            !final(oneshot)@.handles.sender,
            final(oneshot)@.handles.receiver == old(oneshot)@.handles.receiver,
            final(oneshot)@.handles.receivers == old(oneshot)@.handles.receivers,
    {
        self.drop(oneshot);
        oneshot.put(message);
    }

    /// Gives the sender up.
    pub fn drop(self, oneshot: &mut Oneshot<T>)
        requires
            old(oneshot).wf(),
            self.sends_to(*old(oneshot)),
        ensures
            final(oneshot).wf(),
            final(oneshot).id() == old(oneshot).id(),
            final(oneshot)@ == old(oneshot)@.without_sender(),
            final(oneshot)@.message == old(oneshot)@.message,
            final(oneshot)@.waiting == old(oneshot)@.waiting,
            final(oneshot)@.notified == old(oneshot)@.notified,
            !final(oneshot)@.handles.sender,
            final(oneshot)@.handles.receiver == old(oneshot)@.handles.receiver,
            final(oneshot)@.handles.receivers == old(oneshot)@.handles.receivers,
    {
        let ghost handles = oneshot@.without_sender().handles;
        oneshot.handles = Ghost(handles);
    }
}

/// Receives the message of the oneshot that it was made from.
pub struct Receiver<T> {
    number: Ghost<nat>,
    id: Ghost<int>,
    oneshot: PhantomData<T>,
}

impl<T> View for Receiver<T> {
    type V = nat;

    /// Which of the receivers of its oneshot it is, counted from the first.
    closed spec fn view(&self) -> nat {
        self.number@
    }
}

impl<T> Receiver<T> {
    /// The oneshot that the receiver is of.
    pub closed spec fn id(self) -> int {
        self.id@
    }

    /// It is the receiver of this oneshot that is out.
    pub open spec fn receives_from(self, oneshot: Oneshot<T>) -> bool {
        &&& self.id() == oneshot.id()
        &&& self@ == oneshot@.handles.receivers
        &&& oneshot@.handles.receiver
    }

    /// Polls for the message on behalf of the task of `waker`. The task is registered before the
    /// oneshot is looked at, so that no message comes in between unnoticed.
    pub fn poll(&mut self, oneshot: &mut Oneshot<T>, waker: &Waker) -> (result: Poll<T>)
        requires
            old(oneshot).wf(),
            old(self).receives_from(*old(oneshot)),
        ensures
            final(oneshot).wf(),
            final(oneshot).id() == old(oneshot).id(),
            final(oneshot)@ == old(oneshot)@.awaited(task(*waker)).taken(),
            final(oneshot)@.message is None,
            final(oneshot)@.waiting == Some(task(*waker)),
            final(oneshot)@.notified == old(oneshot)@.notified,
            final(oneshot)@.handles == old(oneshot)@.handles,
            *final(self) == *old(self),
            final(self).receives_from(*final(oneshot)),
            result == match old(oneshot)@.message {
                Some(message) => Poll::Ready(message),
                None => Poll::Pending,
            },
    {
        register(&mut oneshot.waker, waker);
        match oneshot.remove() {
            Some(message) => Poll::Ready(message),
            None => Poll::Pending,
        }
    }

    /// Drops the receiver. A message that it did not take is dropped as well.
    pub fn drop(self, oneshot: &mut Oneshot<T>)
        requires
            old(oneshot).wf(),
            self.receives_from(*old(oneshot)),
        ensures
            final(oneshot).wf(),
            final(oneshot).id() == old(oneshot).id(),
            final(oneshot)@ == old(oneshot)@.taken().without_receiver(),
            final(oneshot)@.message is None,
            final(oneshot)@.waiting == old(oneshot)@.waiting,
            final(oneshot)@.notified == old(oneshot)@.notified,
            !final(oneshot)@.handles.receiver,
            final(oneshot)@.handles.sender == old(oneshot)@.handles.sender,
            final(oneshot)@.handles.senders == old(oneshot)@.handles.senders,
    {
        let ghost handles = oneshot@.without_receiver().handles;
        oneshot.remove();
        oneshot.handles = Ghost(handles);
    }
}

/// There is one sender of a oneshot at a time: any two that are out are the same.
pub proof fn one_sender_at_a_time<T>(oneshot: Oneshot<T>, one: Sender<T>, other: Sender<T>)
    requires
        one.sends_to(oneshot),
        other.sends_to(oneshot),
    ensures
        one == other,
{
}

/// There is one receiver of a oneshot at a time: any two that are out are the same.
pub proof fn one_receiver_at_a_time<T>(oneshot: Oneshot<T>, one: Receiver<T>, other: Receiver<T>)
    requires
        one.receives_from(oneshot),
        other.receives_from(oneshot),
    ensures
        one == other,
{
}

} // verus!
