//! What holds of a oneshot over several calls, and of a `put` that runs at the same time as polls or
//! as a `take`.
use crate::mutex_laws::increasing;
use crate::oneshot::OneshotView;
use vstd::prelude::*;

verus! {

/// What was put in is what is taken out, once.
pub proof fn take_gives_back_what_was_put<T>(oneshot: OneshotView<T>, message: T)
    ensures
        oneshot.put(message).message == Some(message),
        oneshot.put(message).taken().message is None,
{
}

/// A message that the receiver did not take does not outlive the receiver, nor the next split.
pub proof fn untaken_message_is_dropped<T>(oneshot: OneshotView<T>, message: T)
    ensures
        oneshot.put(message).taken().without_receiver().message is None,
        oneshot.put(message).split().message is None,
{
}

/// Once it is split again, a oneshot carries a new message as if it were new.
pub proof fn oneshot_can_be_reused<T>(oneshot: OneshotView<T>, first: T, second: T)
    ensures
        oneshot.put(first).split().message is None,
        oneshot.put(first).split().put(second).message == Some(second),
        oneshot.put(first).split().handles.sender,
        oneshot.put(first).split().handles.receiver,
{
}

/// A task that polled in vain is notified by the next `put`, and by no other.
pub proof fn pending_task_is_notified<T>(oneshot: OneshotView<T>, task: int, first: T, second: T)
    requires
        oneshot.message is None,
    ensures
        oneshot.awaited(task).taken().put(first).notified == oneshot.notified.push(task),
        oneshot.awaited(task).taken().put(first).taken().put(second).notified
            == oneshot.notified.push(task),
{
}

/// A new oneshot is empty, nobody waits, nobody was notified, and there are no handles.
pub proof fn new_oneshot_has_nothing<T>()
    ensures
        OneshotView::<T>::empty().message is None,
        OneshotView::<T>::empty().waiting is None,
        OneshotView::<T>::empty().notified.len() == 0,
        !OneshotView::<T>::empty().handles.sender,
        !OneshotView::<T>::empty().handles.receiver,
{
}

/// Making a sender or a receiver, or giving one up, leaves the message, who waits and who was
/// notified as they were, and the other handle too.
pub proof fn handles_leave_the_rest_alone<T>(oneshot: OneshotView<T>)
    ensures
        oneshot.with_sender().message == oneshot.message,
        oneshot.with_sender().waiting == oneshot.waiting,
        oneshot.with_sender().notified == oneshot.notified,
        oneshot.with_sender().handles.sender,
        oneshot.with_sender().handles.senders > oneshot.handles.senders,
        oneshot.with_sender().handles.receiver == oneshot.handles.receiver,
        oneshot.with_sender().handles.receivers == oneshot.handles.receivers,
        oneshot.without_sender().message == oneshot.message,
        oneshot.without_sender().waiting == oneshot.waiting,
        oneshot.without_sender().notified == oneshot.notified,
        !oneshot.without_sender().handles.sender,
        oneshot.without_sender().handles.senders == oneshot.handles.senders,
        oneshot.without_sender().handles.receiver == oneshot.handles.receiver,
        oneshot.without_sender().handles.receivers == oneshot.handles.receivers,
        oneshot.with_receiver().message == oneshot.message,
        oneshot.with_receiver().waiting == oneshot.waiting,
        oneshot.with_receiver().notified == oneshot.notified,
        oneshot.with_receiver().handles.receiver,
        oneshot.with_receiver().handles.receivers > oneshot.handles.receivers,
        oneshot.with_receiver().handles.sender == oneshot.handles.sender,
        oneshot.with_receiver().handles.senders == oneshot.handles.senders,
        oneshot.without_receiver().message == oneshot.message,
        oneshot.without_receiver().waiting == oneshot.waiting,
        oneshot.without_receiver().notified == oneshot.notified,
        !oneshot.without_receiver().handles.receiver,
        oneshot.without_receiver().handles.receivers == oneshot.handles.receivers,
        oneshot.without_receiver().handles.sender == oneshot.handles.sender,
        oneshot.without_receiver().handles.senders == oneshot.handles.senders,
{
}

/// Taking the message out, or saying that a task waits, changes that and nothing else.
pub proof fn taking_and_waiting_are_apart<T>(oneshot: OneshotView<T>, task: int)
    ensures
        oneshot.taken().message is None,
        oneshot.taken().waiting == oneshot.waiting,
        oneshot.taken().notified == oneshot.notified,
        oneshot.taken().handles == oneshot.handles,
        oneshot.awaited(task).message == oneshot.message,
        oneshot.awaited(task).waiting == Some(task),
        oneshot.awaited(task).notified == oneshot.notified,
        oneshot.awaited(task).handles == oneshot.handles,
{
}

/// Putting a message in notifies the task that waits, and nobody where none does, after all that
/// were notified before; then nobody waits. Filling does the same but leaves the notifying to the
/// caller. Neither touches the handles.
pub proof fn putting_notifies_who_waits<T>(oneshot: OneshotView<T>, message: T)
    ensures
        oneshot.put(message).message == Some(message),
        oneshot.put(message).waiting is None,
        oneshot.put(message).handles == oneshot.handles,
        oneshot.waiting is None ==> oneshot.put(message).notified == oneshot.notified,
        oneshot.waiting matches Some(task) ==> {
            &&& oneshot.put(message).notified.len() == oneshot.notified.len() + 1
            &&& oneshot.put(message).notified.drop_last() == oneshot.notified
            &&& oneshot.put(message).notified.last() == task
        },
        oneshot.filled(message).message == Some(message),
        oneshot.filled(message).waiting is None,
        oneshot.filled(message).notified == oneshot.notified,
        oneshot.filled(message).handles == oneshot.handles,
{
    if let Some(task) = oneshot.waiting {
        assert(oneshot.notified.push(task).drop_last() =~= oneshot.notified);
    }
}

/// Splitting drops the message and makes two new handles. Who waits and who was notified is left as
/// it was.
pub proof fn splitting_drops_only_the_message<T>(oneshot: OneshotView<T>)
    ensures
        oneshot.split().message is None,
        oneshot.split().waiting == oneshot.waiting,
        oneshot.split().notified == oneshot.notified,
        oneshot.split().handles.sender,
        oneshot.split().handles.receiver,
        oneshot.split().handles.senders > oneshot.handles.senders,
        oneshot.split().handles.receivers > oneshot.handles.receivers,
{
}

/// A call on a oneshot or on one of its handles.
pub enum Call<T> {
    /// `Oneshot::put` or `Oneshot::fill`.
    Put(T),
    /// `Oneshot::take`.
    Take,
    /// `Oneshot::split`.
    Split,
    /// `Oneshot::recv`.
    Recv,
    /// `Oneshot::send`.
    Sender,
    /// `Sender::send`.
    Send(T),
    /// `Sender::drop`.
    DropSender,
    /// `Receiver::poll` on behalf of a task.
    Poll(int),
    /// `Receiver::drop`.
    DropReceiver,
    /// The oneshot itself is dropped, and a message in it is dropped with it.
    Drop,
}

/// A oneshot and what went through it. Messages are numbered in the order in which they were sent.
pub struct Traffic<T> {
    pub oneshot: OneshotView<T>,
    /// Whether the oneshot was dropped.
    pub gone: bool,
    /// The messages that were sent, the earliest first.
    pub sent: Seq<T>,
    /// The messages that were handed out, the earliest first.
    pub received: Seq<T>,
    /// The numbers of these.
    pub received_numbers: Seq<nat>,
    /// The numbers of the messages that were dropped without being handed out, the earliest first.
    pub dropped_numbers: Seq<nat>,
}

impl<T> Traffic<T> {
    /// A new oneshot.
    pub open spec fn new() -> Traffic<T> {
        Traffic {
            oneshot: OneshotView::empty(),
            gone: false,
            sent: Seq::empty(),
            received: Seq::empty(),
            received_numbers: Seq::empty(),
            dropped_numbers: Seq::empty(),
        }
    }

    /// Whether the call can be made: as the methods require.
    pub open spec fn admits(self, call: Call<T>) -> bool {
        &&& !self.gone
        &&& match call {
            Call::Put(_) => self.oneshot.message is None && !self.oneshot.handles.sender,
            Call::Take => !self.oneshot.handles.receiver,
            Call::Split => true,
            Call::Recv => !self.oneshot.handles.receiver,
            Call::Sender => self.oneshot.message is None && !self.oneshot.handles.sender,
            Call::Send(_) => self.oneshot.handles.sender,
            Call::DropSender => self.oneshot.handles.sender,
            Call::Poll(_) => self.oneshot.handles.receiver,
            Call::DropReceiver => self.oneshot.handles.receiver,
            Call::Drop => true,
        }
    }

    /// The message is handed out, if there is one.
    pub open spec fn hand_out(self) -> Traffic<T> {
        match self.oneshot.message {
            Some(message) => Traffic {
                received: self.received.push(message),
                received_numbers: self.received_numbers.push((self.sent.len() - 1) as nat),
                ..self
            },
            None => self,
        }
    }

    /// The message is dropped, if there is one.
    pub open spec fn discard(self) -> Traffic<T> {
        match self.oneshot.message {
            Some(_) => Traffic {
                dropped_numbers: self.dropped_numbers.push((self.sent.len() - 1) as nat),
                ..self
            },
            None => self,
        }
    }

    /// What the call makes of it.
    pub open spec fn after(self, call: Call<T>) -> Traffic<T> {
        match call {
            Call::Put(message) => Traffic {
                oneshot: self.oneshot.put(message),
                sent: self.sent.push(message),
                ..self
            },
            Call::Take => Traffic { oneshot: self.oneshot.taken(), ..self.hand_out() },
            Call::Split => Traffic { oneshot: self.oneshot.split(), ..self.discard() },
            Call::Recv => Traffic { oneshot: self.oneshot.with_receiver(), ..self },
            Call::Sender => Traffic { oneshot: self.oneshot.with_sender(), ..self },
            Call::Send(message) => Traffic {
                oneshot: self.oneshot.put(message).without_sender(),
                sent: self.sent.push(message),
                ..self
            },
            Call::DropSender => Traffic { oneshot: self.oneshot.without_sender(), ..self },
            Call::Poll(task) => Traffic {
                oneshot: self.oneshot.awaited(task).taken(),
                ..self.hand_out()
            },
            Call::DropReceiver => Traffic {
                oneshot: self.oneshot.taken().without_receiver(),
                ..self.discard()
            },
            Call::Drop => Traffic { oneshot: self.oneshot.taken(), gone: true, ..self.discard() },
        }
    }

    /// The message with this number was handed out.
    pub open spec fn was_received(self, number: nat) -> bool {
        self.received_numbers.contains(number)
    }

    /// The message with this number was dropped without being handed out.
    pub open spec fn was_dropped(self, number: nat) -> bool {
        self.dropped_numbers.contains(number)
    }

    /// The message with this number is in the oneshot.
    pub open spec fn is_there(self, number: nat) -> bool {
        self.oneshot.message is Some && number + 1 == self.sent.len()
    }

    /// What was handed out was sent, and in that order; a message that is there is the latest that
    /// was sent.
    pub open spec fn in_order(self) -> bool {
        &&& self.received.len() == self.received_numbers.len()
        &&& increasing(self.received_numbers)
        &&& increasing(self.dropped_numbers)
        &&& forall|k: int|
            0 <= k < self.received_numbers.len() ==> (#[trigger] self.received_numbers[k])
                < self.sent.len() && self.received[k] == self.sent[self.received_numbers[k] as int]
        &&& forall|k: int|
            0 <= k < self.dropped_numbers.len() ==> (#[trigger] self.dropped_numbers[k])
                < self.sent.len()
        &&& self.oneshot.message is Some ==> self.sent.len() > 0 && self.oneshot.message == Some(
            self.sent.last(),
        )
    }

    /// Each message that was sent was either handed out or dropped or is there, and only one of
    /// these.
    pub open spec fn all_accounted_for(self) -> bool {
        forall|number: nat|
            number < self.sent.len() ==> {
                &&& #[trigger] self.was_received(number) || self.was_dropped(number)
                    || self.is_there(number)
                &&& !(self.was_received(number) && self.was_dropped(number))
                &&& !(self.was_received(number) && self.is_there(number))
                &&& !(self.was_dropped(number) && self.is_there(number))
            }
    }

    spec fn sound(self) -> bool {
        &&& self.in_order()
        &&& self.all_accounted_for()
        &&& self.gone || self.oneshot.handles.sender ==> self.oneshot.message is None
    }
}

/// The traffic after these calls on a new oneshot.
pub open spec fn traffic_after<T>(calls: Seq<Call<T>>) -> Traffic<T>
    decreases calls.len(),
{
    if calls.len() == 0 {
        Traffic::new()
    } else {
        traffic_after(calls.drop_last()).after(calls.last())
    }
}

/// Each call can be made when its turn comes.
pub open spec fn possible<T>(calls: Seq<Call<T>>) -> bool
    decreases calls.len(),
{
    calls.len() > 0 ==> {
        &&& possible(calls.drop_last())
        &&& traffic_after(calls.drop_last()).admits(calls.last())
    }
}

/// One more number at the end adds that number and takes none away.
proof fn lemma_pushed(numbers: Seq<nat>, number: nat)
    ensures
        forall|other: nat| #[trigger]
            numbers.push(number).contains(other) <==> numbers.contains(other) || other == number,
{
    assert forall|other: nat| #[trigger]
        numbers.push(number).contains(other) <==> numbers.contains(other) || other == number by {
        if numbers.contains(other) {
            let k = choose|k: int| 0 <= k < numbers.len() && numbers[k] == other;
            assert(numbers.push(number)[k] == other);
        }
        assert(numbers.push(number)[numbers.len() as int] == number);
        if numbers.push(number).contains(other) && other != number {
            let k = choose|k: int|
                0 <= k < numbers.push(number).len() && numbers.push(number)[k] == other;
            assert(numbers[k] == other);
        }
    }
}

proof fn lemma_call<T>(now: Traffic<T>, call: Call<T>)
    requires
        now.sound(),
        now.admits(call),
    ensures
        now.after(call).sound(),
{
    let next = now.after(call);
    if now.oneshot.message is Some {
        let latest = (now.sent.len() - 1) as nat;
        assert(!now.was_received(latest) && !now.was_dropped(latest));
        lemma_pushed(now.received_numbers, latest);
        lemma_pushed(now.dropped_numbers, latest);
    }
    assert forall|number: nat| number < next.sent.len() implies {
        &&& #[trigger] next.was_received(number) || next.was_dropped(number) || next.is_there(
            number,
        )
        &&& !(next.was_received(number) && next.was_dropped(number))
        &&& !(next.was_received(number) && next.is_there(number))
        &&& !(next.was_dropped(number) && next.is_there(number))
    } by {
        if number < now.sent.len() {
            assert(now.was_received(number) || now.was_dropped(number) || now.is_there(number));
            assert(!(now.was_received(number) && now.was_dropped(number)));
            if now.oneshot.message is Some {
                let latest = (now.sent.len() - 1) as nat;
                assert(now.hand_out().was_received(number) == (now.was_received(number) || number
                    == latest));
                assert(now.discard().was_dropped(number) == (now.was_dropped(number) || number
                    == latest));
            }
        } else {
            assert(!now.received_numbers.contains(number));
            assert(!now.dropped_numbers.contains(number));
        }
    }
}

proof fn lemma_calls<T>(calls: Seq<Call<T>>)
    requires
        possible(calls),
    ensures
        traffic_after(calls).sound(),
    decreases calls.len(),
{
    if calls.len() > 0 {
        lemma_calls(calls.drop_last());
        lemma_call(traffic_after(calls.drop_last()), calls.last());
    }
}

/// Whatever the calls, every message that is handed out was sent, no message is handed out twice,
/// and messages are handed out in the order in which they were sent.
pub proof fn messages_arrive_in_order<T>(calls: Seq<Call<T>>)
    requires
        possible(calls),
    ensures
        traffic_after(calls).in_order(),
{
    lemma_calls(calls);
}

/// Whatever the calls, every message that was sent is in exactly one place: it was handed out
/// once, or dropped once, or it is in the oneshot.
pub proof fn every_message_is_accounted_for<T>(calls: Seq<Call<T>>)
    requires
        possible(calls),
    ensures
        traffic_after(calls).all_accounted_for(),
        increasing(traffic_after(calls).received_numbers),
        increasing(traffic_after(calls).dropped_numbers),
{
    lemma_calls(calls);
}

/// Once the oneshot is dropped, every message that was ever sent was either handed out once or
/// dropped once, and never both. Dropping an empty oneshot drops no message.
pub proof fn dropping_the_oneshot_leaves_nothing<T>(calls: Seq<Call<T>>)
    requires
        possible(calls),
        !traffic_after(calls).gone,
    ensures
        ({
            let now = traffic_after(calls);
            let end = now.after(Call::Drop);
            &&& forall|number: nat|
                number < end.sent.len() ==> (#[trigger] end.was_received(number)
                    != end.was_dropped(number))
            &&& increasing(end.received_numbers)
            &&& increasing(end.dropped_numbers)
            &&& now.oneshot.message is None ==> end.dropped_numbers == now.dropped_numbers
        }),
{
    let now = traffic_after(calls);
    let end = now.after(Call::Drop);
    lemma_calls(calls);
    lemma_call(now, Call::Drop);
    assert forall|number: nat| number < end.sent.len() implies (#[trigger] end.was_received(number)
        != end.was_dropped(number)) by {
        assert(!end.is_there(number));
    }
}

/// The task that was polled for last, unless a message was sent since.
pub open spec fn last_poller<T>(calls: Seq<Call<T>>) -> Option<int>
    decreases calls.len(),
{
    if calls.len() == 0 {
        None
    } else {
        match calls.last() {
            Call::Poll(task) => Some(task),
            Call::Put(_) => None,
            Call::Send(_) => None,
            _ => last_poller(calls.drop_last()),
        }
    }
}

/// The tasks that were the last to poll when a message was sent, in the order of the messages.
pub open spec fn owed<T>(calls: Seq<Call<T>>) -> Seq<int>
    decreases calls.len(),
{
    if calls.len() == 0 {
        Seq::empty()
    } else {
        let before = owed(calls.drop_last());
        match (calls.last(), last_poller(calls.drop_last())) {
            (Call::Put(_), Some(task)) => before.push(task),
            (Call::Send(_), Some(task)) => before.push(task),
            _ => before,
        }
    }
}

/// Whatever handles are made, given up or split off in between, a task that polled is notified by
/// the next message that is sent, once; nobody else is ever notified.
pub proof fn pollers_are_notified<T>(calls: Seq<Call<T>>)
    requires
        possible(calls),
    ensures
        traffic_after(calls).oneshot.waiting == last_poller(calls),
        traffic_after(calls).oneshot.notified == owed(calls),
    decreases calls.len(),
{
    if calls.len() > 0 {
        pollers_are_notified(calls.drop_last());
    }
}

/// The message that was sent last, unless it was taken, polled for or dropped since.
pub open spec fn left_there<T>(calls: Seq<Call<T>>) -> Option<T>
    decreases calls.len(),
{
    if calls.len() == 0 {
        None
    } else {
        match calls.last() {
            Call::Put(message) => Some(message),
            Call::Send(message) => Some(message),
            Call::Recv => left_there(calls.drop_last()),
            Call::Sender => left_there(calls.drop_last()),
            Call::DropSender => left_there(calls.drop_last()),
            Call::Take => None,
            Call::Poll(_) => None,
            Call::Split => None,
            Call::DropReceiver => None,
            Call::Drop => None,
        }
    }
}

/// A message stays until it is taken or polled for, or dropped with the receiver, a split or the
/// oneshot; nothing else takes it away.
pub proof fn message_stays_until_taken<T>(calls: Seq<Call<T>>)
    requires
        possible(calls),
    ensures
        traffic_after(calls).oneshot.message == left_there(calls),
    decreases calls.len(),
{
    if calls.len() > 0 {
        message_stays_until_taken(calls.drop_last());
    }
}

/// How far a `put` has come.
pub enum Putting {
    /// About to write the message.
    Starting,
    /// The message is written; about to set the flag.
    Written,
    /// The flag is set; about to notify.
    Flagged,
    /// Done.
    Done,
}

/// How far the receiver has come.
pub enum Polling<T> {
    /// Between polls.
    Idle,
    /// The task is registered; about to look at the flag.
    Registered,
    /// The flag was set; about to read the message.
    Found,
    /// The message is read; about to clear the flag.
    Read(T),
}

/// One `put` and any number of polls, one after the other, or a single `take`, that run at the same
/// time as the `put`. Each step of either is one access to what they share.
pub struct Exchange<T> {
    /// What they share. The message may be there without the flag.
    pub shared: OneshotView<T>,
    pub has_message: bool,
    pub putting: Putting,
    pub polling: Polling<T>,
    /// The task of the latest poll.
    pub task: Option<int>,
    /// What polls have returned.
    pub received: Seq<T>,
}

/// Who takes the next step. A poll that begins does so on behalf of the given task.
pub enum Turn {
    Putter,
    Poller(int),
}

impl<T> Exchange<T> {
    /// Before any step, on a oneshot without a message.
    pub open spec fn start(shared: OneshotView<T>) -> Exchange<T> {
        Exchange {
            shared,
            has_message: false,
            putting: Putting::Starting,
            polling: Polling::Idle,
            task: None,
            received: Seq::empty(),
        }
    }

    /// The next step of the `put` of `message`.
    pub open spec fn put_step(self, message: T) -> Exchange<T> {
        match self.putting {
            Putting::Starting => Exchange {
                shared: OneshotView { message: Some(message), ..self.shared },
                putting: Putting::Written,
                ..self
            },
            Putting::Written => Exchange { has_message: true, putting: Putting::Flagged, ..self },
            Putting::Flagged => Exchange {
                shared: OneshotView {
                    waiting: None,
                    notified: match self.shared.waiting {
                        Some(task) => self.shared.notified.push(task),
                        None => self.shared.notified,
                    },
                    ..self.shared
                },
                putting: Putting::Done,
                ..self
            },
            Putting::Done => self,
        }
    }

    /// The next step of the receiver; `task` counts where it begins a poll.
    pub open spec fn poll_step(self, task: int) -> Exchange<T> {
        match self.polling {
            Polling::Idle => Exchange {
                shared: self.shared.awaited(task),
                polling: Polling::Registered,
                task: Some(task),
                ..self
            },
            Polling::Registered => Exchange {
                polling: if self.has_message {
                    Polling::Found
                } else {
                    Polling::Idle
                },
                ..self
            },
            Polling::Found => Exchange {
                shared: self.shared.taken(),
                polling: Polling::Read(self.shared.message->0),
                ..self
            },
            Polling::Read(message) => Exchange {
                has_message: false,
                polling: Polling::Idle,
                received: self.received.push(message),
                ..self
            },
        }
    }

    pub open spec fn step(self, message: T, turn: Turn) -> Exchange<T> {
        match turn {
            Turn::Putter => self.put_step(message),
            Turn::Poller(task) => self.poll_step(task),
        }
    }

    /// The `put` accesses the message in its next step.
    pub open spec fn putter_at_message(self) -> bool {
        self.putting is Starting
    }

    /// The receiver accesses the message in its next step.
    pub open spec fn poller_at_message(self) -> bool {
        self.polling is Found
    }

    spec fn sound(self, start: OneshotView<T>, message: T) -> bool {
        &&& match self.polling {
            Polling::Found => self.has_message,
            Polling::Read(read) => self.has_message && read == message,
            _ => true,
        }
        &&& match self.putting {
            Putting::Starting => {
                &&& self.shared.message is None
                &&& !self.has_message
                &&& self.received.len() == 0
            },
            Putting::Written => {
                &&& self.shared.message == Some(message)
                &&& !self.has_message
                &&& self.received.len() == 0
            },
            _ => {
                &&& self.has_message && !(self.polling is Read) ==> self.shared.message == Some(
                    message,
                ) && self.received.len() == 0
                &&& self.polling is Read ==> self.shared.message is None && self.received.len() == 0
                &&& !self.has_message ==> self.shared.message is None && self.received == seq![
                    message,
                ]
            },
        }
        &&& !(self.putting is Done) ==> self.shared.notified == start.notified && (self.task is Some
            ==> self.shared.waiting == self.task)
        &&& self.putting is Done && self.polling is Idle && self.received.len() == 0
            && self.task is Some ==> self.shared.notified == start.notified.push(self.task->0)
    }
}

/// The exchange after these turns.
pub open spec fn after_turns<T>(
    shared: OneshotView<T>,
    message: T,
    turns: Seq<Turn>,
) -> Exchange<T>
    decreases turns.len(),
{
    if turns.len() == 0 {
        Exchange::start(shared)
    } else {
        after_turns(shared, message, turns.drop_last()).step(message, turns.last())
    }
}

proof fn lemma_turns<T>(shared: OneshotView<T>, message: T, turns: Seq<Turn>)
    requires
        shared.message is None,
    ensures
        after_turns(shared, message, turns).sound(shared, message),
    decreases turns.len(),
{
    if turns.len() > 0 {
        lemma_turns(shared, message, turns.drop_last());
        lemma_step(
            after_turns(shared, message, turns.drop_last()),
            shared,
            message,
            turns.last(),
        );
    }
}

proof fn lemma_step<T>(now: Exchange<T>, shared: OneshotView<T>, message: T, turn: Turn)
    requires
        now.sound(shared, message),
    ensures
        now.step(message, turn).sound(shared, message),
{
    if let Polling::Read(_) = now.polling {
        assert(now.received.push(message) =~= seq![message]);
    }
}

/// A `put` that is not interrupted does what `Oneshot::put` does.
pub proof fn steps_of_put<T>(shared: OneshotView<T>, message: T)
    requires
        shared.message is None,
    ensures
        ({
            let done = Exchange::start(shared).put_step(message).put_step(message).put_step(
                message,
            );
            &&& done.putting is Done
            &&& done.shared == shared.put(message)
            &&& done.has_message
        }),
{
}

/// A poll that is not interrupted does what `Receiver::poll` does.
pub proof fn steps_of_poll<T>(exchange: Exchange<T>, task: int)
    requires
        exchange.polling is Idle,
        exchange.has_message == exchange.shared.message is Some,
    ensures
        ({
            let looked = exchange.poll_step(task).poll_step(task);
            let done = match exchange.shared.message {
                Some(_) => looked.poll_step(task).poll_step(task),
                None => looked,
            };
            &&& done.polling is Idle
            &&& done.shared == exchange.shared.awaited(task).taken()
            &&& !done.has_message
            &&& done.received == match exchange.shared.message {
                Some(message) => exchange.received.push(message),
                None => exchange.received,
            }
        }),
{
}

/// A `put` and a poll are never at the message at the same time. When the `put` writes it there is
/// none to overwrite, and when a poll reads it it is there.
pub proof fn put_and_poll_never_meet<T>(shared: OneshotView<T>, message: T, turns: Seq<Turn>)
    requires
        shared.message is None,
    ensures
        ({
            let now = after_turns(shared, message, turns);
            &&& !(now.putter_at_message() && now.poller_at_message())
            &&& now.putter_at_message() ==> now.shared.message is None
            &&& now.poller_at_message() ==> now.shared.message == Some(message)
        }),
{
    lemma_turns(shared, message, turns);
}

/// The message is received at most once and nothing else ever is. Once the `put` is done and no
/// poll is under way, it has either been received or is there to be received.
pub proof fn message_arrives_once<T>(shared: OneshotView<T>, message: T, turns: Seq<Turn>)
    requires
        shared.message is None,
    ensures
        ({
            let now = after_turns(shared, message, turns);
            &&& now.received == Seq::<T>::empty() || now.received == seq![message]
            &&& now.putting is Done && now.polling is Idle ==> {
                &&& now.has_message == now.shared.message is Some
                &&& now.received == seq![message] ==> now.shared.message is None
                &&& now.received == Seq::<T>::empty() ==> now.shared.message == Some(message)
            }
        }),
{
    lemma_turns(shared, message, turns);
    let now = after_turns(shared, message, turns);
    if now.received.len() == 0 {
        assert(now.received =~= Seq::<T>::empty());
    }
}

/// If the receiver polled in vain and the `put` is done, the task of its latest poll has been
/// notified, however the two ran.
pub proof fn no_notification_is_lost<T>(
    shared: OneshotView<T>,
    message: T,
    turns: Seq<Turn>,
    task: int,
)
    requires
        shared.message is None,
        after_turns(shared, message, turns).putting is Done,
        after_turns(shared, message, turns).polling is Idle,
        after_turns(shared, message, turns).received == Seq::<T>::empty(),
        after_turns(shared, message, turns).task == Some(task),
    ensures
        after_turns(shared, message, turns).shared.notified == shared.notified.push(task),
{
    lemma_turns(shared, message, turns);
}

/// Who takes the next step where a `put` meets a single `take`.
pub enum Side {
    Putter,
    Taker,
}

impl<T> Exchange<T> {
    /// Before any step of a `put` and of a single `take`. A `take` takes the steps of a poll
    /// without registering: it begins with a look at the flag.
    pub open spec fn start_take(shared: OneshotView<T>) -> Exchange<T> {
        Exchange { polling: Polling::Registered, ..Exchange::start(shared) }
    }

    /// The `take` has returned. It returned the message that was received, or `None`.
    pub open spec fn take_is_done(self) -> bool {
        self.polling is Idle
    }

    /// What the `take` returned.
    pub open spec fn taken(self) -> Option<T> {
        if self.received.len() > 0 {
            Some(self.received[0])
        } else {
            None
        }
    }

    /// The next step of the `take`.
    pub open spec fn take_step(self) -> Exchange<T> {
        if self.take_is_done() {
            self
        } else {
            self.poll_step(0)
        }
    }

    pub open spec fn side_step(self, message: T, side: Side) -> Exchange<T> {
        match side {
            Side::Putter => self.put_step(message),
            Side::Taker => self.take_step(),
        }
    }

    /// Apart from the message, the oneshot is as it was before the `put` notified, or as the
    /// `put` leaves it.
    spec fn rest_sound(self, start: OneshotView<T>, message: T) -> bool {
        self.shared.taken() == if self.putting is Done {
            start.put(message).taken()
        } else {
            start.taken()
        }
    }
}

/// A `put` and a single `take` after these steps.
pub open spec fn after_sides<T>(
    shared: OneshotView<T>,
    message: T,
    sides: Seq<Side>,
) -> Exchange<T>
    decreases sides.len(),
{
    if sides.len() == 0 {
        Exchange::start_take(shared)
    } else {
        after_sides(shared, message, sides.drop_last()).side_step(message, sides.last())
    }
}

proof fn lemma_sides<T>(shared: OneshotView<T>, message: T, sides: Seq<Side>)
    requires
        shared.message is None,
    ensures
        after_sides(shared, message, sides).sound(shared, message),
        after_sides(shared, message, sides).rest_sound(shared, message),
    decreases sides.len(),
{
    if sides.len() > 0 {
        lemma_sides(shared, message, sides.drop_last());
        let before = after_sides(shared, message, sides.drop_last());
        lemma_step(before, shared, message, Turn::Putter);
        lemma_step(before, shared, message, Turn::Poller(0));
    }
}

/// A `take` that is not interrupted does what `Oneshot::take` does.
pub proof fn steps_of_take<T>(exchange: Exchange<T>)
    requires
        exchange.polling is Registered,
        exchange.received.len() == 0,
        exchange.has_message == exchange.shared.message is Some,
    ensures
        ({
            let done = exchange.take_step().take_step().take_step();
            &&& done.take_is_done()
            &&& done.taken() == exchange.shared.message
            &&& done.shared == exchange.shared.taken()
            &&& !done.has_message
        }),
{
}

/// A single `take` can run with a single `put`, however their steps are mixed. They are never at
/// the message at the same time, and the `take` reads it only where it is complete. Once both are
/// done, either the `take` returned `None` and the oneshot is as the `put` leaves it, with the
/// message in it, or the `take` returned the message and the oneshot is empty.
pub proof fn put_and_take_hand_over<T>(shared: OneshotView<T>, message: T, sides: Seq<Side>)
    requires
        shared.message is None,
    ensures
        ({
            let now = after_sides(shared, message, sides);
            &&& !(now.putter_at_message() && now.poller_at_message())
            &&& now.putter_at_message() ==> now.shared.message is None
            &&& now.poller_at_message() ==> now.shared.message == Some(message)
            &&& now.received.len() <= 1
            &&& now.putting is Done && now.take_is_done() ==> {
                ||| {
                    &&& now.taken() is None
                    &&& now.has_message
                    &&& now.shared == shared.put(message)
                }
                ||| {
                    &&& now.taken() == Some(message)
                    &&& !now.has_message
                    &&& now.shared == shared.put(message).taken()
                }
            }
        }),
{
    lemma_sides(shared, message, sides);
}

} // verus!
