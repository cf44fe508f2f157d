//! A channel without a buffer: a value that is sent waits in a slot until it
//! is received, and its sender waits with it.
//!
//! The functions here are the steps that a task takes while it holds the lock
//! of the channel. A step ends with a result or with what the task waits for
//! before its next step.
#[allow(unused_imports)]
use vstd::multiset::Multiset;
use vstd::prelude::*;

verus! {

/// Why no value was received.
#[derive(Clone, Copy, Debug, PartialEq, Eq, Structural)]
pub enum TryRecvError {
    /// There is none yet.
    Empty,
    /// There will be none.
    Closed,
}

/// Why a value was not sent; it is given back.
#[derive(Debug, PartialEq, Eq)]
pub enum TrySendError<T> {
    /// There is nobody to receive it.
    Closed(T),
    /// Nobody received it in time.
    Timeout(T),
}

/// The count after `n`. It starts over behind the last one.
pub open spec fn next_count(n: usize) -> usize {
    if n == usize::MAX {
        0
    } else {
        (n + 1) as usize
    }
}

/// Which of the tasks that wait for a condition are woken.
#[derive(Clone, Copy, Debug, PartialEq, Eq, Structural)]
pub enum Signal {
    Nobody,
    One,
    All,
}

/// The tasks that a step wakes.
#[derive(Clone, Copy, Debug, PartialEq, Eq, Structural)]
pub struct Wake {
    /// Those that wait for the slot to become free.
    pub send: Signal,
    /// Those that wait for a value.
    pub recv: Signal,
    /// Those that wait for their value to be taken.
    pub in_process: Signal,
}

/// What a sending task waits for.
#[derive(Clone, Copy, Debug, PartialEq, Eq, Structural)]
pub enum Cond {
    /// That the slot becomes free.
    Send,
    /// That a value is taken.
    InProcess,
}

/// How long a sending task waits.
#[derive(Clone, Copy, Debug, PartialEq, Eq, Structural)]
pub enum Until {
    /// Until it is woken.
    Woken,
    /// Until it is woken or the deadline passes.
    Deadline,
}

/// How far a sending task has come.
#[derive(Debug, PartialEq, Eq)]
pub enum Sending<T> {
    /// The value is not in the slot yet.
    Placing(T),
    /// The value was put into the slot under this key.
    Placed(usize),
    /// As `Placed`, and the task waits on without a deadline.
    Lingering(usize),
}

/// How a step of a sending task ends.
#[derive(Debug, PartialEq, Eq)]
pub enum SendStep<T> {
    Sent,
    Failed(TrySendError<T>),
    /// Wait, then go on from there.
    Wait(Sending<T>, Cond, Until),
}

/// How a step of a receiving task ends.
#[derive(Debug, PartialEq, Eq)]
pub enum RecvStep<T> {
    Received(T),
    Closed,
    /// Wait for a value.
    Wait,
}

/// The state of a channel.
#[derive(Debug, PartialEq, Eq)]
pub struct Rendezvous<T> {
    /// The value that waits to be received.
    pub slot: Option<T>,
    /// Tells the values apart that were put into the slot.
    pub key: usize,
    pub senders: usize,
    pub receivers: usize,
}

impl Wake {
    /// Nobody is woken.
    pub open spec fn nobody_spec() -> Self {
        Wake { send: Signal::Nobody, recv: Signal::Nobody, in_process: Signal::Nobody }
    }

    /// A value was taken: all that wait for that are woken, and one that waits
    /// for the slot.
    pub open spec fn taken_spec() -> Self {
        Wake { send: Signal::One, recv: Signal::Nobody, in_process: Signal::All }
    }

    fn nobody() -> (r: Self)
        ensures
            r == Self::nobody_spec(),
    {
        Wake { send: Signal::Nobody, recv: Signal::Nobody, in_process: Signal::Nobody }
    }

    fn taken() -> (r: Self)
        ensures
            r == Self::taken_spec(),
    {
        Wake { send: Signal::One, recv: Signal::Nobody, in_process: Signal::All }
    }
}

impl<T> Rendezvous<T> {
    /// The channel without the value in its slot.
    pub open spec fn emptied(self) -> Self {
        Rendezvous { slot: None, ..self }
    }

    /// The channel with `val` in its slot, under a new key.
    pub open spec fn filled(self, val: T) -> Self {
        Rendezvous {
            slot: Some(val),
            key: next_count(self.key),
            ..self
        }
    }

    /// A look for a value: what it gives, and the channel behind it.
    pub open spec fn polled(self) -> (Self, Result<T, TryRecvError>) {
        match self.slot {
            Some(val) => (self.emptied(), Ok(val)),
            None => (
                self,
                Err(
                    if self.senders != 0 {
                        TryRecvError::Empty
                    } else {
                        TryRecvError::Closed
                    },
                ),
            ),
        }
    }

    /// A step of a receiving task: how it ends, and the channel behind it.
    pub open spec fn receiving(self, first: bool) -> (Self, RecvStep<T>) {
        if first && self.senders == 0 {
            (self, RecvStep::Closed)
        } else {
            match self.polled() {
                (next, Ok(val)) => (next, RecvStep::Received(val)),
                (next, Err(TryRecvError::Empty)) => (next, RecvStep::Wait),
                (next, Err(TryRecvError::Closed)) => (next, RecvStep::Closed),
            }
        }
    }

    /// Whether the value that was put into the slot under `key` is still there.
    pub open spec fn holds(self, key: usize) -> bool {
        self.slot is Some && self.key == key
    }

    /// A task looks after the value that it put into the slot under `key`: how
    /// its step ends, and the channel behind it.
    pub open spec fn looked_after(self, key: usize, cond: Cond, until: Until) -> (Self, SendStep<T>) {
        if !self.holds(key) {
            (self, SendStep::Sent)
        } else if self.receivers == 0 {
            (self.emptied(), SendStep::Failed(TrySendError::Closed(self.slot->0)))
        } else {
            (self, SendStep::Wait(Sending::Placed(key), cond, until))
        }
    }

    /// A task tries to put `val` into the slot and then looks after it.
    pub open spec fn placing(self, val: T, cond: Cond, until: Until) -> (Self, SendStep<T>) {
        if self.slot is None {
            self.filled(val).looked_after(self.filled(val).key, cond, until)
        } else if self.receivers == 0 {
            (self, SendStep::Failed(TrySendError::Closed(val)))
        } else {
            (self, SendStep::Wait(Sending::Placing(val), Cond::Send, until))
        }
    }

    /// A step of a task that sends without a deadline.
    pub open spec fn sending(self, task: Sending<T>) -> (Self, SendStep<T>) {
        match task {
            Sending::Placing(val) => self.placing(val, Cond::InProcess, Until::Woken),
            Sending::Placed(key) => self.looked_after(key, Cond::InProcess, Until::Woken),
            Sending::Lingering(key) => self.looked_after(key, Cond::InProcess, Until::Woken),
        }
    }

    /// A step of a task that sends with a deadline; `expired` says whether it
    /// passed during the wait. A task whose value is in the slot waits for the
    /// slot to become free. When that wait ends it waits for a value to be
    /// taken, without a deadline, and then looks after its value. A deadline
    /// that passed takes whatever value is in the slot out of it.
    pub open spec fn sending_by(self, task: Sending<T>, expired: bool) -> (Self, SendStep<T>) {
        match task {
            Sending::Placing(val) => if expired {
                (self, SendStep::Failed(TrySendError::Timeout(val)))
            } else {
                self.placing(val, Cond::Send, Until::Deadline)
            },
            Sending::Placed(key) => if expired && self.slot is Some {
                (self.emptied(), SendStep::Failed(TrySendError::Timeout(self.slot->0)))
            } else {
                (self, SendStep::Wait(Sending::Lingering(key), Cond::InProcess, Until::Woken))
            },
            Sending::Lingering(key) => self.looked_after(key, Cond::Send, Until::Deadline),
        }
    }

    /// A channel with one sender and one receiver.
    pub fn new() -> (r: Self)
        ensures
            r == (Rendezvous { slot: None::<T>, key: 0, senders: 1, receivers: 1 }),
    {
        Rendezvous { slot: None, key: 0, senders: 1, receivers: 1 }
    }

    /// Receives a value if there is one.
    pub fn try_recv(&mut self) -> (r: (Result<T, TryRecvError>, Wake))
        ensures
            (*final(self), r.0) == old(self).polled(),
            r.1 == (if r.0 is Ok {
                Wake::taken_spec()
            } else {
                Wake::nobody_spec()
            }),
    {
        match self.slot.take() {
            Some(val) => (Ok(val), Wake::taken()),
            None => if self.senders != 0 {
                (Err(TryRecvError::Empty), Wake::nobody())
            } else {
                (Err(TryRecvError::Closed), Wake::nobody())
            },
        }
    }

    /// A step of a receiving task; `first` says whether it is its first one. A
    /// task does not start to receive where there is no sender left, even if
    /// one left a value behind.
    pub fn recv(&mut self, first: bool) -> (r: (RecvStep<T>, Wake))
        ensures
            (*final(self), r.0) == old(self).receiving(first),
            r.1 == (if r.0 is Received {
                Wake::taken_spec()
            } else {
                Wake::nobody_spec()
            }),
    {
        if first && self.senders == 0 {
            return (RecvStep::Closed, Wake::nobody());
        }
        match self.try_recv() {
            (Ok(val), wake) => (RecvStep::Received(val), wake),
            (Err(TryRecvError::Empty), wake) => (RecvStep::Wait, wake),
            (Err(TryRecvError::Closed), wake) => (RecvStep::Closed, wake),
        }
    }

    fn look_after(&mut self, key: usize, cond: Cond, until: Until) -> (r: SendStep<T>)
        ensures
            (*final(self), r) == old(self).looked_after(key, cond, until),
    {
        if self.key != key {
            return SendStep::Sent;
        }
        if self.receivers == 0 {
            match self.slot.take() {
                Some(val) => SendStep::Failed(TrySendError::Closed(val)),
                None => SendStep::Sent,
            }
        } else if self.slot.is_some() {
            SendStep::Wait(Sending::Placed(key), cond, until)
        } else {
            SendStep::Sent
        }
    }

    fn place(&mut self, val: T, cond: Cond, until: Until) -> (r: (SendStep<T>, Wake))
        ensures
            (*final(self), r.0) == old(self).placing(val, cond, until),
            r.1 == (if old(self).slot is None {
                Wake { recv: Signal::One, ..Wake::nobody_spec() }
            } else {
                Wake::nobody_spec()
            }),
    {
        if self.slot.is_some() {
            let step = if self.receivers == 0 {
                SendStep::Failed(TrySendError::Closed(val))
            } else {
                SendStep::Wait(Sending::Placing(val), Cond::Send, until)
            };
            return (step, Wake::nobody());
        }
        let key = self.key.wrapping_add(1);
        self.slot = Some(val);
        self.key = key;
        let wake = Wake { send: Signal::Nobody, recv: Signal::One, in_process: Signal::Nobody };
        (self.look_after(key, cond, until), wake)
    }

    /// A step of a task that sends without a deadline.
    pub fn send(&mut self, task: Sending<T>) -> (r: (SendStep<T>, Wake))
        ensures
            (*final(self), r.0) == old(self).sending(task),
            r.1 == (if task is Placing && old(self).slot is None {
                Wake { recv: Signal::One, ..Wake::nobody_spec() }
            } else {
                Wake::nobody_spec()
            }),
    {
        match task {
            Sending::Placing(val) => self.place(val, Cond::InProcess, Until::Woken),
            Sending::Placed(key) => (self.look_after(key, Cond::InProcess, Until::Woken), Wake::nobody()),
            Sending::Lingering(key) => (self.look_after(key, Cond::InProcess, Until::Woken), Wake::nobody()),
        }
    }

    /// A step of a task that sends with a deadline; `expired` says whether it
    /// passed during the wait.
    pub fn send_deadline(&mut self, task: Sending<T>, expired: bool) -> (r: (SendStep<T>, Wake))
        ensures
            (*final(self), r.0) == old(self).sending_by(task, expired),
            r.1 == (if task is Placing && !expired && old(self).slot is None {
                Wake { recv: Signal::One, ..Wake::nobody_spec() }
            } else if task is Placed && expired && old(self).slot is Some {
                Wake { send: Signal::One, ..Wake::nobody_spec() }
            } else {
                Wake::nobody_spec()
            }),
    {
        match task {
            Sending::Placing(val) => if expired {
                (SendStep::Failed(TrySendError::Timeout(val)), Wake::nobody())
            } else {
                self.place(val, Cond::Send, Until::Deadline)
            },
            Sending::Placed(key) => {
                if expired {
                    if let Some(val) = self.slot.take() {
                        let wake = Wake {
                            send: Signal::One,
                            recv: Signal::Nobody,
                            in_process: Signal::Nobody,
                        };
                        return (SendStep::Failed(TrySendError::Timeout(val)), wake);
                    }
                }
                (
                    SendStep::Wait(Sending::Lingering(key), Cond::InProcess, Until::Woken),
                    Wake::nobody(),
                )
            },
            Sending::Lingering(key) => (
                self.look_after(key, Cond::Send, Until::Deadline),
                Wake::nobody(),
            ),
        }
    }

    /// Counts one more receiver.
    pub fn clone_receiver(&mut self)
        ensures
            final(self).receivers == next_count(old(self).receivers),
            *final(self) == (Rendezvous { receivers: final(self).receivers, ..*old(self) }),
    {
        self.receivers = self.receivers.wrapping_add(1);
    }

    /// Counts one receiver less. The last one wakes every task that sends.
    pub fn drop_receiver(&mut self) -> (r: Wake)
        requires
            old(self).receivers > 0,
        ensures
            final(self).receivers == old(self).receivers - 1,
            *final(self) == (Rendezvous { receivers: final(self).receivers, ..*old(self) }),
            r == (if final(self).receivers == 0 {
                Wake { send: Signal::All, recv: Signal::Nobody, in_process: Signal::All }
            } else {
                Wake::nobody_spec()
            }),
    {
        self.receivers = self.receivers - 1;
        if self.receivers == 0 {
            Wake { send: Signal::All, recv: Signal::Nobody, in_process: Signal::All }
        } else {
            Wake::nobody()
        }
    }

    /// Counts one more sender.
    pub fn clone_sender(&mut self)
        ensures
            final(self).senders == next_count(old(self).senders),
            *final(self) == (Rendezvous { senders: final(self).senders, ..*old(self) }),
    {
        self.senders = self.senders.wrapping_add(1);
    }

    /// Counts one sender less. The last one wakes every task that receives.
    pub fn drop_sender(&mut self) -> (r: Wake)
        requires
            old(self).senders > 0,
        ensures
            final(self).senders == old(self).senders - 1,
            *final(self) == (Rendezvous { senders: final(self).senders, ..*old(self) }),
            r == (if final(self).senders == 0 {
                Wake { send: Signal::Nobody, recv: Signal::All, in_process: Signal::Nobody }
            } else {
                Wake::nobody_spec()
            }),
    {
        self.senders = self.senders - 1;
        if self.senders == 0 {
            Wake { send: Signal::Nobody, recv: Signal::All, in_process: Signal::Nobody }
        } else {
            Wake::nobody()
        }
    }
}

/// What a task that receives for a limited time ends with: a value, that the
/// channel is closed, or that the time is up.
pub fn recv_timeout<T>(ended: Option<Option<T>>) -> (r: Result<T, TryRecvError>)
    ensures
        r == (match ended {
            Some(Some(val)) => Ok(val),
            Some(None) => Err(TryRecvError::Closed),
            None => Err::<T, TryRecvError>(TryRecvError::Empty),
        }),
{
    match ended {
        Some(Some(val)) => Ok(val),
        Some(None) => Err(TryRecvError::Closed),
        None => Err(TryRecvError::Empty),
    }
}

/// A value put into a free slot is the one received next, the slot is then
/// free again, and its sender is done.
pub proof fn value_handed_over<T>(channel: Rendezvous<T>, val: T)
    requires
        channel.slot is None,
        channel.receivers > 0,
        channel.senders > 0,
    ensures
        ({
            let (full, step) = channel.sending(Sending::Placing(val));
            let (after, received) = full.polled();
            let (end, last) = after.sending(step->Wait_0);
            &&& step is Wait
            &&& full.receiving(true) == (after, RecvStep::Received(val))
            &&& received == Ok::<T, TryRecvError>(val)
            &&& after.slot is None
            &&& last is Sent
            &&& end == after
        }),
{
}

/// A sender does not finish while its value is in the slot and there is a
/// receiver.
pub proof fn sender_waits_for_receiver<T>(channel: Rendezvous<T>, key: usize)
    requires
        channel.holds(key),
        channel.receivers > 0,
    ensures
        channel.sending(Sending::Placed(key)) == (
            channel,
            SendStep::<T>::Wait(Sending::Placed(key), Cond::InProcess, Until::Woken),
        ),
        channel.sending_by(Sending::Lingering(key), false) == (
            channel,
            SendStep::<T>::Wait(Sending::Placed(key), Cond::Send, Until::Deadline),
        ),
{
}

/// A value in the slot is left alone by every other sender: one that has yet
/// to place its value, and one that looks after a value under another key.
pub proof fn placed_value_left_alone<T>(channel: Rendezvous<T>, key: usize, other: Sending<T>)
    requires
        channel.holds(key),
        match other {
            Sending::Placing(_) => true,
            Sending::Placed(k) => k != key,
            Sending::Lingering(k) => k != key,
        },
    ensures
        channel.sending(other).0 == channel,
{
}

/// A sender gets its value back where there is no receiver, and the slot is
/// left as it was, or free if the value was in it.
pub proof fn value_given_back<T>(channel: Rendezvous<T>, val: T, key: usize)
    requires
        channel.receivers == 0,
    ensures
        channel.sending(Sending::Placing(val)).1 == SendStep::Failed(TrySendError::Closed(val)),
        channel.sending(Sending::Placing(val)).0.slot == channel.slot,
        channel.holds(key) ==> channel.sending(Sending::Placed(key)) == (
            channel.emptied(),
            SendStep::Failed(TrySendError::Closed(channel.slot->0)),
        ),
        channel.sending_by(Sending::Placing(val), false) == channel.sending(Sending::Placing(val)),
{
}

/// A deadline that passes gives a sender its value back: the one not yet in
/// the slot, or the one in the slot if it is still the sender's own.
pub proof fn deadline_gives_back<T>(channel: Rendezvous<T>, val: T, key: usize)
    ensures
        channel.sending_by(Sending::Placing(val), true) == (
            channel,
            SendStep::Failed(TrySendError::Timeout(val)),
        ),
        channel.holds(key) ==> channel.sending_by(Sending::Placed(key), true) == (
            channel.emptied(),
            SendStep::Failed(TrySendError::Timeout(channel.slot->0)),
        ),
{
}

/// Without a sender and without a value every attempt to receive is told that
/// the channel is closed.
pub proof fn closed_without_sender<T>(channel: Rendezvous<T>, first: bool)
    requires
        channel.senders == 0,
        channel.slot is None,
    ensures
        channel.polled() == (channel, Err::<T, TryRecvError>(TryRecvError::Closed)),
        channel.receiving(first) == (channel, RecvStep::<T>::Closed),
{
}

/// At most one value, as a multiset.
pub open spec fn at_most_one<T>(val: Option<T>) -> Multiset<T> {
    match val {
        Some(val) => Multiset::singleton(val),
        None => Multiset::empty(),
    }
}

impl<T> Sending<T> {
    /// The value that the task still has itself.
    pub open spec fn carried(self) -> Option<T> {
        match self {
            Sending::Placing(val) => Some(val),
            _ => None,
        }
    }
}

impl<T> SendStep<T> {
    /// The value that the task has behind the step.
    pub open spec fn left(self) -> Option<T> {
        match self {
            SendStep::Sent => None,
            SendStep::Failed(TrySendError::Closed(val)) => Some(val),
            SendStep::Failed(TrySendError::Timeout(val)) => Some(val),
            SendStep::Wait(task, _, _) => task.carried(),
        }
    }
}

/// No step of a sender loses a value or doubles it: what was in the slot and
/// with the task is there still.
pub proof fn sending_keeps_values<T>(channel: Rendezvous<T>, task: Sending<T>, expired: bool)
    ensures
        ({
            let (after, step) = channel.sending(task);
            at_most_one(channel.slot).add(at_most_one(task.carried())) == at_most_one(
                after.slot,
            ).add(at_most_one(step.left()))
        }),
        ({
            let (after, step) = channel.sending_by(task, expired);
            at_most_one(channel.slot).add(at_most_one(task.carried())) == at_most_one(
                after.slot,
            ).add(at_most_one(step.left()))
        }),
{
    let (after, step) = channel.sending(task);
    assert(at_most_one(channel.slot).add(at_most_one(task.carried())) =~= at_most_one(
        after.slot,
    ).add(at_most_one(step.left())));
    let (after, step) = channel.sending_by(task, expired);
    assert(at_most_one(channel.slot).add(at_most_one(task.carried())) =~= at_most_one(
        after.slot,
    ).add(at_most_one(step.left())));
}

/// What a receiver gets is what was in the slot, which is free then; without
/// that the slot stays as it was.
pub proof fn receiving_takes_slot<T>(channel: Rendezvous<T>, first: bool)
    ensures
        ({
            let (after, step) = channel.receiving(first);
            match step {
                RecvStep::Received(val) => channel.slot == Some(val) && after.slot is None,
                _ => after == channel,
            }
        }),
        ({
            let (after, got) = channel.polled();
            match got {
                Ok(val) => channel.slot == Some(val) && after.slot is None,
                Err(_) => after == channel && channel.slot is None,
            }
        }),
{
}

} // verus!
