//! What holds of a channel without a buffer when many tasks use it at once.
//!
//! The tasks take turns with the lock of the channel, so what they do is a
//! sequence of steps. Here such a sequence is followed together with what
//! became of each value.
use vstd::prelude::*;

#[allow(unused_imports)]
use crate::messaging::rendezvous::{
    next_count, RecvStep, Rendezvous, SendStep, Sending, TrySendError,
};

verus! {

/// How far a task that sends has come.
#[verifier::ext_equal]
pub enum Stage<T> {
    Active(Sending<T>),
    Sent,
    Failed(TrySendError<T>),
}

/// A task that sends without a deadline, and what became of its value.
#[verifier::ext_equal]
pub struct Sender<T> {
    /// The value that it was given.
    pub val: T,
    pub stage: Stage<T>,
    /// How many values were in the slot before its own, once its own was.
    pub turn: Option<nat>,
    /// What receivers took out of the slot once its value was there, until
    /// another one was put there.
    pub got: Seq<T>,
}

/// A step of some task.
pub enum Op<T> {
    /// Another task begins to send a value.
    Begin(T),
    /// The task with this number takes a step.
    Send(int),
    /// A receiving task takes a step, the first one or a later one.
    Recv(bool),
    /// Someone receives a value if there is one.
    TryRecv,
    CloneSender,
    DropSender,
    CloneReceiver,
    DropReceiver,
}

/// A channel and the tasks that send through it.
#[verifier::ext_equal]
pub struct System<T> {
    pub channel: Rendezvous<T>,
    pub senders: Seq<Sender<T>>,
    /// The key at the start.
    pub first_key: usize,
    /// How many values were put into the slot.
    pub placed: nat,
    /// Who put the last one there.
    pub owner: int,
}

/// The key after `n` others from `key` on.
pub open spec fn key_after(key: usize, n: nat) -> usize
    decreases n,
{
    if n == 0 {
        key
    } else {
        next_count(key_after(key, (n - 1) as nat))
    }
}

proof fn keys_compose(key: usize, n: nat, m: nat)
    ensures
        key_after(key_after(key, n), m) == key_after(key, n + m),
    decreases m,
{
    if m > 0 {
        keys_compose(key, n, (m - 1) as nat);
    }
}

proof fn key_after_within(key: usize, n: nat)
    requires
        n <= usize::MAX,
    ensures
        key_after(key, n) == (if key + n <= usize::MAX {
            key + n
        } else {
            key + n - usize::MAX - 1
        }),
    decreases n,
{
    if n > 0 {
        key_after_within(key, (n - 1) as nat);
    }
}

/// A key comes back only once every other one was in use.
pub proof fn keys_do_not_repeat(key: usize, n: nat, m: nat)
    requires
        n < m <= n + usize::MAX,
    ensures
        key_after(key, n) != key_after(key, m),
{
    keys_compose(key, n, (m - n) as nat);
    key_after_within(key_after(key, n), (m - n) as nat);
}

impl<T> Sender<T> {
    /// A task that has not done anything yet.
    pub open spec fn beginning(val: T) -> Self {
        Sender {
            val,
            stage: Stage::Active(Sending::Placing(val)),
            turn: None,
            got: Seq::empty(),
        }
    }
}

impl<T> System<T> {
    /// A channel that nobody has sent through.
    pub open spec fn fresh(channel: Rendezvous<T>) -> Self {
        System { channel, senders: Seq::empty(), first_key: channel.key, placed: 0, owner: 0 }
    }

    /// The task with the number `i` takes a step.
    pub open spec fn stepped(self, i: int, task: Sending<T>) -> Self {
        let (channel, step) = self.channel.sending(task);
        let fills = task is Placing && self.channel.slot is None;
        let sender = Sender {
            stage: match step {
                SendStep::Sent => Stage::Sent,
                SendStep::Failed(err) => Stage::Failed(err),
                SendStep::Wait(next, _, _) => Stage::Active(next),
            },
            turn: if fills {
                Some(self.placed)
            } else {
                self.senders[i].turn
            },
            ..self.senders[i]
        };
        System {
            channel,
            senders: self.senders.update(i, sender),
            placed: if fills {
                self.placed + 1
            } else {
                self.placed
            },
            owner: if fills {
                i
            } else {
                self.owner
            },
            ..self
        }
    }

    /// A receiver took `val`.
    pub open spec fn handed(self, channel: Rendezvous<T>, val: T) -> Self {
        let sender = self.senders[self.owner];
        System {
            channel,
            senders: self.senders.update(
                self.owner,
                Sender { got: sender.got.push(val), ..sender },
            ),
            ..self
        }
    }

    /// Once a step is taken. A handle is cloned or dropped only where there is
    /// one.
    pub open spec fn apply(self, op: Op<T>) -> Self {
        match op {
            Op::Begin(val) => System { senders: self.senders.push(Sender::beginning(val)), ..self },
            Op::Send(i) => if 0 <= i < self.senders.len() {
                match self.senders[i].stage {
                    Stage::Active(task) => self.stepped(i, task),
                    _ => self,
                }
            } else {
                self
            },
            Op::Recv(first) => match self.channel.receiving(first) {
                (channel, RecvStep::Received(val)) => self.handed(channel, val),
                (channel, _) => System { channel, ..self },
            },
            Op::TryRecv => match self.channel.polled() {
                (channel, Ok(val)) => self.handed(channel, val),
                (channel, Err(_)) => System { channel, ..self },
            },
            Op::CloneSender => System {
                channel: Rendezvous {
                    senders: if self.channel.senders > 0 {
                        next_count(self.channel.senders)
                    } else {
                        0
                    },
                    ..self.channel
                },
                ..self
            },
            Op::DropSender => System {
                channel: Rendezvous {
                    senders: if self.channel.senders > 0 {
                        (self.channel.senders - 1) as usize
                    } else {
                        0
                    },
                    ..self.channel
                },
                ..self
            },
            Op::CloneReceiver => System {
                channel: Rendezvous {
                    receivers: if self.channel.receivers > 0 {
                        next_count(self.channel.receivers)
                    } else {
                        0
                    },
                    ..self.channel
                },
                ..self
            },
            Op::DropReceiver => System {
                channel: Rendezvous {
                    receivers: if self.channel.receivers > 0 {
                        (self.channel.receivers - 1) as usize
                    } else {
                        0
                    },
                    ..self.channel
                },
                ..self
            },
        }
    }

    /// Once some steps are taken, one after the other.
    pub open spec fn run(self, ops: Seq<Op<T>>) -> Self
        decreases ops.len(),
    {
        if ops.len() == 0 {
            self
        } else {
            self.run(ops.drop_last()).apply(ops.last())
        }
    }

    /// Whether a step comes before the key of the task that takes it is in use
    /// again: no more values than there are keys were put into the slot from its
    /// own on.
    pub open spec fn on_time(self, op: Op<T>) -> bool {
        match op {
            Op::Send(i) => 0 <= i < self.senders.len() && self.senders[i].stage is Active ==> (
            self.senders[i].turn matches Some(n) ==> self.placed - n <= usize::MAX + 1),
            _ => true,
        }
    }

    /// Whether all of some steps come in time.
    pub open spec fn all_on_time(self, ops: Seq<Op<T>>) -> bool
        decreases ops.len(),
    {
        ops.len() > 0 ==> {
            &&& self.all_on_time(ops.drop_last())
            &&& self.run(ops.drop_last()).on_time(ops.last())
        }
    }

    /// The value in the slot is that of the task that put it there last, which
    /// still looks after it and from which nothing was received.
    pub open spec fn slot_owned(self) -> bool {
        self.channel.slot matches Some(val) ==> {
            &&& self.placed > 0
            &&& 0 <= self.owner < self.senders.len()
            &&& self.senders[self.owner].stage == Stage::Active(
                Sending::<T>::Placed(self.channel.key),
            )
            &&& self.senders[self.owner].turn == Some((self.placed - 1) as nat)
            &&& self.senders[self.owner].val == val
            &&& self.senders[self.owner].got.len() == 0
        }
    }

    /// What became of the value of the task with the number `i`.
    pub open spec fn accounted(self, i: int) -> bool {
        let sender = self.senders[i];
        match sender.stage {
            Stage::Active(Sending::Placing(val)) => {
                &&& val == sender.val
                &&& sender.turn is None
                &&& sender.got.len() == 0
            },
            Stage::Active(Sending::Placed(key)) => {
                &&& sender.turn matches Some(n)
                &&& n < self.placed
                &&& key == key_after(self.first_key, n + 1)
                &&& n == self.placed - 1 ==> i == self.owner
                &&& if self.channel.slot is Some && n == self.placed - 1 {
                    sender.got.len() == 0
                } else {
                    sender.got == seq![sender.val]
                }
            },
            Stage::Active(Sending::Lingering(_)) => false,
            Stage::Sent => sender.got == seq![sender.val],
            Stage::Failed(err) => {
                &&& err == TrySendError::Closed(sender.val)
                &&& sender.got.len() == 0
                &&& self.channel.receivers == 0
            },
        }
    }

    /// Every value is accounted for, and the key in use is that of the last
    /// value put into the slot.
    pub open spec fn wf(self) -> bool {
        &&& self.channel.key == key_after(self.first_key, self.placed)
        &&& self.slot_owned()
        &&& forall|i: int| 0 <= i < self.senders.len() ==> #[trigger] self.accounted(i)
    }
}

proof fn send_keeps_wf<T>(system: System<T>, i: int, task: Sending<T>)
    requires
        system.wf(),
        0 <= i < system.senders.len(),
        system.senders[i].stage == Stage::Active(task),
        system.on_time(Op::Send(i)),
    ensures
        system.stepped(i, task).wf(),
{
    let after = system.stepped(i, task);
    assert(system.accounted(i));
    if system.channel.slot is Some {
        assert(system.accounted(system.owner));
    }
    if let Some(n) = system.senders[i].turn {
        if n + 1 < system.placed {
            keys_do_not_repeat(system.first_key, n + 1, system.placed);
        }
    }
    assert forall|j: int| 0 <= j < after.senders.len() implies #[trigger] after.accounted(j) by {
        assert(system.accounted(j));
    }
}

proof fn receive_keeps_wf<T>(system: System<T>, channel: Rendezvous<T>, val: T)
    requires
        system.wf(),
        system.channel.slot == Some(val),
        channel == system.channel.emptied(),
    ensures
        system.handed(channel, val).wf(),
{
    let after = system.handed(channel, val);
    assert(system.accounted(system.owner));
    assert forall|j: int| 0 <= j < after.senders.len() implies #[trigger] after.accounted(j) by {
        assert(system.accounted(j));
        if j == system.owner {
            assert(after.senders[j].got =~= seq![val]);
        }
    }
}

proof fn apply_keeps_wf<T>(system: System<T>, op: Op<T>)
    requires
        system.wf(),
        system.on_time(op),
    ensures
        system.apply(op).wf(),
{
    let after = system.apply(op);
    match op {
        Op::Send(i) => {
            if 0 <= i < system.senders.len() {
                if let Stage::Active(task) = system.senders[i].stage {
                    send_keeps_wf(system, i, task);
                }
            }
        },
        Op::Recv(first) => {
            match system.channel.receiving(first) {
                (channel, RecvStep::Received(val)) => receive_keeps_wf(system, channel, val),
                _ => {},
            }
        },
        Op::TryRecv => {
            match system.channel.polled() {
                (channel, Ok(val)) => receive_keeps_wf(system, channel, val),
                _ => {},
            }
        },
        _ => {
            assert forall|j: int| 0 <= j < after.senders.len() implies #[trigger] after.accounted(
                j,
            ) by {
                if j < system.senders.len() {
                    assert(system.accounted(j));
                }
            }
        },
    }
}

proof fn run_keeps_wf<T>(channel: Rendezvous<T>, ops: Seq<Op<T>>)
    requires
        channel.slot is None,
        System::fresh(channel).all_on_time(ops),
    ensures
        System::fresh(channel).run(ops).wf(),
    decreases ops.len(),
{
    if ops.len() > 0 {
        let before = System::fresh(channel).run(ops.drop_last());
        run_keeps_wf(channel, ops.drop_last());
        apply_keeps_wf(before, ops.last());
    }
}

/// Whatever the other tasks do: a sender that is told that its value was sent
/// had it received exactly once. One that gets its value back had it received
/// by nobody, and there is no receiver left. Until a sender knows, its value
/// was received at most once. This is so as long as every sender takes its steps
/// before its key is in use again.
pub proof fn sent_is_received_once<T>(channel: Rendezvous<T>, ops: Seq<Op<T>>, i: int)
    requires
        channel.slot is None,
        System::fresh(channel).all_on_time(ops),
        0 <= i < System::fresh(channel).run(ops).senders.len(),
    ensures
        ({
            let system = System::fresh(channel).run(ops);
            let sender = system.senders[i];
            match sender.stage {
                Stage::Sent => sender.got == seq![sender.val],
                Stage::Failed(err) => {
                    &&& err == TrySendError::Closed(sender.val)
                    &&& sender.got == Seq::<T>::empty()
                    &&& system.channel.receivers == 0
                },
                Stage::Active(_) => sender.got == Seq::<T>::empty() || sender.got == seq![
                    sender.val,
                ],
            }
        }),
{
    run_keeps_wf(channel, ops);
    assert(System::fresh(channel).run(ops).accounted(i));
}

/// What a receiver gets is the value of the task that last put one into the
/// slot, from which nothing was received before, and it is counted for that
/// task alone.
pub proof fn received_from_its_sender<T>(
    channel: Rendezvous<T>,
    ops: Seq<Op<T>>,
    first: bool,
    val: T,
)
    requires
        channel.slot is None,
        System::fresh(channel).all_on_time(ops),
        System::fresh(channel).run(ops).channel.receiving(first).1 == RecvStep::Received(val),
    ensures
        ({
            let before = System::fresh(channel).run(ops);
            let after = before.apply(Op::Recv(first));
            let owner = before.owner;
            &&& 0 <= owner < before.senders.len()
            &&& val == before.senders[owner].val
            &&& before.senders[owner].got == Seq::<T>::empty()
            &&& after.senders[owner].got == seq![val]
            &&& forall|j: int|
                0 <= j < before.senders.len() && j != owner ==> #[trigger] after.senders[j]
                    == before.senders[j]
        }),
{
    run_keeps_wf(channel, ops);
    let before = System::fresh(channel).run(ops);
    assert(before.apply(Op::Recv(first)).senders[before.owner].got =~= seq![val]);
}

/// A task that is done stays so, with all that became of its value, and so
/// does the value that a task was given.
pub proof fn done_stays_done<T>(channel: Rendezvous<T>, ops: Seq<Op<T>>, op: Op<T>, i: int)
    requires
        channel.slot is None,
        System::fresh(channel).all_on_time(ops),
        0 <= i < System::fresh(channel).run(ops).senders.len(),
    ensures
        ({
            let before = System::fresh(channel).run(ops);
            let after = before.apply(op);
            &&& i < after.senders.len()
            &&& after.senders[i].val == before.senders[i].val
            &&& before.senders[i].stage !is Active ==> after.senders[i] == before.senders[i]
        }),
{
    run_keeps_wf(channel, ops);
}

/// A step while one task sends with a deadline and no other task sends.
pub enum LoneOp {
    /// The task takes a step; the deadline may have passed.
    Send(bool),
    Recv(bool),
    TryRecv,
    CloneSender,
    DropSender,
    CloneReceiver,
    DropReceiver,
}

/// A channel and the one task that sends through it, with a deadline.
#[verifier::ext_equal]
pub struct Lone<T> {
    pub channel: Rendezvous<T>,
    pub val: T,
    pub stage: Stage<T>,
    /// What receivers took out of the slot.
    pub got: Seq<T>,
}

impl<T> Lone<T> {
    /// A task that has not done anything yet.
    pub open spec fn beginning(channel: Rendezvous<T>, val: T) -> Self {
        Lone { channel, val, stage: Stage::Active(Sending::Placing(val)), got: Seq::empty() }
    }

    /// Once a step is taken. One receiver stays.
    pub open spec fn apply(self, op: LoneOp) -> Self {
        match op {
            LoneOp::Send(expired) => match self.stage {
                Stage::Active(task) => {
                    let (channel, step) = self.channel.sending_by(task, expired);
                    let stage = match step {
                        SendStep::Sent => Stage::Sent,
                        SendStep::Failed(err) => Stage::Failed(err),
                        SendStep::Wait(next, _, _) => Stage::Active(next),
                    };
                    Lone { channel, stage, ..self }
                },
                _ => self,
            },
            LoneOp::Recv(first) => match self.channel.receiving(first) {
                (channel, RecvStep::Received(val)) => Lone {
                    channel,
                    got: self.got.push(val),
                    ..self
                },
                (channel, _) => Lone { channel, ..self },
            },
            LoneOp::TryRecv => match self.channel.polled() {
                (channel, Ok(val)) => Lone { channel, got: self.got.push(val), ..self },
                (channel, Err(_)) => Lone { channel, ..self },
            },
            LoneOp::CloneSender => Lone {
                channel: Rendezvous { senders: next_count(self.channel.senders), ..self.channel },
                ..self
            },
            LoneOp::DropSender => if self.channel.senders > 0 {
                Lone {
                    channel: Rendezvous {
                        senders: (self.channel.senders - 1) as usize,
                        ..self.channel
                    },
                    ..self
                }
            } else {
                self
            },
            LoneOp::CloneReceiver => if self.channel.receivers < usize::MAX {
                Lone {
                    channel: Rendezvous {
                        receivers: next_count(self.channel.receivers),
                        ..self.channel
                    },
                    ..self
                }
            } else {
                self
            },
            LoneOp::DropReceiver => if self.channel.receivers > 1 {
                Lone {
                    channel: Rendezvous {
                        receivers: (self.channel.receivers - 1) as usize,
                        ..self.channel
                    },
                    ..self
                }
            } else {
                self
            },
        }
    }

    /// Once some steps are taken, one after the other.
    pub open spec fn run(self, ops: Seq<LoneOp>) -> Self
        decreases ops.len(),
    {
        if ops.len() == 0 {
            self
        } else {
            self.run(ops.drop_last()).apply(ops.last())
        }
    }

    /// What became of the value.
    pub open spec fn accounted(self) -> bool {
        let waits = self.channel.slot == Some(self.val) && self.got.len() == 0;
        let taken = self.channel.slot is None && self.got == seq![self.val];
        &&& self.channel.receivers > 0
        &&& match self.stage {
            Stage::Active(Sending::Placing(val)) => {
                &&& val == self.val
                &&& self.channel.slot is None
                &&& self.got.len() == 0
            },
            Stage::Active(Sending::Placed(key)) => self.channel.key == key && (waits || taken),
            Stage::Active(Sending::Lingering(key)) => self.channel.key == key && (waits
                || taken),
            Stage::Sent => taken,
            Stage::Failed(err) => {
                &&& err == TrySendError::Timeout(self.val)
                &&& self.channel.slot is None
                &&& self.got.len() == 0
            },
        }
    }
}

proof fn lone_accounted<T>(channel: Rendezvous<T>, val: T, ops: Seq<LoneOp>)
    requires
        channel.slot is None,
        channel.receivers > 0,
    ensures
        Lone::beginning(channel, val).run(ops).accounted(),
        Lone::beginning(channel, val).run(ops).val == val,
    decreases ops.len(),
{
    if ops.len() > 0 {
        lone_accounted(channel, val, ops.drop_last());
        let before = Lone::beginning(channel, val).run(ops.drop_last());
        let after = before.apply(ops.last());
        if after.got.len() > before.got.len() {
            assert(after.got =~= seq![val]);
        }
    }
}

/// A task that sends with a deadline while no other one sends and a receiver is
/// there: if it is told that its value was sent, exactly one receiver got it.
/// If its time is up it gets its own value back, nobody got it, and the slot is
/// free. It is never told that the channel is closed.
pub proof fn lone_deadline_send<T>(channel: Rendezvous<T>, val: T, ops: Seq<LoneOp>)
    requires
        channel.slot is None,
        channel.receivers > 0,
    ensures
        ({
            let end = Lone::beginning(channel, val).run(ops);
            match end.stage {
                Stage::Sent => end.got == seq![val],
                Stage::Failed(TrySendError::Timeout(back)) => {
                    &&& back == val
                    &&& end.got == Seq::<T>::empty()
                    &&& end.channel.slot is None
                },
                Stage::Failed(TrySendError::Closed(_)) => false,
                Stage::Active(_) => end.got == Seq::<T>::empty() || end.got == seq![val],
            }
        }),
{
    lone_accounted(channel, val, ops);
}

} // verus!
