use btutils::messaging::rendezvous::{
    recv_timeout, Cond, RecvStep, Rendezvous, SendStep, Sending, Signal, TryRecvError,
    TrySendError, Until, Wake,
};

const NOBODY: Wake = Wake { send: Signal::Nobody, recv: Signal::Nobody, in_process: Signal::Nobody };
const TAKEN: Wake = Wake { send: Signal::One, recv: Signal::Nobody, in_process: Signal::All };
const PLACED: Wake = Wake { send: Signal::Nobody, recv: Signal::One, in_process: Signal::Nobody };

fn waits<T>(step: SendStep<T>) -> Sending<T> {
    match step {
        SendStep::Wait(task, _, _) => task,
        _ => panic!("the sender did not wait"),
    }
}

#[test]
fn recv_deadlock() {
    let mut channel = Rendezvous::new();
    // The first receiver begins to wait.
    assert_eq!(channel.recv(true).0, RecvStep::Wait);
    // A value is sent while the second one receives.
    let (step, wake) = channel.send(Sending::Placing(2u8));
    assert_eq!(wake.recv, Signal::One);
    let task = waits(step);
    assert_eq!(channel.recv(true), (RecvStep::Received(2), TAKEN));
    assert_eq!(channel.send(task).0, SendStep::Sent);
    // The first one, woken for nothing, waits on and gets the next value.
    assert_eq!(channel.recv(false).0, RecvStep::Wait);
    let task = waits(channel.send(Sending::Placing(1u8)).0);
    assert_eq!(channel.recv(false).0, RecvStep::Received(1));
    assert_eq!(channel.send(task).0, SendStep::Sent);
}

#[test]
fn send_drop() {
    let mut channel = Rendezvous::<u8>::new();
    assert_eq!(channel.try_recv().0, Err(TryRecvError::Empty));
    channel.drop_sender();
    assert_eq!(channel.try_recv().0, Err(TryRecvError::Closed));
    assert_eq!(channel.recv(true).0, RecvStep::Closed);

    println!("Beginning second set of recv drops");
    let mut channel = Rendezvous::<u8>::new();
    assert_eq!(channel.recv(true).0, RecvStep::Wait);
    assert_eq!(channel.recv(true).0, RecvStep::Wait);
    assert_eq!(channel.drop_sender().recv, Signal::All);
    assert_eq!(channel.recv(false).0, RecvStep::Closed);
    assert_eq!(channel.recv(false).0, RecvStep::Closed);
}

#[test]
fn send_timeout() {
    let mut channel = Rendezvous::<u8>::new();
    let s1 = waits(channel.send_deadline(Sending::Placing(1), false).0);
    let s2 = waits(channel.send(Sending::Placing(2)).0);
    let (res, wake) = channel.send_deadline(s1, true);
    assert_eq!(res, SendStep::Failed(TrySendError::Timeout(1)));
    assert_eq!(wake.send, Signal::One);
    let s2 = waits(channel.send(s2).0);
    assert_eq!(channel.recv(true).0, RecvStep::Received(2));
    assert_eq!(channel.send(s2).0, SendStep::Sent);

    let s2 = waits(channel.send(Sending::Placing(2)).0);
    let s1 = waits(channel.send_deadline(Sending::Placing(1), false).0);
    let (res, wake) = channel.send_deadline(s1, true);
    assert_eq!(res, SendStep::Failed(TrySendError::Timeout(1)));
    assert_eq!(wake, NOBODY);
    assert_eq!(channel.recv(true).0, RecvStep::Received(2));
    assert_eq!(channel.send(s2).0, SendStep::Sent);
}

#[test]
fn recv_drop() {
    let mut channel = Rendezvous::<u8>::new();
    // The sender gives up its wait, but its value stays.
    assert!(matches!(channel.send(Sending::Placing(0)).0, SendStep::Wait(_, _, _)));
    assert_eq!(channel.try_recv().0.unwrap(), 0);
    channel.drop_receiver();
    assert_eq!(
        channel.send(Sending::Placing(0)).0,
        SendStep::Failed(TrySendError::Closed(0))
    );

    println!("Beginning second set of recv drops");
    let mut channel = Rendezvous::<u8>::new();
    let s1 = waits(channel.send(Sending::Placing(1)).0);
    let s2 = waits(channel.send(Sending::Placing(2)).0);
    let wake = channel.drop_receiver();
    assert_eq!((wake.send, wake.in_process), (Signal::All, Signal::All));
    assert_eq!(channel.send(s1).0, SendStep::Failed(TrySendError::Closed(1)));
    assert_eq!(channel.send(s2).0, SendStep::Failed(TrySendError::Closed(2)));
}

#[test]
fn simple_channel() {
    let mut channel = Rendezvous::new();
    let task = waits(channel.send(Sending::Placing(0u8)).0);
    assert_eq!(channel.recv(true).0, RecvStep::Received(0));
    assert_eq!(channel.send(task).0, SendStep::Sent);
}

#[test]
fn waiting_tasks_and_their_conditions() {
    let mut channel = Rendezvous::<u8>::new();
    assert_eq!(
        channel.send(Sending::Placing(5)),
        (SendStep::Wait(Sending::Placed(1), Cond::InProcess, Until::Woken), PLACED)
    );
    assert_eq!(
        channel.send(Sending::Placing(6)),
        (SendStep::Wait(Sending::Placing(6), Cond::Send, Until::Woken), NOBODY)
    );
    assert_eq!(
        channel.send(Sending::Placed(1)),
        (SendStep::Wait(Sending::Placed(1), Cond::InProcess, Until::Woken), NOBODY)
    );
    // A key that is not that of the value in the slot was taken long ago.
    assert_eq!(channel.send(Sending::Placed(0)).0, SendStep::Sent);
    assert_eq!(channel.slot, Some(5));
}

#[test]
fn successful_send_with_deadline() {
    let mut channel = Rendezvous::<u8>::new();
    let (step, _) = channel.send_deadline(Sending::Placing(3), false);
    assert_eq!(step, SendStep::Wait(Sending::Placed(1), Cond::Send, Until::Deadline));
    assert_eq!(channel.recv(true).0, RecvStep::Received(3));
    let (step, _) = channel.send_deadline(Sending::Placed(1), false);
    assert_eq!(step, SendStep::Wait(Sending::Lingering(1), Cond::InProcess, Until::Woken));
    let (step, _) = channel.send_deadline(Sending::Lingering(1), false);
    assert_eq!(step, SendStep::Sent);
    // The deadline passes, but the value is gone already.
    let (step, wake) = channel.send_deadline(Sending::Placed(1), true);
    assert_eq!(step, SendStep::Wait(Sending::Lingering(1), Cond::InProcess, Until::Woken));
    assert_eq!(wake, NOBODY);
}

#[test]
fn closed_channel_with_deadline() {
    let mut channel = Rendezvous::<u8>::new();
    channel.drop_receiver();
    let (step, _) = channel.send_deadline(Sending::Placing(3), false);
    assert_eq!(step, SendStep::Failed(TrySendError::Closed(3)));
    assert_eq!(channel.slot, None);
}

#[test]
fn value_left_behind() {
    let mut channel = Rendezvous::<u8>::new();
    waits(channel.send(Sending::Placing(9)).0);
    channel.drop_sender();
    // A task does not begin to receive, but one that waits still does.
    assert_eq!(channel.recv(true).0, RecvStep::Closed);
    assert_eq!(channel.recv(false).0, RecvStep::Received(9));
}

#[test]
fn ends_are_counted() {
    let mut channel = Rendezvous::<u8>::new();
    channel.clone_sender();
    channel.clone_receiver();
    assert_eq!((channel.senders, channel.receivers), (2, 2));
    assert_eq!(channel.drop_sender(), NOBODY);
    assert_eq!(channel.drop_receiver(), NOBODY);
    assert_eq!(channel.drop_sender().recv, Signal::All);
    assert_eq!(channel.drop_receiver().send, Signal::All);
    assert_eq!((channel.senders, channel.receivers), (0, 0));
}

#[test]
fn keys_start_over() {
    let mut channel = Rendezvous { slot: None, key: usize::MAX, senders: 1, receivers: 1 };
    let (step, _) = channel.send(Sending::Placing(1u8));
    assert_eq!(step, SendStep::Wait(Sending::Placed(0), Cond::InProcess, Until::Woken));
}

#[test]
fn receiving_for_a_limited_time() {
    assert_eq!(recv_timeout(Some(Some(4u8))), Ok(4));
    assert_eq!(recv_timeout::<u8>(Some(None)), Err(TryRecvError::Closed));
    assert_eq!(recv_timeout::<u8>(None), Err(TryRecvError::Empty));
}

#[test]
fn interleaved_senders_hand_over_once() {
    let mut channel = Rendezvous::<u8>::new();
    let mut tasks = vec![
        Some(Sending::Placing(1)),
        Some(Sending::Placing(2)),
        Some(Sending::Placing(3)),
    ];
    let mut received = Vec::new();
    let mut done = Vec::new();
    for turn in 0..12 {
        let i = turn % tasks.len();
        if let Some(task) = tasks[i].take() {
            match channel.send(task).0 {
                SendStep::Sent => done.push(i),
                SendStep::Failed(_) => unreachable!(),
                SendStep::Wait(task, _, _) => tasks[i] = Some(task),
            }
        }
        if turn % 2 == 1 {
            if let RecvStep::Received(val) = channel.recv(turn == 1).0 {
                received.push(val);
            }
        }
    }
    done.sort();
    received.sort();
    assert_eq!(done, vec![0, 1, 2]);
    assert_eq!(received, vec![1, 2, 3]);
}

#[test]
fn no_value_is_lost() {
    // Two senders and a deadline: each value comes out once.
    let mut channel = Rendezvous::<u8>::new();
    let first = waits(channel.send_deadline(Sending::Placing(1), false).0);
    let second = waits(channel.send(Sending::Placing(2)).0);
    assert_eq!(second, Sending::Placing(2));
    let mut seen = Vec::new();
    match channel.send_deadline(first, true).0 {
        SendStep::Failed(TrySendError::Timeout(val)) => seen.push(val),
        _ => unreachable!(),
    }
    waits(channel.send(second).0);
    seen.push(channel.try_recv().0.unwrap());
    assert_eq!(seen, vec![1, 2]);
    assert_eq!(channel.slot, None);
}
