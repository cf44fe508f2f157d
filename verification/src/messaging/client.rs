//! The client of a message channel.
use rustable::gatt::AttValue;
use rustable::MAC;
use vstd::prelude::*;

use crate::messaging::frame::Frame;
use crate::messaging::inflight::{Flight, InFlight};
use crate::messaging::lat::LatDeque;
use crate::messaging::queue::{Backlog, Polled, Source};
use crate::messaging::stats::Stats;
use crate::messaging::{Error, DEFAULT_LAT_PERIOD, SERV_IN, SERV_OUT};
use crate::time::{Deadline, Duration, Instant};
#[allow(unused_imports)]
use crate::att::att_bytes;
#[allow(unused_imports)]
use crate::messaging::frame::{
    blank_header, framed, header_of, payload_of, stamped, HEADER_LEN, MAX_MSG_LEN,
};
#[allow(unused_imports)]
use crate::messaging::lat::{half_mean, LatWindow};
#[allow(unused_imports)]
use crate::time::{max, min, monus};

verus! {

/// How to open a channel.
pub struct ClientOptions<'a> {
    /// How long the messages on their way may take together.
    pub target_lt: Duration,
    pub dev: MAC,
    pub hci: u8,
    /// The number of latencies that are averaged.
    pub lat_period: usize,
    pub name: Option<&'a str>,
}

impl ClientOptions<'_> {
    pub fn new(dev: MAC) -> (r: Self)
        ensures
            r.dev == dev,
            r.hci == 0,
            r.lat_period == 32,
            r.target_lt.nanos == 256_000_000,
            r.name is None,
    {
        ClientOptions {
            dev,
            hci: 0,
            lat_period: DEFAULT_LAT_PERIOD,
            target_lt: Duration::from_millis(8).times(DEFAULT_LAT_PERIOD as u32),
            name: None,
        }
    }
}

/// Whether a characteristic is one of the two of a channel.
pub open spec fn is_channel(uuid: u128) -> bool {
    uuid == SERV_IN || uuid == SERV_OUT
}

/// The first place at or behind `from` where one of the two characteristics
/// stands, or the end.
pub open spec fn next_channel(uuids: Seq<u128>, from: nat) -> nat
    decreases uuids.len() - from,
{
    if from >= uuids.len() {
        uuids.len()
    } else if is_channel(uuids[from as int]) {
        from
    } else {
        next_channel(uuids, from + 1)
    }
}

/// The places of the characteristics to read from and to write to. They are
/// the first two of either kind, one of each.
pub open spec fn channels_in(uuids: Seq<u128>) -> Option<(nat, nat)> {
    let first = next_channel(uuids, 0);
    let second = next_channel(uuids, first + 1);
    if second >= uuids.len() || uuids[first as int] == uuids[second as int] {
        None
    } else if uuids[first as int] == SERV_OUT {
        Some((first, second))
    } else {
        Some((second, first))
    }
}

fn find_channel(uuids: &[u128], from: usize) -> (r: usize)
    requires
        from <= uuids@.len(),
    ensures
        r == next_channel(uuids@, from as nat),
        from <= r <= uuids@.len(),
        r < uuids@.len() ==> is_channel(uuids@[r as int]),
{
    let mut at = from;
    while at < uuids.len() && uuids[at] != SERV_IN && uuids[at] != SERV_OUT
        invariant
            from <= at <= uuids@.len(),
            next_channel(uuids@, at as nat) == next_channel(uuids@, from as nat),
        decreases uuids@.len() - at,
    {
        at = at + 1;
    }
    at
}

/// Picks the characteristics to read from and to write to.
pub fn find_channels(uuids: &[u128]) -> (r: Result<(usize, usize), Error>)
    ensures
        match channels_in(uuids@) {
            Some(places) => r matches Ok(found) && found.0 == places.0 && found.1 == places.1,
            None => r == Err::<(usize, usize), Error>(Error::InvalidService),
        },
{
    let first = find_channel(uuids, 0);
    if first >= uuids.len() {
        return Err(Error::InvalidService);
    }
    let second = find_channel(uuids, first + 1);
    if second >= uuids.len() || uuids[first] == uuids[second] {
        return Err(Error::InvalidService);
    }
    if uuids[first] == SERV_OUT {
        Ok((first, second))
    } else {
        Ok((second, first))
    }
}

/// The least latency that a timeout allows for.
pub const MIN_LAT_MICROS: u64 = 7250;

/// What the client does next.
#[derive(Clone, Copy, Debug, PartialEq, Eq, Structural)]
pub enum Wait {
    /// Wait for a message to send and for the other device.
    Any,
    /// Wait for the other device, at most so long.
    Device(Duration),
}

/// What to do with a value that came from the server.
pub enum Received {
    /// The socket failed: ask for a new one.
    Reacquire,
    /// Nothing.
    Ignore,
    /// Hand on the frame and write back the acknowledgement.
    Deliver(Frame, AttValue),
}

/// What ended the wait of a client.
pub enum Event {
    /// A frame to send, or that there will be none.
    Outgoing(Option<Frame>),
    /// What came from the characteristic for messages from the server, or that
    /// its socket failed.
    In(Option<AttValue>),
    /// What came from the characteristic for messages to the server, or that
    /// its socket failed.
    Out(Option<AttValue>),
    /// Nothing, for as long as the client waits.
    TimedOut,
}

/// What a client does upon an event.
pub enum Action {
    /// Nothing.
    Nothing,
    /// End.
    Stop,
    /// Write the value to the characteristic for messages to the server.
    Write(AttValue),
    /// Ask for a new socket of the characteristic for messages to the server.
    Reacquire,
    /// Hand on the frame, and write the acknowledgement to the characteristic
    /// for messages from the server.
    Deliver(Frame, AttValue),
}

/// The state of a client.
pub struct ClientData {
    flight: InFlight,
    timeout: Deadline,
    target_lt: Duration,
}

/// What a [`ClientData`] holds.
#[verifier::ext_equal]
pub struct ClientState {
    pub flight: Flight,
    /// When the client stops waiting for an acknowledgement.
    pub timeout: Deadline,
    pub target_lt: Duration,
}

impl ClientState {
    /// Whether the messages on their way take no longer than they may.
    pub open spec fn can_send(self) -> bool {
        half_mean(self.flight.lat.adjusted) * (self.flight.sent.len() % 0x1_0000_0000)
            <= self.target_lt.nanos
    }

    /// The timeout after a message sent at `now`: sixteen times the mean
    /// latency, and no less than sixteen times the least one.
    pub open spec fn timeout_from(self, now: Instant) -> Deadline {
        let lat = max(half_mean(self.flight.lat.last) as int, MIN_LAT_MICROS * 1_000);
        Deadline {
            nanos: min(now.nanos + min(lat * 16, u128::MAX as int), u128::MAX as int) as u128,
        }
    }

    /// Once a message is sent at `now`.
    pub open spec fn sent(self, now: Instant) -> Self {
        ClientState {
            flight: self.flight.launched(now),
            timeout: self.timeout_from(now),
            target_lt: self.target_lt,
        }
    }
}

impl View for ClientData {
    type V = ClientState;

    closed spec fn view(&self) -> ClientState {
        ClientState { flight: self.flight@, timeout: self.timeout, target_lt: self.target_lt }
    }
}

impl ClientData {
    pub closed spec fn wf(&self) -> bool {
        self.flight.wf()
    }

    /// What a well-formed state is made of.
    pub proof fn wf_state(&self)
        requires
            self.wf(),
        ensures
            self@.flight.consecutive(),
            self@.flight.lat.period > 0,
            self@.flight.lat.last.len() == self@.flight.lat.adjusted.len(),
            self@.flight.lat.last.len() <= self@.flight.lat.period,
            forall|i: int|
                0 <= i < self@.flight.lat.last.len() ==> (#[trigger] self@.flight.lat.adjusted[i]).nanos
                    <= (#[trigger] self@.flight.lat.last[i]).nanos,
            half_mean(self@.flight.lat.adjusted) <= half_mean(self@.flight.lat.last),
    {
        self.flight.wf_flight();
    }

    /// A client that has sent nothing yet.
    pub fn new(lat_period: usize, target_lt: Duration, now: Instant) -> (r: Self)
        requires
            lat_period != 0,
        ensures
            r.wf(),
            r@ == (ClientState {
                flight: Flight {
                    sent: Seq::empty(),
                    idx: 0,
                    lat: LatWindow::empty(lat_period as nat, now),
                },
                timeout: Deadline { nanos: now.nanos },
                target_lt,
            }),
    {
        ClientData {
            flight: InFlight::new(LatDeque::starting(lat_period, now)),
            timeout: Deadline { nanos: now.nanos },
            target_lt,
        }
    }

    fn set_timeout(&mut self, now: Instant)
        requires
            old(self).wf(),
        ensures
            final(self).wf(),
            final(self)@ == (ClientState { timeout: old(self)@.timeout_from(now), ..old(self)@ }),
    {
        let to_dur = self.flight.avg_lat().longer(Duration::from_micros(MIN_LAT_MICROS)).times(16);
        self.timeout = now.after(to_dur);
    }

    /// Sends a frame at `now`: gives the value to write. It is one of those on
    /// their way from then on. A client whose write fails for good ends, and its
    /// state with it.
    pub fn send(&mut self, frame: Frame, now: Instant) -> (r: AttValue)
        requires
            old(self).wf(),
        ensures
            final(self).wf(),
            final(self)@ == old(self)@.sent(now),
            att_bytes(r) == stamped(frame@, old(self)@.flight.next()),
    {
        let frame = self.flight.launch(frame, now);
        self.set_timeout(now);
        frame.into_value()
    }

    /// Whether another message may be sent.
    pub fn can_send(&self) -> (r: bool)
        requires
            self.wf(),
        ensures
            r == self@.can_send(),
            self@.flight.sent.len() < 0x1_0000_0000 ==> r == (half_mean(self@.flight.lat.adjusted)
                * self@.flight.sent.len() <= self@.target_lt.nanos),
    {
        self.flight.avg_lat_adjusted().times_within(self.flight.count(), self.target_lt)
    }

    /// The time left at `now` to wait for an acknowledgement.
    pub fn get_to(&self, now: Instant) -> (r: Duration)
        ensures
            r.nanos == monus(self@.timeout.nanos as int, now.nanos as int),
    {
        self.timeout.saturating_duration_since(now)
    }

    /// What to wait for at `now`. If nothing comes in that time, an empty
    /// frame is to be sent.
    pub fn next_wait(&self, now: Instant) -> (r: Wait)
        requires
            self.wf(),
        ensures
            r == (if self@.can_send() {
                Wait::Any
            } else {
                Wait::Device(
                    Duration {
                        nanos: monus(self@.timeout.nanos as int, now.nanos as int) as u128,
                    },
                )
            }),
    {
        if self.can_send() {
            Wait::Any
        } else {
            Wait::Device(self.get_to(now))
        }
    }

    /// Takes what came at `now` from the characteristic for messages to the
    /// server, or that its socket failed. Says whether to ask for a new socket.
    pub fn handle_send_res(
        &mut self,
        res: Option<AttValue>,
        now: Instant,
        stats: &mut Stats,
    ) -> (r: bool)
        requires
            old(self).wf(),
        ensures
            final(self).wf(),
            r == (res is None),
            match res {
                None => final(self)@ == old(self)@ && final(stats)@ == old(stats)@,
                Some(val) => {
                    &&& final(self)@ == (ClientState {
                        flight: old(self)@.flight.acked(att_bytes(val), now),
                        ..old(self)@
                    })
                    &&& final(stats)@ == old(self)@.flight.figures_acked(
                        old(stats)@,
                        att_bytes(val),
                        now,
                    )
                },
            },
    {
        match res {
            None => true,
            Some(val) => {
                self.flight.acknowledge(&val, now, stats);
                false
            },
        }
    }

    /// Takes what ended the wait at `now`. Of a socket that failed only that of
    /// the characteristic for messages to the server is renewed.
    pub fn handle(&mut self, event: Event, now: Instant, stats: &mut Stats) -> (r: Action)
        requires
            old(self).wf(),
        ensures
            final(self).wf(),
            match event {
                Event::Outgoing(Some(frame)) => {
                    &&& final(self)@ == old(self)@.sent(now)
                    &&& final(stats)@ == old(stats)@
                    &&& r matches Action::Write(val) && att_bytes(val) == stamped(
                        frame@,
                        old(self)@.flight.next(),
                    )
                },
                Event::Outgoing(None) => {
                    &&& final(self)@ == old(self)@
                    &&& final(stats)@ == old(stats)@
                    &&& r is Stop
                },
                Event::In(res) => {
                    &&& final(self)@ == old(self)@
                    &&& final(stats)@ == old(stats)@
                    &&& match res {
                        None => r is Reacquire,
                        Some(val) => if client_takes(att_bytes(val)) {
                            r matches Action::Deliver(frame, ack) && frame@ == att_bytes(val)
                                && att_bytes(ack) == header_of(att_bytes(val))
                        } else {
                            r is Nothing
                        },
                    }
                },
                Event::Out(None) => {
                    &&& final(self)@ == old(self)@
                    &&& final(stats)@ == old(stats)@
                    &&& r is Reacquire
                },
                Event::Out(Some(val)) => {
                    &&& final(self)@ == (ClientState {
                        flight: old(self)@.flight.acked(att_bytes(val), now),
                        ..old(self)@
                    })
                    &&& final(stats)@ == old(self)@.flight.figures_acked(
                        old(stats)@,
                        att_bytes(val),
                        now,
                    )
                    &&& r is Nothing
                },
                Event::TimedOut => {
                    &&& final(self)@ == old(self)@.sent(now)
                    &&& final(stats)@ == old(stats)@
                    &&& r matches Action::Write(val) && att_bytes(val) == stamped(
                        blank_header(),
                        old(self)@.flight.next(),
                    )
                },
            },
    {
        match event {
            Event::Outgoing(Some(frame)) => Action::Write(self.send(frame, now)),
            Event::Outgoing(None) => Action::Stop,
            Event::In(res) => match handle_recv(res) {
                Received::Reacquire => Action::Reacquire,
                Received::Ignore => Action::Nothing,
                Received::Deliver(frame, ack) => Action::Deliver(frame, ack),
            },
            Event::Out(res) => if self.handle_send_res(res, now, stats) {
                Action::Reacquire
            } else {
                Action::Nothing
            },
            Event::TimedOut => Action::Write(self.send(Frame::empty(), now)),
        }
    }
}

/// What a client does with the bytes of a value from the server: bytes that
/// are no frame, and a frame that says nothing, are passed over.
pub open spec fn client_takes(bytes: Seq<u8>) -> bool {
    bytes.len() >= HEADER_LEN && bytes != blank_header()
}

/// Takes what came from the characteristic for messages from the server, or
/// that its socket failed.
pub fn handle_recv(res: Option<AttValue>) -> (r: Received)
    ensures
        match res {
            None => r is Reacquire,
            Some(val) => if client_takes(att_bytes(val)) {
                r matches Received::Deliver(frame, ack) && frame@ == att_bytes(val) && att_bytes(
                    ack,
                ) == header_of(att_bytes(val))
            } else {
                r is Ignore
            },
        },
{
    match res {
        None => Received::Reacquire,
        Some(val) => match Frame::from_value(val) {
            None => Received::Ignore,
            Some(frame) => if frame.is_blank() {
                Received::Ignore
            } else {
                let ack = frame.ack();
                Received::Deliver(frame, ack)
            },
        },
    }
}

/// The message of a frame that the client delivered, or that it hung up.
pub fn recv_msg(res: Option<Frame>) -> (r: Result<AttValue, Error>)
    ensures
        match res {
            Some(frame) => r matches Ok(msg) && att_bytes(msg) == payload_of(frame@),
            None => r == Err::<AttValue, Error>(Error::ClientThreadHungUp),
        },
{
    match res {
        Some(frame) => Ok(frame.payload()),
        None => Err(Error::ClientThreadHungUp),
    }
}

/// What `try_recv_msg` gives for what it finds in the queue.
pub open spec fn gives(polled: Polled, r: Result<Option<AttValue>, Error>) -> bool {
    match polled {
        Polled::Item(frame) => r matches Ok(Some(msg)) && att_bytes(msg) == payload_of(frame@),
        Polled::Empty => r == Ok::<Option<AttValue>, Error>(None),
        Polled::Closed => r == Err::<Option<AttValue>, Error>(Error::ClientThreadHungUp),
    }
}

/// Turns what was found in the queue of delivered frames into a message.
pub fn polled_msg(polled: Polled) -> (r: Result<Option<AttValue>, Error>)
    ensures
        gives(polled, r),
{
    match polled {
        Polled::Item(frame) => Ok(Some(frame.payload())),
        Polled::Empty => Ok(None),
        Polled::Closed => Err(Error::ClientThreadHungUp),
    }
}

/// The next message that has been delivered, if there is one yet, and what the
/// queue holds then.
pub fn recv_next<S: Source>(inbound: S) -> (r: (Result<Option<AttValue>, Error>, S::Rest))
    ensures
        exists|polled: Polled| inbound.yields(polled, r.1) && #[trigger] gives(polled, r.0),
{
    let (polled, rest) = inbound.look();
    let ghost found = polled;
    let r = (polled_msg(polled), rest);
    assert(inbound.yields(found, r.1));
    assert(gives(found, r.0));
    r
}

/// The next message that has been delivered, if there is one yet.
pub fn try_recv_msg<S: Source>(inbound: S) -> (r: Result<Option<AttValue>, Error>)
    ensures
        exists|polled: Polled, rest: S::Rest| #[trigger] inbound.yields(polled, rest) && gives(polled, r),
{
    recv_next(inbound).0
}

/// The messages that wait, in the order in which they were delivered: each
/// look gives the one at the front and leaves the others.
pub fn recv_all(inbound: Backlog) -> (r: Vec<AttValue>)
    ensures
        r@.len() == inbound.frames@.len(),
        forall|i: int|
            0 <= i < r@.len() ==> att_bytes(#[trigger] r@[i]) == payload_of(inbound.frames@[i]@),
{
    let ghost all = inbound.frames@;
    let mut rest = inbound;
    let mut msgs: Vec<AttValue> = Vec::new();
    loop
        invariant
            all == inbound.frames@,
            msgs@.len() <= all.len(),
            rest.frames@ == all.skip(msgs@.len() as int),
            forall|i: int|
                0 <= i < msgs@.len() ==> att_bytes(#[trigger] msgs@[i]) == payload_of(all[i]@),
        decreases rest.frames@.len(),
    {
        let (msg, left) = recv_next(rest);
        rest = left;
        match msg {
            Ok(Some(msg)) => {
                assert(rest.frames@ =~= all.skip(msgs@.len() as int + 1));
                msgs.push(msg);
            },
            _ => {
                return msgs;
            },
        }
    }
}

/// The frame for a message. What does not fit is cut off.
pub fn send_msg(buf: &[u8]) -> (r: Frame)
    ensures
        r@ == framed(buf@.take(min(buf@.len() as int, MAX_MSG_LEN as int))),
{
    Frame::truncating(buf)
}

/// What a client says of a message that was handed to its task, or was not
/// because the task has ended.
pub fn handed_over(taken: bool) -> (r: Result<(), Error>)
    ensures
        taken ==> r == Ok::<(), Error>(()),
        !taken ==> r == Err::<(), Error>(Error::ClientThreadHungUp),
{
    if taken {
        Ok(())
    } else {
        Err(Error::ClientThreadHungUp)
    }
}

/// The longest message that fits an outgoing packet.
pub fn get_out_mtu(stats: &Stats) -> (r: u16)
    requires
        stats@.mtu >= 4,
    ensures
        r == stats@.mtu - 4,
{
    stats.get_mtu() - 4
}

} // verus!
