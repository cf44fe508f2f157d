//! The server of a message channel.
use async_std::channel::Receiver;
use rustable::gatt::AttValue;
use vstd::prelude::*;

use crate::messaging::frame::Frame;
use crate::messaging::inflight::{Flight, InFlight};
use crate::messaging::lat::LatDeque;
use crate::messaging::queue::{Polled, Source};
use crate::messaging::stats::Stats;
use crate::messaging::{Error, DEFAULT_LAT_PERIOD};
use crate::time::{Clock, Deadline, Duration, Instant};
#[allow(unused_imports)]
use crate::att::att_bytes;
#[allow(unused_imports)]
use crate::messaging::frame::{
    blank_header, framed, header_of, payload_of, stamped, HEADER_LEN, MAX_MSG_LEN,
};
#[allow(unused_imports)]
use crate::messaging::lat::{half_mean, LatWindow};
#[allow(unused_imports)]
use crate::time::{max, min};

verus! {

/// How to serve a channel.
#[derive(Clone, Copy, Debug)]
pub struct ServerOptions {
    /// How long the messages on their way may take together.
    pub target_lt: Duration,
    /// The number of latencies that are averaged.
    pub lat_period: usize,
}

impl Default for ServerOptions {
    fn default() -> (r: Self)
        ensures
            r.lat_period == 32,
            r.target_lt.nanos == 256_000_000,
    {
        Self::new()
    }
}

impl ServerOptions {
    pub fn new() -> (r: Self)
        ensures
            r.lat_period == 32,
            r.target_lt.nanos == 256_000_000,
    {
        ServerOptions {
            lat_period: DEFAULT_LAT_PERIOD,
            target_lt: Duration::from_millis(8).times(DEFAULT_LAT_PERIOD as u32),
        }
    }
}

/// The least latency that a timeout allows for.
pub const MIN_LAT_MICROS: u64 = 1450;

/// The timeout while there is nothing to send: an hour.
pub const IDLE_SECS: u64 = 3600;

/// The timeout once there will be nothing to send.
pub const CLOSED_SECS: u64 = 1_314_000_000;

/// What the queue of messages to send held when the server was asked for a
/// value.
pub enum Next {
    /// No message may be sent, or there is none; the queue was not looked into.
    Held,
    /// The queue gave this.
    Looked(Polled),
}

/// Looks into the queue of messages to send, if one may be sent.
pub fn look_if<S: Source>(may_send: bool, queue: S) -> (r: Next)
    ensures
        r is Looked <==> may_send,
        r matches Next::Looked(polled) ==> exists|rest: S::Rest|
            #[trigger] queue.yields(polled, rest),
{
    if may_send {
        let (polled, _) = queue.look();
        Next::Looked(polled)
    } else {
        Next::Held
    }
}

/// The state of the sending side of a server, but for the queue.
#[verifier::ext_equal]
pub struct OutState {
    pub flight: Flight,
    pub target_lt: Duration,
    /// When the server notifies the client again.
    pub timeout: Deadline,
}

impl OutState {
    /// Whether the messages on their way take no longer than they may.
    pub open spec fn has_room(self) -> bool {
        half_mean(self.flight.lat.last) * (self.flight.sent.len() % 0x1_0000_0000)
            <= self.target_lt.nanos
    }

    /// The point that lies `nanos` nanoseconds after `now`.
    pub open spec fn deadline(now: Instant, nanos: int) -> Deadline {
        Deadline { nanos: min(now.nanos + min(nanos, u128::MAX as int), u128::MAX as int) as u128 }
    }

    /// The state once the server was asked for a value at `now` and has found
    /// `next`. A message counts as sent at `sent_at`, and gives the client
    /// sixteen times the mean latency, or sixteen times the least one.
    pub open spec fn answered(self, next: Next, now: Instant, sent_at: Instant) -> Self {
        match next {
            Next::Looked(Polled::Item(_)) => OutState {
                flight: self.flight.launched(sent_at),
                timeout: Self::deadline(
                    now,
                    16 * max(half_mean(self.flight.lat.last) as int, MIN_LAT_MICROS * 1_000),
                ),
                ..self
            },
            Next::Looked(Polled::Closed) => OutState {
                timeout: Self::deadline(now, CLOSED_SECS * 1_000_000_000),
                ..self
            },
            _ => OutState { timeout: Self::deadline(now, IDLE_SECS * 1_000_000_000), ..self },
        }
    }

    /// The bytes that the server answers.
    pub open spec fn answer(self, next: Next) -> Seq<u8> {
        match next {
            Next::Looked(Polled::Item(frame)) => stamped(frame@, self.flight.next()),
            _ => blank_header(),
        }
    }

    /// The state once the client has written `bytes` at `now`.
    pub open spec fn written(self, bytes: Seq<u8>, now: Instant) -> Self {
        OutState { flight: self.flight.acked(bytes, now), ..self }
    }
}

/// The sending side of a server.
pub struct OutData {
    flight: InFlight,
    target_lt: Duration,
    recv: Receiver<Frame>,
    timeout: Deadline,
}

impl View for OutData {
    type V = OutState;

    closed spec fn view(&self) -> OutState {
        OutState { flight: self.flight@, target_lt: self.target_lt, timeout: self.timeout }
    }
}

impl OutData {
    pub closed spec fn wf(&self) -> bool {
        self.flight.wf()
    }

    /// The queue of the messages to send.
    pub closed spec fn queue(&self) -> Receiver<Frame> {
        self.recv
    }

    /// What a well-formed state is made of.
    pub proof fn wf_state(&self)
        requires
            self.wf(),
        ensures
            self@.flight.consecutive(),
            self@.flight.lat.period > 0,
            self@.flight.lat.last.len() == self@.flight.lat.adjusted.len(),
            self@.flight.lat.last.len() <= self@.flight.lat.period,
            forall|i: int|
                0 <= i < self@.flight.lat.last.len() ==> (#[trigger] self@.flight.lat.adjusted[i]).nanos
                    <= (#[trigger] self@.flight.lat.last[i]).nanos,
            half_mean(self@.flight.lat.adjusted) <= half_mean(self@.flight.lat.last),
    {
        self.flight.wf_flight();
    }

    /// A server that sends the frames in `recv` and has sent none at `now`.
    pub fn new(options: &ServerOptions, recv: Receiver<Frame>, now: Instant) -> (r: Self)
        requires
            options.lat_period != 0,
        ensures
            r.wf(),
            r.queue() == recv,
            r@ == (OutState {
                flight: Flight {
                    sent: Seq::empty(),
                    idx: 0,
                    lat: LatWindow::empty(options.lat_period as nat, now),
                },
                target_lt: options.target_lt,
                timeout: OutState::deadline(now, IDLE_SECS * 1_000_000_000),
            }),
    {
        OutData {
            recv,
            target_lt: options.target_lt,
            flight: InFlight::new(LatDeque::starting(options.lat_period, now)),
            timeout: now.after(Duration::from_secs(IDLE_SECS)),
        }
    }

    fn avg_lat(&self) -> (r: Duration)
        requires
            self.wf(),
        ensures
            r.nanos == half_mean(self@.flight.lat.last),
    {
        self.flight.avg_lat()
    }

    /// Whether a message may be sent, where `pending` says whether there is
    /// one.
    pub fn can_send_if(&self, pending: bool) -> (r: bool)
        requires
            self.wf(),
        ensures
            r == (pending && self@.has_room()),
    {
        pending && self.avg_lat().times_within(self.flight.count(), self.target_lt)
    }

    /// Whether there is a message to send and it may be sent.
    pub fn can_send(&self) -> (r: bool)
        requires
            self.wf(),
        ensures
            r ==> self@.has_room(),
    {
        self.can_send_if(!self.recv.is_empty())
    }

    /// The value for the client at `now`, where the server has found `next`.
    pub fn try_send_with(&mut self, next: Next, now: Instant, sent_at: Instant) -> (r: AttValue)
        requires
            old(self).wf(),
        ensures
            final(self).wf(),
            final(self).queue() == old(self).queue(),
            final(self)@ == old(self)@.answered(next, now, sent_at),
            att_bytes(r) == old(self)@.answer(next),
    {
        match next {
            Next::Looked(Polled::Item(frame)) => {
                let to_dur = self.avg_lat().longer(Duration::from_micros(MIN_LAT_MICROS)).times(16);
                let frame = self.flight.launch(frame, sent_at);
                self.timeout = now.after(to_dur);
                frame.into_value()
            },
            Next::Looked(Polled::Closed) => {
                self.timeout = now.after(Duration::from_secs(CLOSED_SECS));
                Frame::empty().into_value()
            },
            _ => {
                self.timeout = now.after(Duration::from_secs(IDLE_SECS));
                Frame::empty().into_value()
            },
        }
    }

    /// The value for the client: the next message if it may be sent, or an
    /// empty frame.
    pub fn try_send(&mut self, clock: &Clock) -> (r: AttValue)
        requires
            old(self).wf(),
        ensures
            final(self).wf(),
            final(self).queue() == old(self).queue(),
            exists|next: Next, now: std::time::Instant, sent_at: std::time::Instant|
                {
                    &&& next is Looked ==> old(self)@.has_room()
                    &&& final(self)@ == #[trigger] old(self)@.answered(
                        next,
                        clock.reading(now),
                        clock.reading(sent_at),
                    )
                    &&& att_bytes(r) == old(self)@.answer(next)
                },
    {
        let now = clock.now();
        let next = look_if(self.can_send(), &self.recv);
        let sent_at = clock.now();
        let ghost found = next;
        let r = self.try_send_with(next, now, sent_at);
        assert(self@ == old(self)@.answered(found, now, sent_at));
        r
    }

    /// Takes what the client wrote at `now`, and says whether to notify it of
    /// a message, where `pending` says whether there is one.
    pub fn handle_write_at(
        &mut self,
        val: &AttValue,
        now: Instant,
        pending: bool,
        stats: &mut Stats,
    ) -> (r: bool)
        requires
            old(self).wf(),
        ensures
            final(self).wf(),
            final(self).queue() == old(self).queue(),
            final(self)@ == old(self)@.written(att_bytes(*val), now),
            final(stats)@ == old(self)@.flight.figures_acked(old(stats)@, att_bytes(*val), now),
            r == (att_bytes(*val).len() == HEADER_LEN && pending && final(self)@.has_room()),
    {
        self.flight.acknowledge(val, now, stats);
        val.as_slice().len() == HEADER_LEN && self.can_send_if(pending)
    }

    /// Takes what the client wrote, and says whether to notify it of a message.
    pub fn handle_write(&mut self, val: &AttValue, clock: &Clock, stats: &mut Stats) -> (r: bool)
        requires
            old(self).wf(),
        ensures
            final(self).wf(),
            final(self).queue() == old(self).queue(),
            exists|moment: std::time::Instant|
                {
                    &&& final(self)@ == old(self)@.written(
                        att_bytes(*val),
                        #[trigger] clock.reading(moment),
                    )
                    &&& final(stats)@ == old(self)@.flight.figures_acked(
                        old(stats)@,
                        att_bytes(*val),
                        clock.reading(moment),
                    )
                },
            r ==> att_bytes(*val).len() == HEADER_LEN && final(self)@.has_room(),
    {
        let now = clock.now();
        let pending = !self.recv.is_empty();
        self.handle_write_at(val, now, pending, stats)
    }

    /// When the client is to be notified if nothing else comes first.
    pub fn timeout(&self) -> (r: Deadline)
        ensures
            r == self@.timeout,
    {
        self.timeout
    }
}

/// What a wait for something to notify the client of ended with.
#[derive(Clone, Copy, Debug, PartialEq, Eq, Structural)]
pub enum Woken {
    /// A message was put into the queue.
    Message,
    /// Nothing happened until the deadline.
    TimedOut,
}

/// Whether to notify the client, or till when to wait on: a deadline that was
/// moved meanwhile does not count.
pub fn notify_step(waited: Deadline, timeout: Deadline, woken: Woken) -> (r: Option<Deadline>)
    ensures
        r == (if woken is TimedOut && waited != timeout {
            Some(timeout)
        } else {
            None
        }),
{
    match woken {
        Woken::Message => None,
        Woken::TimedOut => if waited.nanos == timeout.nanos {
            None
        } else {
            Some(timeout)
        },
    }
}

/// Takes what the client wrote to the characteristic for messages to the
/// server: gives the frame to hand on and the acknowledgement to answer, or
/// nothing where the bytes are no frame.
pub fn accept_write(val: AttValue) -> (r: Option<(Frame, AttValue)>)
    ensures
        r is Some <==> att_bytes(val).len() >= HEADER_LEN,
        r matches Some(taken) ==> taken.0@ == att_bytes(val) && att_bytes(taken.1) == header_of(
            att_bytes(val),
        ),
{
    match Frame::from_value(val) {
        None => None,
        Some(frame) => {
            let ack = frame.ack();
            Some((frame, ack))
        },
    }
}

/// The message of a frame that came from the client, or that the server hung
/// up.
pub fn recv_msg(res: Option<Frame>) -> (r: Result<AttValue, Error>)
    ensures
        match res {
            Some(frame) => r matches Ok(msg) && att_bytes(msg) == payload_of(frame@),
            None => r == Err::<AttValue, Error>(Error::InThreadHungUp),
        },
{
    match res {
        Some(frame) => Ok(frame.payload()),
        None => Err(Error::InThreadHungUp),
    }
}

/// What `try_recv_msg` gives for what it finds in the queue. Of a frame it
/// gives the header, not the message.
pub open spec fn gives(polled: Polled, r: Result<Option<AttValue>, Error>) -> bool {
    match polled {
        Polled::Item(frame) => r matches Ok(Some(head)) && att_bytes(head) == header_of(frame@),
        Polled::Empty => r == Ok::<Option<AttValue>, Error>(None),
        Polled::Closed => r == Err::<Option<AttValue>, Error>(Error::ClientThreadHungUp),
    }
}

/// Turns what was found in the queue of frames from the client into a header.
pub fn polled_head(polled: Polled) -> (r: Result<Option<AttValue>, Error>)
    ensures
        gives(polled, r),
{
    match polled {
        Polled::Item(frame) => Ok(Some(frame.header())),
        Polled::Empty => Ok(None),
        Polled::Closed => Err(Error::ClientThreadHungUp),
    }
}

/// The header of the next frame that has come from the client, if there is one
/// yet.
pub fn try_recv_msg<S: Source>(inbound: S) -> (r: Result<Option<AttValue>, Error>)
    ensures
        exists|polled: Polled, rest: S::Rest| #[trigger] inbound.yields(polled, rest) && gives(polled, r),
{
    let (polled, _) = inbound.look();
    polled_head(polled)
}

/// The frame for a message.
pub fn send_msg(buf: &[u8]) -> (r: Frame)
    requires
        buf@.len() <= MAX_MSG_LEN,
    ensures
        r@ == framed(buf@),
{
    Frame::new(buf)
}

/// What a server says of a message that was put into the queue and of which
/// the client is notified, or is not because the queue is gone.
pub fn handed_over(taken: bool) -> (r: Result<(), Error>)
    ensures
        taken ==> r == Ok::<(), Error>(()),
        !taken ==> r == Err::<(), Error>(Error::OutThreadHungUp),
{
    if taken {
        Ok(())
    } else {
        Err(Error::OutThreadHungUp)
    }
}

} // verus!
