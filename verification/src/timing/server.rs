//! The server of the timing protocol.
use rustable::gatt::AttValue;
use vstd::prelude::*;

use crate::bytes::{low_bytes2, u16_from_le, u32_from_le, u64_from_le, u64_to_le};
use crate::timing::tagged;
use crate::time::{Clock, Duration, Instant};
#[allow(unused_imports)]
use crate::att::att_bytes;
#[allow(unused_imports)]
use crate::bytes::{le_bytes2, le_bytes8, le_value2, le_value4, le_value8};
#[allow(unused_imports)]
use crate::time::monus;

verus! {

/// The microseconds between two readings of the clock.
pub open spec fn micros_between(start: Instant, now: Instant) -> nat {
    (monus(now.nanos as int, start.nanos as int) / 1_000) as nat
}

/// A reference time that was `time` at `start`, at `now`. It starts over
/// behind 2^64 microseconds.
pub open spec fn ref_time_at(time: u64, start: Instant, now: Instant) -> nat {
    (micros_between(start, now) + time as nat) % 0x1_0000_0000_0000_0000
}

/// What a clock that started at `start` shows at `now`, in microseconds. It
/// starts over behind 2^64 of them.
pub open spec fn time_since(start: Instant, now: Instant) -> nat {
    micros_between(start, now) % 0x1_0000_0000_0000_0000
}

/// The microseconds in a span, modulo 2^64.
pub(crate) fn low_micros64(span: Duration) -> (r: u64)
    ensures
        r == span.nanos as nat / 1_000 % 0x1_0000_0000_0000_0000,
{
    let micros = span.as_micros();
    let r = micros as u64;
    assert(r == micros % 0x1_0000_0000_0000_0000) by (bit_vector)
        requires
            r == micros as u64,
    ;
    r
}

pub fn calc_ref_time_at(time: u64, start: Instant, now: Instant) -> (r: u64)
    ensures
        r == ref_time_at(time, start, now),
{
    let elapsed = low_micros64(now.duration_since(start));
    elapsed.wrapping_add(time)
}

/// The reference time at the present reading of `clock`.
pub fn calc_ref_time(time: u64, start: Instant, clock: &Clock) -> (r: u64)
    ensures
        exists|moment: std::time::Instant|
            r == ref_time_at(time, start, #[trigger] clock.reading(moment)),
{
    calc_ref_time_at(time, start, clock.now())
}

/// The reference time: what it was in microseconds, and when.
#[derive(Clone, Copy, Debug, PartialEq, Eq, Structural)]
pub struct RefClock {
    pub time: u64,
    pub start: Instant,
}

impl RefClock {
    /// Once it is set some times, one after the other: to what it was, and
    /// when.
    pub open spec fn updated(self, updates: Seq<(u64, Instant)>) -> Self
        decreases updates.len(),
    {
        if updates.len() == 0 {
            self
        } else {
            let before = self.updated(updates.drop_last());
            let (time, start) = updates.last();
            RefClock { time, start, ..before }
        }
    }

    /// A reference time that starts at `now`.
    pub fn starting(now: Instant) -> (r: Self)
        ensures
            r.time == 0,
            r.start == now,
    {
        RefClock { time: 0, start: now }
    }

    /// A reference time that starts at the present reading of `clock`.
    pub fn new(clock: &Clock) -> (r: Self)
        ensures
            r.time == 0,
            exists|moment: std::time::Instant| r.start == #[trigger] clock.reading(moment),
    {
        Self::starting(clock.now())
    }

    /// Sets what the reference time was at `start`.
    pub fn update_ref_time(&mut self, time: u64, start: Instant)
        ensures
            *final(self) == (RefClock { time, start }),
            *final(self) == old(self).updated(seq![(time, start)]),
    {
        self.time = time;
        self.start = start;
    }

    /// The reference time at `now`.
    pub fn get_time_at(&self, now: Instant) -> (r: u64)
        ensures
            r == ref_time_at(self.time, self.start, now),
    {
        calc_ref_time_at(self.time, self.start, now)
    }

    /// The reference time at the present reading of `clock`.
    pub fn get_time(&self, clock: &Clock) -> (r: u64)
        ensures
            exists|moment: std::time::Instant|
                r == ref_time_at(self.time, self.start, #[trigger] clock.reading(moment)),
    {
        calc_ref_time(self.time, self.start, clock)
    }
}

enum State {
    Waiting,
    BeginReq,
    ClientInit { insts: Vec<Instant>, est_ci: Duration },
    Agreeing(u32),
    Finishing(u64),
}

/// How far the server has come.
#[verifier::ext_equal]
pub enum Phase {
    /// Nothing is going on.
    Waiting,
    /// A client has begun.
    BeginReq,
    /// A client is measuring the interval: when its requests came, and the
    /// estimate so far.
    ClientInit { insts: Seq<Instant>, est_ci: Duration },
    /// The interval is agreed on, in microseconds.
    Agreeing(u32),
    /// The reference time is set, and this is to be answered.
    Finishing(u64),
}

/// Whether two intervals, in microseconds, differ by less than a step as
/// signed 32-bit numbers. The difference 2^31, which has no absolute value
/// among those numbers, counts as small.
pub open spec fn agrees(ours: nat, theirs: nat) -> bool {
    let diff = (theirs - ours) % 0x1_0000_0000;
    diff < 1250 || diff > 0x1_0000_0000 - 1250 || diff == 0x8000_0000
}

/// The estimate of the interval after `n` round trips from `first` to `now`.
pub open spec fn estimate(first: Instant, now: Instant, n: nat) -> Duration {
    Duration { nanos: (monus(now.nanos as int, first.nanos as int) / n as int / 2) as u128 }
}

impl Phase {
    /// Whether the server takes the bytes: they are not empty, a time is
    /// complete, and no answer is due.
    pub open spec fn accepts(self, bytes: Seq<u8>) -> bool {
        &&& bytes.len() > 0
        &&& self !is Finishing
        &&& self is Agreeing && bytes[0] == 0x03 ==> bytes.len() >= 9
    }

    /// Once the client has written `bytes` at `now`. `grace` is how long after
    /// the last request another one counts.
    pub open spec fn written(self, bytes: Seq<u8>, grace: Duration, now: Instant) -> Self {
        match self {
            Phase::Waiting => if bytes[0] == 0x00 {
                Phase::BeginReq
            } else {
                Phase::Waiting
            },
            Phase::BeginReq => if bytes[0] == 0x00 {
                Phase::BeginReq
            } else if bytes[0] == 0x01 {
                Phase::ClientInit {
                    insts: seq![now],
                    est_ci: Duration { nanos: 4_000_000_000 },
                }
            } else {
                Phase::Waiting
            },
            Phase::ClientInit { insts, est_ci } => if bytes[0] == 0x01 {
                if bytes.len() < 3 {
                    self
                } else if le_value2(bytes.subrange(1, 3)) != insts.len()
                    || insts.last().nanos + grace.nanos < now.nanos {
                    Phase::ClientInit { insts: seq![now], est_ci }
                } else {
                    Phase::ClientInit {
                        insts: insts.push(now),
                        est_ci: estimate(insts[0], now, insts.len()),
                    }
                }
            } else if bytes[0] == 0x02 {
                if bytes.len() < 5 {
                    self
                } else {
                    let theirs = le_value4(bytes.subrange(1, 5));
                    if agrees(est_ci.nanos as nat / 1_000, theirs) {
                        Phase::Agreeing(theirs as u32)
                    } else {
                        Phase::ClientInit { insts: seq![now], est_ci }
                    }
                }
            } else {
                Phase::Waiting
            },
            Phase::Agreeing(est_ci) => if bytes[0] == 0x03 {
                let time = le_value8(bytes.subrange(1, 9));
                Phase::Finishing(((time + est_ci) % 0x1_0000_0000_0000_0000) as u64)
            } else {
                Phase::Waiting
            },
            Phase::Finishing(_) => self,
        }
    }

    /// The reference time once the client has written `bytes` at `now`.
    pub open spec fn clock_written(
        self,
        clock: RefClock,
        bytes: Seq<u8>,
        now: Instant,
    ) -> RefClock {
        if self is Agreeing && bytes[0] == 0x03 {
            RefClock { time: le_value8(bytes.subrange(1, 9)) as u64, start: now }
        } else {
            clock
        }
    }

    /// The bytes that the server answers.
    pub open spec fn answer(self) -> Seq<u8> {
        match self {
            Phase::Waiting => seq![0xFFu8],
            Phase::BeginReq => seq![0x80u8],
            Phase::ClientInit { insts, .. } => seq![0x81u8] + le_bytes2((insts.len() - 1) as nat),
            Phase::Agreeing(_) => seq![0x82u8],
            Phase::Finishing(time) => seq![0x83u8] + le_bytes8(time as nat),
        }
    }

    /// Once the server has answered.
    pub open spec fn answered(self) -> Self {
        match self {
            Phase::Finishing(_) => Phase::Waiting,
            _ => self,
        }
    }

    /// A request has come from a client that is measuring the interval.
    pub open spec fn wf(self) -> bool {
        self matches Phase::ClientInit { insts, .. } ==> insts.len() > 0
    }
}

/// The state of a server.
pub struct ServerData {
    state: State,
}

impl View for ServerData {
    type V = Phase;

    closed spec fn view(&self) -> Phase {
        match self.state {
            State::Waiting => Phase::Waiting,
            State::BeginReq => Phase::BeginReq,
            State::ClientInit { insts, est_ci } => Phase::ClientInit { insts: insts@, est_ci },
            State::Agreeing(est_ci) => Phase::Agreeing(est_ci),
            State::Finishing(time) => Phase::Finishing(time),
        }
    }
}

impl ServerData {
    pub fn new() -> (r: Self)
        ensures
            r@ == Phase::Waiting,
            r@.wf(),
    {
        ServerData { state: State::Waiting }
    }

    /// The estimate of the interval from which the time is made that a request
    /// may take: two and a quarter times as long.
    pub fn grace_base(&self) -> (r: Duration)
        ensures
            r == (match self@ {
                Phase::ClientInit { est_ci, .. } => est_ci,
                _ => Duration { nanos: 0 },
            }),
    {
        match &self.state {
            State::ClientInit { est_ci, .. } => *est_ci,
            _ => Duration { nanos: 0 },
        }
    }

    /// Whether `handle_write` takes the value.
    pub fn accepts(&self, att_val: &AttValue) -> (r: bool)
        ensures
            r == self@.accepts(att_bytes(*att_val)),
    {
        let bytes = att_val.as_slice();
        if bytes.len() == 0 {
            return false;
        }
        match &self.state {
            State::Finishing(_) => false,
            State::Agreeing(_) => bytes[0] != 0x03 || bytes.len() >= 9,
            _ => true,
        }
    }

    fn one_inst(now: Instant) -> (r: Vec<Instant>)
        ensures
            r@ == seq![now],
    {
        let mut insts = Vec::new();
        insts.push(now);
        assert(insts@ =~= seq![now]);
        insts
    }

    fn do_ci_iter(
        insts: Vec<Instant>,
        est_ci: Duration,
        idx: usize,
        grace: Duration,
        now: Instant,
    ) -> (r: State)
        requires
            insts@.len() > 0,
            idx <= u16::MAX,
        ensures
            r matches State::ClientInit { insts: i, est_ci: e } && (if idx != insts@.len()
                || insts@.last().nanos + grace.nanos < now.nanos {
                i@ == seq![now] && e == est_ci
            } else {
                i@ == insts@.push(now) && e == estimate(insts@[0], now, insts@.len())
            }),
    {
        if idx != insts.len() {
            return State::ClientInit { insts: Self::one_inst(now), est_ci };
        }
        let start = insts[0];
        let last = insts[insts.len() - 1];
        if last.after(grace).has_passed(now) {
            return State::ClientInit { insts: Self::one_inst(now), est_ci };
        }
        let nanos = now.duration_since(start).nanos / insts.len() as u128 / 2;
        let mut insts = insts;
        insts.push(now);
        State::ClientInit { insts, est_ci: Duration { nanos } }
    }

    fn agree(insts: Vec<Instant>, est_ci: Duration, theirs: u32, now: Instant) -> (r: State)
        ensures
            if agrees(est_ci.nanos as nat / 1_000, theirs as nat) {
                r == State::Agreeing(theirs)
            } else {
                r matches State::ClientInit { insts: i, est_ci: e } && i@ == seq![now] && e
                    == est_ci
            },
    {
        let micros = est_ci.as_micros();
        let ours = micros as u32;
        assert(ours == micros % 0x1_0000_0000) by (bit_vector)
            requires
                ours == micros as u32,
        ;
        let diff = theirs.wrapping_sub(ours);
        if diff < 1250 || diff > u32::MAX - 1249 || diff == 0x8000_0000 {
            State::Agreeing(theirs)
        } else {
            State::ClientInit { insts: Self::one_inst(now), est_ci }
        }
    }

    /// Takes what the client wrote at `now`. `grace` is two and a quarter
    /// times `grace_base`.
    pub fn handle_write_at(
        &mut self,
        att_val: &AttValue,
        grace: Duration,
        now: Instant,
        ref_clock: &mut RefClock,
    )
        requires
            old(self)@.wf(),
            old(self)@.accepts(att_bytes(*att_val)),
        ensures
            final(self)@.wf(),
            final(self)@ == old(self)@.written(att_bytes(*att_val), grace, now),
            *final(ref_clock) == old(self)@.clock_written(
                *old(ref_clock),
                att_bytes(*att_val),
                now,
            ),
    {
        let bytes = att_val.as_slice();
        let code = bytes[0];
        let mut state = State::Waiting;
        std::mem::swap(&mut state, &mut self.state);
        self.state = match state {
            State::Waiting => if code == 0x00 {
                State::BeginReq
            } else {
                State::Waiting
            },
            State::BeginReq => if code == 0x00 {
                State::BeginReq
            } else if code == 0x01 {
                State::ClientInit { insts: Self::one_inst(now), est_ci: Duration::from_secs(4) }
            } else {
                State::Waiting
            },
            State::ClientInit { insts, est_ci } => if code == 0x01 {
                if bytes.len() >= 3 {
                    let idx = u16_from_le(bytes, 1) as usize;
                    Self::do_ci_iter(insts, est_ci, idx, grace, now)
                } else {
                    State::ClientInit { insts, est_ci }
                }
            } else if code == 0x02 {
                if bytes.len() >= 5 {
                    let theirs = u32_from_le(bytes, 1);
                    Self::agree(insts, est_ci, theirs, now)
                } else {
                    State::ClientInit { insts, est_ci }
                }
            } else {
                State::Waiting
            },
            State::Agreeing(est_ci) => if code == 0x03 {
                let time = u64_from_le(bytes, 1);
                ref_clock.update_ref_time(time, now);
                State::Finishing(time.wrapping_add(est_ci as u64))
            } else {
                State::Waiting
            },
            State::Finishing(time) => State::Finishing(time),
        };
    }

    /// Takes what the client wrote, at the present reading of `clock`.
    pub fn handle_write(
        &mut self,
        att_val: &AttValue,
        grace: Duration,
        clock: &Clock,
        ref_clock: &mut RefClock,
    )
        requires
            old(self)@.wf(),
            old(self)@.accepts(att_bytes(*att_val)),
        ensures
            final(self)@.wf(),
            exists|moment: std::time::Instant|
                {
                    &&& final(self)@ == old(self)@.written(
                        att_bytes(*att_val),
                        grace,
                        #[trigger] clock.reading(moment),
                    )
                    &&& *final(ref_clock) == old(self)@.clock_written(
                        *old(ref_clock),
                        att_bytes(*att_val),
                        clock.reading(moment),
                    )
                },
    {
        self.handle_write_at(att_val, grace, clock.now(), ref_clock);
    }

    /// Takes what the client wrote, and says whether to notify it of the
    /// answer: not of an empty value, which changes nothing.
    pub fn write_cb(
        &mut self,
        att_val: &AttValue,
        grace: Duration,
        clock: &Clock,
        ref_clock: &mut RefClock,
    ) -> (r: bool)
        requires
            old(self)@.wf(),
            att_bytes(*att_val).len() > 0 ==> old(self)@.accepts(att_bytes(*att_val)),
        ensures
            final(self)@.wf(),
            r == (att_bytes(*att_val).len() > 0),
            !r ==> final(self)@ == old(self)@ && *final(ref_clock) == *old(ref_clock),
            r ==> exists|moment: std::time::Instant|
                {
                    &&& final(self)@ == old(self)@.written(
                        att_bytes(*att_val),
                        grace,
                        #[trigger] clock.reading(moment),
                    )
                    &&& *final(ref_clock) == old(self)@.clock_written(
                        *old(ref_clock),
                        att_bytes(*att_val),
                        clock.reading(moment),
                    )
                },
    {
        if att_val.as_slice().len() == 0 {
            return false;
        }
        self.handle_write(att_val, grace, clock, ref_clock);
        true
    }

    /// The value for the client.
    pub fn value_cb(&mut self) -> (r: AttValue)
        requires
            old(self)@.wf(),
        ensures
            final(self)@.wf(),
            final(self)@ == old(self)@.answered(),
            att_bytes(r) == old(self)@.answer(),
    {
        match &self.state {
            State::Waiting => tagged(0xFF),
            State::BeginReq => tagged(0x80),
            State::ClientInit { insts, .. } => {
                let number = (insts.len() - 1) as u64;
                let mut att_val = tagged(0x81);
                att_val.extend_from_slice(low_bytes2(number).as_slice());
                att_val
            },
            State::Agreeing(_) => tagged(0x82),
            State::Finishing(time) => {
                let mut att_val = tagged(0x83);
                att_val.extend_from_slice(u64_to_le(*time).as_slice());
                self.state = State::Waiting;
                att_val
            },
        }
    }
}

} // verus!
