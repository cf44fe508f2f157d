//! The client of the timing protocol.
use rustable::gatt::AttValue;
use rustable::MAC;
use vstd::prelude::*;

use crate::bytes::{low_bytes2, u16_from_le, u32_to_le, u64_from_le, u64_to_le};
use crate::time::{Duration, Instant};
use crate::timing::server::low_micros64;
use crate::timing::{distance, is_within_increment, tagged, INCREMENT_MICROS};
#[allow(unused_imports)]
use crate::att::att_bytes;
#[allow(unused_imports)]
use crate::bytes::{le_bytes2, le_bytes4, le_bytes8, le_value2, le_value8};
#[allow(unused_imports)]
use crate::time::{min, monus};
#[allow(unused_imports)]
use crate::timing::server::{estimate, time_since};
#[allow(unused_imports)]
use crate::timing::{distance64, within_increment};

verus! {

/// How to reach a server.
pub struct ClientOptions<'a> {
    pub hci: u8,
    pub dev: MAC,
    pub name: Option<&'a str>,
}

impl ClientOptions<'_> {
    pub fn new(dev: MAC) -> (r: Self)
        ensures
            r.dev == dev,
            r.hci == 0,
            r.name is None,
    {
        ClientOptions { dev, hci: 0, name: None }
    }
}

/// The microseconds from `start` to `inst`, modulo 2^64.
pub fn get_time(inst: Instant, start: Instant) -> (r: u64)
    ensures
        r == time_since(start, inst),
        start.nanos <= inst.nanos && (inst.nanos - start.nanos) / 1_000 < 0x1_0000_0000_0000_0000
            ==> r == (inst.nanos - start.nanos) / 1_000,
{
    low_micros64(inst.duration_since(start))
}

enum State {
    Waiting,
    ClientInit(Instant),
    GettingCI { insts: Vec<Instant>, est_ci: Duration, last_change: u8 },
    Agreeing { att_ci: u32, since: Instant, est_ci: Duration },
    ClientSetTime { att_ci: u32, since: Instant },
}

/// How far the client has come.
#[verifier::ext_equal]
pub enum Phase {
    /// Nothing is going on.
    Waiting,
    /// The client has begun at this time.
    ClientInit(Instant),
    /// The client is measuring the interval: when it sent its requests, the
    /// estimate so far, and how often in a row it has hardly changed.
    GettingCI { insts: Seq<Instant>, est_ci: Duration, last_change: nat },
    /// The client has sent its estimate, in microseconds, at this time.
    Agreeing { att_ci: u32, since: Instant, est_ci: Duration },
    /// The client has sent its time at this time.
    ClientSetTime { att_ci: u32, since: Instant },
}

/// How long to wait for the server.
#[derive(Clone, Copy, Debug, PartialEq, Eq, Structural)]
pub enum Wait {
    For(Duration),
    /// Two and a quarter times `grace_base`.
    Grace,
}

/// What the client does when something happened.
#[verifier::ext_equal]
pub struct Move {
    pub phase: Phase,
    /// The bytes to write.
    pub write: Option<Seq<u8>>,
    pub wait: Wait,
    /// Whether the reference time is agreed on now.
    pub done: bool,
}

/// A wait of so many seconds.
pub open spec fn secs(n: int) -> Wait {
    Wait::For(Duration { nanos: (n * 1_000_000_000) as u128 })
}

impl Phase {
    /// The estimate of the interval from which the time is made that an answer
    /// may take.
    pub open spec fn grace_base(self) -> Duration {
        match self {
            Phase::Waiting => Duration { nanos: 0 },
            Phase::ClientInit(_) => Duration { nanos: 0 },
            Phase::GettingCI { est_ci, .. } => est_ci,
            Phase::Agreeing { est_ci, .. } => est_ci,
            Phase::ClientSetTime { att_ci, .. } => Duration { nanos: (att_ci * 1_000) as u128 },
        }
    }

    /// The time left at `now` to wait for the server. `grace` is how long an
    /// answer may take.
    pub open spec fn time_left(self, grace: Duration, now: Instant) -> Duration {
        let end = match self {
            Phase::Waiting => now.nanos + 3_600_000_000_000,
            Phase::ClientInit(start) => start.nanos + 8_000_000_000,
            Phase::GettingCI { insts, .. } => insts.last().nanos + grace.nanos,
            Phase::Agreeing { since, .. } => since.nanos + grace.nanos,
            Phase::ClientSetTime { since, .. } => since.nanos + grace.nanos,
        };
        Duration { nanos: monus(min(end, u128::MAX as int), now.nanos as int) as u128 }
    }

    /// Keeps waiting.
    pub open spec fn stay(self, grace: Duration, now: Instant) -> Move {
        Move {
            phase: self,
            write: None,
            wait: Wait::For(self.time_left(grace, now)),
            done: false,
        }
    }

    /// Begins at `now`.
    pub open spec fn begin(now: Instant) -> Move {
        Move {
            phase: Phase::ClientInit(now),
            write: Some(seq![0x00u8]),
            wait: secs(9),
            done: false,
        }
    }

    /// Begins to measure the interval at `now`, from an estimate.
    pub open spec fn begin_ci(est_ci: Duration, now: Instant) -> Move {
        Move {
            phase: Phase::GettingCI { insts: seq![now], est_ci, last_change: 0 },
            write: Some(seq![0x01u8, 0x00u8, 0x00u8]),
            wait: secs(9),
            done: false,
        }
    }

    /// The answer to the request with the number `idx` came at `seen`. A
    /// number other than that of the last request, and an answer that took too
    /// long, begin the measurement over at `now`. Otherwise there is a new
    /// estimate. Once it has hardly changed three times in a row it is sent to
    /// the server; until then there is another request.
    pub open spec fn measure(
        insts: Seq<Instant>,
        est_ci: Duration,
        last_change: nat,
        idx: nat,
        grace: Duration,
        seen: Instant,
        now: Instant,
    ) -> Move {
        let new_est = estimate(insts[0], seen, insts.len());
        let unchanged = if within_increment(est_ci, new_est) {
            last_change + 1
        } else {
            0
        };
        if idx != insts.len() - 1 {
            Self::begin_ci(est_ci, now)
        } else if insts.last().nanos + grace.nanos < seen.nanos {
            Self::begin_ci(Duration { nanos: 4_000_000_000 }, now)
        } else if unchanged >= 3 {
            let att_ci = new_est.nanos as nat / 1_000 % 0x1_0000_0000;
            Move {
                phase: Phase::Agreeing { att_ci: att_ci as u32, since: seen, est_ci: new_est },
                write: Some(seq![0x02u8] + le_bytes4(att_ci)),
                wait: Wait::Grace,
                done: false,
            }
        } else {
            Move {
                phase: Phase::GettingCI {
                    insts: insts.push(seen),
                    est_ci: new_est,
                    last_change: unchanged,
                },
                write: Some(seq![0x01u8] + le_bytes2(insts.len())),
                wait: Wait::Grace,
                done: false,
            }
        }
    }

    /// Sends the time of a clock that started at `start`, as it will be when
    /// it arrives.
    pub open spec fn set_time(att_ci: u32, start: Instant, seen: Instant) -> Move {
        Move {
            phase: Phase::ClientSetTime { att_ci, since: seen },
            write: Some(seq![0x03u8] + le_bytes8(
                (time_since(start, seen) + att_ci as nat) % 0x1_0000_0000_0000_0000,
            )),
            wait: Wait::For(Duration { nanos: (att_ci * 2_250) as u128 }),
            done: false,
        }
    }

    /// The server has answered the time `st_ref` at `seen`. If it is no more
    /// than a step off, the two are agreed; otherwise the client begins over.
    pub open spec fn compare_time(
        st_ref: nat,
        start: Instant,
        seen: Instant,
        now: Instant,
    ) -> Move {
        if distance64(time_since(start, seen) as int, st_ref as int) > INCREMENT_MICROS {
            Self::begin(now)
        } else {
            Move { phase: Phase::Waiting, write: None, wait: secs(3_600), done: true }
        }
    }

    /// Whether the client takes the bytes. While nothing is going on it takes
    /// only word of that.
    pub open spec fn accepts(self, bytes: Seq<u8>) -> bool {
        self is Waiting && bytes.len() > 0 ==> bytes[0] == 0xFF
    }

    /// The server has sent `bytes`, which came at `seen`. What is begun over
    /// begins at `now`.
    pub open spec fn notified(
        self,
        bytes: Seq<u8>,
        start: Instant,
        grace: Duration,
        seen: Instant,
        now: Instant,
    ) -> Move {
        if bytes.len() == 0 {
            self.stay(grace, now)
        } else {
            match self {
                Phase::Waiting => self.stay(grace, now),
                Phase::ClientInit(begun) => if bytes[0] == 0x80 {
                    Self::begin_ci(
                        Duration { nanos: monus(seen.nanos as int, begun.nanos as int) as u128 },
                        now,
                    )
                } else {
                    self.stay(grace, now)
                },
                Phase::GettingCI { insts, est_ci, last_change } => if bytes[0] == 0x81
                    && bytes.len() >= 3 {
                    Self::measure(
                        insts,
                        est_ci,
                        last_change,
                        le_value2(bytes.subrange(1, 3)),
                        grace,
                        seen,
                        now,
                    )
                } else {
                    Self::begin(now)
                },
                Phase::Agreeing { att_ci, .. } => if bytes[0] == 0x82 {
                    Self::set_time(att_ci, start, seen)
                } else {
                    Self::begin(now)
                },
                Phase::ClientSetTime { .. } => if bytes[0] == 0x83 && bytes.len() >= 9 {
                    Self::compare_time(le_value8(bytes.subrange(1, 9)), start, seen, now)
                } else {
                    Self::begin(now)
                },
            }
        }
    }

    /// Nothing has come in time, or the socket had to be renewed.
    pub open spec fn timed_out(self, now: Instant) -> Move {
        if self is Waiting {
            Move { phase: self, write: None, wait: secs(3_600), done: false }
        } else {
            Self::begin(now)
        }
    }

    /// Someone asks for the reference time. A measurement that is going on
    /// goes on.
    pub open spec fn asked(self, grace: Duration, now: Instant) -> Move {
        if self is GettingCI || self is Agreeing {
            self.stay(grace, now)
        } else {
            Self::begin(now)
        }
    }

    /// There is a last request, and the estimate has not settled yet.
    pub open spec fn wf(self) -> bool {
        self matches Phase::GettingCI { insts, last_change, .. } ==> insts.len() > 0
            && last_change < 3
    }
}

/// What the client does, for the task that runs it.
pub struct Step<W> {
    /// The value to write.
    pub write: Option<AttValue>,
    pub wait: Wait,
    /// Whom to tell whether the reference time is agreed on.
    pub answer: Option<(W, bool)>,
}

impl<W> Step<W> {
    /// Whether the step writes and waits as a move says.
    pub open spec fn follows(self, to: Move) -> bool {
        &&& self.wait == to.wait
        &&& match to.write {
            Some(bytes) => self.write matches Some(val) && att_bytes(val) == bytes,
            None => self.write is None,
        }
    }
}

/// The state of a client. Of those that asked for the reference time it keeps
/// the last one. A step takes effect when it is made; a client whose write fails
/// for good ends, and its state with it.
pub struct ClientData<W> {
    start: Instant,
    state: State,
    client_wait: Option<W>,
}

/// What a [`ClientData`] holds.
#[verifier::ext_equal]
pub struct Sync<W> {
    pub start: Instant,
    pub phase: Phase,
    pub client_wait: Option<W>,
}

impl<W> View for ClientData<W> {
    type V = Sync<W>;

    closed spec fn view(&self) -> Sync<W> {
        Sync { start: self.start, phase: self.phase(), client_wait: self.client_wait }
    }
}

impl<W> ClientData<W> {
    closed spec fn phase(&self) -> Phase {
        match self.state {
            State::Waiting => Phase::Waiting,
            State::ClientInit(start) => Phase::ClientInit(start),
            State::GettingCI { insts, est_ci, last_change } => Phase::GettingCI {
                insts: insts@,
                est_ci,
                last_change: last_change as nat,
            },
            State::Agreeing { att_ci, since, est_ci } => Phase::Agreeing { att_ci, since, est_ci },
            State::ClientSetTime { att_ci, since } => Phase::ClientSetTime { att_ci, since },
        }
    }

    /// A client whose time starts at `start`.
    pub fn new(start: Instant) -> (r: Self)
        ensures
            r@ == (Sync { start, phase: Phase::Waiting, client_wait: None::<W> }),
            r@.phase.wf(),
    {
        ClientData { start, state: State::Waiting, client_wait: None }
    }

    /// The estimate of the interval from which the time is made that an answer
    /// may take: two and a quarter times as long.
    pub fn grace_base(&self) -> (r: Duration)
        ensures
            r == self@.phase.grace_base(),
    {
        match &self.state {
            State::Waiting => Duration { nanos: 0 },
            State::ClientInit(_) => Duration { nanos: 0 },
            State::GettingCI { est_ci, .. } => *est_ci,
            State::Agreeing { est_ci, .. } => *est_ci,
            State::ClientSetTime { att_ci, .. } => Duration::from_micros(*att_ci as u64),
        }
    }

    /// The time left at `now` to wait for the server.
    pub fn get_to(&self, grace: Duration, now: Instant) -> (r: Duration)
        requires
            self@.phase.wf(),
        ensures
            r == self@.phase.time_left(grace, now),
    {
        let end = match &self.state {
            State::Waiting => now.after(Duration::from_secs(3600)),
            State::ClientInit(start) => start.after(Duration::from_secs(8)),
            State::GettingCI { insts, .. } => insts[insts.len() - 1].after(grace),
            State::Agreeing { since, .. } => since.after(grace),
            State::ClientSetTime { since, .. } => since.after(grace),
        };
        end.saturating_duration_since(now)
    }

    fn stay(&self, grace: Duration, now: Instant) -> (r: Step<W>)
        requires
            self@.phase.wf(),
        ensures
            r.follows(self@.phase.stay(grace, now)),
            r.answer is None,
    {
        Step { write: None, wait: Wait::For(self.get_to(grace, now)), answer: None }
    }

    /// Begins at `now`.
    pub fn start_client_sync(&mut self, now: Instant) -> (r: Step<W>)
        ensures
            final(self)@ == (Sync { phase: Phase::begin(now).phase, ..old(self)@ }),
            final(self)@.phase.wf(),
            r.follows(Phase::begin(now)),
            r.answer is None,
    {
        self.state = State::ClientInit(now);
        Step { write: Some(tagged(0x00)), wait: Wait::For(Duration::from_secs(9)), answer: None }
    }

    /// Nothing has come in time, or the socket had to be renewed.
    pub fn handle_to(&mut self, now: Instant) -> (r: Step<W>)
        requires
            old(self)@.phase.wf(),
        ensures
            final(self)@ == (Sync {
                phase: old(self)@.phase.timed_out(now).phase,
                ..old(self)@
            }),
            final(self)@.phase.wf(),
            r.follows(old(self)@.phase.timed_out(now)),
            r.answer is None,
    {
        if let State::Waiting = &self.state {
            return Step {
                write: None,
                wait: Wait::For(Duration::from_secs(3600)),
                answer: None,
            };
        }
        self.start_client_sync(now)
    }

    /// Someone asks for the reference time. Whoever asked before is told that
    /// it is not agreed on.
    pub fn handle_ask(&mut self, asker: W, grace: Duration, now: Instant) -> (r: Step<W>)
        requires
            old(self)@.phase.wf(),
        ensures
            final(self)@ == (Sync {
                start: old(self)@.start,
                phase: old(self)@.phase.asked(grace, now).phase,
                client_wait: Some(asker),
            }),
            final(self)@.phase.wf(),
            r.follows(old(self)@.phase.asked(grace, now)),
            match old(self)@.client_wait {
                Some(before) => r.answer == Some((before, false)),
                None => r.answer is None,
            },
    {
        let before = self.client_wait.take();
        self.client_wait = Some(asker);
        let busy = match &self.state {
            State::GettingCI { .. } => true,
            State::Agreeing { .. } => true,
            _ => false,
        };
        let step = if busy {
            self.stay(grace, now)
        } else {
            self.start_client_sync(now)
        };
        match before {
            Some(before) => Step { answer: Some((before, false)), ..step },
            None => step,
        }
    }

    fn begin_ci_loop(&mut self, est_ci: Duration, now: Instant) -> (r: Step<W>)
        ensures
            final(self)@ == (Sync { phase: Phase::begin_ci(est_ci, now).phase, ..old(self)@ }),
            final(self)@.phase.wf(),
            r.follows(Phase::begin_ci(est_ci, now)),
            r.answer is None,
    {
        let mut insts = Vec::new();
        insts.push(now);
        assert(insts@ =~= seq![now]);
        self.state = State::GettingCI { insts, est_ci, last_change: 0 };
        let mut att_val = tagged(0x01);
        att_val.push(0x00);
        att_val.push(0x00);
        assert(att_bytes(att_val) =~= seq![0x01u8, 0x00u8, 0x00u8]);
        Step { write: Some(att_val), wait: Wait::For(Duration::from_secs(9)), answer: None }
    }

    fn do_ci_loop(
        &mut self,
        insts: Vec<Instant>,
        est_ci: Duration,
        last_change: u8,
        idx: u16,
        grace: Duration,
        seen: Instant,
        now: Instant,
    ) -> (r: Step<W>)
        requires
            insts@.len() > 0,
            last_change < 3,
        ensures
            ({
                let to = Phase::measure(
                    insts@,
                    est_ci,
                    last_change as nat,
                    idx as nat,
                    grace,
                    seen,
                    now,
                );
                &&& final(self)@ == (Sync { phase: to.phase, ..old(self)@ })
                &&& final(self)@.phase.wf()
                &&& r.follows(to)
                &&& r.answer is None
            }),
    {
        if idx as usize != insts.len() - 1 {
            return self.begin_ci_loop(est_ci, now);
        }
        let last = insts[insts.len() - 1];
        if last.after(grace).has_passed(seen) {
            return self.begin_ci_loop(Duration::from_secs(4), now);
        }
        let start = insts[0];
        let nanos = seen.duration_since(start).nanos / insts.len() as u128 / 2;
        let new_est_ci = Duration { nanos };
        let unchanged = if is_within_increment(est_ci, new_est_ci) {
            last_change + 1
        } else {
            0
        };
        if unchanged >= 3 {
            let att_ci = low_micros(new_est_ci);
            let mut att_val = tagged(0x02);
            att_val.extend_from_slice(u32_to_le(att_ci).as_slice());
            self.state = State::Agreeing { att_ci, since: seen, est_ci: new_est_ci };
            Step { write: Some(att_val), wait: Wait::Grace, answer: None }
        } else {
            let mut att_val = tagged(0x01);
            att_val.extend_from_slice(low_bytes2(insts.len() as u64).as_slice());
            let mut insts = insts;
            insts.push(seen);
            self.state = State::GettingCI { insts, est_ci: new_est_ci, last_change: unchanged };
            Step { write: Some(att_val), wait: Wait::Grace, answer: None }
        }
    }

    fn client_set_time(&mut self, att_ci: u32, seen: Instant) -> (r: Step<W>)
        ensures
            final(self)@ == (Sync {
                phase: Phase::set_time(att_ci, old(self)@.start, seen).phase,
                ..old(self)@
            }),
            final(self)@.phase.wf(),
            r.follows(Phase::set_time(att_ci, old(self)@.start, seen)),
            r.answer is None,
    {
        let ct_ref = get_time(seen, self.start).wrapping_add(att_ci as u64);
        let mut att_val = tagged(0x03);
        att_val.extend_from_slice(u64_to_le(ct_ref).as_slice());
        self.state = State::ClientSetTime { att_ci, since: seen };
        let wait = Duration { nanos: att_ci as u128 * 2_250 };
        Step { write: Some(att_val), wait: Wait::For(wait), answer: None }
    }

    fn compare_time(&mut self, st_ref: u64, seen: Instant, now: Instant) -> (r: Step<W>)
        ensures
            ({
                let to = Phase::compare_time(st_ref as nat, old(self)@.start, seen, now);
                &&& final(self)@.start == old(self)@.start
                &&& final(self)@.phase == to.phase
                &&& final(self)@.phase.wf()
                &&& r.follows(to)
                &&& told(old(self)@.client_wait, to.done, final(self)@.client_wait, r.answer)
            }),
    {
        let ct_ref = get_time(seen, self.start);
        if distance(ct_ref, st_ref) > INCREMENT_MICROS {
            return self.start_client_sync(now);
        }
        self.state = State::Waiting;
        let answer = match self.client_wait.take() {
            Some(asker) => Some((asker, true)),
            None => None,
        };
        Step { write: None, wait: Wait::For(Duration::from_secs(3600)), answer }
    }

    /// Whether `handle_not` takes the value.
    pub fn accepts(&self, val: &AttValue) -> (r: bool)
        ensures
            r == self@.phase.accepts(att_bytes(*val)),
    {
        let bytes = val.as_slice();
        if let State::Waiting = &self.state {
            bytes.len() == 0 || bytes[0] == 0xFF
        } else {
            true
        }
    }

    /// Takes what the server has sent, which came at `seen`, or that the socket
    /// failed and was renewed, which counts as if nothing had come in time.
    /// What is begun over begins at `now`. `grace` is two and a quarter times
    /// `grace_base`.
    pub fn handle_not(
        &mut self,
        res: Option<AttValue>,
        grace: Duration,
        seen: Instant,
        now: Instant,
    ) -> (r: Step<W>)
        requires
            old(self)@.phase.wf(),
            res matches Some(val) ==> old(self)@.phase.accepts(att_bytes(val)),
        ensures
            ({
                let to = match res {
                    Some(val) => old(self)@.phase.notified(
                        att_bytes(val),
                        old(self)@.start,
                        grace,
                        seen,
                        now,
                    ),
                    None => old(self)@.phase.timed_out(now),
                };
                &&& final(self)@.start == old(self)@.start
                &&& final(self)@.phase == to.phase
                &&& final(self)@.phase.wf()
                &&& r.follows(to)
                &&& told(old(self)@.client_wait, to.done, final(self)@.client_wait, r.answer)
            }),
    {
        match res {
            Some(val) => self.handle_val(&val, grace, seen, now),
            None => self.handle_to(now),
        }
    }

    /// Takes what the server has sent.
    fn handle_val(
        &mut self,
        val: &AttValue,
        grace: Duration,
        seen: Instant,
        now: Instant,
    ) -> (r: Step<W>)
        requires
            old(self)@.phase.wf(),
            old(self)@.phase.accepts(att_bytes(*val)),
        ensures
            ({
                let to = old(self)@.phase.notified(
                    att_bytes(*val),
                    old(self)@.start,
                    grace,
                    seen,
                    now,
                );
                &&& final(self)@.start == old(self)@.start
                &&& final(self)@.phase == to.phase
                &&& final(self)@.phase.wf()
                &&& r.follows(to)
                &&& told(old(self)@.client_wait, to.done, final(self)@.client_wait, r.answer)
            }),
    {
        let bytes = val.as_slice();
        if bytes.len() == 0 {
            return self.stay(grace, now);
        }
        let code = bytes[0];
        match &self.state {
            State::Waiting => {
                return self.stay(grace, now);
            },
            State::ClientInit(_) => {
                if code != 0x80 {
                    return self.stay(grace, now);
                }
            },
            _ => {},
        }
        let mut state = State::Waiting;
        std::mem::swap(&mut state, &mut self.state);
        match state {
            State::ClientInit(start) => self.begin_ci_loop(seen.duration_since(start), now),
            State::GettingCI { insts, est_ci, last_change } => if code == 0x81 && bytes.len()
                >= 3 {
                let idx = u16_from_le(bytes, 1);
                self.do_ci_loop(insts, est_ci, last_change, idx, grace, seen, now)
            } else {
                self.start_client_sync(now)
            },
            State::Agreeing { att_ci, .. } => if code == 0x82 {
                self.client_set_time(att_ci, seen)
            } else {
                self.start_client_sync(now)
            },
            State::ClientSetTime { .. } => if code == 0x83 && bytes.len() >= 9 {
                let st_ref = u64_from_le(bytes, 1);
                self.compare_time(st_ref, seen, now)
            } else {
                self.start_client_sync(now)
            },
            State::Waiting => self.start_client_sync(now),
        }
    }
}

/// Whoever asked is told that the reference time is agreed on once it is, and
/// is kept until then.
pub open spec fn told<W>(
    before: Option<W>,
    done: bool,
    after: Option<W>,
    answer: Option<(W, bool)>,
) -> bool {
    if done {
        &&& after is None
        &&& match before {
            Some(asker) => answer == Some((asker, true)),
            None => answer is None,
        }
    } else {
        after == before && answer is None
    }
}

fn low_micros(span: Duration) -> (r: u32)
    ensures
        r == span.nanos as nat / 1_000 % 0x1_0000_0000,
{
    let micros = span.as_micros();
    let r = micros as u32;
    assert(r == micros % 0x1_0000_0000) by (bit_vector)
        requires
            r == micros as u32,
    ;
    r
}

} // verus!
