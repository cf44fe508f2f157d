//! The messages on their way, and what becomes of them.
use std::collections::VecDeque;

use rustable::gatt::AttValue;
use vstd::prelude::*;

use crate::att::att_bytes;
use crate::bytes::low_half;
use crate::messaging::frame::{read_ack, Frame};
use crate::messaging::lat::{LatDeque, LatWindow};
use crate::messaging::stats::{Figures, Stats};
use crate::time::{Duration, Instant};
#[allow(unused_imports)]
use crate::messaging::frame::{ack_of, stamped};
#[allow(unused_imports)]
use crate::messaging::lat::half_mean;

verus! {

/// The number of indices. They start over at one behind the last, so that
/// zero is never one of them.
pub const INDICES: u32 = 0xFFFF_FFFF;

/// The index that is handed out where the count stands at `idx`: zero is passed
/// over.
pub open spec fn next_index(idx: u32) -> u32 {
    if idx == 0 {
        1
    } else {
        idx
    }
}

/// Where the count stands once `index` is handed out.
pub open spec fn count_after(index: u32) -> u32 {
    if index == u32::MAX {
        0
    } else {
        (index + 1) as u32
    }
}

/// Where the count stands once `n` indices are handed out, from `idx` on.
pub open spec fn count_after_all(idx: u32, n: nat) -> u32
    decreases n,
{
    if n == 0 {
        idx
    } else {
        count_after(next_index(count_after_all(idx, (n - 1) as nat)))
    }
}

/// The index that is handed out behind `n` others follows on the one before it.
/// None is zero, and as long as the last number is not reached they are
/// consecutive numbers.
pub proof fn indices_in_order(idx: u32, n: nat)
    ensures
        ({
            let index = next_index(count_after_all(idx, n));
            &&& index != 0
            &&& index == (next_index(idx) - 1 + n) % (INDICES as int) + 1
            &&& next_index(idx) + n <= u32::MAX ==> index == next_index(idx) + n
        }),
    decreases n,
{
    if n > 0 {
        indices_in_order(idx, (n - 1) as nat);
    }
}

/// Two indices that are handed out are not the same, unless as many as there
/// are lie between them.
pub proof fn indices_do_not_repeat(idx: u32, n: nat, m: nat)
    requires
        n < m < n + INDICES,
    ensures
        next_index(count_after_all(idx, n)) != next_index(count_after_all(idx, m)),
{
    indices_in_order(idx, n);
    indices_in_order(idx, m);
    let a = next_index(idx) - 1 + n;
    let b = next_index(idx) - 1 + m;
    assert(a % (INDICES as int) != b % (INDICES as int));
}

/// Hands out the indices of messages.
pub struct IndexSource {
    idx: u32,
}

impl View for IndexSource {
    type V = u32;

    closed spec fn view(&self) -> u32 {
        self.idx
    }
}

impl IndexSource {
    /// No index handed out yet.
    pub fn new() -> (r: Self)
        ensures
            r@ == 0,
    {
        IndexSource { idx: 0 }
    }

    /// The next index.
    pub fn allocate_idx(&mut self) -> (r: u32)
        ensures
            r == next_index(old(self)@),
            final(self)@ == count_after(r),
    {
        if self.idx == 0 {
            self.idx = 1;
        }
        let ret = self.idx;
        self.idx = self.idx.wrapping_add(1);
        ret
    }
}

/// Where the first message with `index` stands.
pub open spec fn position(sent: Seq<(u32, Instant)>, index: u32) -> Option<nat>
    decreases sent.len(),
{
    if sent.len() == 0 {
        None
    } else if sent[0].0 == index {
        Some(0)
    } else {
        match position(sent.drop_first(), index) {
            Some(at) => Some(at + 1),
            None => None,
        }
    }
}

/// `position` is the first place where the index stands, if there is one.
pub proof fn position_is_first(sent: Seq<(u32, Instant)>, index: u32)
    ensures
        match position(sent, index) {
            Some(at) => {
                &&& at < sent.len()
                &&& sent[at as int].0 == index
                &&& forall|i: int| 0 <= i < at ==> (#[trigger] sent[i]).0 != index
            },
            None => forall|i: int| 0 <= i < sent.len() ==> (#[trigger] sent[i]).0 != index,
        },
    decreases sent.len(),
{
    if sent.len() > 0 && sent[0].0 != index {
        let rest = sent.drop_first();
        position_is_first(rest, index);
        assert forall|i: int| 0 < i < sent.len() implies #[trigger] sent[i] == rest[i - 1] by {}
    }
}

/// What an [`InFlight`] holds.
#[verifier::ext_equal]
pub struct Flight {
    /// The index and the time of each message, the oldest first.
    pub sent: Seq<(u32, Instant)>,
    /// The number from which the next index is made.
    pub idx: u32,
    pub lat: LatWindow,
}

impl Flight {
    /// The index of the next message: zero is passed over.
    pub open spec fn next(self) -> u32 {
        next_index(self.idx)
    }

    /// Once an index is taken.
    pub open spec fn counted(self) -> Self {
        Flight { idx: count_after(self.next()), ..self }
    }

    /// Once a message is sent at `now`.
    pub open spec fn launched(self, now: Instant) -> Self {
        Flight { sent: self.sent.push((self.next(), now)), ..self.counted() }
    }

    /// Once the bytes `ack` come back at `now`. Bytes that are no
    /// acknowledgement, and one for a message that is not on its way, change
    /// nothing. Zero gives up every message. Any other index settles its
    /// message and all those sent before, and gives one more latency.
    pub open spec fn acked(self, ack: Seq<u8>, now: Instant) -> Self {
        match ack_of(ack) {
            None => self,
            Some(index) => if index == 0 {
                Flight { sent: Seq::empty(), ..self }
            } else {
                match position(self.sent, index as u32) {
                    None => self,
                    Some(at) => Flight {
                        sent: self.sent.skip(at as int + 1),
                        lat: self.lat.pushed(self.sent[at as int].1, now),
                        ..self
                    },
                }
            },
        }
    }

    /// The figures of the channel once the bytes `ack` come back at `now`.
    pub open spec fn figures_acked(self, figures: Figures, ack: Seq<u8>, now: Instant) -> Figures {
        match ack_of(ack) {
            None => figures,
            Some(index) => if index == 0 {
                figures
            } else {
                match position(self.sent, index as u32) {
                    None => figures,
                    Some(at) => Figures {
                        avg_lat: half_mean(self.acked(ack, now).lat.last) / 1_000_000 % 0x1_0000,
                        ..figures
                    }.settled(1, (at + 1) % 0x1_0000_0000),
                }
            },
        }
    }

    /// The messages on their way are the last ones to get an index, in the
    /// order in which they got it.
    #[verifier::opaque]
    pub open spec fn consecutive(self) -> bool {
        forall|i: int|
            0 <= i < self.sent.len() ==> (#[trigger] self.sent[i]).0 == (self.next() - 1
                - self.sent.len() + i) % (INDICES as int) + 1
    }
}

/// An index is never zero, and the one after the last is one.
pub proof fn indices_cycle(flight: Flight)
    ensures
        flight.next() != 0,
        flight.counted().next() == flight.next() % INDICES + 1,
{
}

/// Messages on their way have indices of their own, unless there are more of
/// them than indices.
pub proof fn indices_distinct(flight: Flight, i: int, j: int)
    requires
        flight.consecutive(),
        flight.sent.len() <= INDICES,
        0 <= i < j < flight.sent.len(),
    ensures
        flight.sent[i].0 != flight.sent[j].0,
{
    reveal(Flight::consecutive);
    let a = flight.next() - 1 - flight.sent.len() + i;
    let b = flight.next() - 1 - flight.sent.len() + j;
    assert(a % (INDICES as int) != b % (INDICES as int));
}

/// The acknowledgement of a message on its way settles that message and those
/// before it, and leaves those behind it.
pub proof fn ack_settles_prefix(flight: Flight, ack: Seq<u8>, now: Instant, at: int)
    requires
        flight.consecutive(),
        flight.sent.len() <= INDICES,
        0 <= at < flight.sent.len(),
        ack_of(ack) == Some(flight.sent[at].0 as nat),
    ensures
        flight.acked(ack, now).sent == flight.sent.skip(at + 1),
        flight.acked(ack, now).lat == flight.lat.pushed(flight.sent[at].1, now),
        flight.acked(ack, now).idx == flight.idx,
{
    let index = flight.sent[at].0;
    assert(index != 0) by {
        reveal(Flight::consecutive);
    }
    position_is_first(flight.sent, index);
    match position(flight.sent, index) {
        Some(first) => {
            if first < at {
                indices_distinct(flight, first as int, at);
            } else if at < first {
                indices_distinct(flight, at, first as int);
            }
        },
        None => {},
    }
}

/// What is on its way stays consecutive when a message is sent and when an
/// acknowledgement comes.
pub proof fn consecutive_kept(flight: Flight, ack: Seq<u8>, now: Instant)
    requires
        flight.consecutive(),
    ensures
        flight.launched(now).consecutive(),
        flight.acked(ack, now).consecutive(),
{
    reveal(Flight::consecutive);
    let next = flight.launched(now);
    let len = flight.sent.len();
    assert forall|i: int| 0 <= i < next.sent.len() implies (#[trigger] next.sent[i]).0 == (
    next.next() - 1 - next.sent.len() + i) % (INDICES as int) + 1 by {
        if i < len {
            assert(flight.sent[i].0 == (flight.next() - 1 - len + i) % (INDICES as int) + 1);
        }
    }
    if let Some(index) = ack_of(ack) {
        if index != 0 {
            position_is_first(flight.sent, index as u32);
        }
    }
}

/// The messages on their way, and the latencies of those that arrived.
pub struct InFlight {
    sent: VecDeque<(u32, Instant)>,
    indices: IndexSource,
    lat: LatDeque,
}

impl View for InFlight {
    type V = Flight;

    closed spec fn view(&self) -> Flight {
        Flight { sent: self.sent@, idx: self.indices@, lat: self.lat@ }
    }
}

impl InFlight {
    pub closed spec fn wf(&self) -> bool {
        &&& self.lat.wf()
        &&& self@.consecutive()
    }

    /// What a well-formed value is made of.
    pub proof fn wf_flight(&self)
        requires
            self.wf(),
        ensures
            self@.consecutive(),
            self@.lat.period > 0,
            self@.lat.last.len() == self@.lat.adjusted.len(),
            self@.lat.last.len() <= self@.lat.period,
            forall|i: int|
                0 <= i < self@.lat.last.len() ==> (#[trigger] self@.lat.adjusted[i]).nanos
                    <= (#[trigger] self@.lat.last[i]).nanos,
            half_mean(self@.lat.adjusted) <= half_mean(self@.lat.last),
    {
        self.lat.wf_window();
    }

    /// Nothing on its way.
    pub fn new(lat: LatDeque) -> (r: Self)
        requires
            lat.wf(),
        ensures
            r.wf(),
            r@ == (Flight { sent: Seq::empty(), idx: 0, lat: lat@ }),
    {
        let r = InFlight { sent: VecDeque::new(), indices: IndexSource::new(), lat };
        assert(r@.consecutive()) by {
            reveal(Flight::consecutive);
        }
        r
    }

    /// Gives a frame its index and counts it as sent at `now`.
    pub fn launch(&mut self, frame: Frame, now: Instant) -> (r: Frame)
        requires
            old(self).wf(),
        ensures
            final(self).wf(),
            final(self)@ == old(self)@.launched(now),
            r@ == stamped(frame@, old(self)@.next()),
    {
        proof {
            consecutive_kept(old(self)@, Seq::empty(), now);
        }
        let idx = self.indices.allocate_idx();
        self.sent.push_back((idx, now));
        assert(self@ =~= old(self)@.launched(now));
        frame.stamp(idx)
    }

    fn locate(&self, index: u32) -> (r: Option<usize>)
        ensures
            r is Some <==> position(self@.sent, index) is Some,
            r matches Some(at) ==> position(self@.sent, index) == Some(at as nat),
    {
        proof {
            position_is_first(self.sent@, index);
        }
        let mut at: usize = 0;
        while at < self.sent.len()
            invariant
                at <= self.sent@.len(),
                forall|i: int| 0 <= i < at ==> (#[trigger] self.sent@[i]).0 != index,
            decreases self.sent@.len() - at,
        {
            if self.sent[at].0 == index {
                proof {
                    position_is_first(self.sent@, index);
                }
                return Some(at);
            }
            at = at + 1;
        }
        None
    }

    /// Takes the bytes that came back at `now`.
    pub fn acknowledge(&mut self, val: &AttValue, now: Instant, stats: &mut Stats)
        requires
            old(self).wf(),
        ensures
            final(self).wf(),
            final(self)@ == old(self)@.acked(att_bytes(*val), now),
            final(stats)@ == old(self)@.figures_acked(old(stats)@, att_bytes(*val), now),
    {
        proof {
            consecutive_kept(old(self)@, att_bytes(*val), now);
        }
        let idx = match read_ack(val) {
            Some(idx) => idx,
            None => {
                return;
            },
        };
        if idx == 0 {
            self.sent.clear();
            return;
        }
        if let Some(loc) = self.locate(idx) {
            proof {
                position_is_first(self.sent@, idx);
                assert(self.sent@.len() == self.sent.len());
            }
            let sent = loc + 1;
            let inst = self.sent[loc].1;
            self.sent = self.sent.split_off(sent);
            self.lat.push_at(inst, now);
            stats.update_lat(self.lat.avg_lat());
            stats.update_recvd_sent(1, low_half(sent as u64));
            assert(self@ =~= old(self)@.acked(att_bytes(*val), now));
        }
    }

    /// The number of messages on their way, as a 32-bit number.
    pub fn count(&self) -> (r: u32)
        ensures
            r == self@.sent.len() % 0x1_0000_0000,
    {
        low_half(self.sent.len() as u64)
    }

    /// The mean time for one way.
    pub fn avg_lat(&self) -> (r: Duration)
        requires
            self.wf(),
        ensures
            r.nanos == half_mean(self@.lat.last),
    {
        self.lat.avg_lat()
    }

    /// The mean time for one way, from no earlier than the acknowledgement
    /// before.
    pub fn avg_lat_adjusted(&self) -> (r: Duration)
        requires
            self.wf(),
        ensures
            r.nanos == half_mean(self@.lat.adjusted),
    {
        self.lat.avg_lat_adjusted()
    }
}

} // verus!
