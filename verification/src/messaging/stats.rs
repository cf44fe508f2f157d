//! Figures about a message channel.
use vstd::prelude::*;

use crate::bytes::low_half;
use crate::time::Duration;

verus! {

/// What a channel counts: the mean latency in milliseconds, the messages sent
/// and those of them known to be received, and the size of an outgoing packet.
#[derive(Clone, Copy, Debug)]
pub struct Stats {
    avg_lat: u16,
    recv_send: u64,
    mtu: u16,
}

/// The values that a [`Stats`] holds.
pub struct Figures {
    /// In milliseconds.
    pub avg_lat: nat,
    /// The counters in one number of 64 bits: the messages received in the
    /// high half, those sent in the low half.
    pub packed: nat,
    pub mtu: nat,
}

impl Figures {
    pub open spec fn zero() -> Self {
        Figures { avg_lat: 0, packed: 0, mtu: 0 }
    }

    /// The figures with the counters at zero.
    pub open spec fn cleared(self) -> Self {
        Figures { packed: 0, ..self }
    }

    pub open spec fn recvd(self) -> nat {
        self.packed / 0x1_0000_0000
    }

    pub open spec fn sent(self) -> nat {
        self.packed % 0x1_0000_0000
    }

    /// The figures once `sent` more messages are settled, `recvd` of them
    /// received. The packed number is kept to 64 bits, so that the messages
    /// sent carry over into those received past 2^32, and those received start
    /// over.
    pub open spec fn settled(self, recvd: nat, sent: nat) -> Self {
        Figures {
            packed: (self.packed + 0x1_0000_0000 * recvd + sent) % 0x1_0000_0000_0000_0000,
            ..self
        }
    }
}

/// The counters are the sums of what was settled as long as neither sum
/// reaches 2^32.
pub proof fn settled_adds_up(figures: Figures, recvd: nat, sent: nat)
    requires
        figures.packed < 0x1_0000_0000_0000_0000,
        figures.recvd() + recvd < 0x1_0000_0000,
        figures.sent() + sent < 0x1_0000_0000,
    ensures
        figures.settled(recvd, sent).recvd() == figures.recvd() + recvd,
        figures.settled(recvd, sent).sent() == figures.sent() + sent,
{
}

/// Settling two batches is settling them as one.
pub proof fn settled_composes(
    figures: Figures,
    recvd1: nat,
    sent1: nat,
    recvd2: nat,
    sent2: nat,
)
    ensures
        figures.settled(recvd1, sent1).settled(recvd2, sent2) == figures.settled(
            recvd1 + recvd2,
            sent1 + sent2,
        ),
{
}

impl View for Stats {
    type V = Figures;

    closed spec fn view(&self) -> Figures {
        Figures {
            avg_lat: self.avg_lat as nat,
            packed: self.recv_send as nat,
            mtu: self.mtu as nat,
        }
    }
}

impl Default for Stats {
    fn default() -> (r: Self)
        ensures
            r@ == Figures::zero(),
    {
        Stats { avg_lat: 0, recv_send: 0, mtu: 0 }
    }
}

impl Stats {
    /// The figures fit the numbers that hold them.
    pub proof fn bounds(&self)
        ensures
            self@.avg_lat < 0x1_0000,
            self@.packed < 0x1_0000_0000_0000_0000,
            self@.mtu < 0x1_0000,
    {
    }

    /// Notes the mean latency, in whole milliseconds modulo 2^16.
    pub fn update_lat(&mut self, lat: Duration)
        ensures
            final(self)@ == (Figures {
                avg_lat: lat.nanos as nat / 1_000_000 % 0x1_0000,
                ..old(self)@
            }),
    {
        let millis = lat.as_millis();
        let low = millis as u16;
        assert(low == millis % 0x1_0000) by (bit_vector)
            requires
                low == millis as u16,
        ;
        self.avg_lat = low;
    }

    pub fn get_avg_lat(&self) -> (r: Duration)
        ensures
            r.nanos == self@.avg_lat * 1_000_000,
    {
        Duration::from_millis(self.avg_lat as u64)
    }

    pub fn get_sent(&self) -> (r: u32)
        ensures
            r == self@.sent(),
    {
        low_half(self.recv_send)
    }

    /// The messages received and the messages sent.
    pub fn get_recvd_sent(&self) -> (r: (u32, u32))
        ensures
            r.0 == self@.recvd(),
            r.1 == self@.sent(),
    {
        let recvd = (self.recv_send / 0x1_0000_0000) as u32;
        let sent = low_half(self.recv_send);
        (recvd, sent)
    }

    pub fn get_mtu(&self) -> (r: u16)
        ensures
            r == self@.mtu,
    {
        self.mtu
    }

    pub fn set_mtu(&mut self, mtu: u16)
        ensures
            final(self)@ == (Figures { mtu: mtu as nat, ..old(self)@ }),
    {
        self.mtu = mtu;
    }

    /// Counts `sent` messages as settled, `recvd` of them as received.
    pub fn update_recvd_sent(&mut self, recvd: u32, sent: u32)
        ensures
            final(self)@ == old(self)@.settled(recvd as nat, sent as nat),
    {
        let to_add = recvd as u64 * 0x1_0000_0000 + sent as u64;
        self.recv_send = self.recv_send.wrapping_add(to_add);
    }

    /// Starts the counters over.
    pub fn reset(&mut self)
        ensures
            final(self)@ == old(self)@.cleared(),
    {
        self.recv_send = 0;
    }
}

} // verus!
