//! What holds of a message channel as a whole.
use vstd::prelude::*;

#[allow(unused_imports)]
use crate::att::MAX_VALUE_LEN;
#[allow(unused_imports)]
use crate::bytes::{le_round_trip4, le_value4_spelled_out};
#[allow(unused_imports)]
use crate::messaging::client::{
    channels_in, client_takes, next_channel, ClientState, MIN_LAT_MICROS,
};
#[allow(unused_imports)]
use crate::messaging::frame::{
    ack_of, blank_header, frame_round_trip, framed, header_of, payload_of, stamped, Frame,
    HEADER_LEN, MAX_MSG_LEN,
};
#[allow(unused_imports)]
use crate::messaging::inflight::{
    ack_settles_prefix, consecutive_kept, indices_distinct, position, position_is_first, Flight,
    INDICES,
};
#[allow(unused_imports)]
use crate::messaging::lat::{
    half_mean, half_mean_at_least, half_mean_bounded, half_mean_rounds_down, total, totals_add_up,
    window_stays_within, LatWindow,
};
#[allow(unused_imports)]
use crate::messaging::queue::Polled;
#[allow(unused_imports)]
use crate::messaging::server::{self, Next, OutState};
#[allow(unused_imports)]
use crate::messaging::{SERV_IN, SERV_OUT};
#[allow(unused_imports)]
use crate::messaging::stats::Figures;
#[allow(unused_imports)]
use crate::time::{max, Instant};

verus! {

/// A message that is sent with an index fits a value and comes out as it went
/// in. What acknowledges it names its index, and settles it and every message
/// sent before.
pub proof fn message_arrives(flight: Flight, msg: Seq<u8>, sent_at: Instant, acked_at: Instant)
    requires
        flight.consecutive(),
        flight.sent.len() < INDICES,
        msg.len() <= MAX_MSG_LEN,
    ensures
        ({
            let wire = stamped(framed(msg), flight.next());
            let ack = header_of(wire);
            let settled = flight.launched(sent_at).acked(ack, acked_at);
            &&& HEADER_LEN <= wire.len() <= MAX_VALUE_LEN
            &&& payload_of(wire) == msg
            &&& ack_of(ack) == Some(flight.next() as nat)
            &&& settled.sent.len() == 0
            &&& settled.lat == flight.lat.pushed(sent_at, acked_at)
        }),
{
    let wire = stamped(framed(msg), flight.next());
    let launched = flight.launched(sent_at);
    le_round_trip4(flight.next() as nat);
    frame_round_trip(msg, flight.next());
    consecutive_kept(flight, Seq::empty(), sent_at);
    ack_settles_prefix(launched, header_of(wire), acked_at, flight.sent.len() as int);
}

/// Whatever the client sends arrives at the server. Once it is acknowledged
/// the client may send again.
pub proof fn client_delivers(
    client: ClientState,
    msg: Seq<u8>,
    sent_at: Instant,
    acked_at: Instant,
)
    requires
        client.flight.consecutive(),
        client.flight.sent.len() < INDICES,
        msg.len() <= MAX_MSG_LEN,
    ensures
        ({
            let wire = stamped(framed(msg), client.flight.next());
            let sent = client.sent(sent_at);
            let flight = sent.flight.acked(header_of(wire), acked_at);
            &&& wire.len() >= HEADER_LEN
            &&& payload_of(wire) == msg
            &&& flight.sent.len() == 0
            &&& ClientState { flight, ..sent }.can_send()
        }),
{
    message_arrives(client.flight, msg, sent_at, acked_at);
    let sent = client.sent(sent_at);
    let wire = stamped(framed(msg), client.flight.next());
    let flight = sent.flight.acked(header_of(wire), acked_at);
    client_idle_sends(ClientState { flight, ..sent });
}

/// Whatever the server sends is taken by the client. Once it is acknowledged
/// the server may send again.
pub proof fn server_delivers(
    server: OutState,
    frame: Frame,
    msg: Seq<u8>,
    now: Instant,
    sent_at: Instant,
    acked_at: Instant,
)
    requires
        server.flight.consecutive(),
        server.flight.sent.len() < INDICES,
        msg.len() <= MAX_MSG_LEN,
        frame@ == framed(msg),
    ensures
        ({
            let next = Next::Looked(Polled::Item(frame));
            let wire = server.answer(next);
            let settled = server.answered(next, now, sent_at).written(header_of(wire), acked_at);
            &&& client_takes(wire)
            &&& payload_of(wire) == msg
            &&& settled.flight.sent.len() == 0
            &&& settled.has_room()
        }),
{
    message_arrives(server.flight, msg, sent_at, acked_at);
    frame_round_trip(msg, server.flight.next());
    let wire = stamped(framed(msg), server.flight.next());
    assert(wire != blank_header()) by {
        le_round_trip4(0);
        assert(header_of(blank_header()) =~= blank_header());
        assert(ack_of(blank_header()) == Some(0nat));
    }
    let next = Next::Looked(Polled::Item(frame));
    let settled = server.answered(next, now, sent_at).written(header_of(wire), acked_at);
    server_idle_has_room(settled);
}

/// The client passes over what the server answers when it has no message.
pub proof fn empty_answer_passed_over(server: OutState, next: Next)
    requires
        !(next matches Next::Looked(Polled::Item(_))),
    ensures
        !client_takes(server.answer(next)),
{
}

/// A client with nothing on its way may send.
pub proof fn client_idle_sends(client: ClientState)
    requires
        client.flight.sent.len() == 0,
    ensures
        client.can_send(),
{
    let lat = half_mean(client.flight.lat.adjusted);
    assert(lat * 0 == 0) by (nonlinear_arith);
}

/// A server with nothing on its way may send.
pub proof fn server_idle_has_room(server: OutState)
    requires
        server.flight.sent.len() == 0,
    ensures
        server.has_room(),
{
    let lat = half_mean(server.flight.lat.last);
    assert(lat * 0 == 0) by (nonlinear_arith);
}

/// An acknowledgement without an index gives up all messages on their way, and
/// counts none of them.
pub proof fn blank_ack_gives_up(flight: Flight, figures: Figures, now: Instant)
    ensures
        flight.acked(blank_header(), now) == (Flight { sent: Seq::empty(), ..flight }),
        flight.figures_acked(figures, blank_header(), now) == figures,
{
    assert(ack_of(blank_header()) == Some(0nat));
}

/// An acknowledgement that comes again changes nothing.
pub proof fn ack_counts_once(
    flight: Flight,
    figures: Figures,
    ack: Seq<u8>,
    first: Instant,
    again: Instant,
)
    requires
        flight.consecutive(),
        flight.sent.len() <= INDICES,
    ensures
        flight.acked(ack, first).acked(ack, again) == flight.acked(ack, first),
        flight.acked(ack, first).figures_acked(figures, ack, again) == figures,
{
    let after = flight.acked(ack, first);
    if let Some(index) = ack_of(ack) {
        if index != 0 {
            position_is_first(flight.sent, index as u32);
            position_is_first(after.sent, index as u32);
            if let Some(at) = position(flight.sent, index as u32) {
                if let Some(later) = position(after.sent, index as u32) {
                    indices_distinct(flight, at as int, at as int + 1 + later as int);
                }
            }
        } else {
            assert(after.sent =~= Seq::empty());
        }
    }
}

/// How many messages the bytes `ack` settle and count: none where they give up
/// the messages on their way.
pub open spec fn counted(flight: Flight, ack: Seq<u8>) -> nat {
    match ack_of(ack) {
        Some(index) => if index == 0 {
            0
        } else {
            match position(flight.sent, index as u32) {
                Some(at) => at + 1,
                None => 0,
            }
        },
        None => 0,
    }
}

/// As many messages are counted as sent as an acknowledgement settles, and one
/// of them as received, as long as the counters do not overflow. They are those
/// that are on their way no longer, unless all were given up.
pub proof fn settled_are_counted(flight: Flight, figures: Figures, ack: Seq<u8>, now: Instant)
    requires
        figures.packed < 0x1_0000_0000_0000_0000,
        counted(flight, ack) > 0 ==> figures.recvd() + 1 < 0x1_0000_0000,
        figures.sent() + counted(flight, ack) < 0x1_0000_0000,
    ensures
        ({
            let settled = counted(flight, ack);
            let after = flight.figures_acked(figures, ack, now);
            &&& after.packed < 0x1_0000_0000_0000_0000
            &&& after.sent() == figures.sent() + settled
            &&& after.recvd() == figures.recvd() + (if settled > 0 {
                1int
            } else {
                0
            })
            &&& ack_of(ack) != Some(0nat) ==> settled == flight.sent.len() - flight.acked(
                ack,
                now,
            ).sent.len()
        }),
{
    if let Some(index) = ack_of(ack) {
        position_is_first(flight.sent, index as u32);
    }
}

/// What happens to the messages of one side and to its figures.
pub enum Traffic {
    /// A message is sent.
    Launch(Instant),
    /// Bytes come back.
    Ack(Seq<u8>, Instant),
    /// The counters start over.
    Reset,
}

/// The messages on their way and the figures once something happens.
pub open spec fn passed(flight: Flight, figures: Figures, event: Traffic) -> (Flight, Figures) {
    match event {
        Traffic::Launch(now) => (flight.launched(now), figures),
        Traffic::Ack(ack, now) => (
            flight.acked(ack, now),
            flight.figures_acked(figures, ack, now),
        ),
        Traffic::Reset => (flight, figures.cleared()),
    }
}

/// As `passed`, once all of some things happen.
pub open spec fn passed_all(
    flight: Flight,
    figures: Figures,
    events: Seq<Traffic>,
) -> (Flight, Figures)
    decreases events.len(),
{
    if events.len() == 0 {
        (flight, figures)
    } else {
        let (flight, figures) = passed_all(flight, figures, events.drop_last());
        passed(flight, figures, events.last())
    }
}

/// Whether the messages counted never reach 2^32 between two resets.
pub open spec fn counters_fit(flight: Flight, figures: Figures, events: Seq<Traffic>) -> bool
    decreases events.len(),
{
    events.len() > 0 ==> {
        let (before, so_far) = passed_all(flight, figures, events.drop_last());
        &&& counters_fit(flight, figures, events.drop_last())
        &&& events.last() matches Traffic::Ack(ack, _) ==> so_far.sent() + counted(before, ack)
            < 0x1_0000_0000
    }
}

/// No more messages are counted as received than as sent, whatever is sent,
/// comes back and is reset.
pub proof fn never_more_received_than_sent(
    flight: Flight,
    figures: Figures,
    events: Seq<Traffic>,
)
    requires
        figures.packed < 0x1_0000_0000_0000_0000,
        figures.recvd() <= figures.sent(),
        counters_fit(flight, figures, events),
    ensures
        passed_all(flight, figures, events).1.packed < 0x1_0000_0000_0000_0000,
        passed_all(flight, figures, events).1.recvd() <= passed_all(
            flight,
            figures,
            events,
        ).1.sent(),
    decreases events.len(),
{
    if events.len() > 0 {
        never_more_received_than_sent(flight, figures, events.drop_last());
        let (before, so_far) = passed_all(flight, figures, events.drop_last());
        if let Traffic::Ack(ack, now) = events.last() {
            settled_are_counted(before, so_far, ack, now);
        }
    }
}

/// Whatever the server is asked and told is such traffic: an answer sends a
/// message or leaves things as they are, and a write acknowledges.
pub proof fn server_traffic(
    server: OutState,
    figures: Figures,
    next: Next,
    bytes: Seq<u8>,
    now: Instant,
    sent_at: Instant,
)
    ensures
        ({
            let after = (server.answered(next, now, sent_at).flight, figures);
            if next matches Next::Looked(Polled::Item(_)) {
                after == passed(server.flight, figures, Traffic::Launch(sent_at))
            } else {
                after == (server.flight, figures)
            }
        }),
        (
            server.written(bytes, now).flight,
            server.flight.figures_acked(figures, bytes, now),
        ) == passed(server.flight, figures, Traffic::Ack(bytes, now)),
{
}

/// Whatever the client sends is such traffic.
pub proof fn client_traffic(client: ClientState, figures: Figures, now: Instant)
    ensures
        (client.sent(now).flight, figures) == passed(client.flight, figures, Traffic::Launch(now)),
{
}

/// A client gives every message at least sixteen times the least latency
/// before it asks again, as long as that is a point in time at all.
pub proof fn timeout_is_patient(client: ClientState, now: Instant)
    requires
        now.nanos + 16 * MIN_LAT_MICROS * 1_000 <= u128::MAX,
    ensures
        client.timeout_from(now).nanos >= now.nanos + 16 * MIN_LAT_MICROS * 1_000,
{
}

/// Where no round trip is longer than `bound`, that is where the clock has not
/// run longer, no timeout is cut off: the client waits for sixteen times the
/// mean latency or the least one.
pub proof fn client_timeout_exact(client: ClientState, bound: nat, now: Instant)
    requires
        client.flight.lat.within(bound),
        client.flight.lat.last.len() < 0x1_0000_0000,
        now.nanos + 16 * max(bound as int / 2, MIN_LAT_MICROS * 1_000) <= u128::MAX,
    ensures
        client.timeout_from(now).nanos == now.nanos + 16 * max(
            half_mean(client.flight.lat.last) as int,
            MIN_LAT_MICROS * 1_000,
        ),
{
    half_mean_bounded(client.flight.lat.last, bound);
}

/// As `client_timeout_exact`, of the server that sends a message.
pub proof fn server_timeout_exact(
    server: OutState,
    bound: nat,
    frame: Frame,
    now: Instant,
    sent_at: Instant,
)
    requires
        server.flight.lat.within(bound),
        server.flight.lat.last.len() < 0x1_0000_0000,
        now.nanos + 16 * max(bound as int / 2, server::MIN_LAT_MICROS * 1_000) <= u128::MAX,
    ensures
        server.answered(Next::Looked(Polled::Item(frame)), now, sent_at).timeout.nanos == now.nanos
            + 16 * max(
            half_mean(server.flight.lat.last) as int,
            server::MIN_LAT_MICROS * 1_000,
        ),
{
    half_mean_bounded(server.flight.lat.last, bound);
}

/// While the clock has not run longer than `bound`, neither has a round trip of
/// a message that is acknowledged.
pub proof fn latencies_stay_within(flight: Flight, bound: nat, ack: Seq<u8>, now: Instant)
    requires
        flight.lat.within(bound),
        now.nanos <= bound,
    ensures
        flight.launched(now).lat.within(bound),
        flight.acked(ack, now).lat.within(bound),
{
    if let Some(index) = ack_of(ack) {
        if let Some(at) = position(flight.sent, index as u32) {
            window_stays_within(flight.lat, bound, flight.sent[at as int].1, now);
        }
    }
}

/// What goes over the air for a message: four bytes that stand for the index,
/// the lowest first, and behind them the bytes of the message.
pub proof fn wire_layout(msg: Seq<u8>, index: u32, i: int)
    ensures
        ({
            let wire = stamped(framed(msg), index);
            &&& wire.len() == msg.len() + 4
            &&& wire[0] + 0x100 * wire[1] + 0x1_0000 * wire[2] + 0x100_0000 * wire[3] == index
            &&& 0 <= i < msg.len() ==> wire[i + 4] == msg[i]
        }),
{
    let wire = stamped(framed(msg), index);
    frame_round_trip(msg, index);
    le_round_trip4(index as nat);
    le_value4_spelled_out(header_of(wire));
}

/// What acknowledges a message is four bytes that stand for its index. Bytes of
/// any other number acknowledge nothing.
pub proof fn ack_layout(bytes: Seq<u8>)
    ensures
        bytes.len() == 4 ==> ack_of(bytes) == Some(
            (bytes[0] + 0x100 * bytes[1] + 0x1_0000 * bytes[2] + 0x100_0000 * bytes[3]) as nat,
        ),
        bytes.len() != 4 ==> ack_of(bytes) is None,
{
    if bytes.len() == 4 {
        le_value4_spelled_out(bytes);
    }
}

/// The client may send if and only if the messages on their way, each for the
/// mean time of one way, take no longer than they may.
pub proof fn client_limit(client: ClientState)
    requires
        client.flight.sent.len() < 0x1_0000_0000,
    ensures
        client.can_send() <==> half_mean(client.flight.lat.adjusted) * client.flight.sent.len()
            <= client.target_lt.nanos,
{
}

/// As `client_limit`, by the round trips themselves: where none took less than
/// twice `lat`, so many messages that they take too long at `lat` each stop the
/// client. Where none took longer, so few that they do not let it send.
pub proof fn client_limit_by_round_trips(client: ClientState, lat: nat)
    requires
        client.flight.sent.len() < 0x1_0000_0000,
        0 < client.flight.lat.adjusted.len() < 0x1_0000_0000,
        total(client.flight.lat.adjusted) <= u128::MAX,
    ensures
        (forall|i: int|
            0 <= i < client.flight.lat.adjusted.len() ==> (
            #[trigger] client.flight.lat.adjusted[i]).nanos >= 2 * lat) && lat
            * client.flight.sent.len() > client.target_lt.nanos ==> !client.can_send(),
        (forall|i: int|
            0 <= i < client.flight.lat.adjusted.len() ==> (
            #[trigger] client.flight.lat.adjusted[i]).nanos <= 2 * lat) && lat
            * client.flight.sent.len() <= client.target_lt.nanos ==> client.can_send(),
{
    let spans = client.flight.lat.adjusted;
    let n = client.flight.sent.len();
    let mean = half_mean(spans);
    if forall|i: int| 0 <= i < spans.len() ==> (#[trigger] spans[i]).nanos >= 2 * lat {
        half_mean_at_least(spans, 2 * lat);
        assert(mean * n >= lat * n) by (nonlinear_arith)
            requires
                mean >= lat,
        ;
    }
    if forall|i: int| 0 <= i < spans.len() ==> (#[trigger] spans[i]).nanos <= 2 * lat {
        half_mean_bounded(spans, 2 * lat);
        assert(mean * n <= lat * n) by (nonlinear_arith)
            requires
                mean <= lat,
        ;
    }
}

/// As `client_limit`, of the server, by the unadjusted round trips.
pub proof fn server_limit(server: OutState)
    requires
        server.flight.sent.len() < 0x1_0000_0000,
    ensures
        server.has_room() <==> half_mean(server.flight.lat.last) * server.flight.sent.len()
            <= server.target_lt.nanos,
{
}

/// As `client_limit_by_round_trips`, of the server.
pub proof fn server_limit_by_round_trips(server: OutState, lat: nat)
    requires
        server.flight.sent.len() < 0x1_0000_0000,
        0 < server.flight.lat.last.len() < 0x1_0000_0000,
        total(server.flight.lat.last) <= u128::MAX,
    ensures
        (forall|i: int|
            0 <= i < server.flight.lat.last.len() ==> (
            #[trigger] server.flight.lat.last[i]).nanos >= 2 * lat) && lat
            * server.flight.sent.len() > server.target_lt.nanos ==> !server.has_room(),
        (forall|i: int|
            0 <= i < server.flight.lat.last.len() ==> (
            #[trigger] server.flight.lat.last[i]).nanos <= 2 * lat) && lat
            * server.flight.sent.len() <= server.target_lt.nanos ==> server.has_room(),
{
    let spans = server.flight.lat.last;
    let n = server.flight.sent.len();
    let mean = half_mean(spans);
    if forall|i: int| 0 <= i < spans.len() ==> (#[trigger] spans[i]).nanos >= 2 * lat {
        half_mean_at_least(spans, 2 * lat);
        assert(mean * n >= lat * n) by (nonlinear_arith)
            requires
                mean >= lat,
        ;
    }
    if forall|i: int| 0 <= i < spans.len() ==> (#[trigger] spans[i]).nanos <= 2 * lat {
        half_mean_bounded(spans, 2 * lat);
        assert(mean * n <= lat * n) by (nonlinear_arith)
            requires
                mean <= lat,
        ;
    }
}

/// A client once it has sent messages at some times, with nothing coming back.
pub open spec fn sent_all(client: ClientState, times: Seq<Instant>) -> ClientState
    decreases times.len(),
{
    if times.len() == 0 {
        client
    } else {
        sent_all(client, times.drop_last()).sent(times.last())
    }
}

/// A client that sends on without anything coming back is stopped: at the
/// latest once it has sent more messages than fit the time allowed, at the mean
/// time for one way each. The messages on their way are then those there were
/// and all it sent.
pub proof fn sending_on_is_stopped(client: ClientState, times: Seq<Instant>)
    requires
        client.flight.sent.len() + times.len() < 0x1_0000_0000,
    ensures
        sent_all(client, times).flight.sent.len() == client.flight.sent.len() + times.len(),
        half_mean(client.flight.lat.adjusted) * (client.flight.sent.len() + times.len())
            > client.target_lt.nanos ==> !sent_all(client, times).can_send(),
        half_mean(client.flight.lat.adjusted) > 0 && times.len() > client.target_lt.nanos
            ==> !sent_all(client, times).can_send(),
{
    sent_all_keeps(client, times);
    let mean = half_mean(client.flight.lat.adjusted);
    let n = client.flight.sent.len() + times.len();
    if mean > 0 && times.len() > client.target_lt.nanos {
        assert(mean * n >= n) by (nonlinear_arith)
            requires
                mean > 0,
        ;
    }
}

proof fn sent_all_keeps(client: ClientState, times: Seq<Instant>)
    ensures
        sent_all(client, times).flight.sent.len() == client.flight.sent.len() + times.len(),
        sent_all(client, times).flight.lat == client.flight.lat,
        sent_all(client, times).target_lt == client.target_lt,
    decreases times.len(),
{
    if times.len() > 0 {
        sent_all_keeps(client, times.drop_last());
    }
}

/// The latency reported after an acknowledgement is half the mean of the full
/// round trips, in whole milliseconds: those in the window, but for the oldest
/// where the window was full, and that of the message which is acknowledged,
/// from when it was sent. When other acknowledgements came plays no part.
pub proof fn reported_latency(
    flight: Flight,
    figures: Figures,
    ack: Seq<u8>,
    now: Instant,
    at: int,
)
    requires
        flight.consecutive(),
        flight.sent.len() <= INDICES,
        0 <= at < flight.sent.len(),
        ack_of(ack) == Some(flight.sent[at].0 as nat),
        flight.sent[at].1.nanos <= now.nanos,
        0 < flight.lat.period < 0x1_0000_0000,
        flight.lat.last.len() <= flight.lat.period,
        total(flight.lat.last) + now.nanos <= u128::MAX,
    ensures
        ({
            let full = flight.lat.last.len() == flight.lat.period;
            let oldest = if full {
                flight.lat.last[0].nanos as int
            } else {
                0
            };
            let n = if full {
                flight.lat.last.len() as int
            } else {
                flight.lat.last.len() as int + 1
            };
            let sum = total(flight.lat.last) - oldest + (now.nanos - flight.sent[at].1.nanos);
            let figure = flight.figures_acked(figures, ack, now).avg_lat;
            sum < 2_000_000 * n * 0x1_0000 ==> {
                &&& 2_000_000 * n * figure <= sum
                &&& sum < 2_000_000 * n * (figure + 1)
            }
        }),
{
    ack_settles_prefix(flight, ack, now, at);
    let index = flight.sent[at].0;
    assert(index != 0 && position(flight.sent, index) is Some) by {
        reveal(Flight::consecutive);
        position_is_first(flight.sent, index);
    }
    let trip = LatWindow::elapsed(flight.sent[at].1, now);
    let last = flight.lat.last;
    let after = flight.acked(ack, now).lat.last;
    let full = last.len() == flight.lat.period;
    let kept = if full {
        last.drop_first()
    } else {
        last
    };
    assert(after =~= kept + seq![trip]);
    totals_add_up(kept, seq![trip], trip);
    if full {
        totals_add_up(seq![last[0]], last.drop_first(), last[0]);
        assert(seq![last[0]] + last.drop_first() =~= last);
    }
    half_mean_rounds_down(after);
    let n = after.len() as int;
    let sum = total(after) as int;
    let half = half_mean(after) as int;
    let whole = half / 1_000_000;
    if sum < 2_000_000 * n * 0x1_0000 {
        assert(whole < 0x1_0000) by (nonlinear_arith)
            requires
                2 * n * half <= sum,
                sum < 2_000_000 * n * 0x1_0000,
                n > 0,
                1_000_000 * whole <= half,
        ;
        assert(2_000_000 * n * whole <= sum && sum < 2_000_000 * n * (whole + 1))
            by (nonlinear_arith)
            requires
                2 * n * half <= sum,
                sum < 2 * n * (half + 1),
                n > 0,
                1_000_000 * whole <= half,
                half + 1 <= 1_000_000 * (whole + 1),
        ;
    }
}

/// Where all round trips took `trip`, the latency reported is half of that, in
/// whole milliseconds, whatever the acknowledgements before.
pub proof fn reported_latency_of_equal_trips(
    flight: Flight,
    figures: Figures,
    ack: Seq<u8>,
    now: Instant,
    at: int,
    trip: nat,
)
    requires
        flight.consecutive(),
        flight.sent.len() <= INDICES,
        0 <= at < flight.sent.len(),
        ack_of(ack) == Some(flight.sent[at].0 as nat),
        now.nanos == flight.sent[at].1.nanos + trip,
        0 < flight.lat.period < 0x1_0000_0000,
        flight.lat.last.len() <= flight.lat.period,
        forall|i: int|
            0 <= i < flight.lat.last.len() ==> (#[trigger] flight.lat.last[i]).nanos == trip,
        trip < 2_000_000 * 0x1_0000,
    ensures
        flight.figures_acked(figures, ack, now).avg_lat == trip / 2_000_000,
{
    ack_settles_prefix(flight, ack, now, at);
    let index = flight.sent[at].0;
    assert(index != 0 && position(flight.sent, index) is Some) by {
        reveal(Flight::consecutive);
        position_is_first(flight.sent, index);
    }
    let after = flight.acked(ack, now).lat.last;
    assert forall|i: int| 0 <= i < after.len() implies (#[trigger] after[i]).nanos == trip by {
        let pushed = flight.lat.last.push(LatWindow::elapsed(flight.sent[at].1, now));
        assert(after[i] == pushed[pushed.len() - after.len() + i]);
    }
    equal_total(after, trip);
    let n = after.len();
    assert(n * trip <= u128::MAX) by (nonlinear_arith)
        requires
            n <= 0x1_0000_0000,
            trip < 2_000_000 * 0x1_0000,
    ;
    half_mean_at_least(after, trip);
    half_mean_bounded(after, trip);
}

proof fn equal_total(spans: Seq<crate::time::Duration>, each: nat)
    requires
        forall|i: int| 0 <= i < spans.len() ==> (#[trigger] spans[i]).nanos == each,
    ensures
        total(spans) == spans.len() * each,
    decreases spans.len(),
{
    if spans.len() > 0 {
        equal_total(spans.drop_last(), each);
        assert(spans.len() * each == (spans.len() - 1) * each + each) by (nonlinear_arith);
    }
}

/// The client waits for an acknowledgement for sixteen times its mean latency,
/// and for no less than 116 milliseconds; the server for no less than 23.2
/// milliseconds while a message is on its way, for an hour while there is none,
/// and once there will be none for 1314 million seconds.
pub proof fn waits_in_nanoseconds(
    client: ClientState,
    server: OutState,
    frame: Frame,
    now: Instant,
    sent_at: Instant,
)
    requires
        now.nanos + 16 * half_mean(client.flight.lat.last) <= u128::MAX,
        now.nanos + 16 * half_mean(server.flight.lat.last) <= u128::MAX,
        now.nanos + 1_314_000_000_000_000_000 <= u128::MAX,
    ensures
        ({
            let wait = client.timeout_from(now).nanos - now.nanos;
            let lat = half_mean(client.flight.lat.last);
            &&& wait >= 116_000_000
            &&& wait >= 16 * lat
            &&& wait == 116_000_000 || wait == 16 * lat
        }),
        ({
            let item = Next::Looked(Polled::Item(frame));
            let wait = server.answered(item, now, sent_at).timeout.nanos - now.nanos;
            let lat = half_mean(server.flight.lat.last);
            &&& wait >= 23_200_000
            &&& wait >= 16 * lat
            &&& wait == 23_200_000 || wait == 16 * lat
        }),
        server.answered(Next::Held, now, sent_at).timeout.nanos == now.nanos + 3_600_000_000_000,
        server.answered(Next::Looked(Polled::Empty), now, sent_at).timeout.nanos == now.nanos
            + 3_600_000_000_000,
        server.answered(Next::Looked(Polled::Closed), now, sent_at).timeout.nanos == now.nanos
            + 1_314_000_000_000_000_000,
{
}

/// The characteristics that a client picks: one of each kind, and no other of
/// either kind before the later of them. Where it picks none, there are no such
/// two: of any two of different kinds, one stands behind two of one kind.
pub proof fn channels_are_the_first(uuids: Seq<u128>, i: int)
    ensures
        match channels_in(uuids) {
            Some((from, to)) => {
                &&& from < uuids.len() && uuids[from as int] == SERV_OUT
                &&& to < uuids.len() && uuids[to as int] == SERV_IN
                &&& 0 <= i < uuids.len() && i != from && i != to && (i < from || i < to)
                    ==> uuids[i] != SERV_IN && uuids[i] != SERV_OUT
            },
            None => {
                let first = next_channel(uuids, 0);
                let second = next_channel(uuids, first + 1);
                second < uuids.len() ==> uuids[first as int] == uuids[second as int]
            },
        },
        next_channel(uuids, 0) <= uuids.len(),
        0 <= i < next_channel(uuids, 0) ==> uuids[i] != SERV_IN && uuids[i] != SERV_OUT,
        next_channel(uuids, 0) < i < next_channel(uuids, next_channel(uuids, 0) + 1) && i
            < uuids.len() ==> uuids[i] != SERV_IN && uuids[i] != SERV_OUT,
{
    let first = next_channel(uuids, 0);
    next_channel_is_first(uuids, 0, i);
    next_channel_is_first(uuids, first + 1, i);
}

proof fn next_channel_is_first(uuids: Seq<u128>, from: nat, i: int)
    ensures
        ({
            let at = next_channel(uuids, from);
            &&& at <= uuids.len()
            &&& at < uuids.len() ==> at >= from && (uuids[at as int] == SERV_IN
                || uuids[at as int] == SERV_OUT)
            &&& from <= i < at ==> uuids[i] != SERV_IN && uuids[i] != SERV_OUT
        }),
    decreases uuids.len() - from,
{
    if from < uuids.len() && uuids[from as int] != SERV_IN && uuids[from as int] != SERV_OUT {
        next_channel_is_first(uuids, from + 1, i);
    }
}

/// The client takes every value that holds an index or a message, and passes
/// over those that are too short for an index and the four zero bytes.
pub proof fn client_takes_all_that_say_something(bytes: Seq<u8>)
    ensures
        bytes.len() < 4 ==> !client_takes(bytes),
        bytes.len() > 4 ==> client_takes(bytes),
        bytes.len() == 4 ==> (client_takes(bytes) <==> bytes[0] != 0 || bytes[1] != 0 || bytes[2]
            != 0 || bytes[3] != 0),
{
    if bytes.len() == 4 && bytes[0] == 0 && bytes[1] == 0 && bytes[2] == 0 && bytes[3] == 0 {
        assert(bytes =~= blank_header());
    }
}

/// A message that is sent joins those on their way as the last one, from the
/// moment at which it was sent, and changes nothing of those before it nor of
/// the latencies. Its index is the next one.
pub proof fn sent_message_joins(
    client: ClientState,
    server: OutState,
    frame: Frame,
    now: Instant,
    sent_at: Instant,
)
    ensures
        ({
            let after = client.sent(now).flight;
            &&& after.sent == client.flight.sent + seq![(client.flight.next(), now)]
            &&& after.lat == client.flight.lat
            &&& client.sent(now).target_lt == client.target_lt
        }),
        ({
            let item = Next::Looked(Polled::Item(frame));
            let after = server.answered(item, now, sent_at).flight;
            &&& after.sent == server.flight.sent + seq![(server.flight.next(), sent_at)]
            &&& after.lat == server.flight.lat
            &&& server.answered(item, now, sent_at).target_lt == server.target_lt
        }),
{
    assert(client.sent(now).flight.sent =~= client.flight.sent + seq![
        (client.flight.next(), now),
    ]);
    let item = Next::Looked(Polled::Item(frame));
    assert(server.answered(item, now, sent_at).flight.sent =~= server.flight.sent + seq![
        (server.flight.next(), sent_at),
    ]);
}

/// An acknowledgement gives one more round trip: the time from when its message
/// was sent to when it came. It leaves on their way the messages sent behind
/// that one, in their order.
pub proof fn ack_measures_its_message(flight: Flight, ack: Seq<u8>, now: Instant, at: int, i: int)
    requires
        flight.consecutive(),
        flight.sent.len() <= INDICES,
        0 <= at < flight.sent.len(),
        ack_of(ack) == Some(flight.sent[at].0 as nat),
        flight.sent[at].1.nanos <= now.nanos,
        flight.lat.period > 0,
    ensures
        ({
            let after = flight.acked(ack, now);
            &&& after.lat.last.len() > 0
            &&& after.lat.last.last().nanos == now.nanos - flight.sent[at].1.nanos
            &&& after.lat.last_inst == now
            &&& after.sent.len() == flight.sent.len() - at - 1
            &&& 0 <= i < after.sent.len() ==> after.sent[i] == flight.sent[at + 1 + i]
        }),
{
    ack_settles_prefix(flight, ack, now, at);
}

/// Bytes that acknowledge no message on its way change nothing and count
/// nothing, unless they give up all of them.
pub proof fn other_bytes_change_nothing(
    flight: Flight,
    figures: Figures,
    bytes: Seq<u8>,
    now: Instant,
)
    requires
        ack_of(bytes) != Some(0nat),
        forall|i: int|
            0 <= i < flight.sent.len() ==> ack_of(bytes) != Some(
                (#[trigger] flight.sent[i]).0 as nat,
            ),
    ensures
        flight.acked(bytes, now) == flight,
        flight.figures_acked(figures, bytes, now) == figures,
{
    if let Some(index) = ack_of(bytes) {
        le_value4_spelled_out(bytes);
        position_is_first(flight.sent, index as u32);
    }
}

} // verus!
