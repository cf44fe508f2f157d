//! What holds of the two sides of the timing protocol together.
use vstd::prelude::*;

#[allow(unused_imports)]
use crate::bytes::{
    le_bytes2, le_bytes4, le_bytes8, le_round_trip2, le_round_trip4, le_round_trip8, le_value2,
    le_value2_spelled_out, le_value4_spelled_out, le_value8, le_value8_spelled_out,
};
#[allow(unused_imports)]
use crate::time::{Duration, Instant};
#[allow(unused_imports)]
use crate::timing::client::{told, Phase as ClientPhase};
#[allow(unused_imports)]
use crate::timing::server::{
    agrees, estimate, micros_between, ref_time_at, time_since, Phase as ServerPhase, RefClock,
};
#[allow(unused_imports)]
use crate::timing::{distance64, within_increment, INCREMENT_MICROS};

verus! {

/// Both sides count the same number of requests, so that the server answers
/// the number that the client waits for.
pub open spec fn in_step(client: ClientPhase, server: ServerPhase) -> bool {
    &&& client is GettingCI
    &&& server is ClientInit
    &&& client->GettingCI_insts.len() == server->ClientInit_insts.len()
    &&& 0 < client->GettingCI_insts.len() <= 0x1_0000
}

/// What the client writes when it begins is answered as begun, at the latest
/// the second time, wherever the server stands.
pub proof fn begin_reaches_server(
    server: ServerPhase,
    grace1: Duration,
    grace2: Duration,
    client_now: Instant,
    first: Instant,
    second: Instant,
)
    requires
        server !is Finishing,
    ensures
        ({
            let bytes = ClientPhase::begin(client_now).write->0;
            let begun = server.written(bytes, grace1, first);
            &&& server is Waiting || server is BeginReq ==> begun is BeginReq
            &&& begun.written(bytes, grace2, second) is BeginReq
        }),
{
}

/// Once the server has answered that it has begun, the first request of the
/// client brings the two in step.
pub proof fn first_request_in_step(
    begun: Instant,
    start: Instant,
    grace: Duration,
    seen: Instant,
    now: Instant,
    server_grace: Duration,
    server_now: Instant,
)
    ensures
        ({
            let to = ClientPhase::ClientInit(begun).notified(
                ServerPhase::BeginReq.answer(),
                start,
                grace,
                seen,
                now,
            );
            let server = ServerPhase::BeginReq.written(to.write->0, server_grace, server_now);
            &&& to.write is Some
            &&& in_step(to.phase, server)
        }),
{
}

/// The first request of a measurement that the client begins over brings the
/// two in step again, however far they were apart.
pub proof fn restart_in_step(
    est_ci: Duration,
    now: Instant,
    server: ServerPhase,
    grace: Duration,
    server_now: Instant,
)
    requires
        server is ClientInit,
        server.wf(),
    ensures
        ({
            let to = ClientPhase::begin_ci(est_ci, now);
            in_step(to.phase, server.written(to.write->0, grace, server_now))
        }),
{
    let bytes = ClientPhase::begin_ci(est_ci, now).write->0;
    assert(le_value2(bytes.subrange(1, 3)) == 0);
}

/// What the server answers in step is the number that the client waits for:
/// unless it comes too late, it gives a new estimate. While the estimate has
/// not settled, the next request keeps the two in step if it comes in time.
pub proof fn rounds_stay_in_step(
    client: ClientPhase,
    server: ServerPhase,
    start: Instant,
    grace: Duration,
    seen: Instant,
    now: Instant,
    server_grace: Duration,
    server_now: Instant,
)
    requires
        client.wf(),
        in_step(client, server),
        client->GettingCI_insts.len() < 0x1_0000,
        client->GettingCI_insts.last().nanos + grace.nanos >= seen.nanos,
        server->ClientInit_insts.last().nanos + server_grace.nanos >= server_now.nanos,
    ensures
        ({
            let to = client.notified(server.answer(), start, grace, seen, now);
            let insts = client->GettingCI_insts;
            &&& to.write is Some
            &&& to.phase.grace_base() == estimate(insts[0], seen, insts.len())
            &&& to.phase is GettingCI || to.phase is Agreeing
            &&& to.phase is GettingCI ==> in_step(
                to.phase,
                server.written(to.write->0, server_grace, server_now),
            )
        }),
{
    let number = (server->ClientInit_insts.len() - 1) as nat;
    le_round_trip2(number);
    assert(server.answer().subrange(1, 3) =~= le_bytes2(number));
    let to = client.notified(server.answer(), start, grace, seen, now);
    if to.phase is GettingCI {
        let len = client->GettingCI_insts.len();
        le_round_trip2(len);
        assert(to.write->0.subrange(1, 3) =~= le_bytes2(len));
    }
}

/// A client that sends its estimate sends it whole: the server agrees if its
/// own estimate is close, and then the client sends its time.
pub proof fn estimate_agreed(
    client: ClientPhase,
    server: ServerPhase,
    start: Instant,
    bytes: Seq<u8>,
    grace: Duration,
    seen: Instant,
    now: Instant,
    client_grace: Duration,
    later: Instant,
    last: Instant,
    server_grace: Duration,
    server_now: Instant,
)
    requires
        client is GettingCI,
        server is ClientInit,
        client.notified(bytes, start, grace, seen, now).phase is Agreeing,
    ensures
        ({
            let to = client.notified(bytes, start, grace, seen, now);
            let ci = to.phase->Agreeing_att_ci;
            let agreed = server.written(to.write->0, server_grace, server_now);
            &&& ci == to.phase->Agreeing_est_ci.nanos / 1_000 % 0x1_0000_0000
            &&& if agrees(server->ClientInit_est_ci.nanos as nat / 1_000, ci as nat) {
                &&& agreed == ServerPhase::Agreeing(ci)
                &&& to.phase.notified(agreed.answer(), start, client_grace, later, last)
                    == ClientPhase::set_time(ci, start, later)
            } else {
                agreed is ClientInit
            }
        }),
{
    let to = client.notified(bytes, start, grace, seen, now);
    let ci = to.phase->Agreeing_att_ci;
    le_round_trip4(ci as nat);
    assert(to.write->0.subrange(1, 5) =~= le_bytes4(ci as nat));
}

proof fn distance_of_remainder(a: int, b: int, c: int)
    requires
        c == b % 0x1_0000_0000_0000_0000,
    ensures
        distance64(a, c) == distance64(a, b),
{
    let m = 0x1_0000_0000_0000_0000int;
    assert(b == m * (b / m) + c);
    vstd::arithmetic::div_mod::lemma_mod_multiples_vanish(b / m, a - b, m);
    vstd::arithmetic::div_mod::lemma_mod_multiples_vanish(-(b / m), b - a, m);
    assert(m * -(b / m) == -(m * (b / m))) by (nonlinear_arith);
}

proof fn tagged_time_read(code: u8, time: nat)
    requires
        time < 0x1_0000_0000_0000_0000,
    ensures
        ({
            let bytes = seq![code] + le_bytes8(time);
            &&& bytes.len() == 9
            &&& bytes[0] == code
            &&& le_value8(bytes.subrange(1, 9)) == time
        }),
{
    le_round_trip8(time);
    assert((seq![code] + le_bytes8(time)).subrange(1, 9) =~= le_bytes8(time));
}

/// The time that the client sends becomes the reference time of the server,
/// from when it arrives, and the server answers it with the interval added.
/// The client is done if and only if its own time is then no more than a step
/// off, that is if the two ways took twice the interval.
#[verifier::rlimit(40)]
pub proof fn time_is_set(
    ci: u32,
    start: Instant,
    sent_at: Instant,
    clock: RefClock,
    server_grace: Duration,
    arrived_at: Instant,
    grace: Duration,
    seen: Instant,
    now: Instant,
)
    ensures
        ({
            let to = ClientPhase::set_time(ci, start, sent_at);
            let server = ServerPhase::Agreeing(ci);
            let bytes = to.write->0;
            let time = (time_since(start, sent_at) + ci as nat) % 0x1_0000_0000_0000_0000;
            let set = server.clock_written(clock, bytes, arrived_at);
            let finishing = server.written(bytes, server_grace, arrived_at);
            let end = to.phase.notified(finishing.answer(), start, grace, seen, now);
            &&& server.accepts(bytes)
            &&& ref_time_at(set.time, set.start, arrived_at) == time
            &&& finishing is Finishing
            &&& finishing.answered() is Waiting
            &&& end.done <==> distance64(
                time_since(start, seen) as int,
                time_since(start, sent_at) + 2 * ci,
            ) <= INCREMENT_MICROS
            &&& end.done ==> end.phase is Waiting
            &&& !end.done ==> end.phase == ClientPhase::ClientInit(now)
        }),
{
    let time = (time_since(start, sent_at) + ci as nat) % 0x1_0000_0000_0000_0000;
    let reply = (time + ci as nat) % 0x1_0000_0000_0000_0000;
    let bytes = seq![0x03u8] + le_bytes8(time);
    time_is_taken(ci, time, clock, server_grace, arrived_at);
    reply_is_compared(ci, sent_at, reply, start, grace, seen, now);
    remainder_of_sum(time_since(start, sent_at) as int, ci as int);
    distance_of_remainder(
        time_since(start, seen) as int,
        time_since(start, sent_at) + 2 * ci,
        reply as int,
    );
    let to = ClientPhase::set_time(ci, start, sent_at);
    assert(to.write == Some(bytes));
    assert(to.phase == (ClientPhase::ClientSetTime { att_ci: ci, since: sent_at }));
}

proof fn remainder_of_sum(x: int, ci: int)
    ensures
        ((x + ci) % 0x1_0000_0000_0000_0000 + ci) % 0x1_0000_0000_0000_0000 == (x + 2 * ci)
            % 0x1_0000_0000_0000_0000,
{
    let m = 0x1_0000_0000_0000_0000int;
    vstd::arithmetic::div_mod::lemma_add_mod_noop_right(ci, x + ci, m);
}

proof fn time_is_taken(ci: u32, time: nat, clock: RefClock, grace: Duration, now: Instant)
    requires
        time < 0x1_0000_0000_0000_0000,
    ensures
        ({
            let server = ServerPhase::Agreeing(ci);
            let bytes = seq![0x03u8] + le_bytes8(time);
            let reply = (time + ci as nat) % 0x1_0000_0000_0000_0000;
            &&& server.accepts(bytes)
            &&& server.clock_written(clock, bytes, now) == (RefClock {
                time: time as u64,
                start: now,
            })
            &&& server.written(bytes, grace, now) == ServerPhase::Finishing(reply as u64)
            &&& ref_time_at(time as u64, now, now) == time
        }),
{
    tagged_time_read(0x03, time);
}

proof fn reply_is_compared(
    ci: u32,
    since: Instant,
    reply: nat,
    start: Instant,
    grace: Duration,
    seen: Instant,
    now: Instant,
)
    requires
        reply < 0x1_0000_0000_0000_0000,
    ensures
        (ClientPhase::ClientSetTime { att_ci: ci, since }).notified(
            ServerPhase::Finishing(reply as u64).answer(),
            start,
            grace,
            seen,
            now,
        ) == ClientPhase::compare_time(reply, start, seen, now),
{
    tagged_time_read(0x83, reply);
}

/// The server takes whatever the client writes, unless it has an answer to
/// give first.
pub proof fn client_writes_taken(
    client: ClientPhase,
    start: Instant,
    bytes: Seq<u8>,
    grace: Duration,
    seen: Instant,
    now: Instant,
    server: ServerPhase,
)
    requires
        client.wf(),
        server !is Finishing,
    ensures
        client.notified(bytes, start, grace, seen, now).write matches Some(out)
            ==> server.accepts(out),
        client.timed_out(now).write matches Some(out) ==> server.accepts(out),
        client.asked(grace, now).write matches Some(out) ==> server.accepts(out),
{
    if let Some(out) = client.notified(bytes, start, grace, seen, now).write {
        if let ClientPhase::Agreeing { att_ci, .. } = client {
            le_round_trip8(
                (time_since(start, seen) + att_ci as nat) % 0x1_0000_0000_0000_0000,
            );
        }
    }
}

/// The client takes whatever the server answers, unless the client is at rest
/// and the server is not.
pub proof fn server_answers_taken(client: ClientPhase, server: ServerPhase)
    requires
        client !is Waiting || server is Waiting,
    ensures
        client.accepts(server.answer()),
{
}

/// The reference time is what it was set to at that moment, and goes on by the
/// microseconds that pass, as long as it fits 64 bits.
pub proof fn ref_time_goes_on(time: u64, start: Instant, now: Instant)
    requires
        start.nanos <= now.nanos,
        time + (now.nanos - start.nanos) / 1_000 < 0x1_0000_0000_0000_0000,
    ensures
        ref_time_at(time, start, start) == time,
        ref_time_at(time, start, now) == time + (now.nanos - start.nanos) / 1_000,
{
}

/// Whoever shares a reference clock: a reading depends on the last time that it
/// was set, and on none before, and it is what the clock was set to and the
/// microseconds since. Where it was never set, it is what it started with.
pub proof fn last_update_counts(clock: RefClock, updates: Seq<(u64, Instant)>, now: Instant)
    ensures
        ({
            let (time, start) = if updates.len() == 0 {
                (clock.time, clock.start)
            } else {
                updates.last()
            };
            let set = clock.updated(updates);
            let elapsed = (now.nanos - start.nanos) / 1_000;
            &&& set == (RefClock { time, start })
            &&& start.nanos <= now.nanos && time + elapsed < 0x1_0000_0000_0000_0000
                ==> ref_time_at(set.time, set.start, now) == time + elapsed
        }),
{
    let set = clock.updated(updates);
    let elapsed = (now.nanos - set.start.nanos) / 1_000;
    if set.start.nanos <= now.nanos && set.time + elapsed < 0x1_0000_0000_0000_0000 {
        ref_time_goes_on(set.time, set.start, now);
    }
}

/// To set a reference clock some times and then some times more is to set it
/// all those times.
pub proof fn updates_compose(
    clock: RefClock,
    first: Seq<(u64, Instant)>,
    more: Seq<(u64, Instant)>,
)
    ensures
        clock.updated(first).updated(more) == clock.updated(first + more),
    decreases more.len(),
{
    if more.len() > 0 {
        updates_compose(clock, first, more.drop_last());
        assert((first + more).drop_last() =~= first + more.drop_last());
    } else {
        assert(first + more =~= first);
    }
}

/// While it is not set, a reference clock never goes back, as long as it fits
/// 64 bits.
pub proof fn ref_time_never_decreases(
    time: u64,
    start: Instant,
    earlier: Instant,
    later: Instant,
)
    requires
        earlier.nanos <= later.nanos,
        time + micros_between(start, later) < 0x1_0000_0000_0000_0000,
    ensures
        ref_time_at(time, start, earlier) <= ref_time_at(time, start, later),
{
}

/// Whatever is going on, the client begins again when nothing comes in time,
/// and it is done only with the answer to its time.
pub proof fn client_never_stuck(
    client: ClientPhase,
    start: Instant,
    bytes: Seq<u8>,
    grace: Duration,
    seen: Instant,
    now: Instant,
)
    requires
        client !is Waiting,
    ensures
        client.timed_out(now) == ClientPhase::begin(now),
        client.notified(bytes, start, grace, seen, now).phase !is Waiting
            || client.notified(bytes, start, grace, seen, now).done,
        client.notified(bytes, start, grace, seen, now).done ==> client is ClientSetTime
            && bytes[0] == 0x83,
{
}

/// Whether two estimates, in whole microseconds, lie less than 1250 of them
/// apart, the one above or below the other.
pub open spec fn close(a: Duration, b: Duration) -> bool {
    -1250 < a.nanos as int / 1_000 - b.nanos as int / 1_000 < 1250
}

/// Estimates of less than 2^63 microseconds are told apart by their distance
/// alone, whichever is the longer.
pub proof fn increment_is_distance(a: Duration, b: Duration)
    requires
        a.nanos as int / 1_000 < 0x8000_0000_0000_0000,
        b.nanos as int / 1_000 < 0x8000_0000_0000_0000,
    ensures
        within_increment(a, b) <==> close(a, b),
{
    distance_is_absolute(a.nanos as int / 1_000, b.nanos as int / 1_000);
}

/// The distance of two numbers that lie no more than 2^63 apart is the
/// difference of the greater and the lesser.
pub proof fn distance_is_absolute(a: int, b: int)
    requires
        -0x8000_0000_0000_0000 <= a - b <= 0x8000_0000_0000_0000,
    ensures
        a >= b ==> distance64(a, b) == a - b,
        a <= b ==> distance64(a, b) == b - a,
{
}

/// The server agrees with an interval if it lies less than 1250 microseconds
/// above or below its own, both below 2^31.
pub proof fn agreement_is_distance(ours: nat, theirs: nat)
    requires
        ours < 0x8000_0000,
        theirs < 0x8000_0000,
    ensures
        agrees(ours, theirs) <==> -1250 < theirs - ours < 1250,
{
}

/// Twice the estimate, once for each round trip, is the time that passed, but
/// for what rounding to whole nanoseconds takes off.
pub proof fn estimate_rounds_down(first: Instant, now: Instant, n: nat)
    requires
        n > 0,
        first.nanos <= now.nanos,
    ensures
        2 * n * estimate(first, now, n).nanos <= now.nanos - first.nanos,
        now.nanos - first.nanos < 2 * n * (estimate(first, now, n).nanos + 1),
{
    let span = now.nanos - first.nanos;
    let len = n as int;
    let mean = span / len;
    let half = mean / 2;
    vstd::arithmetic::div_mod::lemma_fundamental_div_mod(span, len);
    vstd::arithmetic::div_mod::lemma_mod_bound(span, len);
    let rest = span % len;
    assert(0 <= half && 2 * len * half <= span && span < 2 * len * (half + 1))
        by (nonlinear_arith)
        requires
            span == len * mean + rest,
            0 <= rest < len,
            span >= 0,
            half == mean / 2,
            len > 0,
    ;
    assert(half <= span) by (nonlinear_arith)
        requires
            2 * len * half <= span,
            half >= 0,
            len > 0,
    ;
    assert(estimate(first, now, n).nanos == half);
}

/// What one notification makes of the count of estimates that hardly changed:
/// it goes up by one where the new estimate is close to the old one, and to zero
/// otherwise. The third one in a row, and no other, makes the client send its
/// estimate.
pub proof fn round_counts(
    client: ClientPhase,
    bytes: Seq<u8>,
    start: Instant,
    grace: Duration,
    seen: Instant,
    now: Instant,
)
    requires
        client is GettingCI,
        client.wf(),
        bytes.len() > 0,
        client.grace_base().nanos as int / 1_000 < 0x8000_0000_0000_0000,
        seen.nanos as int / 1_000 < 0x8000_0000_0000_0000,
    ensures
        ({
            let to = client.notified(bytes, start, grace, seen, now).phase;
            let insts = client->GettingCI_insts;
            let count = client->GettingCI_last_change;
            &&& to is GettingCI && to->GettingCI_insts.len() == insts.len() + 1 ==> {
                &&& to->GettingCI_insts == insts.push(seen)
                &&& close(to.grace_base(), client.grace_base()) ==> to->GettingCI_last_change
                    == count + 1
                &&& !close(to.grace_base(), client.grace_base()) ==> to->GettingCI_last_change == 0
            }
            &&& to is Agreeing ==> count == 2 && close(to.grace_base(), client.grace_base())
            &&& to is GettingCI && to->GettingCI_last_change > 0 ==> {
                &&& to->GettingCI_last_change == count + 1
                &&& close(to.grace_base(), client.grace_base())
            }
        }),
{
    let insts = client->GettingCI_insts;
    estimate_within(insts[0], seen, insts.len());
    increment_is_distance(client.grace_base(), estimate(insts[0], seen, insts.len()));
}

proof fn estimate_within(first: Instant, now: Instant, n: nat)
    requires
        n > 0,
    ensures
        estimate(first, now, n).nanos <= now.nanos,
{
    if first.nanos <= now.nanos {
        estimate_rounds_down(first, now, n);
        let est = estimate(first, now, n).nanos as int;
        assert(est <= 2 * n * est) by (nonlinear_arith)
            requires
                n > 0,
                est >= 0,
        ;
    } else {
        let len = n as int;
        assert(0int / len == 0) by (nonlinear_arith)
            requires
                len > 0,
        ;
    }
}

/// Whether a value from the server takes the client from one phase to another.
/// The value may be any but an empty one, and may come at any time.
pub open spec fn leads_to(start: Instant, from: ClientPhase, to: ClientPhase) -> bool {
    exists|bytes: Seq<u8>, grace: Duration, seen: Instant, now: Instant|
        bytes.len() > 0 && seen.nanos as int / 1_000 < 0x8000_0000_0000_0000 && to
            == (#[trigger] from.notified(bytes, start, grace, seen, now)).phase
}

/// The phases of a client that began with no measurement, one value from the
/// server after the other.
pub open spec fn history(start: Instant, phases: Seq<ClientPhase>) -> bool {
    &&& phases.len() > 0
    &&& phases[0] is Waiting || phases[0] is ClientInit
    &&& forall|i: int| 0 < i < phases.len() ==> #[trigger] follows_at(start, phases, i)
}

/// Whether the phase with the number `i` follows on the one before.
pub open spec fn follows_at(start: Instant, phases: Seq<ClientPhase>, i: int) -> bool {
    &&& phases[i - 1].wf()
    &&& phases[i - 1].grace_base().nanos as int / 1_000 < 0x8000_0000_0000_0000
    &&& leads_to(start, phases[i - 1], phases[i])
}

/// Whether the phase with the number `j` follows on a round, with an estimate
/// close to the one before.
pub open spec fn close_at(phases: Seq<ClientPhase>, j: int) -> bool {
    &&& 0 < j
    &&& phases[j - 1] is GettingCI
    &&& close(phases[j].grace_base(), phases[j - 1].grace_base())
}

/// The last `count` rounds up to the phase with the number `i` measured, and
/// each estimate was close to the one before.
pub open spec fn close_rounds(phases: Seq<ClientPhase>, i: int, count: int) -> bool {
    forall|j: int| i - count < j <= i ==> #[trigger] close_at(phases, j)
}

proof fn step_counts(start: Instant, from: ClientPhase, to: ClientPhase)
    requires
        leads_to(start, from, to),
        from.wf(),
        from.grace_base().nanos as int / 1_000 < 0x8000_0000_0000_0000,
    ensures
        to is GettingCI && to->GettingCI_last_change > 0 ==> {
            &&& from is GettingCI
            &&& to->GettingCI_last_change == from->GettingCI_last_change + 1
            &&& close(to.grace_base(), from.grace_base())
        },
        from is GettingCI && to is Agreeing ==> {
            &&& from->GettingCI_last_change == 2
            &&& close(to.grace_base(), from.grace_base())
        },
{
    let (bytes, grace, seen, now) = choose|
        bytes: Seq<u8>,
        grace: Duration,
        seen: Instant,
        now: Instant,
    |
        bytes.len() > 0 && seen.nanos as int / 1_000 < 0x8000_0000_0000_0000 && to
            == (#[trigger] from.notified(bytes, start, grace, seen, now)).phase;
    if from is GettingCI {
        round_counts(from, bytes, start, grace, seen, now);
    }
}

proof fn count_is_of_close_rounds(start: Instant, phases: Seq<ClientPhase>, i: int)
    requires
        history(start, phases),
        0 <= i < phases.len(),
    ensures
        phases[i] is GettingCI ==> close_rounds(
            phases,
            i,
            phases[i]->GettingCI_last_change as int,
        ),
    decreases i,
{
    if i > 0 && phases[i] is GettingCI && phases[i]->GettingCI_last_change > 0 {
        let count = phases[i]->GettingCI_last_change as int;
        count_is_of_close_rounds(start, phases, i - 1);
        assert(follows_at(start, phases, i));
        step_counts(start, phases[i - 1], phases[i]);
        assert(close_at(phases, i));
        assert(close_rounds(phases, i - 1, count - 1));
    }
}

/// A client that sends its estimate has measured it in three rounds in a row,
/// each of which gave an estimate less than 1250 microseconds above or below the
/// one before, whatever the server sent and whenever it came.
pub proof fn sent_estimate_has_settled(start: Instant, phases: Seq<ClientPhase>, n: int)
    requires
        history(start, phases),
        0 < n < phases.len(),
        phases[n] is Agreeing,
        phases[n - 1] is GettingCI,
    ensures
        n >= 3,
        phases[n - 1] is GettingCI && phases[n - 2] is GettingCI && phases[n - 3] is GettingCI,
        close(phases[n].grace_base(), phases[n - 1].grace_base()),
        close(phases[n - 1].grace_base(), phases[n - 2].grace_base()),
        close(phases[n - 2].grace_base(), phases[n - 3].grace_base()),
{
    assert(follows_at(start, phases, n));
    step_counts(start, phases[n - 1], phases[n]);
    count_is_of_close_rounds(start, phases, n - 1);
    assert(close_at(phases, n - 1));
    assert(close_at(phases, n - 2));
}

/// A number other than that of the last request makes the client measure from
/// the start, with the estimate it had. So does an answer that comes too late,
/// with an estimate of four seconds.
pub proof fn bad_answers_begin_over(
    client: ClientPhase,
    bytes: Seq<u8>,
    start: Instant,
    grace: Duration,
    seen: Instant,
    now: Instant,
)
    requires
        client is GettingCI,
        bytes.len() >= 3,
        bytes[0] == 0x81,
    ensures
        ({
            let to = client.notified(bytes, start, grace, seen, now);
            let insts = client->GettingCI_insts;
            let number = bytes[1] + 0x100 * bytes[2];
            let late = seen.nanos - insts.last().nanos > grace.nanos;
            &&& number != insts.len() - 1 || late ==> {
                &&& to.phase is GettingCI
                &&& to.phase->GettingCI_insts == seq![now]
                &&& to.phase->GettingCI_last_change == 0
                &&& to.write == Some(seq![0x01u8, 0x00u8, 0x00u8])
            }
            &&& number != insts.len() - 1 ==> to.phase.grace_base() == client.grace_base()
            &&& number == insts.len() - 1 && late ==> to.phase.grace_base().nanos
                == 4_000_000_000
            &&& number == insts.len() - 1 && !late ==> {
                &&& to.phase.grace_base() == estimate(insts[0], seen, insts.len())
                &&& to.phase is Agreeing || to.phase->GettingCI_insts == insts.push(seen)
            }
        }),
{
    le_value2_spelled_out(bytes.subrange(1, 3));
}

/// The server counts a request in its turn that comes in time, and estimates
/// the interval anew. Any other request begins the count over and leaves the
/// estimate.
pub proof fn server_counts_in_turn(
    server: ServerPhase,
    bytes: Seq<u8>,
    grace: Duration,
    now: Instant,
)
    requires
        server is ClientInit,
        server.wf(),
        bytes.len() >= 3,
        bytes[0] == 0x01,
    ensures
        ({
            let to = server.written(bytes, grace, now);
            let insts = server->ClientInit_insts;
            let number = bytes[1] + 0x100 * bytes[2];
            let late = now.nanos - insts.last().nanos > grace.nanos;
            &&& to is ClientInit
            &&& if number == insts.len() && !late {
                &&& to->ClientInit_insts == insts.push(now)
                &&& to->ClientInit_est_ci == estimate(insts[0], now, insts.len())
                &&& to.answer().len() == 3
                &&& number < 0x1_0000 ==> to.answer()[1] + 0x100 * to.answer()[2] == number
            } else {
                &&& to->ClientInit_insts == seq![now]
                &&& to->ClientInit_est_ci == server->ClientInit_est_ci
                &&& to.answer() == seq![0x81u8, 0x00u8, 0x00u8]
            }
        }),
{
    le_value2_spelled_out(bytes.subrange(1, 3));
    let to = server.written(bytes, grace, now);
    let number = (to->ClientInit_insts.len() - 1) as nat;
    assert(to.answer()[1] == number % 0x100);
    assert(to.answer()[2] == number / 0x100 % 0x100);
    if to->ClientInit_insts.len() == 1 {
        assert(to.answer() =~= seq![0x81u8, 0x00u8, 0x00u8]);
    }
}

/// The time that a client reads is the microseconds since it started, as long
/// as there are fewer than 2^64, and it never goes back.
pub proof fn client_time_goes_on(start: Instant, earlier: Instant, later: Instant)
    requires
        start.nanos <= earlier.nanos <= later.nanos,
        (later.nanos - start.nanos) / 1_000 < 0x1_0000_0000_0000_0000,
    ensures
        time_since(start, start) == 0,
        time_since(start, earlier) == (earlier.nanos - start.nanos) / 1_000,
        time_since(start, later) == (later.nanos - start.nanos) / 1_000,
        time_since(start, earlier) <= time_since(start, later),
{
}

/// The time that a client sends is the microseconds since it started and the
/// interval, in eight bytes, the lowest first.
pub proof fn sent_time_spelled_out(
    ci: u32,
    since: Instant,
    est_ci: Duration,
    start: Instant,
    grace: Duration,
    seen: Instant,
    now: Instant,
)
    requires
        start.nanos <= seen.nanos,
        (seen.nanos - start.nanos) / 1_000 + ci < 0x1_0000_0000_0000_0000,
    ensures
        ({
            let agreeing = ClientPhase::Agreeing { att_ci: ci, since, est_ci };
            let to = agreeing.notified(seq![0x82u8], start, grace, seen, now);
            let b = to.write->0;
            &&& to.write is Some
            &&& b.len() == 9
            &&& b[0] == 0x03
            &&& b[1] + 0x100 * b[2] + 0x1_0000 * b[3] + 0x100_0000 * b[4] + 0x1_0000_0000 * b[5]
                + 0x100_0000_0000 * b[6] + 0x1_0000_0000_0000 * b[7] + 0x100_0000_0000_0000 * b[8]
                == (seen.nanos - start.nanos) / 1_000 + ci
            &&& to.wait == crate::timing::client::Wait::For(
                Duration { nanos: (ci * 2_250) as u128 },
            )
        }),
{
    let agreeing = ClientPhase::Agreeing { att_ci: ci, since, est_ci };
    let to = agreeing.notified(seq![0x82u8], start, grace, seen, now);
    let time = ((seen.nanos - start.nanos) / 1_000 + ci) as nat;
    tagged_time_read(0x03, time);
    assert(to.write->0 == seq![0x03u8] + le_bytes8(time));
    let digits = to.write->0.subrange(1, 9);
    le_value8_spelled_out(digits);
}

/// The client is done with a reply if and only if the time in it is no more
/// than 1250 microseconds above or below its own.
pub proof fn reply_is_judged(
    att_ci: u32,
    since: Instant,
    bytes: Seq<u8>,
    start: Instant,
    grace: Duration,
    seen: Instant,
    now: Instant,
)
    requires
        bytes.len() >= 9,
        bytes[0] == 0x83,
        start.nanos <= seen.nanos,
        (seen.nanos - start.nanos) / 1_000 < 0x8000_0000_0000_0000,
        bytes[8] < 0x80,
    ensures
        ({
            let client = ClientPhase::ClientSetTime { att_ci, since };
            let to = client.notified(bytes, start, grace, seen, now);
            let ours = (seen.nanos - start.nanos) / 1_000;
            let theirs = bytes[1] + 0x100 * bytes[2] + 0x1_0000 * bytes[3] + 0x100_0000 * bytes[4]
                + 0x1_0000_0000 * bytes[5] + 0x100_0000_0000 * bytes[6] + 0x1_0000_0000_0000
                * bytes[7] + 0x100_0000_0000_0000 * bytes[8];
            &&& to.done <==> -1250 <= ours - theirs <= 1250
            &&& to.done ==> to.phase is Waiting && to.write is None
            &&& !to.done ==> to.phase == ClientPhase::ClientInit(now) && to.write == Some(
                seq![0x00u8],
            )
        }),
{
    let digits = bytes.subrange(1, 9);
    le_value8_spelled_out(digits);
    distance_is_absolute(
        time_since(start, seen) as int,
        le_value8(digits) as int,
    );
}

/// The time that a client waits runs out as the clock goes on, nanosecond by
/// nanosecond. It is eight seconds from when the client began, and `grace` from
/// when it last wrote.
pub proof fn waiting_runs_out(client: ClientPhase, grace: Duration, now: Instant, later: Instant)
    requires
        client !is Waiting,
        client.wf(),
        now.nanos <= later.nanos,
        later.nanos + 8_000_000_000 <= u128::MAX,
        later.nanos + grace.nanos <= u128::MAX,
        match client {
            ClientPhase::ClientInit(begun) => begun.nanos <= now.nanos,
            ClientPhase::GettingCI { insts, .. } => insts.last().nanos <= now.nanos,
            ClientPhase::Agreeing { since, .. } => since.nanos <= now.nanos,
            ClientPhase::ClientSetTime { since, .. } => since.nanos <= now.nanos,
            ClientPhase::Waiting => true,
        },
    ensures
        ({
            let left = client.time_left(grace, now).nanos;
            let passed = later.nanos - now.nanos;
            &&& left >= passed ==> client.time_left(grace, later).nanos == left - passed
            &&& left < passed ==> client.time_left(grace, later).nanos == 0
        }),
        match client {
            ClientPhase::ClientInit(begun) => client.time_left(grace, begun).nanos
                == 8_000_000_000,
            ClientPhase::GettingCI { insts, .. } => client.time_left(grace, insts.last()) == grace,
            ClientPhase::Agreeing { since, .. } => client.time_left(grace, since) == grace,
            ClientPhase::ClientSetTime { since, .. } => client.time_left(grace, since) == grace,
            ClientPhase::Waiting => true,
        },
{
}

/// Whoever asks while the interval is measured or agreed on is let wait: the
/// client writes nothing and stays where it is. At any other time it begins.
pub proof fn asking_begins_or_waits(client: ClientPhase, grace: Duration, now: Instant)
    ensures
        client is GettingCI || client is Agreeing ==> {
            &&& client.asked(grace, now).phase == client
            &&& client.asked(grace, now).write is None
        },
        !(client is GettingCI || client is Agreeing) ==> {
            &&& client.asked(grace, now).phase == ClientPhase::ClientInit(now)
            &&& client.asked(grace, now).write == Some(seq![0x00u8])
        },
        !client.asked(grace, now).done,
{
}

/// The first estimate of a client is the time from when it began to when the
/// server answered. Anything but that answer leaves it waiting.
pub proof fn first_estimate_is_round_trip(
    begun: Instant,
    bytes: Seq<u8>,
    start: Instant,
    grace: Duration,
    seen: Instant,
    now: Instant,
)
    requires
        begun.nanos <= seen.nanos,
    ensures
        ({
            let client = ClientPhase::ClientInit(begun);
            let to = client.notified(bytes, start, grace, seen, now);
            if bytes.len() > 0 && bytes[0] == 0x80 {
                &&& to.phase is GettingCI
                &&& to.phase->GettingCI_insts == seq![now]
                &&& to.phase->GettingCI_last_change == 0
                &&& to.phase.grace_base().nanos == seen.nanos - begun.nanos
            } else {
                to.phase == client && to.write is None
            }
        }),
{
}

/// While the client measures, agrees or sets the time, any value but an empty
/// one and the answer it waits for makes it begin anew.
pub proof fn unexpected_answers_begin_anew(
    client: ClientPhase,
    bytes: Seq<u8>,
    start: Instant,
    grace: Duration,
    seen: Instant,
    now: Instant,
)
    requires
        bytes.len() > 0,
        match client {
            ClientPhase::GettingCI { .. } => bytes[0] != 0x81 || bytes.len() < 3,
            ClientPhase::Agreeing { .. } => bytes[0] != 0x82,
            ClientPhase::ClientSetTime { .. } => bytes[0] != 0x83 || bytes.len() < 9,
            _ => false,
        },
    ensures
        ({
            let to = client.notified(bytes, start, grace, seen, now);
            &&& to.phase == ClientPhase::ClientInit(now)
            &&& to.write == Some(seq![0x00u8])
            &&& !to.done
        }),
{
}

/// A client at rest stays so whatever comes, and an empty value changes
/// nothing at all.
pub proof fn nothing_comes_of_nothing(
    client: ClientPhase,
    bytes: Seq<u8>,
    start: Instant,
    grace: Duration,
    seen: Instant,
    now: Instant,
)
    requires
        client is Waiting || bytes.len() == 0,
    ensures
        ({
            let to = client.notified(bytes, start, grace, seen, now);
            to.phase == client && to.write is None && !to.done
        }),
{
}

/// The server goes from one phase to the next with the write that it waits
/// for. A write that is cut off leaves it where it is, and any other one sends
/// it back to rest.
pub proof fn server_goes_step_by_step(
    server: ServerPhase,
    bytes: Seq<u8>,
    grace: Duration,
    now: Instant,
)
    requires
        bytes.len() > 0,
    ensures
        ({
            let to = server.written(bytes, grace, now);
            match server {
                ServerPhase::Waiting => (to is BeginReq <==> bytes[0] == 0) && (to is Waiting
                    <==> bytes[0] != 0),
                ServerPhase::BeginReq => {
                    &&& bytes[0] == 0 ==> to is BeginReq
                    &&& bytes[0] == 1 ==> to is ClientInit && to->ClientInit_insts == seq![now]
                        && to->ClientInit_est_ci.nanos == 4_000_000_000
                    &&& bytes[0] > 1 ==> to is Waiting
                },
                ServerPhase::ClientInit { .. } => {
                    &&& bytes[0] == 1 && bytes.len() < 3 ==> to == server
                    &&& bytes[0] == 2 && bytes.len() < 5 ==> to == server
                    &&& bytes[0] != 1 && bytes[0] != 2 ==> to is Waiting
                    &&& bytes[0] == 2 ==> to is Agreeing || to is ClientInit
                },
                ServerPhase::Agreeing(_) => (to is Finishing <==> bytes[0] == 3) && (to is Waiting
                    <==> bytes[0] != 3),
                ServerPhase::Finishing(_) => to == server,
            }
        }),
{
}

/// The interval that the server agrees on is the one that the client wrote, in
/// four bytes, the lowest first, if it is close to its own.
pub proof fn server_agrees_by_distance(
    server: ServerPhase,
    bytes: Seq<u8>,
    grace: Duration,
    now: Instant,
)
    requires
        server is ClientInit,
        bytes.len() >= 5,
        bytes[0] == 0x02,
        bytes[4] < 0x80,
        server->ClientInit_est_ci.nanos as int / 1_000 < 0x8000_0000,
    ensures
        ({
            let theirs = bytes[1] + 0x100 * bytes[2] + 0x1_0000 * bytes[3] + 0x100_0000 * bytes[4];
            let ours = server->ClientInit_est_ci.nanos as int / 1_000;
            let to = server.written(bytes, grace, now);
            if -1250 < theirs - ours < 1250 {
                to == ServerPhase::Agreeing(theirs as u32)
            } else {
                &&& to is ClientInit
                &&& to->ClientInit_insts == seq![now]
                &&& to->ClientInit_est_ci == server->ClientInit_est_ci
            }
        }),
{
    le_value4_spelled_out(bytes.subrange(1, 5));
    let theirs = (bytes[1] + 0x100 * bytes[2] + 0x1_0000 * bytes[3] + 0x100_0000 * bytes[4]) as nat;
    agreement_is_distance(server->ClientInit_est_ci.nanos as nat / 1_000, theirs);
}

/// The reference clock is set by a time that comes once the interval is agreed
/// on, to the eight bytes of it, from the moment at which it comes. Nothing
/// else sets it.
pub proof fn clock_set_by_time_alone(
    server: ServerPhase,
    clock: RefClock,
    bytes: Seq<u8>,
    now: Instant,
)
    requires
        server.accepts(bytes),
    ensures
        ({
            let after = server.clock_written(clock, bytes, now);
            if server is Agreeing && bytes[0] == 0x03 {
                &&& after.start == now
                &&& after.time == bytes[1] + 0x100 * bytes[2] + 0x1_0000 * bytes[3] + 0x100_0000
                    * bytes[4] + 0x1_0000_0000 * bytes[5] + 0x100_0000_0000 * bytes[6]
                    + 0x1_0000_0000_0000 * bytes[7] + 0x100_0000_0000_0000 * bytes[8]
            } else {
                after == clock
            }
        }),
{
    if server is Agreeing && bytes[0] == 0x03 {
        le_value8_spelled_out(bytes.subrange(1, 9));
    }
}

/// What the server answers tells its phase, and to give the answer changes
/// nothing but that an answer to a time is given once.
pub proof fn answer_tells_phase(server: ServerPhase)
    ensures
        server.answer().len() > 0,
        server is Waiting <==> server.answer()[0] == 0xFF,
        server is BeginReq <==> server.answer()[0] == 0x80,
        server is ClientInit <==> server.answer()[0] == 0x81,
        server is Agreeing <==> server.answer()[0] == 0x82,
        server is Finishing <==> server.answer()[0] == 0x83,
        server is Finishing ==> server.answered() is Waiting,
        server !is Finishing ==> server.answered() == server,
{
}

/// Whoever asked for the reference time is told that it is agreed on as soon as
/// it is, and not before; then nobody waits any more. Where nobody asked nobody
/// is told.
pub proof fn asker_is_told_when_done<W>(
    asker: Option<W>,
    done: bool,
    after: Option<W>,
    answer: Option<(W, bool)>,
)
    requires
        told(asker, done, after, answer),
    ensures
        answer is Some <==> done && asker is Some,
        answer matches Some((who, agreed)) ==> asker == Some(who) && agreed,
        after is Some <==> !done && asker is Some,
        after is Some ==> after == asker,
{
}

} // verus!
