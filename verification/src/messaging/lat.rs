//! The latencies of the last few acknowledged messages.
use std::collections::VecDeque;

use vstd::prelude::*;

use crate::bytes::low_half;
use crate::time::{Clock, Duration, Instant};
#[allow(unused_imports)]
use crate::time::{min, monus};

verus! {

/// The sum of some spans, in nanoseconds.
pub open spec fn total(spans: Seq<Duration>) -> nat
    decreases spans.len(),
{
    if spans.len() == 0 {
        0
    } else {
        total(spans.drop_last()) + spans.last().nanos as nat
    }
}

/// The sum of some spans as a span holds it: one that does not fit becomes the
/// longest span.
pub open spec fn capped_total(spans: Seq<Duration>) -> nat {
    min(total(spans) as int, u128::MAX as int) as nat
}

/// Half the mean of some round trips, that is the mean time for one way. The
/// number of round trips is taken modulo 2^32, as the divisor is a 32-bit
/// number; where that gives zero, so is the result.
pub open spec fn half_mean(spans: Seq<Duration>) -> nat {
    let count = spans.len() % 0x1_0000_0000;
    if count == 0 {
        0
    } else {
        capped_total(spans) / count / 2
    }
}

/// The last `n` items of a sequence, or all of them where there are fewer.
pub open spec fn recent<T>(items: Seq<T>, n: nat) -> Seq<T> {
    if items.len() > n {
        items.skip(items.len() - n)
    } else {
        items
    }
}

proof fn total_drop_first(spans: Seq<Duration>)
    requires
        spans.len() > 0,
    ensures
        total(spans) == spans[0].nanos + total(spans.drop_first()),
    decreases spans.len(),
{
    if spans.len() == 1 {
        assert(spans.drop_last() =~= spans.drop_first());
    } else {
        total_drop_first(spans.drop_last());
        assert(spans.drop_last().drop_first() =~= spans.drop_first().drop_last());
    }
}

proof fn total_within(spans: Seq<Duration>, bound: nat)
    requires
        forall|i: int| 0 <= i < spans.len() ==> (#[trigger] spans[i]).nanos <= bound,
    ensures
        total(spans) <= spans.len() * bound,
    decreases spans.len(),
{
    if spans.len() > 0 {
        total_within(spans.drop_last(), bound);
        assert(spans.len() * bound == (spans.len() - 1) * bound + bound) by (nonlinear_arith);
    }
}

proof fn total_monotone(small: Seq<Duration>, large: Seq<Duration>)
    requires
        small.len() == large.len(),
        forall|i: int|
            0 <= i < small.len() ==> (#[trigger] small[i]).nanos <= (#[trigger] large[i]).nanos,
    ensures
        total(small) <= total(large),
    decreases small.len(),
{
    if small.len() > 0 {
        assert(small[small.len() - 1].nanos <= large[small.len() - 1].nanos);
        assert forall|i: int| 0 <= i < small.len() - 1 implies (
        #[trigger] small.drop_last()[i]).nanos <= (#[trigger] large.drop_last()[i]).nanos by {
            assert(small[i].nanos <= large[i].nanos);
        }
        total_monotone(small.drop_last(), large.drop_last());
    }
}

/// The sum of two rows of spans is that of the first and that of the second;
/// of one span it is that span, and of none it is nothing.
pub proof fn totals_add_up(first: Seq<Duration>, second: Seq<Duration>, one: Duration)
    ensures
        total(first + second) == total(first) + total(second),
        total(seq![one]) == one.nanos,
        total(Seq::empty()) == 0,
    decreases second.len(),
{
    assert(seq![one].drop_last() =~= Seq::empty());
    reveal_with_fuel(total, 2);
    if second.len() > 0 {
        totals_add_up(first, second.drop_last(), one);
        assert((first + second).drop_last() =~= first + second.drop_last());
    } else {
        assert(first + second =~= first);
    }
}

/// Twice the mean time for one way, once for each round trip, is the sum of the
/// round trips, but for what rounding to whole nanoseconds takes off.
pub proof fn half_mean_rounds_down(spans: Seq<Duration>)
    requires
        0 < spans.len() < 0x1_0000_0000,
        total(spans) <= u128::MAX,
    ensures
        2 * spans.len() * half_mean(spans) <= total(spans),
        total(spans) < 2 * spans.len() * (half_mean(spans) + 1),
{
    let len = spans.len() as int;
    let sum = total(spans) as int;
    let mean = sum / len;
    let half = mean / 2;
    assert(half_mean(spans) == half);
    vstd::arithmetic::div_mod::lemma_fundamental_div_mod(sum, len);
    let rest = sum % len;
    assert(0 <= rest < len) by {
        vstd::arithmetic::div_mod::lemma_mod_bound(sum, len);
    }
    assert(2 * len * half <= sum < 2 * len * (half + 1)) by (nonlinear_arith)
        requires
            sum == len * mean + rest,
            0 <= rest < len,
            2 * half <= mean <= 2 * half + 1,
    ;
}

/// The mean time for one way is no shorter than half the shortest round trip.
pub proof fn half_mean_at_least(spans: Seq<Duration>, bound: nat)
    requires
        0 < spans.len() < 0x1_0000_0000,
        total(spans) <= u128::MAX,
        forall|i: int| 0 <= i < spans.len() ==> (#[trigger] spans[i]).nanos >= bound,
    ensures
        half_mean(spans) >= bound / 2,
{
    total_at_least(spans, bound);
    let len = spans.len();
    vstd::arithmetic::div_mod::lemma_div_is_ordered(
        (len * bound) as int,
        total(spans) as int,
        len as int,
    );
    assert((len * bound) / len == bound) by (nonlinear_arith)
        requires
            len > 0,
    ;
}

proof fn total_at_least(spans: Seq<Duration>, bound: nat)
    requires
        forall|i: int| 0 <= i < spans.len() ==> (#[trigger] spans[i]).nanos >= bound,
    ensures
        total(spans) >= spans.len() * bound,
    decreases spans.len(),
{
    if spans.len() > 0 {
        total_at_least(spans.drop_last(), bound);
        assert(spans.len() * bound == (spans.len() - 1) * bound + bound) by (nonlinear_arith);
    }
}

/// The mean time for one way is no longer than half the longest round trip.
pub proof fn half_mean_bounded(spans: Seq<Duration>, bound: nat)
    requires
        forall|i: int| 0 <= i < spans.len() ==> (#[trigger] spans[i]).nanos <= bound,
        spans.len() < 0x1_0000_0000,
    ensures
        half_mean(spans) <= bound / 2,
{
    total_within(spans, bound);
    let len = spans.len();
    if len > 0 {
        vstd::arithmetic::div_mod::lemma_div_is_ordered(
            capped_total(spans) as int,
            (len * bound) as int,
            len as int,
        );
        assert((len * bound) / len == bound) by (nonlinear_arith)
            requires
                len > 0,
        ;
    }
}

/// The round trips of the last acknowledged messages, at most `period` of
/// them, the oldest first.
pub struct LatDeque {
    last_inst: Instant,
    lat_sum: Duration,
    last: VecDeque<Duration>,
    lat_sum_adjusted: Duration,
    last_adjusted: VecDeque<Duration>,
    lat_period: usize,
}

/// What a [`LatDeque`] holds.
#[verifier::ext_equal]
pub struct LatWindow {
    /// From sending a message to its acknowledgement.
    pub last: Seq<Duration>,
    /// As `last`, but from no earlier than the acknowledgement before.
    pub adjusted: Seq<Duration>,
    /// When the last acknowledgement came.
    pub last_inst: Instant,
    pub period: nat,
}

impl LatWindow {
    /// An empty window.
    pub open spec fn empty(period: nat, now: Instant) -> Self {
        LatWindow { last: Seq::empty(), adjusted: Seq::empty(), last_inst: now, period }
    }

    /// The round trip of a message sent at `inst` and acknowledged at `now`.
    pub open spec fn elapsed(inst: Instant, now: Instant) -> Duration {
        Duration { nanos: monus(now.nanos as int, inst.nanos as int) as u128 }
    }

    /// As `elapsed`, from no earlier than the last acknowledgement.
    pub open spec fn adjusted_elapsed(self, inst: Instant, now: Instant) -> Duration {
        Self::elapsed(
            if inst.nanos < self.last_inst.nanos {
                self.last_inst
            } else {
                inst
            },
            now,
        )
    }

    /// The window once a message sent at `inst` is acknowledged at `now`.
    pub open spec fn pushed(self, inst: Instant, now: Instant) -> Self {
        LatWindow {
            last: recent(self.last.push(Self::elapsed(inst, now)), self.period),
            adjusted: recent(
                self.adjusted.push(self.adjusted_elapsed(inst, now)),
                self.period,
            ),
            last_inst: now,
            period: self.period,
        }
    }
}

impl LatWindow {
    /// Whether no round trip is longer than `bound`.
    pub open spec fn within(self, bound: nat) -> bool {
        &&& forall|i: int| 0 <= i < self.last.len() ==> (#[trigger] self.last[i]).nanos <= bound
        &&& forall|i: int|
            0 <= i < self.adjusted.len() ==> (#[trigger] self.adjusted[i]).nanos <= bound
    }
}

/// No round trip is longer than the clock has run.
pub proof fn window_stays_within(window: LatWindow, bound: nat, inst: Instant, now: Instant)
    requires
        window.within(bound),
        now.nanos <= bound,
    ensures
        LatWindow::empty(window.period, now).within(bound),
        window.pushed(inst, now).within(bound),
{
}

impl LatWindow {
    /// The window once some messages are acknowledged, one after the other:
    /// when each was sent and when its acknowledgement came.
    pub open spec fn pushed_all(self, trips: Seq<(Instant, Instant)>) -> Self
        decreases trips.len(),
    {
        if trips.len() == 0 {
            self
        } else {
            self.pushed_all(trips.drop_last()).pushed(trips.last().0, trips.last().1)
        }
    }
}

/// A window holds the last round trips, as many as fit. Each is the time from
/// when its message was sent to when its acknowledgement came, whatever else
/// was acknowledged. The adjusted one is the time from when the message was
/// sent or the acknowledgement before came, whichever is later.
pub proof fn window_holds_round_trips(
    period: nat,
    start: Instant,
    trips: Seq<(Instant, Instant)>,
    i: int,
)
    requires
        period > 0,
        0 <= i < trips.len(),
        trips.len() - i <= period,
    ensures
        ({
            let window = LatWindow::empty(period, start).pushed_all(trips);
            let at = window.last.len() - trips.len() + i;
            let (sent, acked) = trips[i];
            let before = if i == 0 {
                start
            } else {
                trips[i - 1].1
            };
            &&& window.last.len() == (if trips.len() < period {
                trips.len()
            } else {
                period
            })
            &&& window.adjusted.len() == window.last.len()
            &&& sent.nanos <= acked.nanos ==> window.last[at].nanos == acked.nanos - sent.nanos
            &&& sent.nanos <= acked.nanos && before.nanos <= acked.nanos
                ==> window.adjusted[at].nanos == acked.nanos - (if sent.nanos < before.nanos {
                before.nanos
            } else {
                sent.nanos
            })
        }),
    decreases trips.len(),
{
    let shorter = trips.drop_last();
    let before = LatWindow::empty(period, start).pushed_all(shorter);
    window_length(period, start, shorter);
    if i < trips.len() - 1 {
        window_holds_round_trips(period, start, shorter, i);
    }
}

proof fn window_length(period: nat, start: Instant, trips: Seq<(Instant, Instant)>)
    requires
        period > 0,
    ensures
        ({
            let window = LatWindow::empty(period, start).pushed_all(trips);
            &&& window.period == period
            &&& window.last.len() == (if trips.len() < period {
                trips.len()
            } else {
                period
            })
            &&& window.adjusted.len() == window.last.len()
            &&& window.last_inst == (if trips.len() == 0 {
                start
            } else {
                trips.last().1
            })
        }),
    decreases trips.len(),
{
    if trips.len() > 0 {
        window_length(period, start, trips.drop_last());
    }
}

/// A window takes up each round trip at its end, and gives up its oldest ones
/// only when it is full.
pub proof fn window_keeps_recent(window: LatWindow, inst: Instant, now: Instant)
    requires
        window.period > 0,
        window.last.len() <= window.period,
    ensures
        ({
            let after = window.pushed(inst, now);
            let kept = min(window.last.len() as int, window.period - 1);
            &&& after.last.len() == kept + 1
            &&& after.last.last() == LatWindow::elapsed(inst, now)
            &&& after.last.drop_last() == window.last.skip(window.last.len() - kept)
        }),
{
    let after = window.pushed(inst, now);
    let kept = min(window.last.len() as int, window.period - 1);
    assert(after.last.drop_last() =~= window.last.skip(window.last.len() - kept));
}

impl View for LatDeque {
    type V = LatWindow;

    closed spec fn view(&self) -> LatWindow {
        LatWindow {
            last: self.last@,
            adjusted: self.last_adjusted@,
            last_inst: self.last_inst,
            period: self.lat_period as nat,
        }
    }
}

impl LatDeque {
    /// The sums are those of the windows, which are as long as each other and
    /// no longer than the period, and no round trip is lengthened by adjusting
    /// it.
    pub closed spec fn wf(&self) -> bool {
        &&& self.lat_period > 0
        &&& self.last@.len() == self.last_adjusted@.len()
        &&& self.last@.len() <= self.lat_period
        &&& self.lat_sum.nanos == capped_total(self.last@)
        &&& self.lat_sum_adjusted.nanos == capped_total(self.last_adjusted@)
        &&& forall|i: int|
            0 <= i < self.last@.len() ==> (#[trigger] self.last_adjusted@[i]).nanos
                <= (#[trigger] self.last@[i]).nanos
    }

    /// What a well-formed window is made of.
    pub proof fn wf_window(&self)
        requires
            self.wf(),
        ensures
            self@.period > 0,
            self@.last.len() == self@.adjusted.len(),
            self@.last.len() <= self@.period,
            forall|i: int|
                0 <= i < self@.last.len() ==> (#[trigger] self@.adjusted[i]).nanos
                    <= (#[trigger] self@.last[i]).nanos,
            total(self@.adjusted) <= total(self@.last),
            half_mean(self@.adjusted) <= half_mean(self@.last),
    {
        let count = self@.last.len() % 0x1_0000_0000;
        total_monotone(self.last_adjusted@, self.last@);
        if count > 0 {
            vstd::arithmetic::div_mod::lemma_div_is_ordered(
                capped_total(self@.adjusted) as int,
                capped_total(self@.last) as int,
                count as int,
            );
        }
    }

    /// An empty window that starts at `now`.
    pub fn starting(lat_period: usize, now: Instant) -> (r: Self)
        requires
            lat_period != 0,
        ensures
            r.wf(),
            r@ == LatWindow::empty(lat_period as nat, now),
    {
        LatDeque {
            last_inst: now,
            last: VecDeque::new(),
            last_adjusted: VecDeque::new(),
            lat_period,
            lat_sum: Duration { nanos: 0 },
            lat_sum_adjusted: Duration { nanos: 0 },
        }
    }

    /// An empty window that starts at the present reading of `clock`.
    pub fn new(lat_period: usize, clock: &Clock) -> (r: Self)
        requires
            lat_period != 0,
        ensures
            r.wf(),
            exists|moment: std::time::Instant|
                r@ == LatWindow::empty(lat_period as nat, #[trigger] clock.reading(moment)),
    {
        Self::starting(lat_period, clock.now())
    }

    fn half_mean_of(sum: Duration, len: usize) -> (r: Duration)
        ensures
            r.nanos == (if len as nat % 0x1_0000_0000 == 0 {
                0
            } else {
                sum.nanos as nat / (len as nat % 0x1_0000_0000) / 2
            }),
    {
        let count = low_half(len as u64);
        match sum.nanos.checked_div(count as u128) {
            Some(mean) => Duration { nanos: mean / 2 },
            None => Duration { nanos: 0 },
        }
    }

    /// The mean time for one way, from no earlier than the acknowledgement
    /// before.
    pub fn avg_lat_adjusted(&self) -> (r: Duration)
        requires
            self.wf(),
        ensures
            r.nanos == half_mean(self@.adjusted),
    {
        Self::half_mean_of(self.lat_sum_adjusted, self.last_adjusted.len())
    }

    /// The mean time for one way.
    pub fn avg_lat(&self) -> (r: Duration)
        requires
            self.wf(),
        ensures
            r.nanos == half_mean(self@.last),
    {
        Self::half_mean_of(self.lat_sum, self.last.len())
    }

    fn sum_of(spans: &VecDeque<Duration>) -> (r: Duration)
        ensures
            r.nanos == capped_total(spans@),
    {
        let mut sum = Duration { nanos: 0 };
        let mut at: usize = 0;
        while at < spans.len()
            invariant
                at <= spans@.len(),
                sum.nanos == capped_total(spans@.take(at as int)),
            decreases spans@.len() - at,
        {
            assert(spans@.take(at + 1).drop_last() =~= spans@.take(at as int));
            sum = sum.plus(spans[at]);
            at = at + 1;
        }
        assert(spans@.take(at as int) =~= spans@);
        sum
    }

    /// The sum of `spans`, where it was `sum` with `oldest` in front of them.
    fn sum_without(sum: Duration, oldest: Duration, spans: &VecDeque<Duration>) -> (r: Duration)
        requires
            sum.nanos == min(oldest.nanos + total(spans@), u128::MAX as int),
        ensures
            r.nanos == capped_total(spans@),
    {
        if sum.nanos < u128::MAX {
            Duration { nanos: sum.nanos - oldest.nanos }
        } else {
            Self::sum_of(spans)
        }
    }

    /// Forgets the oldest round trip, if there is one.
    pub fn pop_oldest(&mut self)
        requires
            old(self).wf(),
        ensures
            final(self).wf(),
            final(self)@ == (LatWindow {
                last: recent(old(self)@.last, monus(old(self)@.last.len() as int, 1) as nat),
                adjusted: recent(
                    old(self)@.adjusted,
                    monus(old(self)@.last.len() as int, 1) as nat,
                ),
                ..old(self)@
            }),
    {
        if self.last.len() == 0 {
            return;
        }
        proof {
            total_drop_first(self.last@);
            total_drop_first(self.last_adjusted@);
        }
        if let Some(oldest) = self.last.pop_front() {
            assert(self.last@ =~= old(self).last@.drop_first());
            self.lat_sum = Self::sum_without(self.lat_sum, oldest, &self.last);
        }
        if let Some(oldest) = self.last_adjusted.pop_front() {
            assert(self.last_adjusted@ =~= old(self).last_adjusted@.drop_first());
            self.lat_sum_adjusted = Self::sum_without(
                self.lat_sum_adjusted,
                oldest,
                &self.last_adjusted,
            );
        }
        assert forall|i: int| 0 <= i < self.last@.len() implies (
        #[trigger] self.last_adjusted@[i]).nanos <= (#[trigger] self.last@[i]).nanos by {
            assert(self.last_adjusted@[i] == old(self).last_adjusted@[i + 1]);
            assert(self.last@[i] == old(self).last@[i + 1]);
        }
    }

    /// Takes up the round trip of a message that was sent at `inst` and is
    /// acknowledged at `now`, and forgets the oldest one if the window is full.
    pub fn push_at(&mut self, inst: Instant, now: Instant)
        requires
            old(self).wf(),
        ensures
            final(self).wf(),
            final(self)@ == old(self)@.pushed(inst, now),
    {
        let elapsed = now.duration_since(inst);
        let adj_elapsed = if inst.nanos < self.last_inst.nanos {
            now.duration_since(self.last_inst)
        } else {
            elapsed
        };
        if self.last.len() >= self.lat_period {
            self.pop_oldest();
        }
        let ghost before = *self;
        self.lat_sum = self.lat_sum.plus(elapsed);
        self.lat_sum_adjusted = self.lat_sum_adjusted.plus(adj_elapsed);
        self.last.push_back(elapsed);
        self.last_adjusted.push_back(adj_elapsed);
        self.last_inst = now;
        proof {
            assert(self.last@.drop_last() =~= before.last@);
            assert(self.last_adjusted@.drop_last() =~= before.last_adjusted@);
            assert(self@ =~= old(self)@.pushed(inst, now));
        }
    }

    /// As `push_at`, at the present reading of `clock`.
    pub fn push_new(&mut self, inst: Instant, clock: &Clock)
        requires
            old(self).wf(),
        ensures
            final(self).wf(),
            exists|moment: std::time::Instant|
                final(self)@ == old(self)@.pushed(inst, #[trigger] clock.reading(moment)),
    {
        self.push_at(inst, clock.now());
    }
}

} // verus!
