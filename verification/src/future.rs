//! Futures that are polled a limited number of times.
//!
//! Whoever runs such a future polls the one inside it and hands on what came
//! of that.
use vstd::prelude::*;

verus! {

/// One of two values.
#[derive(Debug, PartialEq, Eq)]
pub enum Either<L, R> {
    Left(L),
    Right(R),
}

/// Keeps the output of the future that finished first, and drops the other
/// future.
pub fn either_first<A, B, X, Y>(either: Either<(X, B), (Y, A)>) -> (r: Either<X, Y>)
    ensures
        r == (match either {
            Either::Left(first) => Either::Left(first.0),
            Either::Right(first) => Either::<X, Y>::Right(first.0),
        }),
{
    match either {
        Either::Left((out, _)) => Either::Left(out),
        Either::Right((out, _)) => Either::Right(out),
    }
}

/// What came of polling a future a limited number of times.
#[derive(Debug, PartialEq, Eq)]
pub enum PolledN<F, O> {
    /// It has not finished.
    Pending(F),
    /// It has finished with this output at this poll.
    Ready(O, usize),
}

impl<F, O> PolledN<F, O> {
    /// The future, which has not finished.
    pub fn unwrap_pending(self) -> (r: F)
        requires
            self is Pending,
        ensures
            self == PolledN::<F, O>::Pending(r),
    {
        match self {
            PolledN::Pending(fut) => fut,
            PolledN::Ready(_, _) => vstd::pervasive::unreached(),
        }
    }

    /// The output of the future, which has finished.
    pub fn unwrap_ready(self) -> (r: O)
        requires
            self is Ready,
        ensures
            self matches PolledN::Ready(out, _) && out == r,
    {
        match self {
            PolledN::Ready(out, _) => out,
            PolledN::Pending(_) => vstd::pervasive::unreached(),
        }
    }
}

/// What a [`PollN`] holds.
#[verifier::ext_equal]
pub struct Polls<F> {
    /// How often the future may be polled.
    pub cnt: nat,
    /// How often it was polled.
    pub polled: nat,
    /// The future, until it is given back or has finished.
    pub fut: Option<F>,
}

impl<F> Polls<F> {
    /// Nothing polled yet.
    pub open spec fn starting(fut: F, cnt: nat) -> Self {
        Polls { cnt, polled: 0, fut: Some(fut) }
    }

    /// The future has not been polled too often.
    pub open spec fn wf(self) -> bool {
        &&& self.polled <= self.cnt
        &&& self.fut is Some ==> self.polled < self.cnt
    }

    /// Once the future was polled; `ready` says whether it finished. Its
    /// state is `fut` from then on.
    pub open spec fn stepped(self, fut: F, ready: bool) -> Self {
        Polls {
            polled: self.polled + 1,
            fut: if ready || self.polled + 1 == self.cnt {
                None
            } else {
                Some(fut)
            },
            ..self
        }
    }

    /// What comes of that poll, if it ends the polling. `out` is the output of
    /// a future that finished.
    pub open spec fn result<O>(self, fut: F, out: Option<O>) -> Option<PolledN<F, O>> {
        match out {
            Some(out) => Some(PolledN::Ready(out, (self.polled + 1) as usize)),
            None => if self.polled + 1 == self.cnt {
                Some(PolledN::Pending(fut))
            } else {
                None
            },
        }
    }

    /// Once the future was polled some times without finishing. Its states
    /// after the polls are `futs`.
    pub open spec fn pending_through(self, futs: Seq<F>) -> Self
        decreases futs.len(),
    {
        if futs.len() == 0 {
            self
        } else {
            self.pending_through(futs.drop_last()).stepped(futs.last(), false)
        }
    }
}

/// A future that has not finished is given back at the last poll that is
/// allowed, and not before.
pub proof fn pending_given_back<F, O>(start: F, cnt: nat, futs: Seq<F>, last: F)
    requires
        futs.len() < cnt <= usize::MAX,
    ensures
        ({
            let polls = Polls::starting(start, cnt).pending_through(futs);
            &&& polls.cnt == cnt
            &&& polls.polled == futs.len()
            &&& polls.fut == Some(
                if futs.len() == 0 {
                    start
                } else {
                    futs.last()
                },
            )
            &&& polls.result::<O>(last, None) == (if futs.len() + 1 == cnt {
                Some(PolledN::<F, O>::Pending(last))
            } else {
                None
            })
            &&& futs.len() + 1 == cnt ==> polls.stepped(last, false).fut is None
        }),
    decreases futs.len(),
{
    if futs.len() > 0 {
        pending_given_back::<F, O>(start, cnt, futs.drop_last(), futs.last());
    }
}

/// A future that finishes at a poll that is allowed gives its output and the
/// number of that poll, and nothing is left to poll.
pub proof fn ready_counted<F, O>(start: F, cnt: nat, futs: Seq<F>, last: F, out: O)
    requires
        futs.len() < cnt <= usize::MAX,
    ensures
        ({
            let polls = Polls::starting(start, cnt).pending_through(futs);
            &&& polls.result(last, Some(out)) == Some(
                PolledN::<F, O>::Ready(out, (futs.len() + 1) as usize),
            )
            &&& polls.stepped(last, true).fut is None
        }),
{
    pending_given_back::<F, O>(start, cnt, futs, last);
}

/// A future that is polled a limited number of times.
pub struct PollN<F> {
    cnt: usize,
    polled: usize,
    fut: Option<F>,
}

impl<F> View for PollN<F> {
    type V = Polls<F>;

    closed spec fn view(&self) -> Polls<F> {
        Polls { cnt: self.cnt as nat, polled: self.polled as nat, fut: self.fut }
    }
}

/// Polls a future at most `cnt` times.
pub fn poll_n<F>(fut: F, cnt: usize) -> (r: PollN<F>)
    requires
        cnt != 0,
    ensures
        r@ == Polls::starting(fut, cnt as nat),
        r@.wf(),
{
    PollN { cnt, fut: Some(fut), polled: 0 }
}

impl<F> PollN<F> {
    /// The future to poll, until the polling has ended.
    pub fn future_mut(&mut self) -> (r: Option<&mut F>)
        ensures
            match old(self)@.fut {
                Some(fut) => r matches Some(inner) && *inner == fut && final(self)@ == (Polls {
                    fut: Some(*final(inner)),
                    ..old(self)@
                }),
                None => r is None && final(self)@ == old(self)@,
            },
    {
        match &mut self.fut {
            Some(fut) => Some(fut),
            None => None,
        }
    }

    /// The future was polled: `out` is its output if it has finished. Gives
    /// the result if that ends the polling.
    pub fn step<O>(&mut self, out: Option<O>) -> (r: Option<PolledN<F, O>>)
        requires
            old(self)@.wf(),
            old(self)@.fut is Some,
        ensures
            final(self)@.wf(),
            final(self)@ == old(self)@.stepped(old(self)@.fut->0, out is Some),
            r == old(self)@.result(old(self)@.fut->0, out),
    {
        self.polled = self.polled + 1;
        match out {
            Some(out) => {
                self.fut = None;
                Some(PolledN::Ready(out, self.polled))
            },
            None => if self.cnt == self.polled {
                match self.fut.take() {
                    Some(fut) => Some(PolledN::Pending(fut)),
                    None => None,
                }
            } else {
                None
            },
        }
    }

    /// Whether the polling has ended.
    pub fn is_terminated(&self) -> (r: bool)
        requires
            self@.wf(),
        ensures
            r == (self@.fut is None),
    {
        self.cnt == self.polled || self.fut.is_none()
    }
}

} // verus!
