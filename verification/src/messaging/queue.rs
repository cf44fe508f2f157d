//! The queues between the tasks of a channel.
use std::collections::VecDeque;

use async_std::channel::{Receiver, TryRecvError};
use vstd::prelude::*;

use crate::messaging::frame::Frame;

verus! {

/// What a look at a queue finds.
pub enum Polled {
    Item(Frame),
    /// Nothing yet.
    Empty,
    /// Nothing any more.
    Closed,
}

/// `Receiver::try_recv` of `async_std::channel`, which takes the next item
/// out of a queue without waiting. Other tasks fill and empty the queue, so
/// nothing is said of the result.
#[verifier::external_body]
pub(crate) fn poll(queue: &Receiver<Frame>) -> Polled {
    match queue.try_recv() {
        Ok(frame) => Polled::Item(frame),
        Err(TryRecvError::Empty) => Polled::Empty,
        Err(TryRecvError::Closed) => Polled::Closed,
    }
}

/// Something that holds frames, for one look. Whoever is handed one can look
/// once: a look uses it up.
pub trait Source: Sized {
    /// What is left behind a look.
    type Rest;

    /// Whether a look may find `polled` and leave `rest`.
    spec fn yields(self, polled: Polled, rest: Self::Rest) -> bool;

    /// Takes the next frame, if there is one.
    fn look(self) -> (r: (Polled, Self::Rest))
        ensures
            self.yields(r.0, r.1),
    ;
}

/// The queue that another task fills. What it holds is not known.
impl Source for &Receiver<Frame> {
    type Rest = ();

    open spec fn yields(self, polled: Polled, rest: ()) -> bool {
        true
    }

    fn look(self) -> (r: (Polled, ())) {
        (poll(self), ())
    }
}

/// A queue that no other task uses, the oldest frame first.
pub struct Backlog {
    pub frames: VecDeque<Frame>,
    /// Whether more frames may come.
    pub open: bool,
}

impl Source for Backlog {
    type Rest = Backlog;

    /// The frame at the front is taken and the others stay in their order. Of
    /// an empty queue nothing is taken.
    open spec fn yields(self, polled: Polled, rest: Backlog) -> bool {
        &&& rest.open == self.open
        &&& if self.frames@.len() > 0 {
            &&& polled == Polled::Item(self.frames@[0])
            &&& rest.frames@ == self.frames@.drop_first()
        } else {
            &&& rest.frames@.len() == 0
            &&& if self.open {
                polled is Empty
            } else {
                polled is Closed
            }
        }
    }

    fn look(self) -> (r: (Polled, Backlog)) {
        let mut rest = self;
        let polled = match rest.frames.pop_front() {
            Some(frame) => Polled::Item(frame),
            None => if rest.open {
                Polled::Empty
            } else {
                Polled::Closed
            },
        };
        assert(self.frames@.len() > 0 ==> rest.frames@ =~= self.frames@.drop_first());
        (polled, rest)
    }
}

/// `Receiver::is_empty` of `async_std::channel`. Other tasks fill and empty
/// the queue, so nothing is said of the result.
pub assume_specification<T>[ Receiver::<T>::is_empty ](queue: &Receiver<T>) -> bool;

} // verus!
