use btutils::future::{either_first, poll_n, Either, PollN, PolledN};
use futures::future::{poll_fn, ready, Future, FutureExt};
use futures::task::{noop_waker_ref, Context, Poll};

fn poll_once<O, F: Future<Output = O> + Unpin>(pn: &mut PollN<F>) -> Option<PolledN<F, O>> {
    let mut cx = Context::from_waker(noop_waker_ref());
    let out = match pn.future_mut().unwrap().poll_unpin(&mut cx) {
        Poll::Ready(out) => Some(out),
        Poll::Pending => None,
    };
    pn.step(out)
}

#[test]
fn poll_once_test() {
    let mut u = 0;
    let t = poll_fn::<u8, _>(|_| {
        u += 1;
        Poll::Pending
    });
    let mut pn = poll_n(t, 16);
    for _ in 0..15 {
        if poll_once(&mut pn).is_some() {
            panic!("PollN returned early!");
        }
    }
    match poll_once(&mut pn) {
        Some(PolledN::Pending(_)) => {}
        _ => panic!(),
    }
    assert!(pn.is_terminated());
    drop(pn);
    assert_eq!(u, 16);

    let mut u = 0;
    let t = poll_fn::<u8, _>(|_| {
        u += 1;
        if u == 8 {
            Poll::Ready(32)
        } else {
            Poll::Pending
        }
    });
    let mut pn = poll_n(t, 16);
    for _ in 0..7 {
        if poll_once(&mut pn).is_some() {
            panic!("PollN returned early!");
        }
    }
    match poll_once(&mut pn) {
        Some(PolledN::Ready(u, cnt)) => {
            assert_eq!(cnt, 8);
            assert_eq!(u, 32);
        }
        _ => panic!(),
    }
    drop(pn);
    assert_eq!(u, 8);
    let u = poll_once(&mut poll_n(ready(16u8), 16)).unwrap().unwrap_ready();
    assert_eq!(u, 16);
}

#[test]
fn pending_future_is_given_back() {
    let mut pn = poll_n("future", 2);
    assert!(!pn.is_terminated());
    assert_eq!(pn.step::<u8>(None), None);
    assert!(!pn.is_terminated());
    let end = pn.step::<u8>(None).unwrap();
    assert_eq!(end.unwrap_pending(), "future");
    assert!(pn.is_terminated());
    assert_eq!(pn.future_mut(), None);
}

#[test]
fn ready_at_the_last_poll() {
    let mut pn = poll_n((), 1);
    assert_eq!(pn.step(Some(7u8)), Some(PolledN::Ready(7, 1)));
    assert!(pn.is_terminated());
}

#[test]
fn first_output_is_kept() {
    let left: Either<(u8, ()), (char, ())> = Either::Left((1, ()));
    assert_eq!(either_first(left), Either::Left(1));
    let right: Either<(u8, ()), (char, ())> = Either::Right(('r', ()));
    assert_eq!(either_first(right), Either::Right('r'));
}
