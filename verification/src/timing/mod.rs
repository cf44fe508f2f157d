//! A protocol by which two devices agree on a reference time.
//!
//! The client first measures the connection interval, the time for one way
//! between the devices, by sending numbered requests until the estimate
//! settles. It then sends its estimate, which the server compares with its
//! own, and at last its time. The answers are laid out as follows.
//!
//! | client                      | server                              |
//! |-----------------------------|-------------------------------------|
//! | `00` begin                  | `80` begun                          |
//! | `01` number (2 bytes)       | `81` number (2 bytes)               |
//! | `02` interval (4 bytes)     | `82` agreed                         |
//! | `03` time (8 bytes)         | `83` time (8 bytes)                 |
//! |                             | `ff` nothing is going on            |
use rustable::gatt::AttValue;
use vstd::prelude::*;

pub mod client;
pub mod laws;
pub mod server;

pub use client::ClientOptions;

use crate::att::att_from;
use crate::time::Duration;
#[allow(unused_imports)]
use crate::att::att_bytes;

verus! {

/// The service of the protocol.
pub const TIME_SERV: u128 = 0x02f9727572264595a4f9fb54738dd751;

/// The characteristic of the protocol.
pub const TIME_CHRC: u128 = 0x33858edffe544e5c8f13ad8bafda30dc;

/// What goes wrong with the protocol.
#[derive(Debug)]
pub enum Error {
    InvalidService,
    FailedToRequestName,
    Ble(rustable::Error),
    Dbus(std::io::Error),
}

impl From<rustable::Error> for Error {
    fn from(err: rustable::Error) -> (r: Self) {
        Error::Ble(err)
    }
}

impl vstd::std_specs::convert::FromSpecImpl<rustable::Error> for Error {
    open spec fn obeys_from_spec() -> bool {
        true
    }

    open spec fn from_spec(err: rustable::Error) -> Self {
        Error::Ble(err)
    }
}

impl From<std::io::Error> for Error {
    fn from(err: std::io::Error) -> (r: Self) {
        Error::Dbus(err)
    }
}

impl vstd::std_specs::convert::FromSpecImpl<std::io::Error> for Error {
    open spec fn obeys_from_spec() -> bool {
        true
    }

    open spec fn from_spec(err: std::io::Error) -> Self {
        Error::Dbus(err)
    }
}

/// Checks the service that a client was given.
pub fn check_service(uuid: u128) -> (r: Result<(), Error>)
    ensures
        uuid == TIME_SERV ==> r == Ok::<(), Error>(()),
        uuid != TIME_SERV ==> r == Err::<(), Error>(Error::InvalidService),
{
    if uuid != TIME_SERV {
        Err(Error::InvalidService)
    } else {
        Ok(())
    }
}

/// A value of one byte.
pub(crate) fn tagged(code: u8) -> (r: AttValue)
    ensures
        att_bytes(r) == seq![code],
{
    let bytes = [code];
    assert(bytes@ =~= seq![code]);
    att_from(bytes.as_slice())
}

/// The distance of two numbers on a circle of 2^64.
pub open spec fn distance64(a: int, b: int) -> int {
    let forth = (a - b) % 0x1_0000_0000_0000_0000;
    let back = (b - a) % 0x1_0000_0000_0000_0000;
    if forth <= back {
        forth
    } else {
        back
    }
}

/// The distance of two 64-bit numbers: the absolute value of their difference
/// as signed numbers.
pub fn distance(a: u64, b: u64) -> (r: u64)
    ensures
        r == distance64(a as int, b as int),
{
    let forth = a.wrapping_sub(b);
    let back = b.wrapping_sub(a);
    if forth <= back {
        forth
    } else {
        back
    }
}

/// The step in which a connection interval is set, in microseconds.
pub const INCREMENT_MICROS: u64 = 1250;

/// Whether two estimates of the interval differ by less than a step, both
/// taken in whole microseconds modulo 2^64.
pub open spec fn within_increment(first: Duration, second: Duration) -> bool {
    distance64(first.nanos as int / 1_000, second.nanos as int / 1_000) < INCREMENT_MICROS
}

pub fn is_within_increment(first: Duration, second: Duration) -> (r: bool)
    ensures
        r == within_increment(first, second),
{
    let first_micros = first.as_micros();
    let second_micros = second.as_micros();
    let a = first_micros as u64;
    let b = second_micros as u64;
    assert(a == first_micros % 0x1_0000_0000_0000_0000) by (bit_vector)
        requires
            a == first_micros as u64,
    ;
    assert(b == second_micros % 0x1_0000_0000_0000_0000) by (bit_vector)
        requires
            b == second_micros as u64,
    ;
    distance(a, b) < INCREMENT_MICROS
}

} // verus!
