//! A message channel over two GATT characteristics.
use vstd::prelude::*;

pub mod client;
pub mod frame;
pub mod handover;
pub mod inflight;
pub mod lat;
pub mod laws;
pub mod queue;
pub mod rendezvous;
pub mod server;
pub mod stats;

pub use client::ClientOptions;
pub use lat::LatDeque;
pub use rustable::{MAC, UUID};
pub use server::ServerOptions;
pub use stats::Stats;

verus! {

/// The service that holds the two characteristics of a channel.
pub const SERV_UUID: u128 = 0x0143d59000004dfbb83fb1135254e6b4;

/// The characteristic for messages from the server.
pub const SERV_OUT: u128 = 0x0143d59000014dfbb83fb1135254e6b4;

/// The characteristic for messages to the server.
pub const SERV_IN: u128 = 0x0143d59000024dfbb83fb1135254e6b4;

/// The number of latencies that are averaged, unless asked otherwise.
pub const DEFAULT_LAT_PERIOD: usize = 32;

/// How often a sender whose message is not taken looks again, in milliseconds.
pub const SEND_TIMEOUT_MILLIS: u64 = 500;

/// What goes wrong with a channel.
#[derive(Debug)]
pub enum Error {
    InThreadHungUp,
    OutThreadHungUp,
    ClientThreadHungUp,
    DeviceNotFound,
    InvalidService,
    FailedToRequestName,
    Ble(rustable::Error),
    Dbus(std::io::Error),
}

impl From<rustable::Error> for Error {
    fn from(err: rustable::Error) -> (r: Self) {
        Error::Ble(err)
    }
}

impl vstd::std_specs::convert::FromSpecImpl<rustable::Error> for Error {
    open spec fn obeys_from_spec() -> bool {
        true
    }

    open spec fn from_spec(err: rustable::Error) -> Self {
        Error::Ble(err)
    }
}

impl From<std::io::Error> for Error {
    fn from(err: std::io::Error) -> (r: Self) {
        Error::Dbus(err)
    }
}

impl vstd::std_specs::convert::FromSpecImpl<std::io::Error> for Error {
    open spec fn obeys_from_spec() -> bool {
        true
    }

    open spec fn from_spec(err: std::io::Error) -> Self {
        Error::Dbus(err)
    }
}

/// The Bluetooth error that `rustable` makes of an I/O error: its variant
/// `Io`, which holds that error.
pub uninterp spec fn ble_error_of(err: std::io::Error) -> rustable::Error;

/// `rustable::Error::from` of an I/O error.
#[verifier::external_body]
fn ble_error(err: std::io::Error) -> (r: rustable::Error)
    ensures
        r == ble_error_of(err),
{
    rustable::Error::from(err)
}

/// Reports an I/O error as one of Bluetooth.
pub fn ioe_to_blee(err: std::io::Error) -> (r: Error)
    ensures
        r == Error::Ble(ble_error_of(err)),
{
    Error::from(ble_error(err))
}

} // verus!
