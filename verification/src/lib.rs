//! Building blocks for talking to another Bluetooth Low Energy device: a
//! message channel with acknowledgements and a clock synchronisation protocol.
use vstd::prelude::*;

pub mod att;
pub mod bytes;
pub mod future;
pub mod link;
pub mod messaging;
pub mod outside;
pub mod spin;
pub mod time;
pub mod timing;

pub use rustable::{MAC, UUID};

verus! {

/// What goes wrong.
#[derive(Debug)]
pub enum Error {
    InThreadHungUp,
    OutThreadHungUp,
    ClientThreadHungUp,
    InvalidService,
    FailedToRequestName,
    Ble(rustable::Error),
    Dbus(std::io::Error),
}

impl From<rustable::Error> for Error {
    fn from(err: rustable::Error) -> (r: Self) {
        Error::Ble(err)
    }
}

impl vstd::std_specs::convert::FromSpecImpl<rustable::Error> for Error {
    open spec fn obeys_from_spec() -> bool {
        true
    }

    open spec fn from_spec(err: rustable::Error) -> Self {
        Error::Ble(err)
    }
}

impl From<std::io::Error> for Error {
    fn from(err: std::io::Error) -> (r: Self) {
        Error::Dbus(err)
    }
}

impl vstd::std_specs::convert::FromSpecImpl<std::io::Error> for Error {
    open spec fn obeys_from_spec() -> bool {
        true
    }

    open spec fn from_spec(err: std::io::Error) -> Self {
        Error::Dbus(err)
    }
}

} // verus!
