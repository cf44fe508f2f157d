//! Types of other crates that the library carries but does not look into.
use rustable::Error as BleError;
use vstd::prelude::*;

verus! {

/// `rustable::MAC`, the address of a device.
#[verifier::external_type_specification]
#[verifier::external_body]
pub struct ExMac(rustable::MAC);

/// `rustable::Error`, what goes wrong in Bluetooth.
#[verifier::external_type_specification]
#[verifier::external_body]
pub struct ExBleError(BleError);

/// `std::io::Error`.
#[verifier::external_type_specification]
#[verifier::external_body]
pub struct ExIoError(std::io::Error);

/// `async_std::channel::Receiver`, the end of a queue that another task fills.
#[verifier::external_type_specification]
#[verifier::external_body]
#[verifier::reject_recursive_types(T)]
pub struct ExReceiver<T>(async_std::channel::Receiver<T>);

} // verus!
