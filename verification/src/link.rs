//! What to do when a write to the other device fails.
use vstd::prelude::*;

verus! {

/// Why a write to a socket failed.
#[derive(Clone, Copy, Debug, PartialEq, Eq, Structural)]
pub enum WriteFault {
    NotConnected,
    BrokenPipe,
    Other,
}

/// Whether the value is to be written by a request of its own and a new socket
/// asked for. After any other fault the link is given up.
pub fn reconnects(fault: WriteFault) -> (r: bool)
    ensures
        r == (fault is NotConnected || fault is BrokenPipe),
{
    match fault {
        WriteFault::NotConnected => true,
        WriteFault::BrokenPipe => true,
        WriteFault::Other => false,
    }
}

} // verus!
