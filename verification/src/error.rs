//! The conditions that end the server.

use vstd::prelude::*;

verus! {

/// A condition from which the server does not recover.
#[derive(Clone, Copy, Debug, PartialEq, Eq, Structural)]
pub enum ServerError {
    /// Every connection token below the listener's own is already taken.
    CapacityExceeded,
    /// A readiness event named a token that no slot of the table carries.
    UnknownToken,
    /// A socket operation failed for a reason other than "would block" or
    /// the peer having gone away.
    Io,
}

} // verus!
