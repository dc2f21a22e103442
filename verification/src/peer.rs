//! Peer identifiers.

use vstd::prelude::*;

use crate::decimal;
use crate::decimal::to_decimal;

verus! {

/// Unique peer identifier. These are unique for the lifetime of the process and strictly
/// incrementing for each new connection. Even if the same peer (in terms of socket address)
/// connects multiple times, a new `PeerId` instance will be issued for each connection.
#[derive(Debug, Clone, Copy, Hash, PartialEq, Eq, PartialOrd, Ord, Structural)]
pub struct PeerId(pub u64);

impl PeerId {
    /// DANGER: allows the user to set peer ids directly. Normally these are assigned by the
    /// reactor and the consumer of the library should not be creating them manually. For
    /// development/testing/debugging purposes only. Use only if you really know what you
    /// are doing.
    pub fn set_raw(value: u64) -> (peer: Self)
        ensures
            peer == PeerId(value),
    {
        PeerId(value)
    }

    /// Returns the next id in sequence (self + 1).
    pub fn next(&self) -> (peer: Self)
        requires
            self.0 < u64::MAX,
        ensures
            peer.0 == self.0 + 1,
    {
        PeerId(self.0 + 1)
    }

    /// Returns the inner id of the peer id.
    pub fn inner(&self) -> (id: u64)
        ensures
            id == self.0,
    {
        self.0
    }

    /// Returns the value of the peer id.
    pub fn value(&self) -> (id: u64)
        ensures
            id == self.0,
    {
        self.0
    }

    /// Writes the peer id as a decimal number.
    pub fn to_text(&self) -> (text: String)
        ensures
            text@ == decimal::decimal(self.0 as nat),
    {
        to_decimal(self.0)
    }
}

} // verus!
