//! The errors that sockets produce.

use vstd::prelude::*;

verus! {

/// Declares `std::io::Error`. The library carries such errors from the driver to the consumer
/// and never looks inside.
#[verifier::external_type_specification]
#[verifier::external_body]
pub struct ExIoError(std::io::Error);

} // verus!
