//! Where the machine's random numbers come from.

use vstd::prelude::*;

verus! {

/// Draws a byte from `rand::random`, which samples the thread-local
/// generator of the `rand` crate. Nothing is claimed of the byte: every
/// value may come back, and two calls need not agree. The generator seeds
/// itself from the operating system on first use in a thread and panics if
/// that source cannot be read.
#[verifier::external_body]
pub(crate) fn random_byte() -> (byte: u8) {
    rand::random::<u8>()
}

} // verus!
