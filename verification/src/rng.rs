//! The one place the processor meets the host's entropy source.

use vstd::prelude::*;

verus! {

/// Relies on `rand::random`: a byte drawn from the thread-local generator.
/// Nothing is promised of the value; every caller must hold for every
/// possible byte.
#[verifier::external_body]
pub(crate) fn random_byte() -> u8 {
    rand::random::<u8>()
}

} // verus!
