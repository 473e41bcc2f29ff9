//! The source of random bytes.
use vstd::prelude::*;
use rand::Rng;

verus! {

/// Draws one byte from the thread-local generator of the `rand` crate
/// (`rand::thread_rng()`, then `Rng::gen`). Nothing is claimed of the byte:
/// two calls may differ, and every value from 0 to 255 can come. The
/// generator seeds itself from the operating system on first use and
/// panics if the system can give it no seed.
#[verifier::external_body]
pub(crate) fn random_byte() -> (byte: u8) {
    rand::thread_rng().gen()
}

} // verus!
