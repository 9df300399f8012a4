//! The source of the random bytes that the `Rand` instruction uses.

use rand::rngs::OsRng;
use rand::RngCore;
use vstd::prelude::*;

verus! {

/// Asks the operating system for one random byte, through
/// `rand::rngs::OsRng::try_fill_bytes` on a buffer of one byte.
///
/// Nothing is claimed of the byte. `None` stands for the error that
/// `try_fill_bytes` returns when the system has no randomness to give; this
/// entry point reports that case where `fill_bytes` and `gen` would panic.
#[verifier::external_body]
pub(crate) fn os_random_byte() -> (byte: Option<u8>) {
    let mut buffer: [u8; 1] = [0u8; 1];
    match OsRng.try_fill_bytes(&mut buffer) {
        Ok(()) => Some(buffer[0]),
        Err(_) => None,
    }
}

} // verus!
