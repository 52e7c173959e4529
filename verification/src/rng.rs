//! Random byte generation, through the `rand` crate.

use vstd::prelude::*;

verus! {

/// Relies on rand::rngs::ThreadRng::fill_bytes (a CSPRNG): fills a buffer of
/// the requested length with random bytes.
#[verifier::external_body]
pub fn fill_random(len: usize) -> (r: Vec<u8>)
    ensures
        r@.len() == len,
{
    let mut buf = vec![0u8; len];
    rand::RngCore::fill_bytes(&mut rand::thread_rng(), &mut buf);
    buf
}

/// Relies on rand::rngs::ThreadRng::next_u32: a random 32-bit value.
#[verifier::external_body]
pub fn random_u32() -> u32 {
    rand::RngCore::next_u32(&mut rand::thread_rng())
}

} // verus!
