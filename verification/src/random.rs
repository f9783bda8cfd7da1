//! # Random
//!
//! Random numbers for the simulation, drawn from the `rand` crate.

use vstd::prelude::*;

verus! {

/// `rand::random::<u8>()`: a random number from the thread's generator; any `u8` may come
/// back. (The generator panics when the system gives no randomness to seed it; that does
/// not depend on anything handed to it, and no contract here can exclude it.)
#[verifier::external_body]
pub(crate) fn random_u8() -> (number: u8) {
    rand::random::<u8>()
}

/// `rand::random::<u32>()`: a random number from the thread's generator; any `u32` may come
/// back (with the same caveat as `random_u8`).
#[verifier::external_body]
pub(crate) fn random_u32() -> (number: u32) {
    rand::random::<u32>()
}

/// `rand::random::<usize>()`: a random number from the thread's generator; any `usize` may
/// come back (with the same caveat as `random_u8`).
#[verifier::external_body]
pub(crate) fn random_usize() -> (number: usize) {
    rand::random::<usize>()
}

} // verus!
