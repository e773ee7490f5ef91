//! Random numbers, drawn from the `rand` crate's thread-local generator,
//! and random identifiers from the `uuid` crate.

use vstd::prelude::*;
use rand::Rng;

verus! {

/// A uniformly drawn number in `0..bound`, from `rand::rng().random_range`.
/// Only the range is claimed; which number comes out is chance.
#[verifier::external_body]
pub fn random_below(bound: u32) -> (r: u32)
    requires
        bound > 0,
    ensures
        r < bound,
{
    rand::rng().random_range(0..bound)
}

/// A uniformly drawn 32-bit number, from `rand::rng().random()`.
#[verifier::external_body]
pub fn random_u32() -> u32 {
    rand::rng().random::<u32>()
}

/// A fresh random identifier from `uuid::Uuid::new_v4().to_string()`: the
/// hyphenated lower-case form, which is 36 characters long. Only the length
/// is claimed; which identifier comes out is chance.
#[verifier::external_body]
pub fn new_uuid_v4() -> (r: String)
    ensures
        r@.len() == 36,
{
    uuid::Uuid::new_v4().to_string()
}

} // verus!
