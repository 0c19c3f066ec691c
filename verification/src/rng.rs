//! The random source used by the procedural generator.

use vstd::prelude::*;

verus! {

/// Relies on rand::random: one independent sample per call; nothing is
/// promised of the value, so every caller must be correct for both results.
pub assume_specification<T>[ rand::random::<T> ]() -> (r: T)
    where
        rand::distributions::Standard: rand::distributions::Distribution<T>,
;

} // verus!
