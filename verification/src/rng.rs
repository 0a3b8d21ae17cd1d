//! The machine's one source of chance: the random byte drawn by the
//! random-AND instruction.

use vstd::prelude::*;

verus! {

/// Relies on rand::random: a sample drawn from the thread-local generator
/// under the standard distribution. The value depends on the generator's
/// state, so nothing is promised of it.
pub assume_specification<T>[ rand::random::<T> ]() -> (r: T)
    where
        rand::distributions::Standard: rand::distributions::Distribution<T>,
;

} // verus!
