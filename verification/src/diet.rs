use std::collections::hash_map::DefaultHasher;
use std::collections::hash_map::RandomState;
use std::hash::BuildHasher;
use std::hash::Hasher;
use vstd::prelude::*;

verus! {

/// What a crab eats.
#[derive(Clone, Copy, PartialEq, Eq, Structural, Debug)]
pub enum Diet {
    Plants,
    Fish,
    Shrimp,
}

/// Relies on std's `RandomState::new`: a hash-state factory freshly
/// seeded from system entropy. Nothing is assumed of the state.
#[verifier::external_body]
fn fresh_random_state() -> RandomState {
    RandomState::new()
}

/// Relies on std's `RandomState::build_hasher`: builds a hasher keyed by
/// the state's random seed. Nothing is assumed of the hasher's content.
#[verifier::external_body]
fn hasher_of(state: &RandomState) -> DefaultHasher {
    state.build_hasher()
}

impl Diet {
    /// Picks one of the diet variants, driven by the digest of a freshly
    /// seeded hasher; callers may not rely on which variant comes back.
    pub fn random_diet() -> Diet {
        let state = fresh_random_state();
        let hasher = hasher_of(&state);
        let r: u64 = hasher.finish() % 3;
        if r == 0 {
            Diet::Plants
        } else if r == 1 {
            Diet::Fish
        } else {
            Diet::Shrimp
        }
    }
}

} // verus!
