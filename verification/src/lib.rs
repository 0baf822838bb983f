//! An in-memory ecological model: beaches of crabs organized into clans,
//! and an ocean of reefs populated with prey.
//!
//! `Beach` owns an append-only sequence of `Crab`s plus one `ClanSystem`;
//! `Ocean` owns a sequence of `Beach`es and an arena of `Reef`s reached
//! through lightweight `ReefHandle`s, so several holders can observe and
//! mutate the same reef over time.

pub mod beach;
pub mod clans;
pub mod color;
pub mod crab;
pub mod diet;
pub mod ocean;
pub mod reef;

use vstd::prelude::*;

verus! {

/// Compares two strings by their character content.
pub fn string_eq(a: &String, b: &String) -> (r: bool)
    ensures
        r == (a@ == b@),
{
    a.eq(b)
}

} // verus!
