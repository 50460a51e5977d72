//! Verified core logic of the Spadina virtual-world system: access rules,
//! puzzle operations and propagation rules, state-machine puzzles and the
//! asset helpers that surround them.

use vstd::prelude::*;

pub mod controller;
pub mod digest;
pub mod realm;
pub mod reference_converter;
pub mod access;
pub mod asset;
pub mod asset_store;
pub mod atomic_clock;
pub mod auth;
pub mod capabilities;
pub mod client;
pub mod communication;
pub mod player;
pub mod time;

verus! {

/// The absolute difference of two unsigned values.
pub open spec fn spec_abs_difference(x: int, y: int) -> int {
    if x < y { y - x } else { x - y }
}

/// Computes `|x - y|` without overflow.
pub fn abs_difference(x: u32, y: u32) -> (r: u32)
    ensures
        r == spec_abs_difference(x as int, y as int),
{
    if x < y { y - x } else { x - y }
}

/// Computes `|x - y|` for indices.
pub fn abs_difference_usize(x: usize, y: usize) -> (r: usize)
    ensures
        r == spec_abs_difference(x as int, y as int),
{
    if x < y { y - x } else { x - y }
}

} // verus!
