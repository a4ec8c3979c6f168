//! The simulation core of a turn-based resource and loot game: a map of tiles
//! that decay and regenerate, casters that commit one action set per turn and
//! later redeem it, and the progression, equipment and payout rules around it.
use vstd::prelude::*;

pub mod caster_util;
pub mod constants;
pub mod crank;
pub mod distribution;
pub mod equipment_util;
pub mod export;
pub mod random;
pub mod redeem;
pub mod tile_util;
pub mod types;

verus! {

} // verus!
