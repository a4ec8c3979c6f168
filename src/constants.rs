//! Fixed game constants.
use vstd::prelude::*;

verus! {

/// Index of the fire resource in per-resource arrays.
pub const FIRE_INDEX: usize = 0;

/// Index of the water resource in per-resource arrays.
pub const WATER_INDEX: usize = 1;

/// Index of the earth resource in per-resource arrays.
pub const EARTH_INDEX: usize = 2;

/// Tokens handed out per turn, in units of `10^-9` token.
pub const LADA_DISTRIBUTION_PER_TURN: u64 = 1_984_126_984_130;

/// Price of a caster, in tokens.
pub const COST_IN_LADA_FOR_CASTER: u16 = 1_000;

/// Scale of the fixed-point shares used by the distribution.
pub const DECIMALS_PRECISION: u64 = 1_000_000_000;

/// Where the entropy cursor starts in each turn advance and each redemption.
pub const ENTROPY_START_OFFSET: usize = 1;

} // verus!
