//! The progression ledger: experience, levels, and the success roll of spells.
use vstd::prelude::*;

use crate::random::{entropy_in_range, next_position, valid_cursor, RandomValue};
use crate::types::{Caster, ItemRarity};

verus! {

/// The experience a caster needs to leave level `i + 1`.
pub const EXPERIENCE_REQUIRED_PER_LEVEL: [u64; 30] = [
    1508,
    6001,
    14956,
    29851,
    52163,
    83369,
    124946,
    178371,
    245121,
    326674,
    424507,
    540097,
    674921,
    830456,
    1008179,
    1209568,
    1436100,
    1689252,
    1970501,
    2281324,
    2623198,
    2997601,
    3406010,
    3849902,
    4330754,
    4850043,
    5409246,
    6009841,
    6653305,
    7341115,
];

/// The highest caster level.
pub const MAX_CASTER_LEVEL: u8 = 30;

/// The experience needed to leave level `level`.
pub open spec fn threshold(level: int) -> int {
    EXPERIENCE_REQUIRED_PER_LEVEL@[level - 1] as int
}

/// The level a caster of level `level` reaches with `experience`: it climbs one
/// level at a time while below 30 and while its experience reaches the
/// threshold of the level it stands on.
pub open spec fn level_after(level: int, experience: int) -> int
    decreases 30 - level,
{
    if 1 <= level < 30 && experience >= threshold(level) {
        level_after(level + 1, experience)
    } else {
        level
    }
}

/// Experience after a grant of `amount`: it saturates at `u64::MAX`.
pub open spec fn experience_after(experience: int, amount: int) -> int {
    if experience + amount > u64::MAX {
        u64::MAX as int
    } else {
        experience + amount
    }
}

/// A caster's level lies in 1..=30.
pub open spec fn valid_level(level: int) -> bool {
    1 <= level <= 30
}

/// The caster after a grant of `amount` experience: only its experience and
/// its level change.
pub open spec fn grant(c: Caster, amount: int) -> Caster {
    let experience = experience_after(c.experience as int, amount);
    Caster { experience: experience as u64, level: level_after(c.level as int, experience) as u8, ..c }
}

pub proof fn lemma_level_after_bounds(level: int, experience: int)
    requires
        valid_level(level),
    ensures
        level <= level_after(level, experience) <= 30,
    decreases 30 - level,
{
    if level < 30 && experience >= threshold(level) {
        lemma_level_after_bounds(level + 1, experience);
    }
}

/// More experience never yields a lower level.
pub proof fn lemma_level_after_monotone(level: int, low: int, high: int)
    requires
        valid_level(level),
        low <= high,
    ensures
        level_after(level, low) <= level_after(level, high),
    decreases 30 - level,
{
    if level < 30 && low >= threshold(level) {
        lemma_level_after_monotone(level + 1, low, high);
    } else {
        lemma_level_after_bounds(level, high);
    }
}

/// Starting the climb from any level it passes through ends at the same level.
pub proof fn lemma_level_after_from_passed(level: int, mid: int, experience: int)
    requires
        valid_level(level),
        level <= mid <= level_after(level, experience),
    ensures
        level_after(mid, experience) == level_after(level, experience),
    decreases mid - level,
{
    if mid > level {
        lemma_level_after_from_passed(level + 1, mid, experience);
    }
}

/// Leveling law: a grant never lowers the level nor lifts it above 30, and a
/// grant of `a` followed by a grant of `b` leaves the same experience and the
/// same level as a single grant of `a + b`.
pub proof fn lemma_grants_compose(level: int, experience: int, a: int, b: int)
    requires
        valid_level(level),
        0 <= experience <= u64::MAX,
        0 <= a,
        0 <= b,
    ensures
        ({
            let first_exp = experience_after(experience, a);
            let first_level = level_after(level, first_exp);
            let second_exp = experience_after(first_exp, b);
            let second_level = level_after(first_level, second_exp);
            &&& level <= first_level <= second_level <= 30
            &&& second_exp == experience_after(experience, a + b)
            &&& second_level == level_after(level, experience_after(experience, a + b))
        }),
{
    let first_exp = experience_after(experience, a);
    let first_level = level_after(level, first_exp);
    let second_exp = experience_after(first_exp, b);
    lemma_level_after_bounds(level, first_exp);
    lemma_level_after_bounds(first_level, second_exp);
    lemma_level_after_monotone(level, first_exp, second_exp);
    lemma_level_after_from_passed(level, first_level, second_exp);
}

/// Raises the caster's level while its experience reaches the threshold.
fn level_up(caster: &mut Caster)
    requires
        valid_level(old(caster).level as int),
    ensures
        *final(caster) == (Caster { level: level_after(old(caster).level as int, old(caster).experience as int) as u8, ..*old(caster) }),
{
    proof {
        lemma_level_after_bounds(caster.level as int, caster.experience as int);
    }
    while caster.level < MAX_CASTER_LEVEL
        && caster.experience >= EXPERIENCE_REQUIRED_PER_LEVEL[(caster.level - 1) as usize]
        invariant
            valid_level(caster.level as int),
            level_after(caster.level as int, caster.experience as int) == level_after(
                old(caster).level as int,
                old(caster).experience as int,
            ),
            *caster == (Caster { level: caster.level, ..*old(caster) }),
        decreases 30 - caster.level,
    {
        caster.level = caster.level + 1;
    }
}

/// Adds `value` experience (saturating at `u64::MAX`) and levels the caster up.
pub fn give_exp_to_caster_spell(caster: &mut Caster, value: u64)
    requires
        valid_level(old(caster).level as int),
    ensures
        *final(caster) == grant(*old(caster), value as int),
        valid_level(final(caster).level as int),
{
    caster.experience = caster.experience.saturating_add(value);
    level_up(caster);
    proof {
        lemma_level_after_bounds(old(caster).level as int, caster.experience as int);
    }
}

/// The experience for burned resources: a missing amount counts as zero.
pub open spec fn burned_total(fire: Option<u64>, earth: Option<u64>, water: Option<u64>) -> int {
    (match fire {
        Some(v) => v as int,
        None => 0,
    }) + (match earth {
        Some(v) => v as int,
        None => 0,
    }) + (match water {
        Some(v) => v as int,
        None => 0,
    })
}

/// Grants the sum of the burned resources as experience and levels the caster
/// up.
pub fn give_exp_to_caster_resources_burned(
    caster: &mut Caster,
    fire_burned: Option<u64>,
    earth_burned: Option<u64>,
    water_burned: Option<u64>,
)
    requires
        valid_level(old(caster).level as int),
    ensures
        *final(caster) == grant(*old(caster), burned_total(fire_burned, earth_burned, water_burned)),
        valid_level(final(caster).level as int),
{
    let fire = match fire_burned {
        Some(v) => v,
        None => 0,
    };
    let earth = match earth_burned {
        Some(v) => v,
        None => 0,
    };
    let water = match water_burned {
        Some(v) => v,
        None => 0,
    };
    let total = fire.saturating_add(earth).saturating_add(water);
    caster.experience = caster.experience.saturating_add(total);
    level_up(caster);
    proof {
        lemma_level_after_bounds(old(caster).level as int, caster.experience as int);
    }
}

/// The `n` of a spell's one-in-`n` chance of success.
pub open spec fn spell_difficulty(rarity: ItemRarity) -> int {
    match rarity {
        ItemRarity::Common => 8,
        ItemRarity::Rare => 6,
        ItemRarity::Epic => 4,
        ItemRarity::Legendary => 2,
    }
}

/// Rolls a spell's success: one byte reduced into `[1, n]` must give 1.
pub fn is_spell_successful(slots: &[u8], offset: &mut usize, spell_book_rarity: ItemRarity) -> (r:
    bool)
    requires
        valid_cursor(slots@, *old(offset) as int),
    ensures
        r == (entropy_in_range(slots@, *old(offset) as int, 1, 1, spell_difficulty(spell_book_rarity))
            == 1),
        *final(offset) == next_position(slots@.len(), *old(offset) as int),
        valid_cursor(slots@, *final(offset) as int),
{
    let max_range: u8 = match spell_book_rarity {
        ItemRarity::Common => 8,
        ItemRarity::Rare => 6,
        ItemRarity::Epic => 4,
        ItemRarity::Legendary => 2,
    };
    proof {
        crate::random::lemma_one_byte(slots@, *offset as int);
    }
    u8::random_within_range(slots, offset, 1, max_range) == 1
}

} // verus!
