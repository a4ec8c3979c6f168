//! The equipment generator: new equipment and spell books, with rarity and
//! value rolls banded by rarity and level.
use vstd::prelude::*;

use crate::random::{
    entropy_in_range, next_position, position_after, valid_cursor,
    RandomEnumValue, RandomValue,
};
use crate::types::{
    AccountKey, EquipmentType, Item, ItemFeature, ItemRarity, ItemType, SpellType,
};

verus! {

/// A one-byte draw in `[min, max]` at `offset`.
pub open spec fn roll8(slots: Seq<u8>, offset: int, min: int, max: int) -> int {
    entropy_in_range(slots, offset, 1, min, max)
}

/// A two-byte draw in `[min, max]` at `offset`.
pub open spec fn roll16(slots: Seq<u8>, offset: int, min: int, max: int) -> int {
    entropy_in_range(slots, offset, 2, min, max)
}

/// The cursor after a one-byte draw.
pub open spec fn after8(slots: Seq<u8>, offset: int) -> int {
    next_position(slots.len(), offset)
}

/// The cursor after a two-byte draw.
pub open spec fn after16(slots: Seq<u8>, offset: int) -> int {
    position_after(slots.len(), offset, 2)
}

/// A rarity drawn uniformly from one byte.
pub open spec fn spec_item_rarity(slots: Seq<u8>, offset: int) -> ItemRarity {
    ItemRarity::spec_from_index(roll8(slots, offset, 0, 3) as nat)
}

/// Draws a rarity, each of the four tiers with the same weight.
pub fn get_item_rarity(slots: &[u8], offset: &mut usize) -> (r: ItemRarity)
    requires
        valid_cursor(slots@, *old(offset) as int),
    ensures
        r == spec_item_rarity(slots@, *old(offset) as int),
        *final(offset) == after8(slots@, *old(offset) as int),
        valid_cursor(slots@, *final(offset) as int),
{
    ItemRarity::get_random_within_range(slots, offset, 0, 3)
}

/// The band of a resource value: `10 * level` wide per tier, the common tier
/// starting at 1.
pub open spec fn resource_value_bounds(rarity: ItemRarity, level: int) -> (int, int) {
    match rarity {
        ItemRarity::Common => (1, 10 * level),
        ItemRarity::Rare => (10 * level + 1, 20 * level),
        ItemRarity::Epic => (20 * level + 1, 30 * level),
        ItemRarity::Legendary => (30 * level + 1, 40 * level),
    }
}

/// The band of a percentage value (in hundredths of a percent): from
/// `100 * (tier + 1)` up to a third of `100 * level` more.
pub open spec fn percentage_value_bounds(rarity: ItemRarity, level: int) -> (int, int) {
    let low: int = 100 * (rarity.spec_rank() as int + 1);
    (low, low + level * 100 / 3)
}

/// Draws a resource value in the band of `rarity` and `level`.
pub fn get_item_resource_value(rarity: ItemRarity, level: u8, slots: &[u8], offset: &mut usize) -> (r:
    u16)
    requires
        valid_cursor(slots@, *old(offset) as int),
        1 <= level <= 30,
    ensures
        r == roll16(
            slots@,
            *old(offset) as int,
            resource_value_bounds(rarity, level as int).0,
            resource_value_bounds(rarity, level as int).1,
        ),
        resource_value_bounds(rarity, level as int).0 <= r <= resource_value_bounds(
            rarity,
            level as int,
        ).1,
        *final(offset) == after16(slots@, *old(offset) as int),
        valid_cursor(slots@, *final(offset) as int),
{
    let level = level as u16;
    let (min, max): (u16, u16) = match rarity {
        ItemRarity::Common => (1, 10 * level),
        ItemRarity::Rare => (10 * level + 1, 20 * level),
        ItemRarity::Epic => (20 * level + 1, 30 * level),
        ItemRarity::Legendary => (30 * level + 1, 40 * level),
    };
    proof {
        reveal_with_fuel(crate::random::pow256, 3);
    }
    u16::random_within_range(slots, offset, min, max)
}

/// Draws a percentage value in the band of `rarity` and `level`.
pub fn get_item_percentage_value(rarity: ItemRarity, level: u8, slots: &[u8], offset: &mut usize) -> (r:
    u16)
    requires
        valid_cursor(slots@, *old(offset) as int),
    ensures
        r == roll16(
            slots@,
            *old(offset) as int,
            percentage_value_bounds(rarity, level as int).0,
            percentage_value_bounds(rarity, level as int).1,
        ),
        percentage_value_bounds(rarity, level as int).0 <= r <= percentage_value_bounds(
            rarity,
            level as int,
        ).1,
        *final(offset) == after16(slots@, *old(offset) as int),
        valid_cursor(slots@, *final(offset) as int),
{
    let min: u16 = 100 * (rarity.rank() as u16 + 1);
    let max: u16 = min + (level as u16) * 100 / 3;
    proof {
        reveal_with_fuel(crate::random::pow256, 3);
    }
    u16::random_within_range(slots, offset, min, max)
}

/// Whether a feature names a resource.
pub open spec fn is_resource_feature(feature: ItemFeature) -> bool {
    match feature {
        ItemFeature::Fire | ItemFeature::Earth | ItemFeature::Water => true,
        _ => false,
    }
}

/// The band of an equipment value: resource features take the resource band,
/// the others the percentage band.
pub open spec fn equipment_value_bounds(feature: ItemFeature, rarity: ItemRarity, level: int) -> (
    int,
    int,
) {
    if is_resource_feature(feature) {
        resource_value_bounds(rarity, level)
    } else {
        percentage_value_bounds(rarity, level)
    }
}

/// The rarity to generate with: the given one, or one drawn from a byte.
pub open spec fn spec_pick_rarity(rarity: Option<ItemRarity>, slots: Seq<u8>, offset: int) -> (
    ItemRarity,
    int,
) {
    match rarity {
        Some(r) => (r, offset),
        None => (spec_item_rarity(slots, offset), after8(slots, offset)),
    }
}

fn pick_rarity(rarity: Option<ItemRarity>, slots: &[u8], offset: &mut usize) -> (r: ItemRarity)
    requires
        valid_cursor(slots@, *old(offset) as int),
    ensures
        (r, *final(offset) as int) == spec_pick_rarity(rarity, slots@, *old(offset) as int),
        valid_cursor(slots@, *final(offset) as int),
{
    match rarity {
        Some(r) => r,
        None => get_item_rarity(slots, offset),
    }
}

/// New equipment: the rarity (drawn when absent), then the slot, the feature
/// and the value in the feature's band.
pub open spec fn spec_new_equipment(
    game: AccountKey,
    owner: AccountKey,
    level: u8,
    rarity: Option<ItemRarity>,
    slots: Seq<u8>,
    offset: int,
) -> (Item, int) {
    let (rarity, offset1) = spec_pick_rarity(rarity, slots, offset);
    let equipment_type = EquipmentType::spec_from_index(roll8(slots, offset1, 0, 2) as nat);
    let offset2 = after8(slots, offset1);
    let feature = ItemFeature::spec_from_index(roll8(slots, offset2, 0, 4) as nat);
    let offset3 = after8(slots, offset2);
    let bounds = equipment_value_bounds(feature, rarity, level as int);
    let value = roll16(slots, offset3, bounds.0, bounds.1);
    (
        Item {
            game,
            owner,
            level,
            item_type: ItemType::Equipment {
                feature,
                rarity,
                equipment_type,
                value: value as u16,
            },
            equipped_owner: None,
        },
        after16(slots, offset3),
    )
}

/// Generates a piece of equipment of `level` for `owner`.
pub fn generate_new_equipment(
    game: AccountKey,
    owner: AccountKey,
    level: u8,
    rarity: Option<ItemRarity>,
    slots: &[u8],
    offset: &mut usize,
) -> (r: Item)
    requires
        valid_cursor(slots@, *old(offset) as int),
        1 <= level <= 30,
    ensures
        (r, *final(offset) as int) == spec_new_equipment(
            game,
            owner,
            level,
            rarity,
            slots@,
            *old(offset) as int,
        ),
        valid_cursor(slots@, *final(offset) as int),
{
    let rarity = pick_rarity(rarity, slots, offset);
    let equipment_type = EquipmentType::get_random_within_range(slots, offset, 0, 2);
    let feature = ItemFeature::get_random_within_range(slots, offset, 0, 4);
    let value = match feature {
        ItemFeature::Fire | ItemFeature::Earth | ItemFeature::Water => get_item_resource_value(
            rarity,
            level,
            slots,
            offset,
        ),
        _ => get_item_percentage_value(rarity, level, slots, offset),
    };
    Item {
        game,
        owner,
        level,
        item_type: ItemType::Equipment { feature, rarity, equipment_type, value },
        equipped_owner: None,
    }
}

/// The band of a spell book's cost: 1 to `10 * level`.
pub open spec fn spell_cost_bounds(level: int) -> (int, int) {
    (1, 10 * level)
}

/// The band of a spell book's value: `30 * level` wide per tier, the common
/// tier starting at 1.
pub open spec fn spell_value_bounds(rarity: ItemRarity, level: int) -> (int, int) {
    match rarity {
        ItemRarity::Common => (1, 30 * level),
        ItemRarity::Rare => (30 * level + 1, 60 * level),
        ItemRarity::Epic => (60 * level + 1, 90 * level),
        ItemRarity::Legendary => (90 * level + 1, 120 * level),
    }
}

/// A new spell book: the rarity (drawn when absent), then the spell, the
/// resource it costs (fire, earth or water), the cost and the value.
pub open spec fn spec_new_spell_book(
    game: AccountKey,
    owner: AccountKey,
    level: u8,
    rarity: Option<ItemRarity>,
    slots: Seq<u8>,
    offset: int,
) -> (Item, int) {
    let (rarity, offset1) = spec_pick_rarity(rarity, slots, offset);
    let spell = SpellType::spec_from_index(roll8(slots, offset1, 0, 5) as nat);
    let offset2 = after8(slots, offset1);
    let cost_feature = ItemFeature::spec_from_index(roll8(slots, offset2, 2, 4) as nat);
    let offset3 = after8(slots, offset2);
    let cost = roll16(slots, offset3, spell_cost_bounds(level as int).0, spell_cost_bounds(level as int).1);
    let offset4 = after16(slots, offset3);
    let value = roll16(
        slots,
        offset4,
        spell_value_bounds(rarity, level as int).0,
        spell_value_bounds(rarity, level as int).1,
    );
    (
        Item {
            game,
            owner,
            level,
            item_type: ItemType::SpellBook {
                spell,
                cost_feature,
                rarity,
                cost: cost as u16,
                value: value as u16,
            },
            equipped_owner: None,
        },
        after16(slots, offset4),
    )
}

/// Generates a spell book of `level` for `owner`.
pub fn generate_new_spell_book(
    game: AccountKey,
    owner: AccountKey,
    level: u8,
    rarity: Option<ItemRarity>,
    slots: &[u8],
    offset: &mut usize,
) -> (r: Item)
    requires
        valid_cursor(slots@, *old(offset) as int),
        1 <= level <= 30,
    ensures
        (r, *final(offset) as int) == spec_new_spell_book(
            game,
            owner,
            level,
            rarity,
            slots@,
            *old(offset) as int,
        ),
        valid_cursor(slots@, *final(offset) as int),
{
    let rarity = pick_rarity(rarity, slots, offset);
    let spell = SpellType::get_random_within_range(slots, offset, 0, 5);
    let cost_feature = ItemFeature::get_random_within_range(slots, offset, 2, 4);
    let level16 = level as u16;
    proof {
        reveal_with_fuel(crate::random::pow256, 3);
    }
    let cost = u16::random_within_range(slots, offset, 1, 10 * level16);
    let (min, max): (u16, u16) = match rarity {
        ItemRarity::Common => (1, 30 * level16),
        ItemRarity::Rare => (30 * level16 + 1, 60 * level16),
        ItemRarity::Epic => (60 * level16 + 1, 90 * level16),
        ItemRarity::Legendary => (90 * level16 + 1, 120 * level16),
    };
    let value = u16::random_within_range(slots, offset, min, max);
    Item {
        game,
        owner,
        level,
        item_type: ItemType::SpellBook { spell, cost_feature, rarity, cost, value },
        equipped_owner: None,
    }
}

} // verus!
