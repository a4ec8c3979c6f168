//! The action resolver: redeems a caster's committed actions against the
//! archived map of the committed turn.
use vstd::prelude::*;

use crate::caster_util::{
    give_exp_to_caster_resources_burned, give_exp_to_caster_spell, grant, is_spell_successful,
    spell_difficulty, valid_level,
};
use crate::constants::{EARTH_INDEX, ENTROPY_START_OFFSET, FIRE_INDEX, WATER_INDEX};
use crate::distribution::{distribution_amount, spec_average_proportion, spec_payout};
use crate::equipment_util::{
    after16, after8, generate_new_equipment, generate_new_spell_book, roll16, roll8,
    spec_new_equipment, spec_new_spell_book,
};
use crate::random::{
    entropy_in_range, lemma_one_byte, position_after, valid_cursor, RandomEnumValue, RandomValue,
};
use crate::tile_util::{get_current_tile, grid, spec_tile_at};
use crate::types::{
    AccountKey, Caster, CraftingSnapshot, Item, ItemFeature, ItemRarity, ItemType, LadderError,
    Modifiers, SpellSnapshot, SpellType, Tile, TileType, TurnCommit, TurnData,
};

verus! {

/// The four actions, in the order of their slots in a commit.
#[derive(Clone, Copy, Debug, PartialEq, Eq, Structural)]
pub enum ActionKind {
    Loot,
    Spell,
    Move,
    Craft,
}

/// The action of slot `k`.
pub open spec fn action_of_slot(k: int) -> ActionKind {
    if k == 0 {
        ActionKind::Loot
    } else if k == 1 {
        ActionKind::Spell
    } else if k == 2 {
        ActionKind::Move
    } else {
        ActionKind::Craft
    }
}

/// The actions whose priority is `p`, in slot order.
pub open spec fn actions_with_priority(order: Seq<u8>, p: int) -> Seq<ActionKind> {
    (if order[0] == p {
        seq![ActionKind::Loot]
    } else {
        seq![]
    }) + (if order[1] == p {
        seq![ActionKind::Spell]
    } else {
        seq![]
    }) + (if order[2] == p {
        seq![ActionKind::Move]
    } else {
        seq![]
    }) + (if order[3] == p {
        seq![ActionKind::Craft]
    } else {
        seq![]
    })
}

/// The actions whose priority is `p` or more, by priority and then by slot.
pub open spec fn actions_from_priority(order: Seq<u8>, p: int) -> Seq<ActionKind>
    decreases 256 - p,
{
    if p > 255 || p < 1 {
        seq![]
    } else {
        actions_with_priority(order, p) + actions_from_priority(order, p + 1)
    }
}

/// The actions of a commit in the order they run: every slot with a non-zero
/// priority, the lowest priority first (slot order among equal priorities).
pub open spec fn spec_action_sequence(order: Seq<u8>) -> Seq<ActionKind> {
    actions_from_priority(order, 1)
}

/// The actions of a commit in the order they run.
pub fn action_sequence(action_order: &[u8; 4]) -> (r: Vec<ActionKind>)
    ensures
        r@ == spec_action_sequence(action_order@),
{
    let mut r: Vec<ActionKind> = Vec::new();
    let mut p: u16 = 1;
    while p <= 255
        invariant
            1 <= p <= 256,
            r@ + actions_from_priority(action_order@, p as int) == spec_action_sequence(
                action_order@,
            ),
        decreases 256 - p,
    {
        let ghost before = r@;
        if action_order[0] as u16 == p {
            r.push(ActionKind::Loot);
        }
        if action_order[1] as u16 == p {
            r.push(ActionKind::Spell);
        }
        if action_order[2] as u16 == p {
            r.push(ActionKind::Move);
        }
        if action_order[3] as u16 == p {
            r.push(ActionKind::Craft);
        }
        proof {
            assert(r@ =~= before + actions_with_priority(action_order@, p as int));
            assert(before + actions_from_priority(action_order@, p as int) =~= r@
                + actions_from_priority(action_order@, p + 1));
        }
        p = p + 1;
    }
    proof {
        assert(r@ =~= r@ + actions_from_priority(action_order@, 256));
    }
    r
}

/// An action is in the group of its own priority.
proof fn lemma_in_own_group(order: Seq<u8>, k: int)
    requires
        order.len() == 4,
        0 <= k < 4,
    ensures
        actions_with_priority(order, order[k] as int).contains(action_of_slot(k)),
{
    let p = order[k] as int;
    let s0: Seq<ActionKind> = if order[0] == p {
        seq![ActionKind::Loot]
    } else {
        seq![]
    };
    let s1: Seq<ActionKind> = if order[1] == p {
        seq![ActionKind::Spell]
    } else {
        seq![]
    };
    let s2: Seq<ActionKind> = if order[2] == p {
        seq![ActionKind::Move]
    } else {
        seq![]
    };
    let s3: Seq<ActionKind> = if order[3] == p {
        seq![ActionKind::Craft]
    } else {
        seq![]
    };
    let all = actions_with_priority(order, p);
    assert(all == s0 + s1 + s2 + s3);
    if k == 0 {
        assert(all[0] == ActionKind::Loot);
    } else if k == 1 {
        assert(all[s0.len() as int] == ActionKind::Spell);
    } else if k == 2 {
        assert(all[(s0.len() + s1.len()) as int] == ActionKind::Move);
    } else {
        assert(all[(s0.len() + s1.len() + s2.len()) as int] == ActionKind::Craft);
    }
}

/// An action with a priority of at least `p` runs among the actions from
/// priority `p` on.
proof fn lemma_in_sequence_from(order: Seq<u8>, k: int, p: int)
    requires
        order.len() == 4,
        0 <= k < 4,
        1 <= p <= order[k],
    ensures
        actions_from_priority(order, p).contains(action_of_slot(k)),
    decreases order[k] - p,
{
    let rest = actions_from_priority(order, p + 1);
    let group = actions_with_priority(order, p);
    assert(actions_from_priority(order, p) == group + rest);
    if p == order[k] {
        lemma_in_own_group(order, k);
        let i = choose|i: int| 0 <= i < group.len() && group[i] == action_of_slot(k);
        assert((group + rest)[i] == action_of_slot(k));
    } else {
        lemma_in_sequence_from(order, k, p + 1);
        let j = choose|j: int| 0 <= j < rest.len() && rest[j] == action_of_slot(k);
        assert((group + rest)[group.len() + j] == action_of_slot(k));
    }
}

proof fn lemma_order_from(order: Seq<u8>, a: int, b: int, p: int)
    requires
        order.len() == 4,
        0 <= a < 4,
        0 <= b < 4,
        1 <= p <= order[a] < order[b],
    ensures
        exists|i: int, j: int|
            0 <= i < j < actions_from_priority(order, p).len() && actions_from_priority(order, p)[i]
                == action_of_slot(a) && actions_from_priority(order, p)[j] == action_of_slot(b),
    decreases order[a] - p,
{
    let rest = actions_from_priority(order, p + 1);
    let group = actions_with_priority(order, p);
    let all = actions_from_priority(order, p);
    assert(all == group + rest);
    if p == order[a] {
        lemma_in_own_group(order, a);
        lemma_in_sequence_from(order, b, p + 1);
        let i = choose|i: int| 0 <= i < group.len() && group[i] == action_of_slot(a);
        let j = choose|j: int| 0 <= j < rest.len() && rest[j] == action_of_slot(b);
        assert(all[i] == action_of_slot(a));
        assert(all[group.len() + j] == action_of_slot(b));
    } else {
        lemma_order_from(order, a, b, p + 1);
        let (i, j) = choose|i: int, j: int|
            0 <= i < j < rest.len() && rest[i] == action_of_slot(a) && rest[j] == action_of_slot(b);
        assert(all[group.len() + i] == action_of_slot(a));
        assert(all[group.len() + j] == action_of_slot(b));
    }
}

/// Ordering law: every action with a non-zero priority runs, and an action
/// whose priority is lower than another's runs before it, wherever the two
/// stand in the commit.
pub proof fn lemma_declared_order_kept(order: [u8; 4], a: int, b: int)
    requires
        0 <= a < 4,
        0 <= b < 4,
        0 < order@[a] < order@[b],
    ensures
        spec_action_sequence(order@).contains(action_of_slot(a)),
        spec_action_sequence(order@).contains(action_of_slot(b)),
        exists|i: int, j: int|
            0 <= i < j < spec_action_sequence(order@).len() && spec_action_sequence(order@)[i]
                == action_of_slot(a) && spec_action_sequence(order@)[j] == action_of_slot(b),
{
    lemma_in_sequence_from(order@, a, 1);
    lemma_in_sequence_from(order@, b, 1);
    lemma_order_from(order@, a, b, 1);
}

/// An item record handed in with its key.
#[derive(Clone, Copy, Debug, PartialEq, Eq)]
pub struct KeyedItem {
    pub key: AccountKey,
    pub item: Item,
}

/// The records of the items a caster wears, as the storage layer read them.
#[derive(Clone, Copy, Debug, PartialEq, Eq)]
pub struct EquippedItems {
    pub staff: Option<KeyedItem>,
    pub head: Option<KeyedItem>,
    pub robe: Option<KeyedItem>,
}

/// What the worn equipment adds to a caster's rolls.
#[derive(Clone, Copy, Debug, PartialEq, Eq, Structural)]
pub struct PlayerBonuses {
    /// Added to the loot range on fire tiles.
    pub fire_chance: u32,
    /// Added to the loot range on water tiles.
    pub water_chance: u32,
    /// Added to the loot range on earth tiles.
    pub earth_chance: u32,
    /// Threshold of the critical roll, in hundredths of a percent.
    pub critical_chance: u32,
    /// Added to the chest threshold, in hundredths of a percent.
    pub magic_find_chance: u32,
}

/// What one handed-in item adds for `feature`: the value of an equipment item
/// of that feature whose key is the one the caster wears in that slot, zero
/// otherwise.
pub open spec fn item_bonus(worn: Option<AccountKey>, supplied: Option<KeyedItem>, feature: ItemFeature) -> int {
    match (worn, supplied) {
        (Some(k), Some(s)) => if k.bytes@ == s.key.bytes@ {
            match s.item.item_type {
                ItemType::Equipment { feature: f, value, .. } => if f == feature {
                    value as int
                } else {
                    0
                },
                _ => 0,
            }
        } else {
            0
        },
        _ => 0,
    }
}

/// What the three worn items add together for `feature`.
pub open spec fn feature_bonus(modifiers: Modifiers, equipped: EquippedItems, feature: ItemFeature) -> int {
    item_bonus(modifiers.staff, equipped.staff, feature) + item_bonus(
        modifiers.head,
        equipped.head,
        feature,
    ) + item_bonus(modifiers.robe, equipped.robe, feature)
}

/// The bonuses of the worn equipment: power raises the critical chance, magic
/// the chance of finding a chest, a resource feature the loot of that resource.
pub open spec fn spec_player_bonuses(modifiers: Modifiers, equipped: EquippedItems) -> PlayerBonuses {
    PlayerBonuses {
        fire_chance: feature_bonus(modifiers, equipped, ItemFeature::Fire) as u32,
        water_chance: feature_bonus(modifiers, equipped, ItemFeature::Water) as u32,
        earth_chance: feature_bonus(modifiers, equipped, ItemFeature::Earth) as u32,
        critical_chance: feature_bonus(modifiers, equipped, ItemFeature::Power) as u32,
        magic_find_chance: feature_bonus(modifiers, equipped, ItemFeature::Magic) as u32,
    }
}

fn bonus_of(worn: &Option<AccountKey>, supplied: &Option<KeyedItem>, feature: ItemFeature) -> (r: u32)
    ensures
        r == item_bonus(*worn, *supplied, feature),
        r <= u16::MAX,
{
    match (worn, supplied) {
        (Some(k), Some(s)) => if k.same_as(&s.key) {
            match s.item.item_type {
                ItemType::Equipment { feature: f, value, .. } => if f == feature {
                    value as u32
                } else {
                    0
                },
                _ => 0,
            }
        } else {
            0
        },
        _ => 0,
    }
}

fn sum_bonus(modifiers: &Modifiers, equipped: &EquippedItems, feature: ItemFeature) -> (r: u32)
    ensures
        r == feature_bonus(*modifiers, *equipped, feature),
{
    bonus_of(&modifiers.staff, &equipped.staff, feature) + bonus_of(
        &modifiers.head,
        &equipped.head,
        feature,
    ) + bonus_of(&modifiers.robe, &equipped.robe, feature)
}

/// The bonuses that the handed-in items grant, counting only those whose keys
/// are the ones the caster wears.
pub fn get_player_bonuses(modifiers: &Modifiers, equipped: &EquippedItems) -> (r: PlayerBonuses)
    ensures
        r == spec_player_bonuses(*modifiers, *equipped),
{
    PlayerBonuses {
        fire_chance: sum_bonus(modifiers, equipped, ItemFeature::Fire),
        water_chance: sum_bonus(modifiers, equipped, ItemFeature::Water),
        earth_chance: sum_bonus(modifiers, equipped, ItemFeature::Earth),
        critical_chance: sum_bonus(modifiers, equipped, ItemFeature::Power),
        magic_find_chance: sum_bonus(modifiers, equipped, ItemFeature::Magic),
    }
}

/// The three resources.
#[derive(Clone, Copy, Debug, PartialEq, Eq, Structural)]
pub enum Resource {
    Fire,
    Water,
    Earth,
}

/// An amount of a resource to mint to the caster's player.
#[derive(Clone, Copy, Debug, PartialEq, Eq, Structural)]
pub struct ResourceMint {
    pub resource: Resource,
    pub amount: u64,
}

/// A spell-book record handed in for a spell action, with its key.
#[derive(Clone, Copy, Debug, PartialEq, Eq)]
pub struct SpellBookRecord {
    pub key: AccountKey,
    pub item: Item,
}

/// What a redemption reads besides the caster: the world's current turn, the
/// record of the committed turn, the worn items, the spell book if one was
/// handed in, and the keys that a new item is made out to.
#[derive(Clone, Copy, Debug, PartialEq, Eq)]
pub struct RedeemContext {
    pub current_turn: u32,
    pub turn_data: TurnData,
    pub equipped: EquippedItems,
    pub spell_book: Option<SpellBookRecord>,
    pub game: AccountKey,
    pub player: AccountKey,
}

/// What a redemption hands to the ledger and the item store.
#[derive(Clone, Debug, PartialEq, Eq)]
pub struct RedeemOutcome {
    /// The resources to mint, in the order the actions produced them.
    pub minted: Vec<ResourceMint>,
    /// The new item; when none, the item slot set aside for it is destroyed.
    pub item: Option<Item>,
    /// Whether the handed-in spell book is destroyed.
    pub spell_book_destroyed: bool,
    /// Tokens transferred from the pool to the caster's player.
    pub payout: u64,
}

/// A redemption in progress: the caster, the mints, the item produced last,
/// whether the spell book is spent, and the entropy cursor.
pub type ResolutionModel = (Caster, Seq<ResourceMint>, Option<Item>, bool, int);

/// The resource of a resource tile.
pub open spec fn tile_resource(tile_type: TileType) -> Resource {
    match tile_type {
        TileType::Fire => Resource::Fire,
        TileType::Water => Resource::Water,
        _ => Resource::Earth,
    }
}

/// The loot bonus for a tile type.
pub open spec fn type_bonus(bonuses: PlayerBonuses, tile_type: TileType) -> int {
    match tile_type {
        TileType::Fire => bonuses.fire_chance as int,
        TileType::Water => bonuses.water_chance as int,
        TileType::Earth => bonuses.earth_chance as int,
        _ => 0,
    }
}

/// The chest tier found on a tile of item level `level` (the map level plus
/// one): 1 up to level 5, 2 up to 10, 3 up to 15, 4 above.
pub open spec fn chest_tier(level: int) -> u8 {
    if level <= 5 {
        1
    } else if level <= 10 {
        2
    } else if level <= 15 {
        3
    } else {
        4
    }
}

/// An eight-byte draw in `[min, max]`.
pub open spec fn roll64(slots: Seq<u8>, offset: int, min: int, max: int) -> int {
    entropy_in_range(slots, offset, 8, min, max)
}

/// The lowest value of a percentage roll, in hundredths of a percent.
pub const ROLL_MIN: u16 = 100;

/// The highest value of a percentage roll, in hundredths of a percent.
pub const ROLL_MAX: u16 = 9999;

/// The base chance of a chest on a resource tile: 10%.
pub const CHEST_BASE_CHANCE: u64 = 1000;

/// Loot: the tile at the caster's cell in the archived map must hold a
/// resource. The amount is drawn in `[1, 10 * (level + 1) + bonus]` and doubled
/// on a critical roll; then a chest roll may yield a chest.
#[verifier::opaque]
pub open spec fn spec_loot(s: ResolutionModel, ctx: RedeemContext, slots: Seq<u8>) -> Result<
    ResolutionModel,
    LadderError,
> {
    let (c, minted, item, spent, offset) = s;
    let level = c.modifiers.tile_level as int;
    let column = c.modifiers.tile_column as int;
    match spec_tile_at(grid(ctx.turn_data.map), level, column) {
        None => Err(LadderError::TileNotExists),
        Some(tile) => if !tile.tile_type.spec_is_resource() {
            Err(LadderError::InvalidTileForLooting)
        } else {
            let bonuses = spec_player_bonuses(c.modifiers, ctx.equipped);
            let max = 10 * (level + 1) + type_bonus(bonuses, tile.tile_type);
            let amount = roll64(slots, offset, 1, max);
            let offset1 = position_after(slots.len(), offset, 8);
            let critical = roll16(slots, offset1, ROLL_MIN as int, ROLL_MAX as int)
                < bonuses.critical_chance;
            let offset2 = after16(slots, offset1);
            let chest = roll16(slots, offset2, ROLL_MIN as int, ROLL_MAX as int)
                < CHEST_BASE_CHANCE + bonuses.magic_find_chance;
            let offset3 = after16(slots, offset2);
            let mint = ResourceMint {
                resource: tile_resource(tile.tile_type),
                amount: (if critical {
                    2 * amount
                } else {
                    amount
                }) as u64,
            };
            let new_item = if chest {
                Some(
                    Item {
                        game: ctx.game,
                        owner: ctx.player,
                        level: (level + 1) as u8,
                        item_type: ItemType::Chest { tier: chest_tier(level + 1) },
                        equipped_owner: None,
                    },
                )
            } else {
                item
            };
            Ok((c, minted.push(mint), new_item, spent, offset3))
        },
    }
}


/// Spell: the handed-in spell book must be the one the caster wears. A spell
/// book's spell succeeds on a one-in-n roll (n by rarity); on success it mints
/// its value of a resource, grants its value as experience, or produces a new
/// spell book of its level and rarity. The spell book is spent either way.
#[verifier::opaque]
pub open spec fn spec_spell(s: ResolutionModel, ctx: RedeemContext, slots: Seq<u8>) -> Result<
    ResolutionModel,
    LadderError,
> {
    let (c, minted, item, spent, offset) = s;
    match ctx.spell_book {
        None => Err(LadderError::SpellMissing),
        Some(book) => match c.modifiers.spell_book {
            None => Err(LadderError::SpellMismatch),
            Some(worn) => if worn.bytes@ != book.key.bytes@ {
                Err(LadderError::SpellMismatch)
            } else {
                match book.item.item_type {
                    ItemType::SpellBook { spell, rarity, value, .. } => {
                        let success = roll8(slots, offset, 1, spell_difficulty(rarity)) == 1;
                        let offset1 = after8(slots, offset);
                        if !success {
                            Ok((c, minted, item, true, offset1))
                        } else {
                            match spell {
                                SpellType::Fire => Ok(
                                    (
                                        c,
                                        minted.push(
                                            ResourceMint { resource: Resource::Fire, amount: value as u64 },
                                        ),
                                        item,
                                        true,
                                        offset1,
                                    ),
                                ),
                                SpellType::Water => Ok(
                                    (
                                        c,
                                        minted.push(
                                            ResourceMint { resource: Resource::Water, amount: value as u64 },
                                        ),
                                        item,
                                        true,
                                        offset1,
                                    ),
                                ),
                                SpellType::Earth => Ok(
                                    (
                                        c,
                                        minted.push(
                                            ResourceMint { resource: Resource::Earth, amount: value as u64 },
                                        ),
                                        item,
                                        true,
                                        offset1,
                                    ),
                                ),
                                SpellType::Experience => Ok(
                                    (grant(c, value as int), minted, item, true, offset1),
                                ),
                                SpellType::Item => if 1 <= book.item.level <= 30 {
                                    let (new_book, offset2) = spec_new_spell_book(
                                        ctx.game,
                                        ctx.player,
                                        book.item.level,
                                        Some(rarity),
                                        slots,
                                        offset1,
                                    );
                                    Ok((c, minted, Some(new_book), true, offset2))
                                } else {
                                    Err(LadderError::InvalidItemType)
                                },
                                SpellType::Craft => Ok((c, minted, item, true, offset1)),
                            }
                        }
                    },
                    _ => Ok((c, minted, item, true, offset)),
                }
            },
        },
    }
}

/// Move: the caster stands on the committed target from now on. The target was
/// checked when the commit was made and is not checked again.
#[verifier::opaque]
pub open spec fn spec_move(s: ResolutionModel, commit: TurnCommit) -> Result<ResolutionModel, LadderError> {
    let (c, minted, item, spent, offset) = s;
    match commit.actions.mv {
        None => Err(LadderError::InvalidCommit),
        Some(target) => Ok(
            (
                Caster {
                    modifiers: Modifiers {
                        tile_level: target@[0],
                        tile_column: target@[1],
                        ..c.modifiers
                    },
                    ..c
                },
                minted,
                item,
                spent,
                offset,
            ),
        ),
    }
}

/// One step up the rarity tiers, but never above `max`.
pub open spec fn escalate_rarity(rarity: ItemRarity, max: ItemRarity) -> ItemRarity {
    if rarity.spec_rank() < max.spec_rank() {
        ItemRarity::spec_from_index(rarity.spec_rank() + 1)
    } else {
        rarity
    }
}

/// The level and rarity of a crafted item, and the cursor after the rolls.
/// An extra-level spell bonus (below level 30) raises the level and makes the
/// item common. Otherwise a one-in-ten roll may improve the item: then a
/// one-in-two roll raises the level (and makes it common; nothing at level
/// 30), or else the rarity goes one tier up, capped at the maximum.
pub open spec fn spec_craft_roll(
    snapshot: CraftingSnapshot,
    spell: Option<SpellSnapshot>,
    slots: Seq<u8>,
    offset: int,
) -> (u8, ItemRarity, int) {
    let level = snapshot.min_level;
    let rarity = snapshot.min_rarity;
    if spell matches Some(sp) && sp.is_extra_level_bonus && level < 30 {
        ((level + 1) as u8, ItemRarity::Common, offset)
    } else if roll8(slots, offset, 1, 10) == 1 {
        let offset1 = after8(slots, offset);
        let offset2 = after8(slots, offset1);
        if roll8(slots, offset1, 1, 2) == 1 {
            if level < 30 {
                ((level + 1) as u8, ItemRarity::Common, offset2)
            } else {
                (level, rarity, offset2)
            }
        } else {
            (level, escalate_rarity(rarity, snapshot.max_rarity), offset2)
        }
    } else {
        (level, rarity, after8(slots, offset))
    }
}

/// Craft: a new piece of equipment of the rolled level and rarity.
#[verifier::opaque]
pub open spec fn spec_craft(
    s: ResolutionModel,
    commit: TurnCommit,
    ctx: RedeemContext,
    slots: Seq<u8>,
) -> Result<ResolutionModel, LadderError> {
    let (c, minted, item, spent, offset) = s;
    match commit.actions.crafting {
        None => Err(LadderError::InvalidCommit),
        Some(snapshot) => if !(1 <= snapshot.min_level <= 30) {
            Err(LadderError::InvalidCommit)
        } else {
            let (level, rarity, offset1) = spec_craft_roll(snapshot, commit.actions.spell, slots, offset);
            let (equipment, offset2) = spec_new_equipment(
                ctx.game,
                ctx.player,
                level,
                Some(rarity),
                slots,
                offset1,
            );
            Ok((c, minted, Some(equipment), spent, offset2))
        },
    }
}

/// One action applied to a redemption in progress.
pub open spec fn spec_apply_action(
    s: ResolutionModel,
    action: ActionKind,
    commit: TurnCommit,
    ctx: RedeemContext,
    slots: Seq<u8>,
) -> Result<ResolutionModel, LadderError> {
    match action {
        ActionKind::Loot => spec_loot(s, ctx, slots),
        ActionKind::Spell => spec_spell(s, ctx, slots),
        ActionKind::Move => spec_move(s, commit),
        ActionKind::Craft => spec_craft(s, commit, ctx, slots),
    }
}

/// The actions applied in turn; the first failure ends the redemption.
pub open spec fn spec_run_actions(
    s: ResolutionModel,
    actions: Seq<ActionKind>,
    commit: TurnCommit,
    ctx: RedeemContext,
    slots: Seq<u8>,
) -> Result<ResolutionModel, LadderError>
    decreases actions.len(),
{
    if actions.len() == 0 {
        Ok(s)
    } else {
        match spec_apply_action(s, actions[0], commit, ctx, slots) {
            Err(e) => Err(e),
            Ok(s1) => spec_run_actions(s1, actions.drop_first(), commit, ctx, slots),
        }
    }
}

/// The burned amounts of a turn, fire, water and earth.
pub open spec fn turn_totals(turn_data: TurnData) -> Seq<u64> {
    seq![turn_data.resource_1_burned, turn_data.resource_2_burned, turn_data.resource_3_burned]
}

/// A whole redemption: the caster afterwards, the mints, the new item, whether
/// the spell book is spent, and the payout.
pub open spec fn spec_redeem(caster: Caster, ctx: RedeemContext, slots: Seq<u8>) -> Result<
    (Caster, Seq<ResourceMint>, Option<Item>, bool, u64),
    LadderError,
> {
    match caster.turn_commit {
        None => Err(LadderError::EmptyCommit),
        Some(commit) => if commit.turn == ctx.current_turn {
            Err(LadderError::SameTurnRedeem)
        } else {
            let start = (caster, Seq::<ResourceMint>::empty(), None::<Item>, false, ENTROPY_START_OFFSET as int);
            match spec_run_actions(
                start,
                spec_action_sequence(commit.actions.action_order@),
                commit,
                ctx,
                slots,
            ) {
                Err(e) => Err(e),
                Ok((c, minted, item, spent, _)) => {
                    let burned = commit.resources_burned;
                    let leveled = grant(
                        c,
                        burned[FIRE_INDEX as int] + burned[EARTH_INDEX as int] + burned[WATER_INDEX as int],
                    );
                    let payout = spec_payout(
                        spec_average_proportion(burned@, turn_totals(ctx.turn_data)),
                    );
                    Ok((Caster { turn_commit: None, ..leveled }, minted, item, spent, payout as u64))
                },
            }
        },
    }
}

/// A redemption in progress.
struct Resolution {
    caster: Caster,
    minted: Vec<ResourceMint>,
    item: Option<Item>,
    spent: bool,
    offset: usize,
}

impl Resolution {
    spec fn model(&self) -> ResolutionModel {
        (self.caster, self.minted@, self.item, self.spent, self.offset as int)
    }
}

/// The resolution of one action, as its exec function promises it.
spec fn resolved(
    result: Result<(), LadderError>,
    after: &Resolution,
    expected: Result<ResolutionModel, LadderError>,
    slots: Seq<u8>,
) -> bool {
    match expected {
        Ok(s) => {
            &&& result is Ok
            &&& after.model() == s
            &&& valid_cursor(slots, after.offset as int)
            &&& valid_level(after.caster.level as int)
        },
        Err(e) => result == Err::<(), LadderError>(e),
    }
}

fn resolve_loot(st: &mut Resolution, ctx: &RedeemContext, slots: &[u8]) -> (r: Result<(), LadderError>)
    requires
        valid_cursor(slots@, old(st).offset as int),
        valid_level(old(st).caster.level as int),
    ensures
        resolved(r, final(st), spec_loot(old(st).model(), *ctx, slots@), slots@),
{
    proof {
        reveal(spec_loot);
    }
    let level = st.caster.modifiers.tile_level;
    let column = st.caster.modifiers.tile_column;
    let tile: Tile = match get_current_tile(&ctx.turn_data.map, level, column) {
        None => return Err(LadderError::TileNotExists),
        Some(t) => *t,
    };
    let resource = match tile.tile_type {
        TileType::Fire => Resource::Fire,
        TileType::Water => Resource::Water,
        TileType::Earth => Resource::Earth,
        _ => return Err(LadderError::InvalidTileForLooting),
    };
    let bonuses = get_player_bonuses(&st.caster.modifiers, &ctx.equipped);
    let bonus: u64 = match tile.tile_type {
        TileType::Fire => bonuses.fire_chance as u64,
        TileType::Water => bonuses.water_chance as u64,
        _ => bonuses.earth_chance as u64,
    };
    let max: u64 = 10 * (level as u64 + 1) + bonus;
    proof {
        reveal_with_fuel(crate::random::pow256, 9);
    }
    let mut amount = u64::random_within_range(slots, &mut st.offset, 1, max);
    let critical_roll = u16::random_within_range(slots, &mut st.offset, ROLL_MIN, ROLL_MAX);
    if (critical_roll as u32) < bonuses.critical_chance {
        amount = amount * 2;
    }
    let chest_roll = u16::random_within_range(slots, &mut st.offset, ROLL_MIN, ROLL_MAX);
    if (chest_roll as u64) < CHEST_BASE_CHANCE + bonuses.magic_find_chance as u64 {
        let item_level = level + 1;
        let tier: u8 = if item_level <= 5 {
            1
        } else if item_level <= 10 {
            2
        } else if item_level <= 15 {
            3
        } else {
            4
        };
        st.item = Some(
            Item {
                game: ctx.game,
                owner: ctx.player,
                level: item_level,
                item_type: ItemType::Chest { tier },
                equipped_owner: None,
            },
        );
    }
    st.minted.push(ResourceMint { resource, amount });
    Ok(())
}

fn resolve_spell(st: &mut Resolution, ctx: &RedeemContext, slots: &[u8]) -> (r: Result<(), LadderError>)
    requires
        valid_cursor(slots@, old(st).offset as int),
        valid_level(old(st).caster.level as int),
    ensures
        resolved(r, final(st), spec_spell(old(st).model(), *ctx, slots@), slots@),
{
    proof {
        reveal(spec_spell);
    }
    let book = match ctx.spell_book {
        None => return Err(LadderError::SpellMissing),
        Some(b) => b,
    };
    let worn = match st.caster.modifiers.spell_book {
        None => return Err(LadderError::SpellMismatch),
        Some(k) => k,
    };
    if !worn.same_as(&book.key) {
        return Err(LadderError::SpellMismatch);
    }
    match book.item.item_type {
        ItemType::SpellBook { spell, rarity, value, .. } => {
            if is_spell_successful(slots, &mut st.offset, rarity) {
                match spell {
                    SpellType::Fire => {
                        st.minted.push(ResourceMint { resource: Resource::Fire, amount: value as u64 });
                    },
                    SpellType::Water => {
                        st.minted.push(ResourceMint { resource: Resource::Water, amount: value as u64 });
                    },
                    SpellType::Earth => {
                        st.minted.push(ResourceMint { resource: Resource::Earth, amount: value as u64 });
                    },
                    SpellType::Experience => {
                        give_exp_to_caster_spell(&mut st.caster, value as u64);
                    },
                    SpellType::Item => {
                        if book.item.level < 1 || book.item.level > 30 {
                            return Err(LadderError::InvalidItemType);
                        }
                        let new_book = generate_new_spell_book(
                            ctx.game,
                            ctx.player,
                            book.item.level,
                            Some(rarity),
                            slots,
                            &mut st.offset,
                        );
                        st.item = Some(new_book);
                    },
                    SpellType::Craft => {},
                }
            }
        },
        _ => {},
    }
    st.spent = true;
    Ok(())
}

fn resolve_move(st: &mut Resolution, commit: &TurnCommit, slots: &[u8]) -> (r: Result<(), LadderError>)
    requires
        valid_cursor(slots@, old(st).offset as int),
        valid_level(old(st).caster.level as int),
    ensures
        resolved(r, final(st), spec_move(old(st).model(), *commit), slots@),
{
    proof {
        reveal(spec_move);
    }
    match commit.actions.mv {
        None => Err(LadderError::InvalidCommit),
        Some(target) => {
            st.caster.modifiers.tile_level = target[0];
            st.caster.modifiers.tile_column = target[1];
            Ok(())
        },
    }
}

fn craft_roll(
    snapshot: &CraftingSnapshot,
    spell: &Option<SpellSnapshot>,
    slots: &[u8],
    offset: &mut usize,
) -> (r: (u8, ItemRarity))
    requires
        valid_cursor(slots@, *old(offset) as int),
        1 <= snapshot.min_level <= 30,
    ensures
        (r.0, r.1, *final(offset) as int) == spec_craft_roll(
            *snapshot,
            *spell,
            slots@,
            *old(offset) as int,
        ),
        1 <= r.0 <= 30,
        valid_cursor(slots@, *final(offset) as int),
{
    let level = snapshot.min_level;
    let rarity = snapshot.min_rarity;
    let extra = match spell {
        Some(sp) => sp.is_extra_level_bonus && level < 30,
        None => false,
    };
    proof {
        lemma_one_byte(slots@, *offset as int);
    }
    if extra {
        (level + 1, ItemRarity::Common)
    } else if u8::random_within_range(slots, offset, 1, 10) == 1 {
        proof {
            lemma_one_byte(slots@, *offset as int);
        }
        if u8::random_within_range(slots, offset, 1, 2) == 1 {
            if level < 30 {
                (level + 1, ItemRarity::Common)
            } else {
                (level, rarity)
            }
        } else {
            let escalated = if rarity.rank() < snapshot.max_rarity.rank() {
                match rarity {
                    ItemRarity::Common => ItemRarity::Rare,
                    ItemRarity::Rare => ItemRarity::Epic,
                    _ => ItemRarity::Legendary,
                }
            } else {
                rarity
            };
            (level, escalated)
        }
    } else {
        (level, rarity)
    }
}

fn resolve_craft(st: &mut Resolution, commit: &TurnCommit, ctx: &RedeemContext, slots: &[u8]) -> (r:
    Result<(), LadderError>)
    requires
        valid_cursor(slots@, old(st).offset as int),
        valid_level(old(st).caster.level as int),
    ensures
        resolved(r, final(st), spec_craft(old(st).model(), *commit, *ctx, slots@), slots@),
{
    proof {
        reveal(spec_craft);
    }
    let snapshot = match commit.actions.crafting {
        None => return Err(LadderError::InvalidCommit),
        Some(s) => s,
    };
    if snapshot.min_level < 1 || snapshot.min_level > 30 {
        return Err(LadderError::InvalidCommit);
    }
    let (level, rarity) = craft_roll(&snapshot, &commit.actions.spell, slots, &mut st.offset);
    let equipment = generate_new_equipment(ctx.game, ctx.player, level, Some(rarity), slots, &mut st.offset);
    st.item = Some(equipment);
    Ok(())
}

/// Redeems the caster's pending commit.
///
/// Fails with `EmptyCommit` without a pending commit and with `SameTurnRedeem`
/// in the turn of the commit. Otherwise the committed actions run in their
/// declared order, drawing from `slots` from `ENTROPY_START_OFFSET` on; the
/// first failing action fails the whole redemption, and on any failure the
/// caster is left as it was. After the actions the caster gains the burned
/// resources as experience, its commit is cleared, and the payout for its
/// share of the turn's burned resources is computed.
pub fn caster_redeem_action(caster: &mut Caster, ctx: &RedeemContext, slots: &[u8]) -> (r: Result<
    RedeemOutcome,
    LadderError,
>)
    requires
        slots@.len() > ENTROPY_START_OFFSET,
        valid_level(old(caster).level as int),
    ensures
        match spec_redeem(*old(caster), *ctx, slots@) {
            Err(e) => r == Err::<RedeemOutcome, LadderError>(e) && *final(caster) == *old(caster),
            Ok((c, minted, item, spent, payout)) => {
                &&& r is Ok
                &&& *final(caster) == c
                &&& r->Ok_0.minted@ == minted
                &&& r->Ok_0.item == item
                &&& r->Ok_0.spell_book_destroyed == spent
                &&& r->Ok_0.payout == payout
            },
        },
{
    let commit = match caster.turn_commit {
        None => return Err(LadderError::EmptyCommit),
        Some(c) => c,
    };
    if commit.turn == ctx.current_turn {
        return Err(LadderError::SameTurnRedeem);
    }
    let actions = action_sequence(&commit.actions.action_order);
    let mut st = Resolution {
        caster: *caster,
        minted: Vec::new(),
        item: None,
        spent: false,
        offset: ENTROPY_START_OFFSET,
    };
    let ghost start = st.model();
    proof {
        assert(actions@.skip(0) =~= actions@);
    }
    let mut i: usize = 0;
    while i < actions.len()
        invariant
            0 <= i <= actions@.len(),
            valid_cursor(slots@, st.offset as int),
            valid_level(st.caster.level as int),
            start == (*caster, Seq::<ResourceMint>::empty(), None::<Item>, false, ENTROPY_START_OFFSET as int),
            actions@ == spec_action_sequence(commit.actions.action_order@),
            caster.turn_commit == Some(commit),
            commit.turn != ctx.current_turn,
            spec_run_actions(st.model(), actions@.skip(i as int), commit, *ctx, slots@)
                == spec_run_actions(start, actions@, commit, *ctx, slots@),
        decreases actions@.len() - i,
    {
        proof {
            assert(actions@.skip(i as int)[0] == actions@[i as int]);
            assert(actions@.skip(i as int).drop_first() =~= actions@.skip(i + 1));
        }
        let ghost before = st.model();
        let result = match actions[i] {
            ActionKind::Loot => resolve_loot(&mut st, ctx, slots),
            ActionKind::Spell => resolve_spell(&mut st, ctx, slots),
            ActionKind::Move => resolve_move(&mut st, &commit, slots),
            ActionKind::Craft => resolve_craft(&mut st, &commit, ctx, slots),
        };
        if let Err(e) = result {
            proof {
                let expected = spec_apply_action(before, actions@[i as int], commit, *ctx, slots@);
                assert(expected == Err::<ResolutionModel, LadderError>(e));
                assert(spec_run_actions(before, actions@.skip(i as int), commit, *ctx, slots@) == Err::<
                    ResolutionModel,
                    LadderError,
                >(e));
            }
            return Err(e);
        }
        i = i + 1;
    }
    proof {
        assert(actions@.skip(i as int) =~= Seq::<ActionKind>::empty());
    }
    give_exp_to_caster_resources_burned(
        &mut st.caster,
        Some(commit.resources_burned[FIRE_INDEX]),
        Some(commit.resources_burned[EARTH_INDEX]),
        Some(commit.resources_burned[WATER_INDEX]),
    );
    let totals: [u64; 3] = [
        ctx.turn_data.resource_1_burned,
        ctx.turn_data.resource_2_burned,
        ctx.turn_data.resource_3_burned,
    ];
    proof {
        assert(totals@ =~= turn_totals(ctx.turn_data));
    }
    let payout = distribution_amount(commit.resources_burned, totals);
    st.caster.turn_commit = None;
    *caster = st.caster;
    Ok(RedeemOutcome { minted: st.minted, item: st.item, spell_book_destroyed: st.spent, payout })
}


/// Determinism law: a redemption's outcome (the caster afterwards, the mints,
/// the new item, the spent spell book and the payout) is a function of the
/// caster, the context and the entropy buffer, so two redemptions of the same
/// commit on the same buffer agree in everything; and so do two turn
/// advances of the same world at the same time on the same buffer.
pub proof fn lemma_resolution_deterministic(
    caster: Caster,
    ctx: RedeemContext,
    slots: Seq<u8>,
    other_slots: Seq<u8>,
    map: crate::types::TileMap,
    info: crate::types::GameTurnInfo,
)
    requires
        slots == other_slots,
    ensures
        spec_redeem(caster, ctx, slots) == spec_redeem(caster, ctx, other_slots),
        crate::crank::spec_next_map(grid(map), info, slots) == crate::crank::spec_next_map(
            grid(map),
            info,
            other_slots,
        ),
        forall|now: i64|
            crate::crank::spec_next_turn_info(grid(map), info, now, slots)
                == #[trigger] crate::crank::spec_next_turn_info(grid(map), info, now, other_slots),
{
}
} // verus!
