//! The game's records: tiles, items, casters, commits, the world and its
//! per-turn snapshots.
use vstd::prelude::*;

use crate::random::RandomEnumValue;

verus! {

/// The address of an account record, held as its 32 bytes.
#[derive(Clone, Copy, Debug, PartialEq, Eq)]
pub struct AccountKey {
    pub bytes: [u8; 32],
}

impl AccountKey {
    /// Whether two keys hold the same bytes.
    pub fn same_as(&self, other: &AccountKey) -> (r: bool)
        ensures
            r == (self.bytes@ == other.bytes@),
    {
        let mut i: usize = 0;
        while i < 32
            invariant
                0 <= i <= 32,
                forall|j: int| 0 <= j < i ==> self.bytes@[j] == other.bytes@[j],
            decreases 32 - i,
        {
            if self.bytes[i] != other.bytes[i] {
                return false;
            }
            i = i + 1;
        }
        proof {
            assert(self.bytes@ =~= other.bytes@);
        }
        true
    }
}

/// The kind of a map tile.
#[derive(Clone, Copy, Debug, PartialEq, Eq, Structural)]
pub enum TileType {
    Fire,
    Water,
    Earth,
    Crafting,
    Legendary,
}

impl TileType {
    /// Fire, water and earth tiles hold a resource.
    pub open spec fn spec_is_resource(&self) -> bool {
        match self {
            TileType::Fire | TileType::Water | TileType::Earth => true,
            _ => false,
        }
    }
}

impl RandomEnumValue for TileType {
    open spec fn variant_count() -> nat {
        5
    }

    open spec fn spec_from_index(i: nat) -> TileType {
        if i == 0 {
            TileType::Fire
        } else if i == 1 {
            TileType::Water
        } else if i == 2 {
            TileType::Earth
        } else if i == 3 {
            TileType::Crafting
        } else {
            TileType::Legendary
        }
    }

    fn from_index(i: u8) -> (r: TileType) {
        match i {
            0 => TileType::Fire,
            1 => TileType::Water,
            2 => TileType::Earth,
            3 => TileType::Crafting,
            _ => TileType::Legendary,
        }
    }
}

/// One cell of the map.
#[derive(Clone, Copy, Debug, PartialEq, Eq, Structural)]
pub struct Tile {
    pub tile_type: TileType,
    pub life: u8,
    pub is_first_time_spawning: bool,
}

/// The map: 30 levels of 3 columns, each cell empty or holding a tile.
pub type TileMap = [[Option<Tile>; 3]; 30];

/// What an equipment item improves, or what a spell book costs.
#[derive(Clone, Copy, Debug, PartialEq, Eq, Structural)]
pub enum ItemFeature {
    Power,
    Magic,
    Fire,
    Earth,
    Water,
}

impl RandomEnumValue for ItemFeature {
    open spec fn variant_count() -> nat {
        5
    }

    open spec fn spec_from_index(i: nat) -> ItemFeature {
        if i == 0 {
            ItemFeature::Power
        } else if i == 1 {
            ItemFeature::Magic
        } else if i == 2 {
            ItemFeature::Fire
        } else if i == 3 {
            ItemFeature::Earth
        } else {
            ItemFeature::Water
        }
    }

    fn from_index(i: u8) -> (r: ItemFeature) {
        match i {
            0 => ItemFeature::Power,
            1 => ItemFeature::Magic,
            2 => ItemFeature::Fire,
            3 => ItemFeature::Earth,
            _ => ItemFeature::Water,
        }
    }
}

/// The rarity tiers, from the most common up.
#[derive(Clone, Copy, Debug, PartialEq, Eq, Structural)]
pub enum ItemRarity {
    Common,
    Rare,
    Epic,
    Legendary,
}

impl ItemRarity {
    /// The tier's position: 0 for common up to 3 for legendary.
    pub open spec fn spec_rank(&self) -> nat {
        match self {
            ItemRarity::Common => 0,
            ItemRarity::Rare => 1,
            ItemRarity::Epic => 2,
            ItemRarity::Legendary => 3,
        }
    }

    pub fn rank(&self) -> (r: u8)
        ensures
            r as nat == self.spec_rank(),
    {
        match self {
            ItemRarity::Common => 0,
            ItemRarity::Rare => 1,
            ItemRarity::Epic => 2,
            ItemRarity::Legendary => 3,
        }
    }
}

impl RandomEnumValue for ItemRarity {
    open spec fn variant_count() -> nat {
        4
    }

    open spec fn spec_from_index(i: nat) -> ItemRarity {
        if i == 0 {
            ItemRarity::Common
        } else if i == 1 {
            ItemRarity::Rare
        } else if i == 2 {
            ItemRarity::Epic
        } else {
            ItemRarity::Legendary
        }
    }

    fn from_index(i: u8) -> (r: ItemRarity) {
        match i {
            0 => ItemRarity::Common,
            1 => ItemRarity::Rare,
            2 => ItemRarity::Epic,
            _ => ItemRarity::Legendary,
        }
    }
}

/// The slot an equipment item is worn in.
#[derive(Clone, Copy, Debug, PartialEq, Eq, Structural)]
pub enum EquipmentType {
    Head,
    Robe,
    Staff,
}

impl RandomEnumValue for EquipmentType {
    open spec fn variant_count() -> nat {
        3
    }

    open spec fn spec_from_index(i: nat) -> EquipmentType {
        if i == 0 {
            EquipmentType::Head
        } else if i == 1 {
            EquipmentType::Robe
        } else {
            EquipmentType::Staff
        }
    }

    fn from_index(i: u8) -> (r: EquipmentType) {
        match i {
            0 => EquipmentType::Head,
            1 => EquipmentType::Robe,
            _ => EquipmentType::Staff,
        }
    }
}

/// What a spell book does when its spell succeeds.
#[derive(Clone, Copy, Debug, PartialEq, Eq, Structural)]
pub enum SpellType {
    Fire,
    Water,
    Earth,
    Experience,
    Craft,
    Item,
}

impl RandomEnumValue for SpellType {
    open spec fn variant_count() -> nat {
        6
    }

    open spec fn spec_from_index(i: nat) -> SpellType {
        if i == 0 {
            SpellType::Fire
        } else if i == 1 {
            SpellType::Water
        } else if i == 2 {
            SpellType::Earth
        } else if i == 3 {
            SpellType::Experience
        } else if i == 4 {
            SpellType::Craft
        } else {
            SpellType::Item
        }
    }

    fn from_index(i: u8) -> (r: SpellType) {
        match i {
            0 => SpellType::Fire,
            1 => SpellType::Water,
            2 => SpellType::Earth,
            3 => SpellType::Experience,
            4 => SpellType::Craft,
            _ => SpellType::Item,
        }
    }
}

/// What an item is.
#[derive(Clone, Copy, Debug, PartialEq, Eq, Structural)]
pub enum ItemType {
    /// A destroyed item.
    Zombie,
    Chest {
        /// 1 to 4, from the level of the tile where the chest was found.
        tier: u8,
    },
    Equipment {
        feature: ItemFeature,
        rarity: ItemRarity,
        equipment_type: EquipmentType,
        /// Up to 1200 for resource features, up to 1400 for the others.
        value: u16,
    },
    SpellBook {
        spell: SpellType,
        cost_feature: ItemFeature,
        rarity: ItemRarity,
        /// 1 to 300.
        cost: u16,
        /// Up to 3600.
        value: u16,
    },
}

impl Default for ItemType {
    fn default() -> (r: ItemType)
        ensures
            r == ItemType::Zombie,
    {
        ItemType::Zombie
    }
}

/// An item record.
#[derive(Clone, Copy, Debug, PartialEq, Eq)]
pub struct Item {
    /// The game.
    pub game: AccountKey,
    /// The player.
    pub owner: AccountKey,
    pub level: u8,
    pub item_type: ItemType,
    /// The caster that wears it.
    pub equipped_owner: Option<AccountKey>,
}

/// Where a caster stands and what it wears.
#[derive(Clone, Copy, Debug, PartialEq, Eq)]
pub struct Modifiers {
    /// The map level, counted from 0.
    pub tile_level: u8,
    /// The map column, counted from 0.
    pub tile_column: u8,
    pub head: Option<AccountKey>,
    pub robe: Option<AccountKey>,
    pub staff: Option<AccountKey>,
    pub spell_book: Option<AccountKey>,
}

/// The item bounds that a craft action was committed with.
#[derive(Clone, Copy, Debug, PartialEq, Eq, Structural)]
pub struct CraftingSnapshot {
    pub min_level: u8,
    pub min_rarity: ItemRarity,
    pub max_rarity: ItemRarity,
}

/// What the spell book granted at commit time.
#[derive(Clone, Copy, Debug, PartialEq, Eq, Structural)]
pub struct SpellSnapshot {
    pub is_extra_level_bonus: bool,
}

/// The actions of a commit. `action_order[k]` is the priority of action `k`
/// (loot, spell, move, craft), 0 where the action is absent.
#[derive(Clone, Copy, Debug, PartialEq, Eq)]
pub struct CommittedActions {
    pub action_order: [u8; 4],
    /// The target level and column of a move.
    pub mv: Option<[u8; 2]>,
    pub crafting: Option<CraftingSnapshot>,
    pub spell: Option<SpellSnapshot>,
}

/// The action set a caster committed in a turn.
#[derive(Clone, Copy, Debug, PartialEq, Eq)]
pub struct TurnCommit {
    pub turn: u32,
    pub actions: CommittedActions,
    /// Fire, water and earth burned with the commit.
    pub resources_burned: [u64; 3],
}

/// A caster record.
#[derive(Clone, Copy, Debug, PartialEq, Eq)]
pub struct Caster {
    pub version: u8,
    pub level: u8,
    pub experience: u64,
    /// The player.
    pub owner: AccountKey,
    pub modifiers: Modifiers,
    /// While set, items can be neither equipped nor unequipped.
    pub turn_commit: Option<TurnCommit>,
}

/// A player record.
#[derive(Clone, Copy, Debug, PartialEq, Eq)]
pub struct Player {
    pub authority: AccountKey,
    pub game: AccountKey,
    pub bump: u8,
}

/// The world's clock.
#[derive(Clone, Copy, Debug, PartialEq, Eq, Structural)]
pub struct GameTurnInfo {
    pub turn: u32,
    /// Seconds between two turn advances.
    pub turn_delay: u32,
    /// When the last turn advance ran, in seconds.
    pub last_crank_seconds: i64,
    /// The turn in which a tile was last spawned.
    pub last_tile_spawn: u32,
    /// Turns between two spawns.
    pub tile_spawn_delay: u32,
}

/// The world.
#[derive(Clone, Copy, Debug, PartialEq, Eq)]
pub struct Game {
    pub version: u8,
    pub authority: AccountKey,
    pub map: TileMap,
    pub turn_info: GameTurnInfo,
    pub last_turn_added: u32,
    pub signer_bump: u8,
    pub resource_1_mint_account: AccountKey,
    pub resource_2_mint_account: AccountKey,
    pub resource_3_mint_account: AccountKey,
    pub lada_mint_account: AccountKey,
    pub lada_token_account: AccountKey,
    /// Root of the Merkle tree that the exported records are checked against.
    pub merkle_root_nft: [u8; 32],
}

/// The record of one turn: the map as it stood during the turn, and how much
/// of each resource was burned in it.
#[derive(Clone, Copy, Debug, PartialEq, Eq)]
pub struct TurnData {
    pub bump: u8,
    pub resource_1_burned: u64,
    pub resource_2_burned: u64,
    pub resource_3_burned: u64,
    pub map: TileMap,
}

impl Default for TurnData {
    /// A fresh record: nothing burned yet, and an empty map.
    fn default() -> (r: TurnData)
        ensures
            r.bump == 0,
            r.resource_1_burned == 0,
            r.resource_2_burned == 0,
            r.resource_3_burned == 0,
            forall|i: int, j: int| 0 <= i < 30 && 0 <= j < 3 ==> (#[trigger] r.map@[i]@[j]) is None,
    {
        let row: [Option<Tile>; 3] = [None, None, None];
        TurnData {
            bump: 0,
            resource_1_burned: 0,
            resource_2_burned: 0,
            resource_3_burned: 0,
            map: [row; 30],
        }
    }
}

/// The failures of the core's operations. None of them leaves a change behind.
#[derive(Clone, Copy, Debug, PartialEq, Eq, Structural)]
pub enum LadderError {
    /// A redemption without a pending commit.
    EmptyCommit,
    /// A redemption in the turn in which the commit was made.
    SameTurnRedeem,
    /// A commit whose action order or payloads do not fit together.
    InvalidCommit,
    /// Loot on a cell that holds no tile.
    TileNotExists,
    /// Loot on a tile that holds no resource.
    InvalidTileForLooting,
    /// A spell action without its spell book.
    SpellMissing,
    /// A spell book that is not the one the caster wears.
    SpellMismatch,
    /// An item of a kind the operation does not take.
    InvalidItemType,
    /// A record that cannot be exported in its current state.
    InvalidRecordForExport,
    /// A destructive or export operation on an equipped item.
    ItemStillEquipped,
    /// A turn advance before the turn delay has passed.
    TurnNotYetDue,
}

} // verus!
