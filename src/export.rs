//! The records that items and casters are exported with, and the checks that
//! guard an export.
use vstd::prelude::*;

use crate::caster_util::{valid_level, EXPERIENCE_REQUIRED_PER_LEVEL};
use crate::types::{AccountKey, Caster, Game, Item, ItemType, LadderError, Modifiers, TurnCommit};

verus! {

/// The exported form of an item.
#[derive(Clone, Copy, Debug, PartialEq, Eq)]
pub struct MetadataItem {
    /// The game.
    pub game: AccountKey,
    /// The player.
    pub owner: AccountKey,
    pub level: u8,
    pub item_type: ItemType,
    /// The caster that wears it.
    pub equipped_owner: Option<AccountKey>,
}

/// The exported form of a caster.
#[derive(Clone, Copy, Debug, PartialEq, Eq)]
pub struct MetadataCaster {
    pub version: u8,
    pub level: u8,
    pub experience: u64,
    /// The player.
    pub owner: AccountKey,
    pub modifiers: Modifiers,
    pub turn_commit: Option<TurnCommit>,
}

/// The stored record of an exported item.
#[derive(Clone, Copy, Debug, PartialEq, Eq)]
pub struct MetadataNFTItem {
    pub self_bump: u8,
    pub mint_bump: u8,
    pub mint: AccountKey,
    pub item: MetadataItem,
}

/// The stored record of an exported caster.
#[derive(Clone, Copy, Debug, PartialEq, Eq)]
pub struct MetadataNFTCaster {
    pub self_bump: u8,
    pub mint_bump: u8,
    pub mint: AccountKey,
    pub caster: MetadataCaster,
}

/// The export of an item: refused while the item is worn, and for a destroyed
/// item; otherwise the item's record, worn by nobody.
pub open spec fn spec_mint_item(item: Item) -> Result<MetadataItem, LadderError> {
    if item.equipped_owner is Some {
        Err(LadderError::ItemStillEquipped)
    } else if item.item_type is Zombie {
        Err(LadderError::InvalidRecordForExport)
    } else {
        Ok(
            MetadataItem {
                game: item.game,
                owner: item.owner,
                level: item.level,
                item_type: item.item_type,
                equipped_owner: None,
            },
        )
    }
}

/// Checks an item for export and builds the record it is exported with. The
/// proof of the record's URI and the minting itself are the caller's.
pub fn mint_item(item: &Item) -> (r: Result<MetadataItem, LadderError>)
    ensures
        r == spec_mint_item(*item),
{
    if item.equipped_owner.is_some() {
        return Err(LadderError::ItemStillEquipped);
    }
    if let ItemType::Zombie = item.item_type {
        return Err(LadderError::InvalidRecordForExport);
    }
    Ok(
        MetadataItem {
            game: item.game,
            owner: item.owner,
            level: item.level,
            item_type: item.item_type,
            equipped_owner: None,
        },
    )
}

/// Whether the caster wears anything.
pub open spec fn wears_anything(modifiers: Modifiers) -> bool {
    modifiers.robe is Some || modifiers.staff is Some || modifiers.head is Some
        || modifiers.spell_book is Some
}

/// The export of a caster: refused with a pending commit and while it wears
/// anything; otherwise its record, with its experience set to the threshold
/// of its level so that no two exports of one level differ in experience.
pub open spec fn spec_mint_caster(caster: Caster) -> Result<MetadataCaster, LadderError> {
    if caster.turn_commit is Some {
        Err(LadderError::InvalidRecordForExport)
    } else if wears_anything(caster.modifiers) {
        Err(LadderError::ItemStillEquipped)
    } else {
        Ok(
            MetadataCaster {
                version: caster.version,
                level: caster.level,
                experience: EXPERIENCE_REQUIRED_PER_LEVEL@[caster.level - 1],
                owner: caster.owner,
                modifiers: caster.modifiers,
                turn_commit: None,
            },
        )
    }
}

/// Checks a caster for export and builds the record it is exported with.
pub fn mint_caster(caster: &Caster) -> (r: Result<MetadataCaster, LadderError>)
    requires
        valid_level(caster.level as int),
    ensures
        r == spec_mint_caster(*caster),
{
    if caster.turn_commit.is_some() {
        return Err(LadderError::InvalidRecordForExport);
    }
    let m = &caster.modifiers;
    if m.robe.is_some() || m.staff.is_some() || m.head.is_some() || m.spell_book.is_some() {
        return Err(LadderError::ItemStillEquipped);
    }
    Ok(
        MetadataCaster {
            version: caster.version,
            level: caster.level,
            experience: EXPERIENCE_REQUIRED_PER_LEVEL[(caster.level - 1) as usize],
            owner: caster.owner,
            modifiers: caster.modifiers,
            turn_commit: None,
        },
    )
}

/// Replaces the root that exported records are proved against.
pub fn update_merkle_root(game: &mut Game, merkle_root_nft: [u8; 32])
    ensures
        *final(game) == (Game { merkle_root_nft, ..*old(game) }),
{
    game.merkle_root_nft = merkle_root_nft;
}

} // verus!
