use laddercast::caster_util::{
    give_exp_to_caster_resources_burned, give_exp_to_caster_spell, is_spell_successful,
    EXPERIENCE_REQUIRED_PER_LEVEL,
};
use laddercast::crank::crank;
use laddercast::distribution::{distribution_amount, non_zero, proportion_burned};
use laddercast::export::{mint_caster, mint_item, update_merkle_root};
use laddercast::redeem::{
    action_sequence, caster_redeem_action, get_player_bonuses, ActionKind, EquippedItems, KeyedItem,
    RedeemContext, Resource, ResourceMint, SpellBookRecord,
};
use laddercast::types::{
    AccountKey, Caster, CommittedActions, CraftingSnapshot, EquipmentType, Game, GameTurnInfo,
    Item, ItemFeature, ItemRarity, ItemType, LadderError, Modifiers, SpellSnapshot, SpellType,
    Tile, TileMap, TileType, TurnCommit, TurnData,
};

fn key(b: u8) -> AccountKey {
    AccountKey { bytes: [b; 32] }
}

fn tile(tile_type: TileType, life: u8, first: bool) -> Tile {
    Tile { tile_type, life, is_first_time_spawning: first }
}

/// A map whose first `n` cells hold a fire tile of life 3.
fn prefix_map(n: usize) -> TileMap {
    let mut map: TileMap = [[None; 3]; 30];
    for k in 0..n {
        map[k / 3][k % 3] = Some(tile(TileType::Fire, 3, false));
    }
    map
}

fn game_with(map: TileMap) -> Game {
    Game {
        version: 1,
        authority: key(0),
        map,
        turn_info: GameTurnInfo {
            turn: 3,
            turn_delay: 60,
            last_crank_seconds: 1000,
            last_tile_spawn: 0,
            tile_spawn_delay: 100,
        },
        last_turn_added: 3,
        signer_bump: 0,
        resource_1_mint_account: key(1),
        resource_2_mint_account: key(2),
        resource_3_mint_account: key(3),
        lada_mint_account: key(4),
        lada_token_account: key(5),
        merkle_root_nft: [0; 32],
    }
}

fn turn_data(map: TileMap) -> TurnData {
    TurnData { bump: 0, resource_1_burned: 0, resource_2_burned: 0, resource_3_burned: 0, map }
}

fn commit(order: [u8; 4]) -> TurnCommit {
    TurnCommit {
        turn: 3,
        actions: CommittedActions { action_order: order, mv: None, crafting: None, spell: None },
        resources_burned: [0, 0, 0],
    }
}

fn caster_at(level: u8, column: u8, turn_commit: Option<TurnCommit>) -> Caster {
    Caster {
        version: 1,
        level: 1,
        experience: 0,
        owner: key(7),
        modifiers: Modifiers {
            tile_level: level,
            tile_column: column,
            head: None,
            robe: None,
            staff: None,
            spell_book: None,
        },
        turn_commit,
    }
}

fn context(map: TileMap) -> RedeemContext {
    RedeemContext {
        current_turn: 4,
        turn_data: turn_data(map),
        equipped: EquippedItems { staff: None, head: None, robe: None },
        spell_book: None,
        game: key(1),
        player: key(2),
    }
}

/// The map of the loot scenario: cells up to level 5, column 0, with a fire
/// tile on its last life at level 5, column 0.
fn loot_map() -> TileMap {
    let mut map = prefix_map(16);
    map[5][0] = Some(tile(TileType::Fire, 1, false));
    map
}

/// An entropy buffer whose loot roll gives 7 of at most 60, with no critical
/// hit and no chest.
fn loot_slots() -> Vec<u8> {
    let mut slots = vec![0u8; 64];
    slots[1] = 6;
    slots[11] = 0x88;
    slots[12] = 0x13;
    slots
}

fn spell_book(spell: SpellType, rarity: ItemRarity, value: u16, level: u8) -> Item {
    Item {
        game: key(1),
        owner: key(2),
        level,
        item_type: ItemType::SpellBook { spell, cost_feature: ItemFeature::Fire, rarity, cost: 1, value },
        equipped_owner: Some(key(7)),
    }
}

#[test]
fn loot_scenario_mints_fire_and_clears_commit() {
    let mut caster = caster_at(5, 0, Some(commit([1, 0, 0, 0])));
    let ctx = context(loot_map());
    let outcome = caster_redeem_action(&mut caster, &ctx, &loot_slots()).unwrap();
    assert_eq!(outcome.minted, vec![ResourceMint { resource: Resource::Fire, amount: 7 }]);
    assert_eq!(outcome.item, None);
    assert!(!outcome.spell_book_destroyed);
    assert_eq!(outcome.payout, 0);
    assert_eq!(caster.turn_commit, None);
    assert_eq!(caster.level, 1);
    assert_eq!(caster.experience, 0);

    // The looted tile decays through its last-life branch on the next turn.
    let mut game = game_with(loot_map());
    let mut current = turn_data([[None; 3]; 30]);
    assert_eq!(crank(&mut game, &mut current, 1060, &[0u8; 64]), Ok(()));
    assert_eq!(game.map[5][0], Some(tile(TileType::Crafting, 1, false)));
    assert_eq!(current.map, loot_map());
}

#[test]
fn early_turn_advance_is_rejected() {
    let mut game = game_with(loot_map());
    let before = game;
    let mut current = turn_data([[None; 3]; 30]);
    let current_before = current;
    assert_eq!(crank(&mut game, &mut current, 1059, &[0u8; 64]), Err(LadderError::TurnNotYetDue));
    assert_eq!(game, before);
    assert_eq!(game.turn_info.turn, 3);
    assert_eq!(game.turn_info.last_crank_seconds, 1000);
    assert_eq!(current, current_before);
}

#[test]
fn turn_advance_moves_the_clock_and_spawns() {
    let mut game = game_with(prefix_map(4));
    game.turn_info.tile_spawn_delay = 2;
    game.turn_info.last_tile_spawn = 2;
    let mut current = turn_data([[None; 3]; 30]);
    assert_eq!(crank(&mut game, &mut current, 5000, &[0u8; 16]), Ok(()));
    assert_eq!(game.turn_info.turn, 4);
    assert_eq!(game.turn_info.last_crank_seconds, 5000);
    assert_eq!(game.turn_info.last_tile_spawn, 4);
    assert_eq!(game.last_turn_added, 4);
    assert_eq!(game.map[0][0], Some(tile(TileType::Fire, 2, false)));
    assert_eq!(game.map[1][1], Some(tile(TileType::Fire, 3, true)));
    assert_eq!(game.map[1][2], None);
    assert_eq!(current.map, prefix_map(4));
}

#[test]
fn turn_advance_without_due_spawn() {
    let mut game = game_with(prefix_map(4));
    let mut current = turn_data([[None; 3]; 30]);
    assert_eq!(crank(&mut game, &mut current, 1060, &[0u8; 16]), Ok(()));
    assert_eq!(game.map[1][1], None);
    assert_eq!(game.turn_info.last_tile_spawn, 0);
}

#[test]
fn craft_rarity_escalation() {
    let mut c = commit([0, 0, 0, 1]);
    c.actions.crafting =
        Some(CraftingSnapshot { min_level: 10, min_rarity: ItemRarity::Common, max_rarity: ItemRarity::Epic });
    let mut caster = caster_at(0, 0, Some(c));
    // improvement roll 1 + 0 % 10 = 1 (hit), level roll 1 + 1 % 2 = 2 (rarity)
    let slots: Vec<u8> = vec![0, 0, 1, 0, 0, 0, 0, 0];
    let outcome = caster_redeem_action(&mut caster, &context(prefix_map(3)), &slots).unwrap();
    let item = outcome.item.unwrap();
    assert_eq!(item.level, 10);
    match item.item_type {
        ItemType::Equipment { rarity, .. } => assert_eq!(rarity, ItemRarity::Rare),
        other => panic!("unexpected item {:?}", other),
    }
}

#[test]
fn craft_rarity_is_capped_at_the_maximum() {
    let mut c = commit([0, 0, 0, 1]);
    c.actions.crafting =
        Some(CraftingSnapshot { min_level: 10, min_rarity: ItemRarity::Epic, max_rarity: ItemRarity::Epic });
    let mut caster = caster_at(0, 0, Some(c));
    let slots: Vec<u8> = vec![0, 0, 1, 0, 0, 0, 0, 0];
    let outcome = caster_redeem_action(&mut caster, &context(prefix_map(3)), &slots).unwrap();
    match outcome.item.unwrap().item_type {
        ItemType::Equipment { rarity, .. } => assert_eq!(rarity, ItemRarity::Epic),
        other => panic!("unexpected item {:?}", other),
    }
}

#[test]
fn craft_level_bonus_from_spell() {
    let mut c = commit([0, 0, 0, 1]);
    c.actions.crafting =
        Some(CraftingSnapshot { min_level: 10, min_rarity: ItemRarity::Epic, max_rarity: ItemRarity::Legendary });
    c.actions.spell = Some(SpellSnapshot { is_extra_level_bonus: true });
    let mut caster = caster_at(0, 0, Some(c));
    let slots: Vec<u8> = vec![0, 0, 0, 0, 0, 0, 0, 0];
    let outcome = caster_redeem_action(&mut caster, &context(prefix_map(3)), &slots).unwrap();
    let item = outcome.item.unwrap();
    assert_eq!(item.level, 11);
    // no improvement roll is drawn: byte 1 gives the slot, byte 2 the feature
    assert_eq!(
        item.item_type,
        ItemType::Equipment {
            feature: ItemFeature::Power,
            rarity: ItemRarity::Common,
            equipment_type: EquipmentType::Head,
            value: 100,
        }
    );
}

#[test]
fn craft_level_roll_raises_level() {
    let mut c = commit([0, 0, 0, 1]);
    c.actions.crafting =
        Some(CraftingSnapshot { min_level: 10, min_rarity: ItemRarity::Rare, max_rarity: ItemRarity::Legendary });
    let mut caster = caster_at(0, 0, Some(c));
    let slots: Vec<u8> = vec![0, 10, 2, 0, 0, 0, 0, 0];
    let outcome = caster_redeem_action(&mut caster, &context(prefix_map(3)), &slots).unwrap();
    let item = outcome.item.unwrap();
    assert_eq!(item.level, 11);
    match item.item_type {
        ItemType::Equipment { rarity, .. } => assert_eq!(rarity, ItemRarity::Common),
        other => panic!("unexpected item {:?}", other),
    }
}

#[test]
fn action_order_spell_before_move() {
    // slot k holds the priority of action k (loot, spell, move, craft)
    assert_eq!(action_sequence(&[0, 1, 2, 0]), vec![ActionKind::Spell, ActionKind::Move]);
    assert_eq!(action_sequence(&[0, 0, 2, 1]), vec![ActionKind::Craft, ActionKind::Move]);
    assert_eq!(
        action_sequence(&[4, 3, 2, 1]),
        vec![ActionKind::Craft, ActionKind::Move, ActionKind::Spell, ActionKind::Loot]
    );
    assert_eq!(action_sequence(&[0, 0, 0, 0]), vec![]);
}

#[test]
fn spell_then_move_redemption() {
    let mut c = commit([0, 1, 2, 0]);
    c.actions.mv = Some([2, 1]);
    let mut caster = caster_at(0, 0, Some(c));
    caster.modifiers.spell_book = Some(key(9));
    let mut ctx = context(prefix_map(9));
    ctx.spell_book = Some(SpellBookRecord { key: key(9), item: spell_book(SpellType::Fire, ItemRarity::Legendary, 50, 3) });
    let slots: Vec<u8> = vec![0, 0, 0, 0];
    let outcome = caster_redeem_action(&mut caster, &ctx, &slots).unwrap();
    assert_eq!(outcome.minted, vec![ResourceMint { resource: Resource::Fire, amount: 50 }]);
    assert!(outcome.spell_book_destroyed);
    assert_eq!((caster.modifiers.tile_level, caster.modifiers.tile_column), (2, 1));
}

#[test]
fn move_then_loot_loots_the_new_cell() {
    let mut c = commit([2, 0, 1, 0]);
    c.actions.mv = Some([5, 0]);
    let mut caster = caster_at(0, 0, Some(c));
    let outcome = caster_redeem_action(&mut caster, &context(loot_map()), &loot_slots()).unwrap();
    // at level 5 the loot range is [1, 60]
    assert_eq!(outcome.minted, vec![ResourceMint { resource: Resource::Fire, amount: 7 }]);
}

#[test]
fn loot_with_critical_hit_and_chest() {
    let mut caster = caster_at(5, 0, Some(commit([1, 0, 0, 0])));
    let mut ctx = context(loot_map());
    let power = Item {
        game: key(1),
        owner: key(2),
        level: 1,
        item_type: ItemType::Equipment {
            feature: ItemFeature::Power,
            rarity: ItemRarity::Common,
            equipment_type: EquipmentType::Staff,
            value: 200,
        },
        equipped_owner: Some(key(7)),
    };
    let fire = Item {
        item_type: ItemType::Equipment {
            feature: ItemFeature::Fire,
            rarity: ItemRarity::Common,
            equipment_type: EquipmentType::Head,
            value: 4,
        },
        ..power
    };
    ctx.equipped = EquippedItems {
        staff: Some(KeyedItem { key: key(20), item: power }),
        head: Some(KeyedItem { key: key(21), item: fire }),
        robe: None,
    };
    // only the items whose keys the caster wears count
    let bonuses = get_player_bonuses(&caster.modifiers, &ctx.equipped);
    assert_eq!(bonuses.critical_chance, 0);
    caster.modifiers.staff = Some(key(20));
    caster.modifiers.head = Some(key(21));
    caster.modifiers.robe = Some(key(22));
    let bonuses = get_player_bonuses(&caster.modifiers, &ctx.equipped);
    assert_eq!(bonuses.critical_chance, 200);
    assert_eq!(bonuses.fire_chance, 4);
    caster.modifiers.head = Some(key(23));
    assert_eq!(get_player_bonuses(&caster.modifiers, &ctx.equipped).fire_chance, 0);
    caster.modifiers.head = Some(key(21));
    // amount 1 + 70 % 64 = 7, critical roll 100 < 200, chest roll 100 < 1000
    let mut slots = vec![0u8; 64];
    slots[1] = 70;
    let outcome = caster_redeem_action(&mut caster, &ctx, &slots).unwrap();
    assert_eq!(outcome.minted, vec![ResourceMint { resource: Resource::Fire, amount: 14 }]);
    let chest = outcome.item.unwrap();
    assert_eq!(chest.item_type, ItemType::Chest { tier: 2 });
    assert_eq!(chest.level, 6);
    assert_eq!(chest.owner, key(2));
}

#[test]
fn experience_spell_levels_the_caster() {
    let mut caster = caster_at(0, 0, Some(commit([0, 1, 0, 0])));
    caster.modifiers.spell_book = Some(key(9));
    let mut ctx = context(prefix_map(3));
    ctx.spell_book =
        Some(SpellBookRecord { key: key(9), item: spell_book(SpellType::Experience, ItemRarity::Common, 6001, 3) });
    // success roll 1 + 8 % 8 = 1
    let slots: Vec<u8> = vec![0, 8, 0];
    let outcome = caster_redeem_action(&mut caster, &ctx, &slots).unwrap();
    assert!(outcome.spell_book_destroyed);
    assert_eq!(caster.experience, 6001);
    assert_eq!(caster.level, 3);
}

#[test]
fn failed_spell_still_spends_the_book() {
    let mut caster = caster_at(0, 0, Some(commit([0, 1, 0, 0])));
    caster.modifiers.spell_book = Some(key(9));
    let mut ctx = context(prefix_map(3));
    ctx.spell_book =
        Some(SpellBookRecord { key: key(9), item: spell_book(SpellType::Fire, ItemRarity::Common, 50, 3) });
    let slots: Vec<u8> = vec![0, 3, 0];
    let outcome = caster_redeem_action(&mut caster, &ctx, &slots).unwrap();
    assert!(outcome.spell_book_destroyed);
    assert!(outcome.minted.is_empty());
}

#[test]
fn item_spell_produces_a_spell_book() {
    let mut caster = caster_at(0, 0, Some(commit([0, 1, 0, 0])));
    caster.modifiers.spell_book = Some(key(9));
    let mut ctx = context(prefix_map(3));
    ctx.spell_book =
        Some(SpellBookRecord { key: key(9), item: spell_book(SpellType::Item, ItemRarity::Legendary, 50, 4) });
    let slots: Vec<u8> = vec![0, 0, 0, 0, 0, 0, 0, 0, 0];
    let outcome = caster_redeem_action(&mut caster, &ctx, &slots).unwrap();
    let book = outcome.item.unwrap();
    assert_eq!(book.level, 4);
    match book.item_type {
        ItemType::SpellBook { rarity, .. } => assert_eq!(rarity, ItemRarity::Legendary),
        other => panic!("unexpected item {:?}", other),
    }
}

#[test]
fn burned_resources_grant_experience_and_payout() {
    let mut c = commit([0, 0, 0, 0]);
    c.resources_burned = [10, 0, 2000];
    let mut caster = caster_at(0, 0, Some(c));
    let mut ctx = context(prefix_map(3));
    ctx.turn_data.resource_1_burned = 20;
    ctx.turn_data.resource_3_burned = 2000;
    let outcome = caster_redeem_action(&mut caster, &ctx, &[0u8; 4]).unwrap();
    assert_eq!(caster.experience, 2010);
    assert_eq!(caster.level, 2);
    // shares: fire 1/2, water 0, earth 1 -> average 1/2
    assert_eq!(outcome.payout, 992063492065);
}

#[test]
fn redeem_errors() {
    let slots = vec![0u8; 16];

    let mut caster = caster_at(0, 0, None);
    assert_eq!(caster_redeem_action(&mut caster, &context(prefix_map(3)), &slots), Err(LadderError::EmptyCommit));

    let mut caster = caster_at(0, 0, Some(commit([1, 0, 0, 0])));
    let mut ctx = context(prefix_map(3));
    ctx.current_turn = 3;
    assert_eq!(caster_redeem_action(&mut caster, &ctx, &slots), Err(LadderError::SameTurnRedeem));

    let mut caster = caster_at(4, 0, Some(commit([1, 0, 0, 0])));
    assert_eq!(caster_redeem_action(&mut caster, &context(prefix_map(3)), &slots), Err(LadderError::TileNotExists));

    let mut map = prefix_map(3);
    map[0][0] = Some(tile(TileType::Crafting, 1, false));
    let mut caster = caster_at(0, 0, Some(commit([1, 0, 0, 0])));
    assert_eq!(caster_redeem_action(&mut caster, &context(map), &slots), Err(LadderError::InvalidTileForLooting));

    let mut caster = caster_at(0, 0, Some(commit([0, 1, 0, 0])));
    caster.modifiers.spell_book = Some(key(9));
    assert_eq!(caster_redeem_action(&mut caster, &context(prefix_map(3)), &slots), Err(LadderError::SpellMissing));

    let mut ctx = context(prefix_map(3));
    ctx.spell_book =
        Some(SpellBookRecord { key: key(8), item: spell_book(SpellType::Fire, ItemRarity::Common, 5, 3) });
    assert_eq!(caster_redeem_action(&mut caster, &ctx, &slots), Err(LadderError::SpellMismatch));

    ctx.spell_book =
        Some(SpellBookRecord { key: key(9), item: spell_book(SpellType::Item, ItemRarity::Legendary, 5, 0) });
    assert_eq!(caster_redeem_action(&mut caster, &ctx, &slots), Err(LadderError::InvalidItemType));

    let mut caster = caster_at(0, 0, Some(commit([0, 0, 1, 0])));
    assert_eq!(caster_redeem_action(&mut caster, &context(prefix_map(3)), &slots), Err(LadderError::InvalidCommit));
}

#[test]
fn failed_redemption_leaves_the_caster_unchanged() {
    let mut c = commit([2, 0, 1, 0]);
    c.actions.mv = Some([20, 0]);
    let mut caster = caster_at(0, 0, Some(c));
    let before = caster;
    assert_eq!(
        caster_redeem_action(&mut caster, &context(prefix_map(3)), &[0u8; 16]),
        Err(LadderError::TileNotExists)
    );
    assert_eq!(caster, before);
}

#[test]
fn leveling_by_parts_or_at_once() {
    let mut once = caster_at(0, 0, None);
    give_exp_to_caster_spell(&mut once, 30000);
    let mut twice = caster_at(0, 0, None);
    give_exp_to_caster_spell(&mut twice, 10000);
    give_exp_to_caster_spell(&mut twice, 20000);
    assert_eq!(once.level, twice.level);
    assert_eq!(once.experience, twice.experience);
    assert_eq!(once.level, 5);
}

#[test]
fn leveling_is_capped() {
    let mut caster = caster_at(0, 0, None);
    give_exp_to_caster_resources_burned(&mut caster, Some(u64::MAX), Some(5), None);
    assert_eq!(caster.experience, u64::MAX);
    assert_eq!(caster.level, 30);
    let mut caster = caster_at(0, 0, None);
    give_exp_to_caster_resources_burned(&mut caster, Some(1000), None, Some(508));
    assert_eq!(caster.level, 2);
    assert_eq!(EXPERIENCE_REQUIRED_PER_LEVEL[0], 1508);
}

#[test]
fn spell_success_roll() {
    let slots: Vec<u8> = vec![0, 2, 3];
    let mut offset: usize = 1;
    // Legendary: 1 + 2 % 2 = 1
    assert!(is_spell_successful(&slots, &mut offset, ItemRarity::Legendary));
    // Epic: 1 + 3 % 4 = 4
    assert!(!is_spell_successful(&slots, &mut offset, ItemRarity::Epic));
}

#[test]
fn distribution_shares_and_payout() {
    assert_eq!(non_zero(0), 1);
    assert_eq!(non_zero(9), 9);
    assert_eq!(proportion_burned(10, 20), 500_000_000);
    assert_eq!(proportion_burned(100, 10), 1_000_000_000);
    assert_eq!(proportion_burned(5, 0), 1_000_000_000);
    assert_eq!(proportion_burned(0, 0), 0);
    assert_eq!(distribution_amount([10, 0, 0], [20, 0, 0]), 330687829366);
    assert_eq!(distribution_amount([5, 5, 5], [5, 5, 5]), 1984126984130);
    assert_eq!(distribution_amount([1, 2, 3], [3, 3, 3]), 1322751321431);
    assert_eq!(distribution_amount([0, 0, 0], [0, 0, 0]), 0);
    // the shares are averaged exactly before the precision is fixed
    assert_eq!(distribution_amount([1, 2, 2], [3, 3, 1_000_000_000]), 661375662699);
    assert_eq!(distribution_amount([1, 1, 1], [3, 3, 3]), 661375660715);
    assert_eq!(distribution_amount([u64::MAX, 7, 1], [u64::MAX, u64::MAX - 1, 3]), 881834214287);
    assert_eq!(distribution_amount([u64::MAX, u64::MAX, u64::MAX], [1, 1, 1]), 1984126984130);
}

#[test]
fn export_checks() {
    let item = spell_book(SpellType::Fire, ItemRarity::Common, 5, 3);
    assert_eq!(mint_item(&item), Err(LadderError::ItemStillEquipped));
    let free = Item { equipped_owner: None, ..item };
    let record = mint_item(&free).unwrap();
    assert_eq!(record.item_type, free.item_type);
    assert_eq!(record.equipped_owner, None);
    let zombie = Item { item_type: ItemType::Zombie, ..free };
    assert_eq!(mint_item(&zombie), Err(LadderError::InvalidRecordForExport));

    let mut caster = caster_at(0, 0, Some(commit([1, 0, 0, 0])));
    assert_eq!(mint_caster(&caster), Err(LadderError::InvalidRecordForExport));
    caster.turn_commit = None;
    caster.modifiers.staff = Some(key(3));
    assert_eq!(mint_caster(&caster), Err(LadderError::ItemStillEquipped));
    caster.modifiers.staff = None;
    caster.level = 3;
    caster.experience = 9000;
    assert_eq!(mint_caster(&caster).unwrap().experience, 14956);

    let mut game = game_with(prefix_map(1));
    update_merkle_root(&mut game, [7; 32]);
    assert_eq!(game.merkle_root_nft, [7; 32]);
}

#[test]
fn same_buffer_same_resolution() {
    let slots: Vec<u8> = (0..256).map(|_| rand::random::<u8>()).collect();
    let mut c = commit([2, 0, 3, 1]);
    c.actions.mv = Some([5, 0]);
    c.actions.crafting =
        Some(CraftingSnapshot { min_level: 4, min_rarity: ItemRarity::Common, max_rarity: ItemRarity::Legendary });
    c.resources_burned = [3, 4, 5];
    let ctx = context(loot_map());
    let mut first = caster_at(1, 1, Some(c));
    let mut second = first;
    let a = caster_redeem_action(&mut first, &ctx, &slots);
    let b = caster_redeem_action(&mut second, &ctx, &slots);
    assert!(a.is_ok());
    assert_eq!(a, b);
    assert_eq!(first, second);

    let mut game_a = game_with(loot_map());
    game_a.turn_info.tile_spawn_delay = 0;
    let mut game_b = game_a;
    let mut data_a = turn_data([[None; 3]; 30]);
    let mut data_b = data_a;
    assert_eq!(crank(&mut game_a, &mut data_a, 2000, &slots), Ok(()));
    assert_eq!(crank(&mut game_b, &mut data_b, 2000, &slots), Ok(()));
    assert_eq!(game_a, game_b);
    assert_eq!(data_a, data_b);
}

#[test]
fn full_map_keeps_the_last_spawn_turn() {
    let mut game = game_with(prefix_map(90));
    game.turn_info.tile_spawn_delay = 0;
    game.turn_info.last_tile_spawn = 1;
    let mut current = turn_data([[None; 3]; 30]);
    assert_eq!(crank(&mut game, &mut current, 1060, &[0u8; 16]), Ok(()));
    assert_eq!(game.turn_info.last_tile_spawn, 1);
    assert_eq!(game.turn_info.turn, 4);
}

#[test]
fn top_level_resource_tile_turns_legendary() {
    let mut map = prefix_map(90);
    map[29][2] = Some(tile(TileType::Water, 1, false));
    map[28][2] = Some(tile(TileType::Water, 1, false));
    let mut game = game_with(map);
    let mut current = turn_data([[None; 3]; 30]);
    assert_eq!(crank(&mut game, &mut current, 1060, &[0u8; 16]), Ok(()));
    assert_eq!(game.map[29][2], Some(tile(TileType::Legendary, 1, false)));
    assert_eq!(game.map[28][2], Some(tile(TileType::Crafting, 1, false)));
}

#[test]
fn early_turn_advance_at_the_last_turn_is_rejected() {
    let mut game = game_with(loot_map());
    game.turn_info.turn = u32::MAX;
    let before = game;
    let mut current = turn_data([[None; 3]; 30]);
    assert_eq!(crank(&mut game, &mut current, 1000, &[0u8; 16]), Err(LadderError::TurnNotYetDue));
    assert_eq!(game, before);
}
