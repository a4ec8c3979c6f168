use laddercast::tile_util::{
    cycle_tile, decay_map, decay_tile, get_current_tile, get_highest_level_and_column,
    spawn_next_tile,
};
use laddercast::types::{Tile, TileMap, TileType};

fn tile(tile_type: TileType, life: u8, first: bool) -> Tile {
    Tile { tile_type, life, is_first_time_spawning: first }
}

/// A map whose first `n` cells (level-major) hold a fire tile of life 3.
fn prefix_map(n: usize) -> TileMap {
    let mut map: TileMap = [[None; 3]; 30];
    for k in 0..n {
        map[k / 3][k % 3] = Some(tile(TileType::Fire, 3, false));
    }
    map
}

fn occupied_cells(map: &TileMap) -> Vec<bool> {
    let mut cells = Vec::new();
    for row in map.iter() {
        for c in row.iter() {
            cells.push(c.is_some());
        }
    }
    cells
}

fn is_prefix(cells: &[bool]) -> bool {
    let n = cells.iter().filter(|c| **c).count();
    cells.iter().enumerate().all(|(k, c)| *c == (k < n))
}

#[test]
fn decay_keeps_type_while_life_remains() {
    let slots = vec![9u8; 8];
    let mut offset: usize = 1;
    let t = decay_tile(tile(TileType::Water, 4, true), 3, &slots, &mut offset);
    assert_eq!(t, tile(TileType::Water, 3, true));
    assert_eq!(offset, 1);
}

#[test]
fn resource_tile_turns_into_crafting() {
    let slots = vec![9u8; 8];
    let mut offset: usize = 1;
    let t = decay_tile(tile(TileType::Earth, 1, false), 3, &slots, &mut offset);
    assert_eq!(t, tile(TileType::Crafting, 1, false));
    assert_eq!(offset, 1);
}

#[test]
fn first_spawned_resource_tile_turns_legendary() {
    let slots = vec![9u8; 8];
    let mut offset: usize = 1;
    let t = decay_tile(tile(TileType::Fire, 1, true), 3, &slots, &mut offset);
    assert_eq!(t, tile(TileType::Legendary, 1, false));
}

#[test]
fn resource_tile_on_level_thirty_turns_legendary() {
    let slots = vec![9u8; 8];
    let mut offset: usize = 1;
    let t = cycle_tile(Some(tile(TileType::Water, 1, false)), 30, &slots, &mut offset);
    assert_eq!(t, tile(TileType::Legendary, 1, false));
}

#[test]
fn crafting_tile_turns_into_resource() {
    // life 3 + 6 % 4 = 5, type 7 % 3 = 1 (water)
    let slots: Vec<u8> = vec![0, 6, 7, 0];
    let mut offset: usize = 1;
    let t = decay_tile(tile(TileType::Crafting, 1, false), 3, &slots, &mut offset);
    assert_eq!(t, tile(TileType::Water, 5, false));
    assert_eq!(offset, 3);
}

#[test]
fn legendary_tile_turns_into_resource() {
    // life 3 + 3 % 4 = 6, type 5 % 3 = 2 (earth)
    let slots: Vec<u8> = vec![0, 3, 5];
    let mut offset: usize = 1;
    let t = cycle_tile(Some(tile(TileType::Legendary, 1, false)), 29, &slots, &mut offset);
    assert_eq!(t, tile(TileType::Earth, 6, false));
    assert_eq!(offset, 0);
}

#[test]
fn empty_cell_spawns_first_time_resource() {
    let slots: Vec<u8> = vec![0, 0, 0];
    let mut offset: usize = 1;
    let t = cycle_tile(None, 0, &slots, &mut offset);
    assert_eq!(t, tile(TileType::Fire, 3, true));
}

#[test]
fn highest_cell_of_prefixes() {
    assert_eq!(get_highest_level_and_column(&prefix_map(0)), (0, 0));
    assert_eq!(get_highest_level_and_column(&prefix_map(1)), (0, 0));
    assert_eq!(get_highest_level_and_column(&prefix_map(4)), (1, 0));
    assert_eq!(get_highest_level_and_column(&prefix_map(9)), (2, 2));
    assert_eq!(get_highest_level_and_column(&prefix_map(90)), (29, 2));
}

#[test]
fn current_tile_lookup() {
    let map = prefix_map(4);
    assert_eq!(get_current_tile(&map, 1, 0), Some(&tile(TileType::Fire, 3, false)));
    assert_eq!(get_current_tile(&map, 1, 1), None);
    assert_eq!(get_current_tile(&map, 30, 0), None);
    assert_eq!(get_current_tile(&map, 0, 3), None);
}

#[test]
fn spawn_fills_the_next_cell_in_a_level() {
    let slots: Vec<u8> = vec![0, 1, 1];
    let mut offset: usize = 1;
    let mut map = prefix_map(4);
    spawn_next_tile(&mut map, &slots, &mut offset);
    assert_eq!(map[1][1], Some(tile(TileType::Water, 4, true)));
    assert!(is_prefix(&occupied_cells(&map)));
    assert_eq!(occupied_cells(&map).iter().filter(|c| **c).count(), 5);
}

#[test]
fn spawn_moves_to_the_next_level() {
    let slots: Vec<u8> = vec![0, 1, 1];
    let mut offset: usize = 1;
    let mut map = prefix_map(6);
    spawn_next_tile(&mut map, &slots, &mut offset);
    assert!(map[2][0].is_some());
    assert!(is_prefix(&occupied_cells(&map)));
}

#[test]
fn spawn_keeps_every_prefix_contiguous() {
    let slots: Vec<u8> = (0..64u8).collect();
    for n in 1..=90 {
        let mut offset: usize = 1;
        let mut map = prefix_map(n);
        spawn_next_tile(&mut map, &slots, &mut offset);
        let cells = occupied_cells(&map);
        assert!(is_prefix(&cells));
        assert_eq!(cells.iter().filter(|c| **c).count(), if n < 90 { n + 1 } else { 90 });
    }
}

#[test]
fn full_map_gets_no_spawn() {
    let slots: Vec<u8> = vec![0, 1, 1];
    let mut offset: usize = 1;
    let mut map = prefix_map(90);
    let before = map;
    spawn_next_tile(&mut map, &slots, &mut offset);
    assert_eq!(map, before);
    assert_eq!(offset, 1);
}

#[test]
fn decay_map_decays_every_tile_in_scan_order() {
    // (0,0) crafting on its last life regenerates from bytes 1 and 2;
    // (0,1) fire on its last life becomes crafting; (0,2) loses one life.
    let slots: Vec<u8> = vec![0, 1, 2, 0];
    let mut offset: usize = 1;
    let mut map: TileMap = [[None; 3]; 30];
    map[0][0] = Some(tile(TileType::Crafting, 1, false));
    map[0][1] = Some(tile(TileType::Fire, 1, false));
    map[0][2] = Some(tile(TileType::Water, 2, false));
    decay_map(&mut map, &slots, &mut offset);
    assert_eq!(map[0][0], Some(tile(TileType::Earth, 4, false)));
    assert_eq!(map[0][1], Some(tile(TileType::Crafting, 1, false)));
    assert_eq!(map[0][2], Some(tile(TileType::Water, 1, false)));
    assert_eq!(map[1][0], None);
    assert_eq!(offset, 3);
}
